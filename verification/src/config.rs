//! The settings of a service and the values they have when nothing else is
//! said.

use vstd::prelude::*;

verus! {

/// All settings.
#[derive(Debug)]
pub struct Config {
    pub mode: Mode,
    pub server: Server,
    pub db: Db,
    pub log: Log,
    pub background: Background,
}

/// How the service runs.
#[derive(Debug)]
pub struct Mode {
    pub debug: bool,
}

/// Where the service listens.
#[derive(Debug)]
pub struct Server {
    pub external_url: String,
    pub http_port: u16,
    pub grpc_port: u16,
    pub healthz_port: u16,
    pub metrics_port: u16,
}

/// The databases.
#[derive(Debug)]
pub struct Db {
    pub mysql: Mysql,
}

/// The MySQL database.
#[derive(Debug)]
pub struct Mysql {
    pub host: String,
    pub port: u16,
    pub dating: String,
    pub user: String,
    pub pass: String,
    pub connections: Connections,
}

/// Limits on database connections.
#[derive(Debug)]
pub struct Connections {
    pub max_idle: u64,
    pub max_open: u64,
}

/// Logging.
#[derive(Debug)]
pub struct Log {
    pub app: App,
}

/// How much is logged.
#[derive(Debug, PartialEq, Eq, Clone, Copy, Structural)]
pub enum LogLevel {
    Error,
    Warn,
    Info,
    Debug,
    Trace,
}

/// Logging of the service itself.
#[derive(Debug)]
pub struct App {
    pub level: LogLevel,
}

/// Background work.
#[derive(Debug)]
pub struct Background {
    pub watchdog: Watchdog,
}

/// The watchdog. Times are in whole seconds.
#[derive(Debug)]
pub struct Watchdog {
    pub period: u64,
    pub limit: u64,
    pub lock_timeout: u64,
}

impl Default for Mode {
    fn default() -> (mode: Self)
        ensures
            !mode.debug,
    {
        Mode { debug: false }
    }
}

impl Default for Server {
    fn default() -> (server: Self)
        ensures
            server.external_url@ == "http://127.0.0.1"@,
            server.http_port == 8081,
            server.grpc_port == 8082,
            server.healthz_port == 10025,
            server.metrics_port == 9199,
    {
        Server {
            external_url: "http://127.0.0.1".to_owned(),
            http_port: 8081,
            grpc_port: 8082,
            healthz_port: 10025,
            metrics_port: 9199,
        }
    }
}

impl Default for Connections {
    fn default() -> (connections: Self)
        ensures
            connections.max_idle == 30,
            connections.max_open == 30,
    {
        Connections { max_idle: 30, max_open: 30 }
    }
}

impl Default for Mysql {
    fn default() -> (mysql: Self)
        ensures
            mysql.host@ == "127.0.0.1"@,
            mysql.port == 3306,
            mysql.dating@ == "default"@,
            mysql.user@ == "root"@,
            mysql.pass@ == Seq::<char>::empty(),
            mysql.connections.max_idle == 30,
            mysql.connections.max_open == 30,
    {
        Mysql {
            host: "127.0.0.1".to_owned(),
            port: 3306,
            dating: "default".to_owned(),
            user: "root".to_owned(),
            pass: String::new(),
            connections: Connections::default(),
        }
    }
}

impl Default for Db {
    fn default() -> (db: Self)
        ensures
            db.mysql.host@ == "127.0.0.1"@,
            db.mysql.port == 3306,
            db.mysql.dating@ == "default"@,
            db.mysql.user@ == "root"@,
            db.mysql.pass@ == Seq::<char>::empty(),
            db.mysql.connections.max_idle == 30,
            db.mysql.connections.max_open == 30,
    {
        Db { mysql: Mysql::default() }
    }
}

impl Default for LogLevel {
    fn default() -> (level: Self)
        ensures
            level == LogLevel::Info,
    {
        LogLevel::Info
    }
}

impl Default for App {
    fn default() -> (app: Self)
        ensures
            app.level == LogLevel::Info,
    {
        App { level: LogLevel::default() }
    }
}

impl Default for Log {
    fn default() -> (log: Self)
        ensures
            log.app.level == LogLevel::Info,
    {
        Log { app: App::default() }
    }
}

impl Default for Watchdog {
    fn default() -> (watchdog: Self)
        ensures
            watchdog.period == 5,
            watchdog.limit == 10,
            watchdog.lock_timeout == 4,
    {
        Watchdog { period: 5, limit: 10, lock_timeout: 4 }
    }
}

impl Default for Background {
    fn default() -> (background: Self)
        ensures
            background.watchdog.period == 5,
            background.watchdog.limit == 10,
            background.watchdog.lock_timeout == 4,
    {
        Background { watchdog: Watchdog::default() }
    }
}

impl Default for Config {
    fn default() -> (config: Self)
        ensures
            !config.mode.debug,
            config.server.external_url@ == "http://127.0.0.1"@,
            config.server.http_port == 8081,
            config.server.grpc_port == 8082,
            config.server.healthz_port == 10025,
            config.server.metrics_port == 9199,
            config.db.mysql.host@ == "127.0.0.1"@,
            config.db.mysql.port == 3306,
            config.db.mysql.dating@ == "default"@,
            config.db.mysql.user@ == "root"@,
            config.db.mysql.pass@ == Seq::<char>::empty(),
            config.db.mysql.connections.max_idle == 30,
            config.db.mysql.connections.max_open == 30,
            config.log.app.level == LogLevel::Info,
            config.background.watchdog.period == 5,
            config.background.watchdog.limit == 10,
            config.background.watchdog.lock_timeout == 4,
    {
        Config {
            mode: Mode::default(),
            server: Server::default(),
            db: Db::default(),
            log: Log::default(),
            background: Background::default(),
        }
    }
}

} // verus!
