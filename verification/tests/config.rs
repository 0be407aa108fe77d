use vending_machine::config::{Config, LogLevel};

#[test]
fn test_default_values() {
    let config = Config::default();

    assert!(!config.mode.debug);

    assert_eq!(config.server.external_url, "http://127.0.0.1");
    assert_eq!(config.server.http_port, 8081);
    assert_eq!(config.server.grpc_port, 8082);
    assert_eq!(config.server.healthz_port, 10025);
    assert_eq!(config.server.metrics_port, 9199);

    assert_eq!(config.db.mysql.host, "127.0.0.1");
    assert_eq!(config.db.mysql.port, 3306);
    assert_eq!(config.db.mysql.dating, "default");
    assert_eq!(config.db.mysql.user, "root");
    assert_eq!(config.db.mysql.pass, "");

    assert_eq!(config.db.mysql.connections.max_idle, 30);
    assert_eq!(config.db.mysql.connections.max_open, 30);

    assert_eq!(config.log.app.level, LogLevel::Info);

    assert_eq!(config.background.watchdog.period, 5);
    assert_eq!(config.background.watchdog.limit, 10);
    assert_eq!(config.background.watchdog.lock_timeout, 4);
}
