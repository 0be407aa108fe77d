//! Where the configuration file is looked for.

use vstd::prelude::*;
use vstd::string::StringExecFns;

verus! {

/// The flag that is followed by the path on the command line.
pub const CONF_FLAG: &'static str = "--conf";

/// The path that is taken when nothing else names one.
pub const DEFAULT_CONF: &'static str = "/etc/app/app.conf";

/// The position of the first `flag` among `args` from `from` on; the length
/// of `args` if there is none.
pub open spec fn flag_position(args: Seq<String>, flag: Seq<char>, from: int) -> int
    decreases args.len() - from,
{
    if 0 <= from < args.len() && args[from]@ != flag {
        flag_position(args, flag, from + 1)
    } else {
        from
    }
}

/// The path of the configuration file: the argument behind the first
/// `--conf` on the command line, or else what the environment names, or
/// else the default.
pub open spec fn conf_path_of(args: Seq<String>, env: Option<String>) -> Seq<char> {
    let at = flag_position(args, CONF_FLAG@, 0);
    if at + 1 < args.len() {
        args[at + 1]@
    } else {
        match env {
            Some(path) => path@,
            None => DEFAULT_CONF@,
        }
    }
}

/// The path of the configuration file, given the arguments of the command
/// line and what the environment says.
pub fn conf_path(args: &Vec<String>, env: Option<String>) -> (path: String)
    ensures
        path@ == conf_path_of(args@, env),
{
    let flag = String::from_str(CONF_FLAG);
    let mut at: usize = 0;
    while at < args.len() && args[at] != flag
        invariant
            at <= args@.len(),
            flag@ == CONF_FLAG@,
            flag_position(args@, CONF_FLAG@, 0) == flag_position(args@, CONF_FLAG@, at as int),
        decreases args@.len() - at,
    {
        at += 1;
    }
    if at < args.len() && at + 1 < args.len() {
        args[at + 1].clone()
    } else {
        match env {
            Some(path) => path,
            None => String::from_str(DEFAULT_CONF),
        }
    }
}

} // verus!
