//! The portable data files, all next to the executable.

use vstd::prelude::*;
use crate::winpath::{join, join_path};

verus! {

/// `<install_dir>\config.json`.
pub fn config_path(install_dir: &str) -> (r: String)
    ensures
        r@ == join(install_dir@, "config.json"@),
{
    join_path(install_dir, "config.json")
}

/// `<install_dir>\health.json`.
pub fn health_path(install_dir: &str) -> (r: String)
    ensures
        r@ == join(install_dir@, "health.json"@),
{
    join_path(install_dir, "health.json")
}

/// `<install_dir>\Logs`.
pub fn log_dir(install_dir: &str) -> (r: String)
    ensures
        r@ == join(install_dir@, "Logs"@),
{
    join_path(install_dir, "Logs")
}

/// `<install_dir>\Logs\procdump.log`.
pub fn log_path(install_dir: &str) -> (r: String)
    ensures
        r@ == join(join(install_dir@, "Logs"@), "procdump.log"@),
{
    join_path(log_dir(install_dir).as_str(), "procdump.log")
}

/// Where the executable is assumed to be when the system cannot say:
/// `<install_dir>\ProcDumpMonitor.exe`.
pub fn fallback_exe_path(install_dir: &str) -> (r: String)
    ensures
        r@ == join(install_dir@, "ProcDumpMonitor.exe"@),
{
    join_path(install_dir, "ProcDumpMonitor.exe")
}

} // verus!
