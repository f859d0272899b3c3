//! The monitor's health record, rewritten every cycle for the GUI to read.

use vstd::prelude::*;

verus! {

/// What the monitor last did, as the GUI reads it back.
#[derive(Debug, Clone)]
pub struct HealthStatus {
    pub monitor_pid: u32,
    pub proc_dump_pid: u32,
    pub last_cycle_utc: String,
    pub last_proc_dump_exit_code: i32,
    pub last_dump_file_name: String,
    pub total_dump_count: i32,
    pub last_error: String,
    pub next_retry_utc: String,
    pub last_notified_dump_file: String,
    pub last_notified_utc: String,
    pub disk_space_low: bool,
    pub free_disk_mb: i64,
    pub version: String,
}

/// The record before anything happened: zeros, `false` and empty texts.
pub open spec fn is_fresh_health(h: HealthStatus) -> bool {
    &&& h.monitor_pid == 0
    &&& h.proc_dump_pid == 0
    &&& h.last_cycle_utc@.len() == 0
    &&& h.last_proc_dump_exit_code == 0
    &&& h.last_dump_file_name@.len() == 0
    &&& h.total_dump_count == 0
    &&& h.last_error@.len() == 0
    &&& h.next_retry_utc@.len() == 0
    &&& h.last_notified_dump_file@.len() == 0
    &&& h.last_notified_utc@.len() == 0
    &&& !h.disk_space_low
    &&& h.free_disk_mb == 0
    &&& h.version@.len() == 0
}

impl Default for HealthStatus {
    fn default() -> (h: HealthStatus)
        ensures
            is_fresh_health(h),
    {
        HealthStatus {
            monitor_pid: 0,
            proc_dump_pid: 0,
            last_cycle_utc: String::new(),
            last_proc_dump_exit_code: 0,
            last_dump_file_name: String::new(),
            total_dump_count: 0,
            last_error: String::new(),
            next_retry_utc: String::new(),
            last_notified_dump_file: String::new(),
            last_notified_utc: String::new(),
            disk_space_low: false,
            free_disk_mb: 0,
            version: String::new(),
        }
    }
}

} // verus!
