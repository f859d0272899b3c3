//! The monitor's persisted settings.

use vstd::prelude::*;

verus! {

pub const CURRENT_VERSION: i32 = 3;

/// Whether the target is named as a process or as a service.
#[derive(Debug, Clone, Copy, PartialEq, Eq, Structural)]
pub enum TargetType {
    Process,
    Service,
}

impl Default for TargetType {
    fn default() -> (t: TargetType)
        ensures
            t == TargetType::Process,
    {
        TargetType::Process
    }
}

/// Every setting of the monitor. `dump_retention_max_gb_bits` holds the
/// IEEE-754 bit pattern of the retention cap in gigabytes (the library never
/// computes with it; the file form stores it as a number).
pub struct Config {
    pub config_version: i32,
    pub target_name: String,
    pub target_type: TargetType,
    /// Cached image path of the target, so bitness survives it not running.
    pub target_path: String,
    pub proc_dump_path: String,
    pub dump_directory: String,
    /// Full | MiniPlus | Mini | ThreadDump
    pub dump_type: String,
    pub dump_on_exception: bool,
    pub dump_on_terminate: bool,
    pub use_clone: bool,
    pub max_dumps: i32,
    pub restart_delay_seconds: i32,
    /// "" means Custom.
    pub scenario: String,
    pub avoid_outage: bool,
    pub overwrite_existing: bool,
    pub wait_for_process: bool,
    pub cpu_per_unit: bool,
    pub cpu_duration_seconds: i32,
    pub cpu_threshold: i32,
    pub cpu_low_threshold: i32,
    pub memory_commit_mb: i32,
    pub hang_window_seconds: i32,
    pub performance_counter: String,
    pub perf_counter_threshold: String,
    pub exception_filter_include: String,
    pub exception_filter_exclude: String,
    pub wer_integration: bool,
    pub avoid_terminate_timeout: i32,
    pub min_free_disk_mb: i64,
    pub dump_stability_timeout_seconds: i32,
    pub dump_stability_poll_seconds: i32,
    pub max_log_size_mb: i32,
    pub max_log_files: i32,
    pub dump_retention_days: i32,
    pub dump_retention_max_gb_bits: u64,
    pub auto_collect_on_dump: bool,
    pub task_name: String,
    pub email_enabled: bool,
    pub smtp_server: String,
    pub smtp_port: u16,
    pub use_ssl: bool,
    pub from_address: String,
    /// Semicolon-delimited.
    pub to_address: String,
    /// Semicolon-delimited.
    pub cc_address: String,
    pub smtp_username: String,
    /// Base64 DPAPI blob.
    pub encrypted_password_blob: String,
    pub webhook_enabled: bool,
    /// Plaintext until saved (then encrypted).
    pub webhook_url: String,
    /// Base64 DPAPI blob.
    pub encrypted_webhook_url_blob: String,
}

/// The settings a fresh install starts with.
pub open spec fn is_default_config(c: Config) -> bool {
    &&& c.config_version == CURRENT_VERSION
    &&& c.target_name@ == Seq::<char>::empty()
    &&& c.target_type == TargetType::Process
    &&& c.target_path@ == Seq::<char>::empty()
    &&& c.proc_dump_path@ == Seq::<char>::empty()
    &&& c.dump_directory@ == Seq::<char>::empty()
    &&& c.dump_type@ == "Full"@
    &&& c.dump_on_exception && c.dump_on_terminate && c.use_clone
    &&& c.max_dumps == 1
    &&& c.restart_delay_seconds == 5
    &&& c.scenario@ == "Crash capture"@
    &&& !c.avoid_outage && !c.overwrite_existing
    &&& c.wait_for_process
    &&& !c.cpu_per_unit
    &&& c.cpu_duration_seconds == 0 && c.cpu_threshold == 0 && c.cpu_low_threshold == 0
    &&& c.memory_commit_mb == 0 && c.hang_window_seconds == 0
    &&& c.performance_counter@ == Seq::<char>::empty()
    &&& c.perf_counter_threshold@ == Seq::<char>::empty()
    &&& c.exception_filter_include@ == Seq::<char>::empty()
    &&& c.exception_filter_exclude@ == Seq::<char>::empty()
    &&& !c.wer_integration
    &&& c.avoid_terminate_timeout == 0
    &&& c.min_free_disk_mb == 5120
    &&& c.dump_stability_timeout_seconds == 30
    &&& c.dump_stability_poll_seconds == 2
    &&& c.max_log_size_mb == 10
    &&& c.max_log_files == 5
    &&& c.dump_retention_days == 0
    &&& c.dump_retention_max_gb_bits == 0
    &&& !c.auto_collect_on_dump
    &&& c.task_name@ == "ProcDump Monitor"@
    &&& !c.email_enabled
    &&& c.smtp_server@ == Seq::<char>::empty()
    &&& c.smtp_port == 25
    &&& !c.use_ssl
    &&& c.from_address@ == Seq::<char>::empty()
    &&& c.to_address@ == Seq::<char>::empty()
    &&& c.cc_address@ == Seq::<char>::empty()
    &&& c.smtp_username@ == Seq::<char>::empty()
    &&& c.encrypted_password_blob@ == Seq::<char>::empty()
    &&& !c.webhook_enabled
    &&& c.webhook_url@ == Seq::<char>::empty()
    &&& c.encrypted_webhook_url_blob@ == Seq::<char>::empty()
}

impl Default for Config {
    fn default() -> (c: Config)
        ensures
            is_default_config(c),
    {
        Config {
            config_version: CURRENT_VERSION,
            target_name: String::new(),
            target_type: TargetType::Process,
            target_path: String::new(),
            proc_dump_path: String::new(),
            dump_directory: String::new(),
            dump_type: String::from_str("Full"),
            dump_on_exception: true,
            dump_on_terminate: true,
            use_clone: true,
            max_dumps: 1,
            restart_delay_seconds: 5,
            scenario: String::from_str("Crash capture"),
            avoid_outage: false,
            overwrite_existing: false,
            wait_for_process: true,
            cpu_per_unit: false,
            cpu_duration_seconds: 0,
            cpu_threshold: 0,
            cpu_low_threshold: 0,
            memory_commit_mb: 0,
            hang_window_seconds: 0,
            performance_counter: String::new(),
            perf_counter_threshold: String::new(),
            exception_filter_include: String::new(),
            exception_filter_exclude: String::new(),
            wer_integration: false,
            avoid_terminate_timeout: 0,
            min_free_disk_mb: 5120,
            dump_stability_timeout_seconds: 30,
            dump_stability_poll_seconds: 2,
            max_log_size_mb: 10,
            max_log_files: 5,
            dump_retention_days: 0,
            dump_retention_max_gb_bits: 0,
            auto_collect_on_dump: false,
            task_name: String::from_str("ProcDump Monitor"),
            email_enabled: false,
            smtp_server: String::new(),
            smtp_port: 25,
            use_ssl: false,
            from_address: String::new(),
            to_address: String::new(),
            cc_address: String::new(),
            smtp_username: String::new(),
            encrypted_password_blob: String::new(),
            webhook_enabled: false,
            webhook_url: String::new(),
            encrypted_webhook_url_blob: String::new(),
        }
    }
}

impl Config {
    /// A copy of every setting.
    #[verifier::rlimit(50)]
    pub fn snapshot(&self) -> (c: Config)
        ensures
            c == *self,
    {
        Config {
            config_version: self.config_version,
            target_name: self.target_name.clone(),
            target_type: self.target_type,
            target_path: self.target_path.clone(),
            proc_dump_path: self.proc_dump_path.clone(),
            dump_directory: self.dump_directory.clone(),
            dump_type: self.dump_type.clone(),
            dump_on_exception: self.dump_on_exception,
            dump_on_terminate: self.dump_on_terminate,
            use_clone: self.use_clone,
            max_dumps: self.max_dumps,
            restart_delay_seconds: self.restart_delay_seconds,
            scenario: self.scenario.clone(),
            avoid_outage: self.avoid_outage,
            overwrite_existing: self.overwrite_existing,
            wait_for_process: self.wait_for_process,
            cpu_per_unit: self.cpu_per_unit,
            cpu_duration_seconds: self.cpu_duration_seconds,
            cpu_threshold: self.cpu_threshold,
            cpu_low_threshold: self.cpu_low_threshold,
            memory_commit_mb: self.memory_commit_mb,
            hang_window_seconds: self.hang_window_seconds,
            performance_counter: self.performance_counter.clone(),
            perf_counter_threshold: self.perf_counter_threshold.clone(),
            exception_filter_include: self.exception_filter_include.clone(),
            exception_filter_exclude: self.exception_filter_exclude.clone(),
            wer_integration: self.wer_integration,
            avoid_terminate_timeout: self.avoid_terminate_timeout,
            min_free_disk_mb: self.min_free_disk_mb,
            dump_stability_timeout_seconds: self.dump_stability_timeout_seconds,
            dump_stability_poll_seconds: self.dump_stability_poll_seconds,
            max_log_size_mb: self.max_log_size_mb,
            max_log_files: self.max_log_files,
            dump_retention_days: self.dump_retention_days,
            dump_retention_max_gb_bits: self.dump_retention_max_gb_bits,
            auto_collect_on_dump: self.auto_collect_on_dump,
            task_name: self.task_name.clone(),
            email_enabled: self.email_enabled,
            smtp_server: self.smtp_server.clone(),
            smtp_port: self.smtp_port,
            use_ssl: self.use_ssl,
            from_address: self.from_address.clone(),
            to_address: self.to_address.clone(),
            cc_address: self.cc_address.clone(),
            smtp_username: self.smtp_username.clone(),
            encrypted_password_blob: self.encrypted_password_blob.clone(),
            webhook_enabled: self.webhook_enabled,
            webhook_url: self.webhook_url.clone(),
            encrypted_webhook_url_blob: self.encrypted_webhook_url_blob.clone(),
        }
    }
}

} // verus!
