use logdump::bitness::{select_binary, Bitness};
use logdump::config::{Config, TargetType, CURRENT_VERSION};
use logdump::diskguard::check_free_space;
use logdump::gui::{bitness_label, build_summary, resolve_base, TargetEntry};
use logdump::logger::{init, log_line, needs_rotation, rotation_plan};
use logdump::order::stable_order;
use logdump::paths::{config_path, fallback_exe_path, health_path, log_dir, log_path};
use logdump::procdump::{build_args, Preset};
use logdump::secrets::{decode_blob, encode_blob};
use logdump::stability::{stability_window, StabilityTracker};
use logdump::monitor::is_dump_file_name;
use logdump::retention::{aged_out, retention_enabled, SizePass};
use logdump::winpath::{join_path, path_components, push_path, same_windows_path_exec};

fn base() -> Config {
    let mut c = Config::default();
    c.target_name = "MyApp".into();
    c.dump_directory = r"C:\Dumps\MyApp".into();
    c
}

#[test]
fn default_crash_args_match_csharp_order() {
    assert_eq!(build_args(&base()), r#"-accepteula -ma -e -t -r -n 1 -w MyApp.exe "C:\Dumps\MyApp""#);
}

#[test]
fn service_target_uses_service_flag_and_no_exe_suffix() {
    let mut c = base();
    c.target_type = TargetType::Service;
    assert!(build_args(&c).contains("-w -service MyApp \""));
}

#[test]
fn exe_suffix_not_doubled() {
    let mut c = base();
    c.target_name = "MyApp.EXE".into();
    assert!(build_args(&c).contains("-w MyApp.EXE \""));
}

#[test]
fn all_flags_render_in_order() {
    let mut c = base();
    c.dump_type = "MiniPlus".into();
    c.hang_window_seconds = 1;
    c.avoid_outage = true;
    c.overwrite_existing = true;
    c.cpu_threshold = 90;
    c.cpu_low_threshold = 5;
    c.cpu_duration_seconds = 10;
    c.cpu_per_unit = true;
    c.memory_commit_mb = 2048;
    c.performance_counter = r"\Processor(_Total)\% Processor Time".into();
    c.exception_filter_include = "OutOfMemory".into();
    c.wer_integration = true;
    c.avoid_terminate_timeout = 7;
    c.max_dumps = 3;
    assert_eq!(
        build_args(&c),
        r#"-accepteula -mp -e -t -h -r -a -o -c 90 -cl 5 -s 10 -u -m 2048 -p "\Processor(_Total)\% Processor Time" -f "OutOfMemory" -wer -at 7 -n 3 -w MyApp.exe "C:\Dumps\MyApp""#
    );
}

#[test]
fn presets_match_readme_flags() {
    let mut c = base();
    Preset::find("High CPU spike capture").unwrap().apply(&mut c);
    assert_eq!(c.cpu_threshold, 90);
    assert_eq!(c.cpu_duration_seconds, 10);
    assert_eq!(c.max_dumps, 3);
    assert!(!c.dump_on_exception, "preset reset must zero triggers");
    assert_eq!(c.dump_directory, r"C:\Dumps\MyApp");
    assert!(c.wait_for_process);
    assert_eq!(Preset::all().len(), 5);
    assert_eq!(Preset::all()[0].name, "Crash capture");
    assert_eq!(Preset::find("Low impact full dump").unwrap().effective_flags, "-a -r -ma");
}

#[test]
fn defaults_match_csharp() {
    let c = Config::default();
    assert_eq!(c.config_version, 3);
    assert_eq!(CURRENT_VERSION, 3);
    assert_eq!(c.dump_type, "Full");
    assert!(c.dump_on_exception && c.dump_on_terminate && c.use_clone);
    assert_eq!(c.max_dumps, 1);
    assert_eq!(c.restart_delay_seconds, 5);
    assert_eq!(c.scenario, "Crash capture");
    assert!(c.wait_for_process);
    assert_eq!(c.min_free_disk_mb, 5120);
    assert_eq!(c.dump_stability_timeout_seconds, 30);
    assert_eq!(c.dump_stability_poll_seconds, 2);
    assert_eq!(c.max_log_size_mb, 10);
    assert_eq!(c.max_log_files, 5);
    assert_eq!(c.smtp_port, 25);
    assert_eq!(c.task_name, "ProcDump Monitor");
}

#[test]
fn free_space_guard_fails_open() {
    assert_eq!(check_free_space(0, Some(0)), (true, 0));
    assert_eq!(check_free_space(100, None), (true, -1));
    assert_eq!(check_free_space(100, Some(99 * 1048576 + 5)), (false, 99));
    assert_eq!(check_free_space(100, Some(100 * 1048576)), (true, 100));
}

#[test]
fn label_names_the_source_when_resolved() {
    let c = select_binary(Bitness::X86, r"C:\pd", true, true, true);
    assert_eq!(bitness_label(Bitness::X86, "PE header", &c), "32-bit process -> procdump.exe (via PE header)");
}

#[test]
fn label_keeps_the_word_unknown_when_unresolved() {
    let c = select_binary(Bitness::Unknown, r"C:\pd", true, true, true);
    let t = bitness_label(Bitness::Unknown, "unresolved", &c);
    assert_eq!(
        t,
        "Unknown bitness -> procdump64.exe (default) - could not determine target bitness; verify manually."
    );
    assert!(t.contains("Unknown"), "the word Unknown must survive: {t}");

    let c = select_binary(Bitness::Unknown, r"C:\pd", true, false, true);
    let t = bitness_label(Bitness::Unknown, "unresolved", &c);
    assert_eq!(t, "Unknown bitness -> procdump.exe - procdump64.exe not found; using procdump.exe as fallback.");
    assert!(t.contains("Unknown"), "the word Unknown must survive: {t}");
}

#[test]
fn label_shows_a_select_binary_warning() {
    let c = select_binary(Bitness::X86, r"C:\pd", true, true, false);
    assert_eq!(
        bitness_label(Bitness::X86, "PE header", &c),
        "32-bit process -> procdump64.exe (fallback) - procdump.exe not found - falling back to procdump64.exe."
    );
}

#[test]
fn summary_and_base_folder() {
    let mut c = base();
    c.scenario = String::new();
    c.email_enabled = true;
    c.to_address = "a@x.com".into();
    let s = build_summary(&c, "1.5");
    assert!(s.starts_with("Target: MyApp (Process)\r\nScenario: Custom\r\nEffective args: -accepteula"));
    assert!(s.contains("\r\nEmail: On -> a@x.com\r\nWebhook: Off\r\n"));
    assert!(s.ends_with("Retention: 0 day(s), 1.5 GB max"));
    assert_eq!(resolve_base("  ", r"C:\Users\me\Desktop"), r"C:\Users\me\Desktop");
    assert_eq!(resolve_base(r" D:\out ", r"C:\x"), r"D:\out");
    let t = TargetEntry { name: "svc".into(), is_service: true };
    assert!(t.is_service && t.name == "svc");
}

#[test]
fn log_rotation_plan_shifts_every_generation() {
    let st = init(r"C:\L\procdump.log".into(), 10, 3);
    assert_eq!(st.max_bytes, 10 * 1024 * 1024);
    assert_eq!(init("x".into(), -4, 1).max_bytes, 0);
    assert!(needs_rotation(&st, Some(10 * 1024 * 1024)));
    assert!(!needs_rotation(&st, Some(5)));
    assert!(!needs_rotation(&st, None));
    let (oldest, renames) = rotation_plan(&st);
    assert_eq!(oldest, r"C:\L\procdump.log.3");
    assert_eq!(
        renames,
        vec![
            (r"C:\L\procdump.log.2".to_string(), r"C:\L\procdump.log.3".to_string()),
            (r"C:\L\procdump.log.1".to_string(), r"C:\L\procdump.log.2".to_string()),
            (r"C:\L\procdump.log".to_string(), r"C:\L\procdump.log.1".to_string()),
        ]
    );
    let line = log_line("Monitor", "hello");
    assert!(line.starts_with('[') && line.ends_with("] [Monitor] hello\n"), "{line}");
}

#[test]
fn stability_needs_the_same_size_twice() {
    assert_eq!(stability_window(0, -1), (30, 2));
    assert_eq!(stability_window(10, 1), (10, 1));
    let mut t = StabilityTracker::new();
    assert!(!t.observe(13));
    assert!(t.observe(13));
    assert!(!t.observe(77));
    let mut z = StabilityTracker::new();
    assert!(!z.observe(0));
    assert!(!z.observe(0), "an empty file is never complete");
}

#[test]
fn blobs_round_trip_through_base64() {
    let b = encode_blob(&[1, 2, 3, 250]);
    assert_eq!(b, "AQID+g==");
    assert_eq!(decode_blob(&b), Some(vec![1, 2, 3, 250]));
    assert_eq!(decode_blob(""), None);
    assert_eq!(decode_blob("not-base64!!!"), None);
}

#[test]
fn portable_paths_sit_next_to_the_exe() {
    assert_eq!(config_path(r"C:\Tools"), r"C:\Tools\config.json");
    assert_eq!(health_path(r"C:\Tools\"), r"C:\Tools\health.json");
    assert_eq!(log_dir(r"C:\Tools"), r"C:\Tools\Logs");
    assert_eq!(log_path(r"C:\Tools"), r"C:\Tools\Logs\procdump.log");
    assert_eq!(fallback_exe_path("C:"), r"C:ProcDumpMonitor.exe");
}

#[test]
fn windows_path_components_and_joins() {
    assert_eq!(path_components(r"C:\Program Files (x86)\Tyco"), vec!["C:", "\\", "Program Files (x86)", "Tyco"]);
    assert_eq!(path_components(r".\a\\.\b"), vec![".", "a", "b"]);
    assert_eq!(path_components(r"\\srv\share\x"), vec![r"\\srv\share", "\\", "x"]);
    assert_eq!(path_components("C:rel"), vec!["C:", "rel"]);
    assert_eq!(join_path(r"C:\a", "b"), r"C:\a\b");
    assert_eq!(join_path("C:", "b"), "C:b");
    assert_eq!(push_path("C:", "\\"), "C:\\");
    assert_eq!(push_path(r"C:\a", r"D:\b"), r"D:\b");
    assert!(same_windows_path_exec(r"c:\A\.\b\", r"C:/A//b"));
    assert!(!same_windows_path_exec(r"C:\A\b", r"C:\a\b"));
}

#[test]
fn stable_order_sorts_by_time_keeping_ties() {
    assert_eq!(stable_order(&vec![5, 9, 5, 1], true), vec![1, 0, 2, 3]);
    assert_eq!(stable_order(&vec![5, 9, 5, 1], false), vec![3, 0, 2, 1]);
    assert_eq!(stable_order(&vec![], true), Vec::<usize>::new());
}

#[test]
fn label_reports_a_32bit_os() {
    let c = select_binary(Bitness::X64, r"C:\pd", false, true, true);
    assert_eq!(bitness_label(Bitness::X64, "PE header", &c), "32-bit OS -> procdump.exe (via PE header)");
}

#[test]
fn age_policy_deletes_only_old_dmp() {
    let day: u128 = 86_400_000_000_000;
    let now: u128 = 100 * day;
    let files = [("old.dmp", now - 10 * day), ("new.dmp", now - day), ("old.txt", now - 10 * day)];
    let doomed: Vec<&str> = files
        .iter()
        .filter(|(n, t)| is_dump_file_name(n) && aged_out(*t, now, 7))
        .map(|(n, _)| *n)
        .collect();
    assert_eq!(doomed, vec!["old.dmp"]);
}

#[test]
fn size_policy_deletes_oldest_first_until_under_cap() {
    // Three 1 MB dumps, newest last in the listing order below; cap 2 MB.
    let times: Vec<u128> = vec![30, 10, 20];
    let sizes: Vec<u64> = vec![1_048_576; 3];
    let order = stable_order(&times, false);
    assert_eq!(order, vec![1, 2, 0]);
    let mut pass = SizePass::new(&sizes, 2 * 1_048_576).unwrap();
    let mut deleted = Vec::new();
    for &i in &order {
        if !pass.over_cap() {
            break;
        }
        pass.removed(sizes[i]);
        deleted.push(i);
    }
    assert_eq!(deleted, vec![1]);
}

#[test]
fn disabled_policies_do_nothing() {
    assert!(!retention_enabled(0, None));
    assert!(!retention_enabled(-3, None));
    assert!(retention_enabled(1, None));
    assert!(retention_enabled(0, Some(1)));
}

#[test]
fn stable_file_returns_true_quickly() {
    let mut t = StabilityTracker::new();
    assert!(!t.observe(13));
    assert!(t.observe(13));
}

#[test]
fn growing_file_times_out() {
    let mut t = StabilityTracker::new();
    for size in [1i64, 65, 129, 193, 257] {
        assert!(!t.observe(size), "a growing file must not be stable");
    }
}

#[test]
fn log_lines_carry_a_local_time_stamp() {
    let line = log_line("Retention", "x");
    let end = line.find(']').unwrap();
    let ts: Vec<char> = line[1..end].chars().collect();
    let n = ts.len();
    assert!(n >= 19, "{line}");
    let tail: String = ts[n - 15..].iter().collect();
    for (i, c) in tail.chars().enumerate() {
        match i {
            0 | 3 => assert_eq!(c, '-'),
            6 => assert_eq!(c, ' '),
            9 | 12 => assert_eq!(c, ':'),
            _ => assert!(c.is_ascii_digit(), "{line}"),
        }
    }
}

#[test]
fn stable_polls_count_repeats_and_reset() {
    let mut t = StabilityTracker::new();
    assert!(!t.observe(5));
    assert_eq!(t.stable_polls, 0);
    assert!(t.observe(5));
    assert_eq!(t.stable_polls, 1);
    assert!(t.observe(5));
    assert_eq!(t.stable_polls, 2);
    assert!(!t.observe(6));
    assert_eq!(t.stable_polls, 0);
    t.stable_polls = u32::MAX;
    t.last_size = 6;
    assert!(t.observe(6));
    assert_eq!(t.stable_polls, u32::MAX);
}

#[test]
fn age_cutoff_is_exact_to_the_nanosecond() {
    let day: u128 = 86_400_000_000_000;
    let now: u128 = 30 * day + 500_000_000;
    let cutoff = now - 7 * day;
    assert!(aged_out(cutoff - 1, now, 7));
    assert!(!aged_out(cutoff, now, 7));
    assert!(!aged_out(0, now, 0));
}

#[test]
fn blobs_are_standard_padded_base64() {
    assert_eq!(encode_blob(b"hello"), "aGVsbG8=");
    assert_eq!(encode_blob(b"hi"), "aGk=");
    assert_eq!(encode_blob(&[255, 239, 64]), "/+9A");
    assert_eq!(encode_blob(&[]), "");
}
