use logdump::bitness::{classify_process, Bitness};
use logdump::config::{Config, TargetType};
use logdump::gui::collectors::{checked_components, history_path_choice};
use logdump::gui::forms::{
    advanced_form_of, apply_advanced_form, apply_monitor_form, apply_smtp_form, int_field, long_field,
    monitor_form_of, notify_settings_ok, port_field, smtp_form_of, task_name_for,
};
use logdump::gui::runner::{done_message, finished_status, read_message, RunnerMessage};
use logdump::gui::status::{
    alert_row, dumps_row, folder_dumps_row, monitor_row, monitor_status_row, no_health_row, task_row, StatusTone,
};
use logdump::gui::targets::{build_target_choices, find_target};
use logdump::gui::TargetEntry;
use logdump::health::HealthStatus;
use logdump::num::{parse_i32, parse_i64, parse_u16};
use logdump::services::ServiceInfo;

#[test]
fn parse_i32_reads_like_str_parse() {
    assert_eq!(parse_i32("42"), Some(42));
    assert_eq!(parse_i32("-7"), Some(-7));
    assert_eq!(parse_i32("+5"), Some(5));
    assert_eq!(parse_i32("007"), Some(7));
    assert_eq!(parse_i32("2147483647"), Some(i32::MAX));
    assert_eq!(parse_i32("-2147483648"), Some(i32::MIN));
    assert_eq!(parse_i32("2147483648"), None);
    assert_eq!(parse_i32(""), None);
    assert_eq!(parse_i32("+"), None);
    assert_eq!(parse_i32("-"), None);
    assert_eq!(parse_i32(" 5"), None);
    assert_eq!(parse_i32("5x"), None);
    for n in [0, 1, -1, 90, 2048, i32::MAX, i32::MIN] {
        assert_eq!(parse_i32(&n.to_string()), Some(n));
        assert_eq!(parse_i32(&n.to_string()), n.to_string().parse::<i32>().ok());
    }
}

#[test]
fn parse_i64_and_u16_read_like_str_parse() {
    assert_eq!(parse_i64("5120"), Some(5120));
    assert_eq!(parse_i64("-9223372036854775808"), Some(i64::MIN));
    assert_eq!(parse_i64("9223372036854775808"), None);
    assert_eq!(parse_u16("65535"), Some(65535));
    assert_eq!(parse_u16("65536"), None);
    assert_eq!(parse_u16("-0"), None);
    assert_eq!(parse_u16("+587"), Some(587));
}

#[test]
fn fields_trim_and_fall_back() {
    assert_eq!(int_field("  12 "), 12);
    assert_eq!(int_field("twelve"), 0);
    assert_eq!(int_field(""), 0);
    assert_eq!(long_field(" 5120\t"), 5120);
    assert_eq!(port_field(""), 25);
    assert_eq!(port_field(" 465 "), 465);
    assert_eq!(port_field("70000"), 25);
}

#[test]
fn task_name_follows_the_target_until_customised() {
    assert_eq!(task_name_for("ProcDump Monitor Old", "Old", "New"), "ProcDump Monitor New");
    assert_eq!(task_name_for("ProcDump Monitor", "Old", "New"), "ProcDump Monitor New");
    assert_eq!(task_name_for("", "Old", "New"), "ProcDump Monitor New");
    assert_eq!(task_name_for("My: task", "Old", "New"), "My task");
}

fn settled() -> Config {
    let mut c = Config::default();
    c.target_name = "MyApp".into();
    c.task_name = "ProcDump Monitor MyApp".into();
    c.dump_directory = r"C:\Dumps".into();
    c.proc_dump_path = r"C:\Tools\procdump64.exe".into();
    c.cpu_threshold = -3;
    c.memory_commit_mb = 2048;
    c.max_dumps = 4;
    c
}

#[test]
fn monitor_page_load_then_save_keeps_the_config() {
    let c = settled();
    let form = monitor_form_of(&c);
    assert_eq!(form.scenario.as_deref(), Some("Crash capture"));
    assert_eq!(form.cpu_threshold, "-3");
    let mut d = c.snapshot();
    apply_monitor_form(&mut d, &form);
    assert_eq!(d.task_name, c.task_name);
    assert_eq!(d.scenario, c.scenario);
    assert_eq!(d.dump_type, c.dump_type);
    assert_eq!(d.cpu_threshold, -3);
    assert_eq!(d.memory_commit_mb, 2048);
    assert_eq!(d.max_dumps, 4);
    assert_eq!(d.proc_dump_path, c.proc_dump_path);
    assert_eq!(d.hang_window_seconds, 0);
}

#[test]
fn monitor_page_save_normalises_the_fields() {
    let mut c = settled();
    c.target_path = r"C:\Old\app.exe".into();
    let mut form = monitor_form_of(&c);
    form.target_name = "Other".into();
    form.target_type = TargetType::Service;
    form.scenario = Some("Custom".into());
    form.dump_type = None;
    form.hang = true;
    form.max_dumps = "0".into();
    form.cpu_threshold = "abc".into();
    form.procdump_path = "  C:\\pd.exe ".into();
    form.to_address = " a@x.com ".into();
    apply_monitor_form(&mut c, &form);
    assert_eq!(c.task_name, "ProcDump Monitor Other");
    assert_eq!(c.target_name, "Other");
    assert_eq!(c.target_type, TargetType::Service);
    assert_eq!(c.target_path, "");
    assert_eq!(c.scenario, "");
    assert_eq!(c.dump_type, "Full");
    assert_eq!(c.hang_window_seconds, 1);
    assert_eq!(c.max_dumps, 1);
    assert_eq!(c.cpu_threshold, 0);
    assert_eq!(c.proc_dump_path, "C:\\pd.exe");
    assert_eq!(c.to_address, "a@x.com");
}

#[test]
fn unknown_scenario_and_dump_type_show_the_defaults() {
    let mut c = settled();
    c.scenario = "Something else".into();
    c.dump_type = "Weird".into();
    c.hang_window_seconds = 30;
    let f = monitor_form_of(&c);
    assert_eq!(f.scenario.as_deref(), Some("Custom"));
    assert_eq!(f.dump_type.as_deref(), Some("Full"));
    assert!(f.hang);
}

#[test]
fn advanced_dialog_round_trip_and_manual_target() {
    let mut c = Config::default();
    c.restart_delay_seconds = 15;
    c.min_free_disk_mb = -1;
    c.exception_filter_include = " keep spaces ".into();
    let mut form = advanced_form_of(&c, "  svc ");
    assert_eq!(form.min_free_disk, "-1");
    form.max_log_files = "x".into();
    let manual = apply_advanced_form(&mut c, &form, 7);
    assert_eq!(manual, "svc");
    assert_eq!(c.restart_delay_seconds, 15);
    assert_eq!(c.min_free_disk_mb, -1);
    assert_eq!(c.exception_filter_include, " keep spaces ");
    assert_eq!(c.max_log_files, 0);
    assert_eq!(c.dump_retention_max_gb_bits, 7);
}

#[test]
fn smtp_dialog_saves_trimmed_fields_and_keeps_the_password() {
    let mut c = Config::default();
    c.encrypted_password_blob = "OLD".into();
    let mut form = smtp_form_of(&c);
    assert_eq!(form.port, "25");
    form.server = " mail.example.com ".into();
    form.port = "587".into();
    form.from_address = " me@x.com".into();
    apply_smtp_form(&mut c, &form, None);
    assert_eq!(c.smtp_server, "mail.example.com");
    assert_eq!(c.smtp_port, 587);
    assert_eq!(c.from_address, "me@x.com");
    assert_eq!(c.encrypted_password_blob, "OLD");
    apply_smtp_form(&mut c, &form, Some("NEW".into()));
    assert_eq!(c.encrypted_password_blob, "NEW");
}

#[test]
fn notify_settings_need_sender_and_valid_recipients() {
    let mut c = Config::default();
    assert!(notify_settings_ok(&c));
    c.email_enabled = true;
    assert!(!notify_settings_ok(&c));
    c.from_address = "me@x.com".into();
    c.to_address = "a@x.com; b@y.com".into();
    assert!(notify_settings_ok(&c));
    c.cc_address = "nobody".into();
    assert!(!notify_settings_ok(&c));
    c.cc_address = String::new();
    c.to_address = " ; ".into();
    assert!(!notify_settings_ok(&c));
}

#[test]
fn status_rows_follow_the_health_record() {
    let row = task_row("ProcDump Monitor MyApp", true, "Running");
    assert_eq!(row.text, "\u{2713} Scheduled task \"ProcDump Monitor MyApp\" \u{2014} Running");
    assert_eq!(row.tone, Some(StatusTone::Good));
    assert_eq!(task_row("", true, "Ready").tone, Some(StatusTone::Muted));
    assert!(task_row("x", false, "").text.starts_with("\u{25CB} No scheduled task"));

    let mut h = HealthStatus::default();
    h.monitor_pid = 100;
    h.proc_dump_pid = 200;
    h.last_cycle_utc = "2026-01-01T00:00:00Z".into();
    let r = monitor_row(&h, Some(5));
    assert_eq!(
        r.text,
        "\u{25CF} Monitor running (PID 100) \u{2014} heartbeat 5s ago \u{2014} ProcDump attached (PID 200)"
    );
    assert_eq!(r.tone, Some(StatusTone::Good));
    let r = monitor_row(&h, Some(61));
    assert_eq!(r.text, "\u{25CB} Monitor not running \u{2014} last heartbeat 2026-01-01T00:00:00Z");
    h.last_cycle_utc = String::new();
    assert!(monitor_row(&h, None).text.ends_with("never"));

    h.total_dump_count = 3;
    h.last_dump_file_name = "a.dmp".into();
    h.free_disk_mb = 2048;
    h.disk_space_low = true;
    let d = dumps_row(&h, "2.0");
    assert_eq!(d.text, "3 dump(s) captured \u{2014} latest: a.dmp \u{2014} 2.0 GB free");
    assert_eq!(d.tone, Some(StatusTone::Warn));
    assert_eq!(folder_dumps_row(2).text, "2 dump(s) in the dump folder");
    assert_eq!(no_health_row().tone, Some(StatusTone::Muted));

    assert_eq!(alert_row(Some("boom"), "late").text, "\u{2715} boom");
    assert_eq!(alert_row(None, "late").text, "\u{26A0} Monitor: late");
    assert_eq!(alert_row(None, "").tone, None);
}

#[test]
fn runner_messages_round_trip() {
    for r in [Ok(r"C:\Runs\Run_101010"), Err("cannot create run folder"), Ok(""), Err("a\u{4}b")] {
        let line = done_message(r);
        match (read_message(&line), r) {
            (RunnerMessage::Finished(Ok(d)), Ok(x)) => assert_eq!(d, x),
            (RunnerMessage::Finished(Err(e)), Err(x)) => assert_eq!(e, x),
            _ => panic!("wrong reading of {line:?}"),
        }
    }
    assert!(matches!(read_message("Copied logs"), RunnerMessage::Progress(l) if l == "Copied logs"));
    assert!(matches!(read_message("\u{4}DONE\u{4}broken"), RunnerMessage::Finished(Err(e)) if e == "broken"));
    assert_eq!(finished_status(&Ok("D".into())), "Status: Done \u{2014} D");
    assert_eq!(finished_status(&Err("E".into())), "Status: FAILED \u{2014} E");
}

#[test]
fn target_list_puts_processes_first() {
    let procs = vec!["[System Process]".to_string(), "app.exe".to_string()];
    let svcs = vec![
        ServiceInfo { name: "A".into(), display: "Alpha".into(), running: false },
        ServiceInfo { name: "B".into(), display: "Beta".into(), running: true },
    ];
    let short = build_target_choices(&procs, &svcs, false);
    let labels: Vec<&str> = short.iter().map(|c| c.label.as_str()).collect();
    assert_eq!(labels, vec!["Proc: app.exe", "Svc: Beta (B)"]);
    let all = build_target_choices(&procs, &svcs, true);
    let labels: Vec<&str> = all.iter().map(|c| c.label.as_str()).collect();
    assert_eq!(labels, vec!["Proc: app.exe", "Svc: Beta (B)", "Svc: Alpha (A) - stopped"]);
    assert!(all[2].entry.is_service);

    let entries: Vec<TargetEntry> = all.into_iter().map(|c| c.entry).collect();
    assert_eq!(find_target(&entries, "b", None), Some(1));
    assert_eq!(find_target(&entries, "APP.EXE", Some(false)), Some(0));
    assert_eq!(find_target(&entries, "app.exe", Some(true)), None);
}

#[test]
fn collector_pages_pick_checked_components_and_history() {
    let all = vec![
        ("One".to_string(), vec![r"C:\a".to_string()]),
        ("Two".to_string(), vec![]),
        ("Three".to_string(), vec![r"C:\c".to_string(), r"D:\c".to_string()]),
    ];
    let picked = checked_components(all, &vec!["Three".to_string(), "One".to_string()]);
    let names: Vec<&str> = picked.iter().map(|c| c.0.as_str()).collect();
    assert_eq!(names, vec!["One", "Three"]);
    assert_eq!(picked[1].1.len(), 2);
    assert_eq!(history_path_choice("   "), None);
    assert_eq!(history_path_choice(r" C:\h.xml ").as_deref(), Some(r"C:\h.xml"));
}

#[test]
fn process_bitness_from_windows_answers() {
    assert_eq!(classify_process(Some((0x014C, 0x8664)), None), Bitness::X86);
    assert_eq!(classify_process(Some((0, 0x8664)), None), Bitness::X64);
    assert_eq!(classify_process(Some((0, 0xAA64)), None), Bitness::X64);
    assert_eq!(classify_process(Some((0, 0x014C)), None), Bitness::X86);
    assert_eq!(classify_process(None, Some(true)), Bitness::X86);
    assert_eq!(classify_process(None, Some(false)), Bitness::X64);
    assert_eq!(classify_process(None, None), Bitness::Unknown);
}

#[test]
fn colorref_packs_bgr() {
    // COLORREF is 0x00BBGGRR: red lands in the low byte.
    assert_eq!(logdump::gui::colorref([255, 0, 0]), 0x0000FF);
    assert_eq!(logdump::gui::colorref([15, 108, 189]), 0x00BD6C0F);
}

#[test]
fn monitor_status_row_ages_the_heartbeat() {
    let mut h = HealthStatus::default();
    h.monitor_pid = 7;
    h.last_cycle_utc = chrono::Utc::now().to_rfc3339_opts(chrono::SecondsFormat::Micros, true);
    let r = monitor_status_row(&h);
    assert_eq!(r.tone, Some(StatusTone::Good));
    assert!(r.text.starts_with("\u{25CF} Monitor running (PID 7) \u{2014} heartbeat "), "{}", r.text);

    h.last_cycle_utc = "2020-01-01T00:00:00Z".into();
    let r = monitor_status_row(&h);
    assert_eq!(r.tone, Some(StatusTone::Muted));
    assert_eq!(r.text, "\u{25CB} Monitor not running \u{2014} last heartbeat 2020-01-01T00:00:00Z");

    h.last_cycle_utc = "not a time".into();
    let r = monitor_status_row(&h);
    assert_eq!(r.text, "\u{25CB} Monitor not running \u{2014} last heartbeat not a time");
}
