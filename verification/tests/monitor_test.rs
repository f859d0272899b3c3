use logdump::bitness::Bitness;
use logdump::config::Config;
use logdump::health::HealthStatus;
use logdump::monitor::{
    apply_disk_check, auto_collect_action, begin_cycle, bitness_step, end_cycle, is_dump_file_name,
    low_disk_notify_due, low_disk_subject, low_disk_warning, needs_bitness_resolve, newest_dump, record_dump,
    restart_delay_ticks, AutoCollect, DumpEntry, DumpOutcome,
};
use logdump::winpath::join_path;
use std::cell::Cell;

const PD: &str = r"C:\Tools\ProcDump";

fn cfg_at(binary: &str) -> Config {
    let mut c = Config::default();
    c.proc_dump_path = join_path(PD, binary);
    c
}

fn unresolved(_: &Config) -> (Bitness, String) {
    (Bitness::Unknown, "unresolved".to_string())
}
fn x86(_: &Config) -> (Bitness, String) {
    (Bitness::X86, "PE header".to_string())
}
fn x64(_: &Config) -> (Bitness, String) {
    (Bitness::X64, "PE header".to_string())
}

#[test]
fn a_target_that_starts_later_self_corrects_to_the_32bit_binary() {
    let mut cfg = cfg_at("procdump64.exe");
    let mut cached = None;
    let l1 = bitness_step(&mut cached, &mut cfg, PD, true, true, true, unresolved);
    assert_eq!(cached, Some(Bitness::Unknown));
    assert_eq!(cfg.proc_dump_path, join_path(PD, "procdump64.exe"));
    assert_eq!(l1, ["Bitness: Unknown bitness -> procdump64.exe (default) (via unresolved)"]);

    let l2 = bitness_step(&mut cached, &mut cfg, PD, true, true, true, x86);
    assert_eq!(cached, Some(Bitness::X86));
    assert_eq!(cfg.proc_dump_path, join_path(PD, "procdump.exe"), "32-bit target did not switch");
    assert_eq!(
        l2,
        [format!("Bitness: 32-bit process -> procdump.exe (via PE header) -> {}", join_path(PD, "procdump.exe"))]
    );
}

#[test]
fn does_not_re_resolve_once_the_answer_is_known() {
    let calls = Cell::new(0usize);
    let mut cfg = cfg_at("procdump.exe");
    let mut cached = None;
    for _ in 0..5 {
        bitness_step(&mut cached, &mut cfg, PD, true, true, true, |_c: &Config| {
            calls.set(calls.get() + 1);
            (Bitness::X64, "PE header".to_string())
        });
    }
    assert_eq!(calls.get(), 1, "re-resolved after the answer was known");
    assert!(!needs_bitness_resolve(&cached));
}

#[test]
fn keeps_retrying_while_unresolved() {
    let calls = Cell::new(0usize);
    let mut cfg = cfg_at("procdump64.exe");
    let mut cached = None;
    for _ in 0..5 {
        bitness_step(&mut cached, &mut cfg, PD, true, true, true, |_c: &Config| {
            calls.set(calls.get() + 1);
            (Bitness::Unknown, "unresolved".to_string())
        });
    }
    assert_eq!(calls.get(), 5);
    assert!(needs_bitness_resolve(&cached));
}

#[test]
fn logs_nothing_further_while_the_answer_stays_unknown() {
    let mut cfg = cfg_at("procdump64.exe");
    let mut cached = None;
    assert_eq!(bitness_step(&mut cached, &mut cfg, PD, true, true, true, unresolved).len(), 1);
    for _ in 0..10 {
        assert_eq!(
            bitness_step(&mut cached, &mut cfg, PD, true, true, true, unresolved),
            Vec::<String>::new(),
            "repeated Unknown cycles must stay silent"
        );
    }
}

#[test]
fn an_unchanged_binary_is_not_logged_as_a_switch() {
    let mut cfg = cfg_at("procdump64.exe");
    let mut cached = None;
    let l1 = bitness_step(&mut cached, &mut cfg, PD, true, true, true, unresolved);
    assert_eq!(l1, ["Bitness: Unknown bitness -> procdump64.exe (default) (via unresolved)"]);
    let l2 = bitness_step(&mut cached, &mut cfg, PD, true, true, true, x64);
    assert_eq!(cached, Some(Bitness::X64));
    assert_eq!(l2, ["Bitness: 64-bit process -> procdump64.exe (via PE header)"]);
    assert_eq!(cfg.proc_dump_path, join_path(PD, "procdump64.exe"));
}

#[test]
fn a_path_spelled_differently_is_the_same_binary() {
    let mut cfg = Config::default();
    cfg.proc_dump_path = r"c:/Tools//ProcDump\.\procdump64.exe".to_string();
    let mut cached = None;
    let l = bitness_step(&mut cached, &mut cfg, PD, true, true, true, x64);
    assert_eq!(l, ["Bitness: 64-bit process -> procdump64.exe (via PE header)"]);
    assert_eq!(cfg.proc_dump_path, r"c:/Tools//ProcDump\.\procdump64.exe");
}

#[test]
fn a_missing_binary_warns_once_not_every_cycle() {
    let mut cfg = cfg_at("procdump64.exe");
    let mut cached = None;
    let l1 = bitness_step(&mut cached, &mut cfg, PD, true, false, false, unresolved);
    assert_eq!(l1.len(), 2, "{l1:?}");
    assert!(l1[0].starts_with("Bitness WARNING: Neither"), "{l1:?}");
    assert_eq!(bitness_step(&mut cached, &mut cfg, PD, true, false, false, unresolved), Vec::<String>::new());
    assert_eq!(cfg.proc_dump_path, join_path(PD, "procdump64.exe"));
}

#[test]
fn a_fallback_for_a_32bit_target_warns_loudly() {
    let mut cfg = cfg_at("procdump64.exe");
    let mut cached = None;
    let l = bitness_step(&mut cached, &mut cfg, PD, true, true, false, x86);
    assert_eq!(
        l,
        [
            "Bitness WARNING: procdump.exe not found - falling back to procdump64.exe.",
            "Bitness: 32-bit process -> procdump64.exe (fallback) (via PE header)",
        ]
    );
}

#[test]
fn a_32bit_os_pins_procdump_exe_regardless_of_target() {
    let mut cfg = cfg_at("procdump64.exe");
    let mut cached = None;
    let l = bitness_step(&mut cached, &mut cfg, PD, false, true, true, x64);
    assert_eq!(cfg.proc_dump_path, join_path(PD, "procdump.exe"), "{l:?}");
}

#[test]
fn disk_guard_skips_and_records_low_space() {
    let mut h = HealthStatus::default();
    assert!(!apply_disk_check(&mut h, 0, (false, 10)));
    assert!(!h.disk_space_low);
    assert!(apply_disk_check(&mut h, 5120, (false, 100)));
    assert!(h.disk_space_low);
    assert_eq!(h.free_disk_mb, 100);
    assert_eq!(low_disk_warning(100, 5120), "Skipping cycle -- only 100 MB free (threshold: 5120 MB)");
    assert_eq!(low_disk_warning(-1, 1), "Skipping cycle -- only -1 MB free (threshold: 1 MB)");
    assert_eq!(low_disk_subject("SRV"), "[ProcDump] Low disk warning on SRV");
    assert!(low_disk_notify_due(None));
    assert!(!low_disk_notify_due(Some(3599)));
    assert!(low_disk_notify_due(Some(3600)));
}

#[test]
fn cycle_bookkeeping_resets_and_stamps() {
    let mut h = HealthStatus::default();
    h.last_error = "boom".into();
    h.disk_space_low = true;
    h.total_dump_count = 4;
    begin_cycle(&mut h);
    assert!(h.last_error.is_empty());
    assert!(!h.disk_space_low);
    assert!(!h.last_cycle_utc.is_empty());
    assert_eq!(h.total_dump_count, 4);
    end_cycle(&mut h);
    assert!(h.next_retry_utc.ends_with('Z'));
    assert_eq!(restart_delay_ticks(5), 50);
    assert_eq!(restart_delay_ticks(-3), 0);
}

#[test]
fn newest_dump_of_the_cycle_wins_ties_go_to_the_last() {
    let e = |n: &str, t: u128| DumpEntry { file_name: n.to_string(), modified: t };
    let entries = vec![e("a.dmp", 10), e("b.DMP", 30), e("c.txt", 50), e("d.dmp", 30), e("old.dmp", 1), e(".dmp", 99)];
    assert_eq!(newest_dump(&entries, 5), Some(3));
    assert_eq!(newest_dump(&entries, 31), None);
    assert_eq!(newest_dump(&vec![], 0), None);
    assert!(is_dump_file_name("x.Dmp"));
    assert!(!is_dump_file_name(".dmp"));
    assert!(!is_dump_file_name("dmp"));
    assert!(!is_dump_file_name("x.dmp.zip"));
}

#[test]
fn a_dump_is_announced_once() {
    let mut h = HealthStatus::default();
    assert_eq!(record_dump(&mut h, false, "x.dmp".into()), DumpOutcome::Unstable);
    assert_eq!(h.last_error, "Dump file still locked after timeout - notification suppressed.");
    assert_eq!(h.total_dump_count, 0);
    assert_eq!(record_dump(&mut h, true, "x.dmp".into()), DumpOutcome::Notify);
    assert_eq!(h.total_dump_count, 1);
    assert_eq!(h.last_notified_dump_file, "x.dmp");
    assert!(!h.last_notified_utc.is_empty());
    assert_eq!(record_dump(&mut h, true, "x.dmp".into()), DumpOutcome::Duplicate);
    assert_eq!(h.total_dump_count, 2);
    assert_eq!(record_dump(&mut h, true, "y.dmp".into()), DumpOutcome::Notify);
    assert_eq!(h.last_dump_file_name, "y.dmp");
}

#[test]
fn auto_collect_is_skipped_on_low_disk() {
    assert_eq!(auto_collect_action(false, false), AutoCollect::Off);
    assert_eq!(auto_collect_action(true, true), AutoCollect::SkippedLowDisk);
    assert_eq!(auto_collect_action(true, false), AutoCollect::Collect);
}

#[test]
fn cycle_stamps_are_rfc3339_utc_with_microseconds() {
    let mut h = logdump::health::HealthStatus::default();
    logdump::monitor::end_cycle(&mut h);
    logdump::monitor::heartbeat(&mut h);
    for s in [&h.next_retry_utc, &h.last_cycle_utc] {
        let b = s.as_bytes();
        let n = b.len();
        assert!(n >= 17 && b[n - 17] == b'T' && b[n - 8] == b'.' && b[n - 1] == b'Z', "{s}");
        assert_eq!(&s[n - 14..n - 13], ":");
    }
}
