use logdump::collect::datacoll;
use logdump::collect::discover::{
    bulk_update_candidates, find_dashboard_configs, find_install_history, install_cache_candidates,
    install_location, log_component_paths, parent_path, parse_reg_value, vendor_probe_paths, vendor_roots,
};
use logdump::collect::installlogs;
use logdump::collect::pdm_bundle::{dump_folder_listing, pdm_summary_line, pick_dumps_within_cap, DEFAULT_MAX_DUMP_BYTES};
use logdump::collect::syshealth::{self, process_snapshot_command, ps_filter, service_snapshot_command};
use logdump::collect::{
    compress_archive_command, evtx_query, robocopy_args, robocopy_failed, safe_name, wevtutil_args, RunContext,
};

const REG_SAMPLE: &str = "\r\nHKEY_LOCAL_MACHINE\\SOFTWARE\\WOW6432Node\\Sensormatic Electronics Corporation\\SWHSystem\\Setup\r\n    InstallLocation    REG_SZ    C:\\Program Files (x86)\\Tyco\r\n\r\n";

/// Probe answers for every path `vendor_roots` may ask about, from a rule.
fn probes(loc: Option<&str>, exists: &dyn Fn(&str) -> bool) -> Vec<(String, bool)> {
    vendor_probe_paths(loc).into_iter().map(|p| { let e = exists(&p); (p, e) }).collect()
}

#[test]
fn parses_reg_query_output() {
    assert_eq!(parse_reg_value(REG_SAMPLE, "InstallLocation").as_deref(), Some(r"C:\Program Files (x86)\Tyco"));
    assert_eq!(parse_reg_value("", "InstallLocation"), None);
    assert_eq!(parse_reg_value("garbage\nlines", "InstallLocation"), None);
    assert_eq!(install_location(Some(REG_SAMPLE)).as_deref(), Some(r"C:\Program Files (x86)\Tyco"));
    assert_eq!(install_location(None), None);
}

#[test]
fn reg_value_with_spaces_in_data_survives() {
    let out = "    InstallLocation    REG_EXPAND_SZ    C:\\My Dir\\Sub Dir\\Tyco\r\n";
    assert_eq!(parse_reg_value(out, "InstallLocation").as_deref(), Some(r"C:\My Dir\Sub Dir\Tyco"));
}

#[test]
fn vendor_roots_marker_dir_means_install_location_is_root() {
    let loc = r"D:\Apps\CCure";
    let p = probes(Some(loc), &|p| p == r"D:\Apps\CCure\CrossFire");
    let (jci, tyco) = vendor_roots(Some(loc), &p);
    assert_eq!(jci, loc);
    assert_eq!(tyco, loc);
}

#[test]
fn vendor_roots_tyco_segment_finds_sibling_jci() {
    let loc = r"C:\Program Files (x86)\Tyco\CrossFire";
    let p = probes(Some(loc), &|p| p == r"C:\Program Files (x86)\JCI");
    let (jci, tyco) = vendor_roots(Some(loc), &p);
    assert_eq!(tyco, r"C:\Program Files (x86)\Tyco");
    assert_eq!(jci, r"C:\Program Files (x86)\JCI");
}

#[test]
fn vendor_roots_tyco_segment_without_sibling_uses_tyco_for_both() {
    let loc = r"E:\Tyco\CrossFire";
    let p = probes(Some(loc), &|_| false);
    let (jci, tyco) = vendor_roots(Some(loc), &p);
    assert_eq!(tyco, r"E:\Tyco");
    assert_eq!(jci, r"E:\Tyco");
}

#[test]
fn vendor_roots_none_falls_back_to_pf86() {
    let (jci, tyco) = vendor_roots(None, &vec![]);
    assert_eq!(jci, r"C:\Program Files (x86)\JCI");
    assert_eq!(tyco, r"C:\Program Files (x86)\Tyco");
}

#[test]
fn vendor_roots_without_segment_use_subfolders_or_the_drive() {
    let loc = r"D:\Apps\CCure\";
    let p = probes(Some(loc), &|p| p == r"D:\Apps\CCure\JCI");
    let (jci, tyco) = vendor_roots(Some(loc), &p);
    assert_eq!(jci, r"D:\Apps\CCure\JCI");
    assert_eq!(tyco, r"D:\Program Files (x86)\Tyco");
    let (jci, _) = vendor_roots(Some("   "), &vec![]);
    assert_eq!(jci, r"C:\Program Files (x86)\JCI");
}

#[test]
fn log_component_paths_dedupe_when_roots_equal() {
    let comps = log_component_paths(r"D:\CCure", r"D:\CCure");
    assert_eq!(comps.len(), 7);
    assert!(comps.iter().all(|(_, p)| p.len() == 1));
    assert_eq!(comps[0].0, "CCure Portal logs");
    assert_eq!(comps[0].1[0], r"D:\CCure\CCure Portal\logs");
    let comps2 = log_component_paths(r"C:\PF\JCI", r"C:\PF\Tyco");
    assert!(comps2.iter().all(|(_, p)| p.len() == 2));
    let comps3 = log_component_paths(r"c:\CCure", r"C:/CCure/");
    assert!(comps3.iter().all(|(_, p)| p.len() == 1), "same folder spelled differently");
}

#[test]
fn bulk_update_candidates_unique_case_insensitive() {
    let dirs = bulk_update_candidates(
        Some(r"C:\Program Files (x86)\Tyco"),
        r"C:\Program Files (x86)\JCI",
        r"C:\Program Files (x86)\Tyco",
    );
    let set: std::collections::HashSet<String> = dirs.iter().map(|d| d.to_lowercase()).collect();
    assert_eq!(set.len(), dirs.len());
    assert_eq!(
        dirs,
        vec![
            r"C:\Program Files (x86)\Tyco\CrossFire\ServerComponents",
            r"C:\Program Files (x86)\CrossFire\ServerComponents",
            r"C:\Program Files (x86)\JCI\CrossFire\ServerComponents",
        ]
    );
}

#[test]
fn install_history_picks_the_first_newest() {
    let f = |p: &str, t: u128| (p.to_string(), t);
    assert_eq!(find_install_history(&vec![]), None);
    let found = vec![f("tyco", 5), f("jci", 9), f("jci2", 9)];
    assert_eq!(find_install_history(&found).as_deref(), Some("jci"));
    let cfgs = find_dashboard_configs(&vec![f("a", 1), f("b", 3), f("c", 3), f("d", 2)], 3);
    assert_eq!(cfgs, vec!["b", "c", "d"]);
    assert_eq!(
        install_cache_candidates(r"C:\ProgramData"),
        [r"C:\ProgramData\JCI\InstallCache".to_string(), r"C:\ProgramData\Tyco\InstallCache".to_string()]
    );
}

#[test]
fn evtx_query_seven_days_and_full() {
    assert_eq!(evtx_query(Some(7)).unwrap(), "*[System[TimeCreated[timediff(@SystemTime) <= 604800000]]]");
    assert!(evtx_query(None).is_none());
    assert_eq!(
        wevtutil_args("System", r"C:\o\System.evtx", Some(1)),
        vec![
            "epl",
            "System",
            r"C:\o\System.evtx",
            "/ow:true",
            "/q:*[System[TimeCreated[timediff(@SystemTime) <= 86400000]]]"
        ]
    );
    assert_eq!(wevtutil_args("Application", "x", None).len(), 4);
}

#[test]
fn safe_name_ports_convert_to_safe_name() {
    assert_eq!(safe_name("CCure Portal logs"), "CCure_Portal_logs");
    assert_eq!(safe_name("a<b>:c|d?*"), "a_b__c_d");
    assert_eq!(safe_name("  edges  "), "edges");
    assert_eq!(safe_name("tab\tand\nnew"), "tab_and_new");
}

#[test]
fn run_context_summary_and_folder_shape() {
    let mut ctx = RunContext::new(r"C:\Out");
    let run = ctx.run_dir.rsplit('\\').next().unwrap().to_string();
    assert!(run.starts_with("Run_") && run.len() == 10, "{run}");
    assert!(ctx.run_dir.starts_with(r"C:\Out\"));
    ctx.summarize("Data Collection: OK");
    let text = ctx.summary_text("1.0", "SRV");
    assert!(text.starts_with("LogDump Collection Summary\r\nVersion: 1.0\r\nMachine: SRV\r\nTime: "));
    assert!(text.ends_with("\r\n\r\nData Collection: OK\r\n"));
}

#[test]
fn robocopy_and_zip_fallback_commands() {
    let a = robocopy_args(r"C:\a", r"D:\b");
    assert_eq!(a[0], r"C:\a");
    assert_eq!(a[1], r"D:\b");
    assert_eq!(&a[2..], &["/E", "/Z", "/R:1", "/W:1", "/COPY:DAT", "/DCOPY:DAT", "/XJ", "/NFL", "/NDL", "/NP"]);
    assert!(robocopy_failed(Some(8)) && robocopy_failed(None) && !robocopy_failed(Some(7)));
    assert_eq!(
        compress_archive_command(r"C:\o'k\s", r"C:\z.zip"),
        r"Compress-Archive -Path 'C:\o''k\s\*' -DestinationPath 'C:\z.zip' -Force"
    );
}

#[test]
fn dump_cap_always_takes_newest_then_fills() {
    assert_eq!(pick_dumps_within_cap(&[3_000_000_000], 2_000_000_000), 1);
    assert_eq!(pick_dumps_within_cap(&[500, 500, 500, 500], 1200), 2);
    assert_eq!(pick_dumps_within_cap(&[], 100), 0);
    assert_eq!(pick_dumps_within_cap(&[600, 600], 1200), 2);
    assert_eq!(pick_dumps_within_cap(&[u64::MAX, 1], 10), 1);
    assert_eq!(DEFAULT_MAX_DUMP_BYTES, 2 * 1024 * 1024 * 1024);
    assert_eq!(pdm_summary_line(2, 5), "PDM bundle: logs, health, config (redacted), task state, 2/5 dumps");
}

#[test]
fn ps_filter_builds_like_clauses() {
    let f = ps_filter("ccure, sql", &["Name", "DisplayName"]);
    assert!(f.contains(r#"$_.Name -like "*ccure*""#));
    assert!(f.contains(r#"$_.DisplayName -like "*sql*""#));
    assert_eq!(f.matches(" -or ").count(), 3);
}

#[test]
fn ps_filter_empty_matches_all_and_escapes_quotes() {
    assert_eq!(ps_filter("", &["Name"]), "$true");
    assert_eq!(ps_filter(" , ", &["Name"]), "$true");
    let f = ps_filter("o'brien", &["Name"]);
    assert!(f.contains("o''brien"));
    assert_eq!(ps_filter("a\"b", &["Name"]), "$_.Name -like \"*a`\"b*\"");
}

#[test]
fn snapshot_commands_fill_filter_and_output_folder() {
    let p = process_snapshot_command("$true", r"C:\o'x");
    assert!(p.starts_with("$p=Get-Process -ErrorAction SilentlyContinue|Where-Object { $true }"));
    assert!(p.contains(r"'C:\o''x\Processes.json'"));
    assert!(!p.contains("{OUT}"));
    let s = service_snapshot_command("$true", r"C:\o");
    assert!(s.contains(r"'C:\o\Services.csv'"));
    let o = syshealth::Options::default();
    assert!(o.uptime && o.processes && o.services);
    assert_eq!(o.proc_patterns, syshealth::DEFAULT_PATTERNS);
}

#[test]
fn workflow_options_and_texts() {
    let d = datacoll::Options::default();
    assert!(d.components.is_empty() && !d.event_logs_full && !d.bulk_updates && d.pdm_bundle.is_none());
    assert_eq!(datacoll::event_log_days(false), Some(7));
    assert_eq!(datacoll::event_log_days(true), None);
    assert_eq!(datacoll::event_log_summary(false), "Event logs: Application + System (last 7 days)");
    assert_eq!(datacoll::component_summary(3, 7), "Data Collection: 3/7 log components captured");
    assert_eq!(datacoll::component_dest(r"C:\s", "CCure Web logs"), r"C:\s\Logs\CCure_Web_logs");
    assert_eq!(datacoll::dashboard_copy_name(2), "Dashboard.exe.config.2");
    let i = installlogs::Options::default();
    assert!(installlogs::discovers_history(&i));
    assert_eq!(installlogs::history_candidate(&i, Some("found".into())).as_deref(), Some("found"));
    let explicit = installlogs::Options { history_path: Some("given".into()), auto_discover: false, ..i };
    assert_eq!(installlogs::history_candidate(&explicit, Some("found".into())).as_deref(), Some("given"));
}

#[test]
fn run_folder_names_shape() {
    let (day, run) = logdump::collect::run_folder_names();
    assert_eq!(day.len(), 10);
    assert!(run.starts_with("Run_") && run.len() == 10);
}

#[test]
fn redaction_blanks_secrets_and_survives_bad_json() {
    let json = r#"{"SmtpServer":"m","SmtpUsername":"u","EncryptedPasswordBlob":"AAA=","EncryptedWebhookUrlBlob":"BBB="}"#;
    let red = logdump::collect::redact_config_json(json);
    assert!(!red.contains("AAA=") && !red.contains("BBB=") && !red.contains("\"u\""));
    assert!(red.contains("<redacted>") && red.contains("\"m\""));
    assert_eq!(logdump::collect::redact_config_json("{not json"), "{not json");
}

#[test]
fn redaction_leaves_json_without_secrets_alone() {
    let red = logdump::collect::redact_config_json(r#"{"SmtpServer":"m"}"#);
    assert!(!red.contains("<redacted>") && red.contains("\"SmtpServer\": \"m\""));
    assert_eq!(logdump::collect::redact_config_json("[1,2]"), "[\n  1,\n  2\n]");
}

#[test]
fn find_install_history_picks_newest() {
    let found = vec![
        (r"C:\ProgramData\Tyco\InstallerTemp\a\InstallHistory.xml".to_string(), 100u128),
        (r"C:\ProgramData\JCI\InstallerTemp\InstallHistory.xml".to_string(), 130u128),
    ];
    assert_eq!(
        find_install_history(&found).as_deref(),
        Some(r"C:\ProgramData\JCI\InstallerTemp\InstallHistory.xml")
    );
}

#[test]
fn run_context_writes_transcript_and_summary() {
    let mut ctx = RunContext::new(r"C:\Temp\pdm_collect_test");
    assert!(ctx.run_dir.starts_with(r"C:\Temp\pdm_collect_test\"));
    ctx.summarize("Data Collection: OK");
    let sum = ctx.summary_text("1.0", "HOST");
    assert!(sum.starts_with("LogDump Collection Summary\r\nVersion: 1.0\r\nMachine: HOST\r\nTime: "));
    assert!(sum.ends_with("\r\n\r\nData Collection: OK\r\n"));
}

#[test]
fn parent_path_follows_windows_rules() {
    assert_eq!(parent_path(r"C:\Tools\procdump.exe"), Some(r"C:\Tools".to_string()));
    assert_eq!(parent_path(r"C:\procdump.exe"), Some(r"C:\".to_string()));
    assert_eq!(parent_path(r"C:\"), None);
    assert_eq!(parent_path("procdump.exe"), Some(String::new()));
}

#[test]
fn dump_listing_shows_name_size_and_utc_time() {
    let entries = vec![
        ("b.dmp".to_string(), 2048u64, 1_700_000_000_123_000_000u128),
        ("a.dmp".to_string(), 10u64, 0u128),
    ];
    assert_eq!(
        dump_folder_listing(&entries),
        "Name\tSizeBytes\tModifiedUTC\r\nb.dmp\t2048\t2023-11-14 22:13:20\r\na.dmp\t10\t1970-01-01 00:00:00\r\n"
    );
    assert_eq!(dump_folder_listing(&vec![]), "Name\tSizeBytes\tModifiedUTC\r\n");
}

#[test]
fn safe_names_are_stable_under_a_second_pass() {
    for s in ["CCure Portal logs", "a<b>:c|d?*", "  edges  ", "__x  y__", "tab\tand\nnew", ""] {
        let once = safe_name(s);
        assert_eq!(safe_name(&once), once);
    }
}
