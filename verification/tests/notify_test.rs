use logdump::config::Config;
use logdump::notify::{
    check_addresses, dump_email, dump_email_at, split_addresses, test_email_at, tls_mode, uses_smtp_credentials,
    webhook_payload_dump, webhook_payload_dump_at, webhook_payload_warning, NotifyJob, NotifyQueue, TlsMode,
    QUEUE_CAPACITY,
};

#[test]
fn address_splitting() {
    assert_eq!(split_addresses(" a@x.com ; ;b@y.com;"), vec!["a@x.com", "b@y.com"]);
    assert!(split_addresses("").is_empty());
}

#[test]
fn tls_mode_selection_matches_csharp() {
    assert_eq!(tls_mode(true, 465), TlsMode::Wrapper);
    assert_eq!(tls_mode(true, 587), TlsMode::Required);
    assert_eq!(tls_mode(false, 25), TlsMode::Opportunistic);
}

#[test]
fn dump_email_format() {
    let (subject, body) = dump_email("MyApp", "SERVER01", r"C:\Dumps\MyApp_1.dmp");
    assert_eq!(subject, "[LogDump] Dump created for MyApp on SERVER01");
    assert!(body.contains("Target:     MyApp"));
    assert!(body.contains("Computer:   SERVER01"));
    assert!(body.contains(r"Dump File:  C:\Dumps\MyApp_1.dmp"));
    assert!(body.contains("Timestamp:  "));
}

#[test]
fn dump_email_exact_text() {
    let (s, b) = dump_email_at("A", "M", r"C:\d.dmp", "2026-07-21 16:00:00");
    assert_eq!(s, "[LogDump] Dump created for A on M");
    assert_eq!(
        b,
        "A process dump was captured.\r\n\r\nTarget:     A\r\nComputer:   M\r\nDump File:  C:\\d.dmp\r\nTimestamp:  2026-07-21 16:00:00\r\n"
    );
    let (ts, tb) = test_email_at("M", "T");
    assert_eq!(ts, "[LogDump] Test email from M");
    assert_eq!(tb, "This is a test email from LogDump.\r\n\r\nComputer:   M\r\nTimestamp:  T\r\n");
}

#[test]
fn webhook_payload_is_messagecard() {
    let p = webhook_payload_dump("MyApp", "SERVER01", r"C:\d\x.dmp");
    assert_eq!(p.type_, "MessageCard");
    assert_eq!(p.theme_color, "FF0000");
    assert!(p.summary.contains("Dump created for MyApp"));
    assert_eq!(p.title, "[LogDump] Dump created for MyApp on SERVER01");
    let w = webhook_payload_warning("subj", "msg");
    assert_eq!(w.theme_color, "FFAA00");
    assert_eq!((w.summary.as_str(), w.title.as_str(), w.text.as_str()), ("subj", "subj", "msg"));
    let q = webhook_payload_dump_at("A", "M", "P", "T");
    assert_eq!(q.text, "**Target:** A\n\n**Computer:** M\n\n**Dump File:** P\n\n**Timestamp:** T");
}

#[test]
fn address_check_names_the_bad_address() {
    assert_eq!(check_addresses("pdm@x.com", "a@x.com; b@y.com", ""), Ok(()));
    let e = check_addresses("not an address", "a@x.com", "").unwrap_err();
    assert!(e.starts_with("From: "), "{e}");
    let e = check_addresses("pdm@x.com", "a@x.com;bogus", "").unwrap_err();
    assert!(e.starts_with("To 'bogus': "), "{e}");
    let e = check_addresses("pdm@x.com", "a@x.com", "c@z.com; @@").unwrap_err();
    assert!(e.starts_with("Cc '@@': "), "{e}");
    assert!(uses_smtp_credentials(" user "));
    assert!(!uses_smtp_credentials("  "));
}

#[test]
fn queue_keeps_order_and_drops_when_full() {
    let mut q = NotifyQueue::new();
    let mut cfg = Config::default();
    cfg.email_enabled = true;
    cfg.webhook_enabled = true;
    cfg.target_name = "App".into();
    assert_eq!(q.enqueue_dump(cfg.snapshot(), "d1.dmp".into()), 0);
    assert_eq!(q.len(), 2);
    match q.take() {
        Some(NotifyJob::DumpEmail { cfg: c, dump_path }) => {
            assert_eq!(dump_path, "d1.dmp");
            assert_eq!(c.target_name, "App");
        }
        _ => panic!("email first"),
    }
    assert!(matches!(q.take(), Some(NotifyJob::DumpWebhook { .. })));
    assert!(q.take().is_none());
    for _ in 0..QUEUE_CAPACITY {
        assert!(q.enqueue(NotifyJob::WarningWebhook { cfg: Config::default(), subject: "s".into(), message: "m".into() }));
    }
    assert!(!q.enqueue(NotifyJob::WarningWebhook { cfg: Config::default(), subject: "s".into(), message: "m".into() }));
    assert_eq!(q.enqueue_warning(cfg, "s".into(), "m".into()), 2);
    assert_eq!(q.len(), QUEUE_CAPACITY);
}

#[test]
fn disabled_channels_queue_nothing() {
    let mut q = NotifyQueue::new();
    assert_eq!(q.enqueue_dump(Config::default(), "x".into()), 0);
    assert_eq!(q.len(), 0);
}
