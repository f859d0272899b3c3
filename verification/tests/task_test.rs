use logdump::task::{
    auto_task_name, parse_csv_line, sanitize_task_name, schtasks_outcome, status_from_query, task_registration,
    task_xml, to_utf16le_bom, xml_escape,
};

#[test]
fn sanitize_strips_reserved_chars() {
    assert_eq!(sanitize_task_name(r#"a\b/c:d*e?f"g<h>i|j"#), "abcdefghij");
    assert_eq!(auto_task_name("MyApp"), "ProcDump Monitor MyApp");
}

#[test]
fn xml_matches_proven_spike_structure() {
    let xml = task_xml("MyApp", r"C:\Tools\ProcDumpMonitor.exe", r"C:\Tools\config.json", r"C:\Tools");
    assert!(!xml.contains("<LogonType>"), "LogonType must be omitted for SYSTEM");
    assert!(xml.contains("<UserId>S-1-5-18</UserId>"));
    assert!(xml.contains("<RunLevel>HighestAvailable</RunLevel>"));
    assert!(xml.contains("<BootTrigger>"));
    assert!(xml.contains("<Interval>PT1M</Interval>"));
    assert!(xml.contains("<Count>999</Count>"));
    assert!(xml.contains("<MultipleInstancesPolicy>IgnoreNew</MultipleInstancesPolicy>"));
    assert!(xml.contains("<ExecutionTimeLimit>PT0S</ExecutionTimeLimit>"));
    assert!(xml.contains("<StartWhenAvailable>true</StartWhenAvailable>"));
    assert!(xml.contains(r"<Command>C:\Tools\ProcDumpMonitor.exe</Command>"));
    assert!(xml.contains(r#"<Arguments>--monitor --config &quot;C:\Tools\config.json&quot;</Arguments>"#));
    assert!(xml.contains(r"<WorkingDirectory>C:\Tools</WorkingDirectory>"));
    assert!(xml.contains("watches for MyApp"));
}

#[test]
fn xml_escapes_special_chars() {
    let xml = task_xml("A&B", r"C:\Tools & Co\p.exe", r"C:\x.json", r"C:\y");
    assert!(xml.contains("A&amp;B"));
    assert!(xml.contains(r"C:\Tools &amp; Co\p.exe"));
}

#[test]
fn xml_escape_covers_all_markup() {
    assert_eq!(xml_escape(r#"<a href="x">'&'</a>"#), "&lt;a href=&quot;x&quot;&gt;&apos;&amp;&apos;&lt;/a&gt;");
    assert_eq!(xml_escape("plain"), "plain");
}

#[test]
fn utf16le_bom_encoding() {
    let bytes = to_utf16le_bom("<a/>");
    assert_eq!(&bytes[..2], &[0xFF, 0xFE], "BOM required");
    assert_eq!(bytes.len(), 2 + 2 * 4);
    assert_eq!(&bytes[2..4], &[b'<', 0x00]);
}

#[test]
fn utf16le_matches_std_encoding_including_surrogates() {
    let text = "Zé€😀";
    let mut want = vec![0xFF, 0xFE];
    for u in text.encode_utf16() {
        want.extend_from_slice(&u.to_le_bytes());
    }
    assert_eq!(to_utf16le_bom(text), want);
}

#[test]
fn csv_line_parsing_handles_quotes() {
    let cols = parse_csv_line(r#""HOST","\PDM Task","N/A","Ready","x","07/21/2026 4:00:00 PM","0""#);
    assert_eq!(cols[1], r"\PDM Task");
    assert_eq!(cols[3], "Ready");
    assert_eq!(cols[6], "0");
}

#[test]
fn csv_doubled_quotes_and_commas_round_trip() {
    let cols = parse_csv_line(r#""a ""b"", c","",plain"#);
    assert_eq!(cols, vec![r#"a "b", c"#, "", "plain"]);
    assert_eq!(parse_csv_line(""), vec![""]);
}

#[test]
fn status_reads_the_data_row() {
    let csv = "\"HostName\",\"TaskName\",\"Next Run Time\",\"Status\",\"Logon Mode\",\"Last Run Time\",\"Last Result\"\r\n\"HOST\",\"\\PDM\",\"N/A\",\"Running\",\"Interactive\",\"07/21/2026 4:00:00 PM\",\"267009\"\r\n";
    let st = status_from_query("PDM", "HOST", Some(csv));
    assert!(st.exists);
    assert_eq!(st.task_name, "PDM");
    assert_eq!(st.machine_name, "HOST");
    assert_eq!(st.next_run_time, "N/A");
    assert_eq!(st.state, "Running");
    assert_eq!(st.last_run_time, "07/21/2026 4:00:00 PM");
    assert_eq!(st.last_run_result, "267009");
}

#[test]
fn status_of_a_failed_or_short_query_is_not_installed() {
    let st = status_from_query("PDM", "HOST", None);
    assert!(!st.exists);
    assert_eq!(st.state, "Not installed");
    let st = status_from_query("PDM", "HOST", Some("\"only\",\"header\"\r\n"));
    assert!(!st.exists);
    let st = status_from_query("PDM", "HOST", Some("h\r\n\"a\",\"b\"\r\n"));
    assert!(!st.exists);
    assert_eq!(st.state, "Not installed");
}

#[test]
fn schtasks_failure_prefers_stderr_unless_blank() {
    assert_eq!(schtasks_outcome(true, "out".into(), "err".into()), Ok("out".to_string()));
    assert_eq!(schtasks_outcome(false, "out".into(), "err".into()), Err("err".to_string()));
    assert_eq!(schtasks_outcome(false, "out".into(), " \r\n".into()), Err("out".to_string()));
}

#[test]
fn registration_refuses_a_name_that_sanitises_to_blank() {
    assert_eq!(
        task_registration(" :*? ", "App", "e.exe", "c.json", "w").unwrap_err(),
        "Task name is empty after sanitisation."
    );
    let t = task_registration("My:Task", "App", "e.exe", "c.json", "w").unwrap();
    assert_eq!(t.name, "MyTask");
    assert_eq!(t.xml, to_utf16le_bom(&task_xml("App", "e.exe", "c.json", "w")));
}
