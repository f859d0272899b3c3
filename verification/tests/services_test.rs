use logdump::services::parse_sc_output;

const SC_SAMPLE: &str = "SERVICE_NAME: Spooler\r
DISPLAY_NAME: Print Spooler\r
        TYPE               : 110  WIN32_OWN_PROCESS (interactive)\r
        STATE              : 4  RUNNING\r
                                (STOPPABLE, NOT_PAUSABLE, ACCEPTS_SHUTDOWN)\r
\r
SERVICE_NAME: Fax\r
DISPLAY_NAME: Fax\r
        TYPE               : 10  WIN32_OWN_PROCESS\r
        STATE              : 1  STOPPED\r
\r
";

#[test]
fn parses_name_display_state() {
    let svcs = parse_sc_output(SC_SAMPLE);
    assert_eq!(svcs.len(), 2);
    assert_eq!(svcs[0].name, "Spooler");
    assert_eq!(svcs[0].display, "Print Spooler");
    assert!(svcs[0].running);
    assert_eq!(svcs[1].name, "Fax");
    assert!(!svcs[1].running);
}

#[test]
fn lines_before_the_first_service_are_ignored() {
    let svcs = parse_sc_output("DISPLAY_NAME: orphan\n        STATE : 4 RUNNING\nSERVICE_NAME: A\n");
    assert_eq!(svcs.len(), 1);
    assert_eq!(svcs[0].name, "A");
    assert_eq!(svcs[0].display, "");
    assert!(!svcs[0].running);
    assert!(parse_sc_output("").is_empty());
}
