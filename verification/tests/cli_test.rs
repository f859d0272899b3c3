use logdump::cli::{all_workflow_names, parse, Verb, USAGE};

const DEFAULT_CONFIG: &str = r"C:\Tools\config.json";

fn s(v: &[&str]) -> Vec<String> {
    v.iter().map(|x| x.to_string()).collect()
}

#[test]
fn parses_verbs_with_and_without_dashes() {
    assert!(matches!(parse(&s(&["--monitor"]), DEFAULT_CONFIG).unwrap(), Verb::Monitor { .. }));
    assert!(matches!(parse(&s(&["install"]), DEFAULT_CONFIG).unwrap(), Verb::Install { .. }));
    assert!(matches!(parse(&s(&["--status"]), DEFAULT_CONFIG).unwrap(), Verb::Status { .. }));
    assert!(matches!(parse(&s(&["--version"]), DEFAULT_CONFIG).unwrap(), Verb::Version));
    assert!(matches!(parse(&s(&["help"]), DEFAULT_CONFIG).unwrap(), Verb::Help));
}

#[test]
fn config_override() {
    let Verb::Monitor { config } = parse(&s(&["--monitor", "--config", r"C:\x\c.json"]), DEFAULT_CONFIG).unwrap()
    else {
        panic!()
    };
    assert_eq!(config, r"C:\x\c.json");
}

#[test]
fn config_defaults_to_the_given_path() {
    let Verb::Stop { config } = parse(&s(&["STOP"]), DEFAULT_CONFIG).unwrap() else { panic!() };
    assert_eq!(config, DEFAULT_CONFIG);
}

#[test]
fn bad_verb_and_missing_config_value_error() {
    assert!(parse(&s(&["--frobnicate"]), DEFAULT_CONFIG).is_err());
    assert!(parse(&s(&["install", "--config"]), DEFAULT_CONFIG).is_err());
}

#[test]
fn error_texts_name_the_problem() {
    assert_eq!(parse(&s(&["--frobnicate"]), DEFAULT_CONFIG).unwrap_err(), "unknown verb: frobnicate");
    assert_eq!(parse(&s(&["install", "--config"]), DEFAULT_CONFIG).unwrap_err(), "--config requires a path");
    assert_eq!(parse(&s(&["install", "--bogus"]), DEFAULT_CONFIG).unwrap_err(), "unknown option: bogus");
    assert_eq!(parse(&s(&["collect", "--out"]), DEFAULT_CONFIG).unwrap_err(), "--out requires a path");
    assert_eq!(parse(&s(&["collect", "--workflows"]), DEFAULT_CONFIG).unwrap_err(), "--workflows requires a list");
}

#[test]
fn empty_args_is_err_not_panic() {
    assert_eq!(parse(&Vec::<String>::new(), DEFAULT_CONFIG).unwrap_err(), "no verb given");
}

#[test]
fn collect_defaults_to_all_workflows() {
    let Verb::Collect { out, workflows, .. } = parse(&s(&["collect"]), DEFAULT_CONFIG).unwrap() else {
        panic!()
    };
    assert!(out.is_none());
    assert_eq!(workflows, vec!["data", "install", "health", "pdm"]);
    assert_eq!(all_workflow_names(), vec!["data", "install", "health", "pdm"]);
}

#[test]
fn collect_parses_out_and_workflow_list() {
    let Verb::Collect { out, workflows, .. } =
        parse(&s(&["collect", "--out", r"C:\t", "--workflows", "data, pdm"]), DEFAULT_CONFIG).unwrap()
    else {
        panic!()
    };
    assert_eq!(out.unwrap(), r"C:\t");
    assert_eq!(workflows, vec!["data", "pdm"]);
}

#[test]
fn collect_rejects_unknown_and_empty_workflows() {
    assert!(parse(&s(&["collect", "--workflows", "frob"]), DEFAULT_CONFIG).is_err());
    assert!(parse(&s(&["collect", "--workflows", " , "]), DEFAULT_CONFIG).is_err());
    assert_eq!(
        parse(&s(&["collect", "--workflows", "DATA,Frob"]), DEFAULT_CONFIG).unwrap_err(),
        "unknown workflow: frob"
    );
    assert_eq!(
        parse(&s(&["collect", "--workflows", " , "]), DEFAULT_CONFIG).unwrap_err(),
        "--workflows requires a non-empty list"
    );
}

#[test]
fn usage_lists_every_verb() {
    for v in ["monitor", "install", "uninstall", "start", "stop", "status", "collect", "version", "help"] {
        assert!(USAGE.contains(v), "{v}");
    }
}
