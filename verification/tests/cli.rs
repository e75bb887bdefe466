use printbar::cli::{build_sources, build_target, flag_value, parse_command, poll_sources, select_printer, Command};
use printbar::config::{Config, PrinterConfig};
use printbar::sources::SourceKind;

fn args(v: &[&str]) -> Vec<String> {
    v.iter().map(|s| s.to_string()).collect()
}

#[test]
fn commands() {
    assert_eq!(parse_command(&args(&["printbar", "oficina"])), Ok(Command::Poll("oficina".into())));
    assert_eq!(
        parse_command(&args(&["printbar", "action", "ews", "--printer", "oficina"])),
        Ok(Command::Action { kind: "ews".into(), printer: "oficina".into() })
    );
    assert_eq!(parse_command(&args(&["printbar"])), Err("usage: printbar <printer-name>".into()));
    assert_eq!(parse_command(&args(&["printbar", "action"])), Err("action: missing <ews|queue>".into()));
    assert_eq!(
        parse_command(&args(&["printbar", "action", "queue"])),
        Err("action: missing --printer <name>".into())
    );
}

#[test]
fn flag_values() {
    let a = args(&["p", "--printer", "x", "--printer", "y"]);
    assert_eq!(flag_value(&a, "--printer"), Some("x".into()));
    assert_eq!(flag_value(&args(&["p", "--printer"]), "--printer"), None);
    assert_eq!(flag_value(&args(&["p"]), "--printer"), None);
}

#[test]
fn target_timeout_is_clamped() {
    let mut p = PrinterConfig::default();
    p.timeout = 0;
    assert_eq!(build_target(&p).timeout_secs, 1);
    p.timeout = 600;
    assert_eq!(build_target(&p).timeout_secs, 60);
    p.timeout = 4;
    assert_eq!(build_target(&p).timeout_secs, 4);
}

#[test]
fn sources_follow_the_section() {
    let mut p = PrinterConfig::default();
    assert!(build_sources(&p).is_empty());
    assert_eq!(poll_sources("x", &p), Err("printer 'x' has neither host nor cups configured".into()));
    p.snmp.enabled = true;
    assert!(build_sources(&p).is_empty());
    p.cups = Some("Q".into());
    assert_eq!(build_sources(&p), vec![SourceKind::Cups]);
    p.host = Some("h".into());
    assert_eq!(build_sources(&p), vec![SourceKind::Ipp, SourceKind::Cups, SourceKind::Snmp]);
    assert_eq!(poll_sources("x", &p).unwrap().len(), 3);
}

#[test]
fn missing_section_error() {
    let cfg = Config { printer: vec![] };
    assert_eq!(select_printer(&cfg, "oficina").unwrap_err(), "no [printer.oficina] in config");
}
