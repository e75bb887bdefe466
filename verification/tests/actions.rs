use printbar::actions::{action_url, ews_url, queue_url};
use printbar::config::PrinterConfig;

fn pc(host: Option<&str>, cups: Option<&str>, ews: Option<&str>) -> PrinterConfig {
    let mut p = PrinterConfig::default();
    p.host = host.map(|s| s.to_string());
    p.cups = cups.map(|s| s.to_string());
    p.actions.ews_url = ews.map(|s| s.to_string());
    p
}

#[test]
fn ews_from_host() {
    let p = pc(Some("192.168.1.70"), None, None);
    assert_eq!(ews_url(&p).unwrap(), "http://192.168.1.70");
}

#[test]
fn ews_explicit_url_wins() {
    let p = pc(Some("192.168.1.70"), None, Some("https://printer.local:443"));
    assert_eq!(ews_url(&p).unwrap(), "https://printer.local:443");
}

#[test]
fn ews_brackets_ipv6() {
    let p = pc(Some("fe80::1"), None, None);
    assert_eq!(ews_url(&p).unwrap(), "http://[fe80::1]");
}

#[test]
fn queue_uses_cups() {
    let p = pc(Some("h"), Some("HP_M477fdw"), None);
    assert_eq!(queue_url(&p).unwrap(), "http://localhost:631/printers/HP_M477fdw");
}

#[test]
fn ews_needs_a_host() {
    let p = pc(None, None, None);
    assert_eq!(ews_url(&p).unwrap_err(), "ews: no host configured");
    assert_eq!(queue_url(&p).unwrap_err(), "ews: no host configured");
}

#[test]
fn ews_host_with_scheme_is_kept() {
    let p = pc(Some("https://[fe80::1]:8443"), None, None);
    assert_eq!(ews_url(&p).unwrap(), "https://[fe80::1]:8443");
}

#[test]
fn queue_without_cups_is_ews() {
    let p = pc(Some("printer.lan:8080"), None, None);
    assert_eq!(queue_url(&p).unwrap(), "http://printer.lan:8080");
}

#[test]
fn actions_by_name() {
    let p = pc(Some("h"), Some("Q"), None);
    assert_eq!(action_url("ews", &p).unwrap(), "http://h");
    assert_eq!(action_url("queue", &p).unwrap(), "http://localhost:631/printers/Q");
    assert_eq!(action_url("print", &p).unwrap_err(), "unknown action 'print'");
}
