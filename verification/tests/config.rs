use printbar::config::{Config, OnMissing, PrinterConfig};

#[test]
fn parses_section_with_defaults() {
    let mut p = PrinterConfig::default();
    p.host = Some("192.0.2.70".into());
    p.cups = Some("HP_M477fdw".into());
    p.snmp.enabled = true;
    p.bar.format = "🖨 {supply_min}%".into();
    p.tooltip.items = vec!["status".into(), "supplies".into()];
    let cfg = Config { printer: vec![("oficina".into(), p)] };
    let p = cfg.for_printer("oficina").unwrap();
    assert_eq!(p.host.as_deref(), Some("192.0.2.70"));
    assert_eq!(p.ipp_path, "/ipp/print");
    assert_eq!(p.timeout, 4);
    assert!(p.snmp.enabled);
    assert_eq!(p.snmp.community, "public");
    assert_eq!(p.bar.on_missing, OnMissing::Hide);
    assert_eq!(p.tooltip.items, vec!["status", "supplies"]);
    assert_eq!(p.tooltip.max_rows, 12);
    assert_eq!(p.thresholds.supply_low, 15);
}

#[test]
fn missing_printer_is_none() {
    let cfg = Config { printer: vec![] };
    assert!(cfg.for_printer("nope").is_none());
}

#[test]
fn default_section_values() {
    let p = PrinterConfig::default();
    assert_eq!(p.bar.format, "\u{f042a} {supply_min}%");
    assert_eq!(
        p.tooltip.items,
        vec!["model", "status", "alerts", "display", "supplies", "paper", "jobs", "pages"]
    );
    assert_eq!(p.thresholds.supply_critical, 5);
    assert!(!p.notify.enabled);
    assert!(!p.tooltip.frame);
    assert_eq!(p.tooltip.frame_font, "JetBrainsMono Nerd Font Mono");
}

#[test]
fn first_section_of_a_name_wins() {
    let mut a = PrinterConfig::default();
    a.timeout = 9;
    let b = PrinterConfig::default();
    let cfg = Config { printer: vec![("x".into(), a), ("y".into(), b.clone()), ("x".into(), b)] };
    assert_eq!(cfg.for_printer("x").unwrap().timeout, 9);
    assert_eq!(cfg.for_printer("y").unwrap().timeout, 4);
}
