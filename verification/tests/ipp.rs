use printbar::model::{Color, Level, Reason, Status, SupplyClass, SupplyKind};
use printbar::sources::ipp::{
    bounded_attr_map, bracket_ipv6, parse_attrs, wanted_attributes, AttrMap, AttrVal, IppSource,
};
use printbar::sources::{SourceKind, Target};
use std::time::Duration;

fn m(pairs: &[(&str, Vec<AttrVal>)]) -> AttrMap {
    let mut map = AttrMap::new();
    for (k, v) in pairs {
        map.insert(k.to_string(), v.clone());
    }
    map
}
fn s(x: &str) -> AttrVal {
    AttrVal::Str(x.into())
}
fn i(x: i64) -> AttrVal {
    AttrVal::Int(x)
}

#[test]
fn parses_m477_laser_fixture() {
    let map = m(&[
        ("printer-state", vec![i(3)]),
        ("printer-state-reasons", vec![s("none")]),
        (
            "marker-names",
            vec![s("Black Cartridge"), s("Cyan Cartridge"), s("Magenta Cartridge"), s("Yellow Cartridge")],
        ),
        ("marker-colors", vec![s("#000000"), s("#00FFFF"), s("#FF00FF"), s("#FFFF00")]),
        ("marker-levels", vec![i(73), i(54), i(81), i(69)]),
        ("marker-types", vec![s("toner"), s("toner"), s("toner"), s("toner")]),
        ("queued-job-count", vec![i(0)]),
        ("printer-make-and-model", vec![s("HP Color LaserJet MFP M477fdw")]),
    ]);
    let st = parse_attrs(&map);
    assert_eq!(st.status, Some(Status::Idle));
    assert_eq!(st.jobs, Some(0));
    assert!(st.model.as_deref().unwrap().contains("M477"));
    assert_eq!(st.supplies.len(), 4);
    assert_eq!(st.supplies[0].color, Some(Color::Black));
    assert_eq!(st.supplies[0].kind, SupplyKind::Toner);
    assert_eq!(st.supplies[0].level, Level::Pct(73));
    assert!(st.supplies[0].is_usable());
}

#[test]
fn parses_inkjet_with_tricolor() {
    let map = m(&[
        ("printer-state", vec![i(4)]),
        ("marker-names", vec![s("Black Ink"), s("Tri-color Ink")]),
        ("marker-colors", vec![s("black"), s("tri-color")]),
        ("marker-levels", vec![i(40), i(60)]),
        ("marker-types", vec![s("ink"), s("ink")]),
    ]);
    let st = parse_attrs(&map);
    assert_eq!(st.status, Some(Status::Printing));
    assert_eq!(st.supplies.len(), 2);
    assert!(st.supplies.iter().all(|s| s.kind == SupplyKind::Ink));
    assert_eq!(st.supplies[1].color, Some(Color::TriColor));
}

#[test]
fn malformed_short_arrays_do_not_panic() {
    let map = m(&[
        ("marker-names", vec![s("A"), s("B"), s("C"), s("D")]),
        ("marker-levels", vec![i(50), i(60)]),
        ("marker-types", vec![s("toner")]),
    ]);
    let st = parse_attrs(&map);
    assert_eq!(st.supplies.len(), 4);
    assert_eq!(st.supplies[2].level, Level::Unknown);
    assert!(!st.supplies[2].is_usable());
}

#[test]
fn sentinels_and_reasons() {
    let map = m(&[
        ("printer-state", vec![i(5)]),
        ("printer-state-reasons", vec![s("media-jam"), s("toner-low-warning"), s("none")]),
        ("marker-names", vec![s("Black")]),
        ("marker-levels", vec![i(-2)]),
        ("marker-types", vec![s("toner")]),
    ]);
    let st = parse_attrs(&map);
    assert_eq!(st.status, Some(Status::Stopped));
    assert_eq!(st.reasons, vec![Reason::Jam, Reason::SupplyLow]);
    assert_eq!(st.supplies[0].level, Level::Unknown);
}

#[test]
fn level_sentinels_are_distinct_and_capped() {
    let map = m(&[
        ("marker-names", vec![s("a"), s("b"), s("c"), s("d"), s("e")]),
        ("marker-levels", vec![i(-1), i(-2), i(-3), i(250), i(-7)]),
    ]);
    let st = parse_attrs(&map);
    assert_eq!(st.supplies[0].level, Level::NoRestriction);
    assert_eq!(st.supplies[1].level, Level::Unknown);
    assert_eq!(st.supplies[2].level, Level::SomeRemaining);
    assert_eq!(st.supplies[3].level, Level::Pct(100));
    assert_eq!(st.supplies[4].level, Level::Unknown);
}

#[test]
fn missing_names_are_numbered_and_waste_is_filled() {
    let map = m(&[
        ("marker-names", vec![s("Black")]),
        ("marker-levels", vec![i(10), i(20)]),
        ("marker-types", vec![s("toner"), s("Waste-Toner")]),
    ]);
    let st = parse_attrs(&map);
    assert_eq!(st.supplies[1].name, "Supply 2");
    assert_eq!(st.supplies[1].kind, SupplyKind::Waste);
    assert_eq!(st.supplies[1].class, SupplyClass::Filled);
    assert!(!st.supplies[1].is_usable());
    assert_eq!(st.supplies[1].color, None);
    assert_eq!(st.supplies[1].color_raw, None);
}

#[test]
fn colors_are_trimmed_and_lowercased() {
    let map = m(&[
        ("marker-names", vec![s("a"), s("b"), s("c"), s("d"), s("e")]),
        ("marker-colors", vec![s("  CYAN "), s("none"), s("Photo Black"), s("#123456"), s("")]),
    ]);
    let st = parse_attrs(&map);
    assert_eq!(st.supplies[0].color, Some(Color::Cyan));
    assert_eq!(st.supplies[0].color_raw.as_deref(), Some("  CYAN "));
    assert_eq!(st.supplies[1].color, None);
    assert_eq!(st.supplies[2].color, Some(Color::Photo));
    assert_eq!(st.supplies[3].color, Some(Color::Other));
    assert_eq!(st.supplies[4].color, None);
}

#[test]
fn drum_kinds_and_other() {
    let map = m(&[
        ("marker-names", vec![s("a"), s("b"), s("c")]),
        ("marker-types", vec![s("opc"), s("Imaging-Unit"), s("staples")]),
    ]);
    let st = parse_attrs(&map);
    assert_eq!(st.supplies[0].kind, SupplyKind::Drum);
    assert_eq!(st.supplies[1].kind, SupplyKind::Drum);
    assert_eq!(st.supplies[2].kind, SupplyKind::Other);
}

#[test]
fn reason_mapping_covers_each_condition() {
    let map = m(&[(
        "printer-state-reasons",
        vec![
            s("cover-open-error"),
            s("media-low-report"),
            s("media-empty-warning"),
            s("waste-receptacle-full"),
            s("offline-report"),
            s("spool-area-full"),
            s("media-jam-error"),
            s("marker-supply-low-warning-warning"),
        ],
    )]);
    let st = parse_attrs(&map);
    assert_eq!(
        st.reasons,
        vec![
            Reason::CoverOpen,
            Reason::MediaLow,
            Reason::MediaEmpty,
            Reason::SupplyEmpty,
            Reason::Offline,
            Reason::Other("spool-area-full".into()),
            Reason::Jam,
            Reason::SupplyLow,
        ]
    );
}

#[test]
fn jobs_negative_count_is_zero_and_strings_are_skipped() {
    let map = m(&[
        ("queued-job-count", vec![s("x"), i(-4)]),
        ("printer-info", vec![i(1), s("Office")]),
    ]);
    let st = parse_attrs(&map);
    assert_eq!(st.jobs, Some(0));
    assert_eq!(st.name.as_deref(), Some("Office"));
    assert_eq!(st.status, None);
}

#[test]
fn later_insert_replaces_earlier() {
    let mut map = AttrMap::new();
    map.insert("printer-state".into(), vec![i(3)]);
    map.insert("printer-state".into(), vec![i(5)]);
    assert_eq!(map.get("printer-state"), Some(&vec![i(5)]));
    assert_eq!(map.get("nope"), None);
    assert_eq!(parse_attrs(&map).status, Some(Status::Stopped));
}

#[test]
fn bounded_map_caps_values_and_strings() {
    let long: String = std::iter::repeat('a').take(5000).collect();
    let mut vals: Vec<Option<AttrVal>> = vec![None, Some(i(7)), Some(AttrVal::Str(long.clone()))];
    for _ in 0..300 {
        vals.push(Some(i(1)));
    }
    let group = vec![(long.clone(), vals)];
    let map = bounded_attr_map(&group);
    let key: String = std::iter::repeat('a').take(4096).collect();
    let got = map.get(&key).unwrap();
    assert_eq!(got.len(), 255);
    assert_eq!(got[0], i(7));
    match &got[1] {
        AttrVal::Str(s) => assert_eq!(s.chars().count(), 4096),
        _ => panic!("expected a string"),
    }
}

#[test]
fn bracket_ipv6_only_bare_literals() {
    assert_eq!(bracket_ipv6("fe80::1"), "[fe80::1]");
    assert_eq!(bracket_ipv6("[fe80::1]"), "[fe80::1]");
    assert_eq!(bracket_ipv6("192.168.1.70"), "192.168.1.70");
    assert_eq!(bracket_ipv6("host:631"), "host:631");
}

fn target(host: Option<&str>, cups: Option<&str>) -> Target {
    Target {
        host: host.map(|h| h.to_string()),
        ipp_path: "/ipp/print".into(),
        cups: cups.map(|c| c.to_string()),
        snmp_enabled: false,
        community: "public".into(),
        timeout_secs: 4,
    }
}

#[test]
fn source_uris() {
    let ipp = IppSource { kind: SourceKind::Ipp };
    let cups = IppSource { kind: SourceKind::Cups };
    assert_eq!(ipp.uri(&target(Some("fe80::1"), None)), "ipp://[fe80::1]/ipp/print");
    assert_eq!(ipp.uri(&target(Some("192.168.1.70"), None)), "ipp://192.168.1.70/ipp/print");
    assert_eq!(cups.uri(&target(None, Some("HP_M477fdw"))), "ipp://localhost:631/printers/HP_M477fdw");
}

#[test]
fn source_outcomes() {
    let src = IppSource { kind: SourceKind::Cups };
    let good = src.outcome(Ok(m(&[("printer-state", vec![i(3)])])), Duration::ZERO);
    assert_eq!(good.kind, SourceKind::Cups);
    assert!(good.error.is_none());
    assert_eq!(good.partial.status, Some(Status::Idle));
    let bad = src.outcome(Err("ipp send: refused".into()), Duration::ZERO);
    assert_eq!(bad.error.as_deref(), Some("ipp send: refused"));
    assert_eq!(bad.partial.status, None);
}

#[test]
fn wanted_attributes_are_the_read_ones() {
    let w = wanted_attributes();
    assert_eq!(w.len(), 9);
    assert!(w.contains(&"marker-levels"));
    assert!(w.contains(&"queued-job-count"));
}

#[test]
fn severity_suffix_is_ignored() {
    for suffix in ["", "-warning", "-error", "-report"] {
        let map = m(&[(
            "printer-state-reasons",
            vec![s(&format!("fuser-over-temp{suffix}")), s(&format!("none{suffix}"))],
        )]);
        let st = parse_attrs(&map);
        assert_eq!(st.reasons, vec![Reason::Other("fuser-over-temp".into())]);
    }
}
