use printbar::config::PrinterConfig;
use printbar::model::{Level, PrinterState, Reason, Status, Supply, SupplyClass, SupplyKind};
use printbar::notify::{active_events, cache_file_name, diff_events, event_message, maybe_notify};

#[test]
fn transition_fires_once() {
    let cfg = vec!["jam".to_string()];
    assert_eq!(diff_events(&[], &["jam".into()], &cfg), vec!["jam".to_string()]);
    assert!(diff_events(&["jam".into()], &["jam".into()], &cfg).is_empty());
}

#[test]
fn only_configured_events_fire() {
    let cfg = vec!["jam".to_string()];
    assert!(diff_events(&[], &["offline".into()], &cfg).is_empty());
}

#[test]
fn cache_path_sanitizes_name() {
    let fname = cache_file_name("../evil/name");
    assert!(!fname.contains('/'));
    assert!(!fname.contains(".."));
    assert_eq!(fname, "printbar-___evil_name.json");
}

fn toner(pct: u8, class: SupplyClass) -> Supply {
    Supply {
        name: "K".into(),
        kind: SupplyKind::Toner,
        class,
        color_raw: None,
        color: None,
        level: Level::Pct(pct),
        max_capacity: None,
        unit: None,
    }
}

#[test]
fn active_events_in_order() {
    let cfg = PrinterConfig::default();
    let st = PrinterState {
        status: Some(Status::Offline),
        reasons: vec![Reason::SupplyEmpty, Reason::CoverOpen, Reason::Jam, Reason::MediaEmpty],
        supplies: vec![toner(10, SupplyClass::Consumed)],
        ..Default::default()
    };
    assert_eq!(
        active_events(&st, &cfg),
        vec!["jam", "media_empty", "cover_open", "offline", "supply_low", "supply_empty"]
    );
}

#[test]
fn filled_supply_is_not_low() {
    let cfg = PrinterConfig::default();
    let st = PrinterState { supplies: vec![toner(3, SupplyClass::Filled)], ..Default::default() };
    assert!(active_events(&st, &cfg).is_empty());
    let st = PrinterState { supplies: vec![toner(16, SupplyClass::Consumed)], ..Default::default() };
    assert!(active_events(&st, &cfg).is_empty());
}

#[test]
fn messages() {
    assert_eq!(event_message("jam"), "Paper jam");
    assert_eq!(event_message("offline"), "Printer offline");
    assert_eq!(event_message("supply_empty"), "Supply empty");
    assert_eq!(event_message("whatever"), "whatever");
}

#[test]
fn plan_of_a_poll() {
    let mut cfg = PrinterConfig::default();
    let st = PrinterState { reasons: vec![Reason::Jam, Reason::Offline], ..Default::default() };
    assert!(maybe_notify(&cfg, &st, &vec![]).is_none());
    cfg.notify.enabled = true;
    cfg.notify.events = vec!["jam".into(), "offline".into()];
    let plan = maybe_notify(&cfg, &st, &vec!["offline".into()]).unwrap();
    assert_eq!(plan.active, vec!["jam".to_string(), "offline".to_string()]);
    assert_eq!(plan.fire.len(), 1);
    assert_eq!(plan.fire[0].event, "jam");
    assert_eq!(plan.fire[0].message, "Paper jam");
    let again = maybe_notify(&cfg, &st, &plan.active).unwrap();
    assert!(again.fire.is_empty());
}

#[test]
fn every_reason_is_an_event() {
    let cfg = PrinterConfig::default();
    let st = PrinterState {
        status: Some(Status::Idle),
        reasons: vec![Reason::MediaLow],
        ..Default::default()
    };
    assert_eq!(active_events(&st, &cfg), vec!["media_low"]);
    let st = PrinterState {
        reasons: vec![
            Reason::Other("door-ajar".into()),
            Reason::Jam,
            Reason::Other("door-ajar".into()),
            Reason::Other("fuser-hot".into()),
        ],
        ..Default::default()
    };
    assert_eq!(active_events(&st, &cfg), vec!["jam", "door-ajar", "fuser-hot"]);
    assert_eq!(event_message("media_low"), "Paper low");
}
