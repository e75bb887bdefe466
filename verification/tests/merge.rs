use printbar::merge::merge;
use printbar::model::{Color, Level, PrinterState, Reason, Status, Supply, SupplyClass, SupplyKind};
use printbar::sources::{SourceKind, SourceOutcome};
use std::time::Duration;

fn ok(kind: SourceKind, partial: PrinterState) -> SourceOutcome {
    SourceOutcome { kind, partial, duration: Duration::ZERO, error: None }
}

fn supply(kind: SupplyKind, class: SupplyClass, name: &str, level: Level) -> Supply {
    Supply {
        name: name.into(),
        kind,
        class,
        color_raw: None,
        color: Some(Color::Black),
        level,
        max_capacity: None,
        unit: None,
    }
}

#[test]
fn supplies_taken_wholesale_from_highest_usable() {
    let snmp = PrinterState {
        supplies: vec![supply(SupplyKind::Waste, SupplyClass::Filled, "Waste", Level::Pct(20))],
        ..Default::default()
    };
    let cmyk = vec![
        supply(SupplyKind::Toner, SupplyClass::Consumed, "Black", Level::Pct(54)),
        supply(SupplyKind::Toner, SupplyClass::Consumed, "Cyan", Level::Pct(69)),
    ];
    let ipp = PrinterState { supplies: cmyk.clone(), ..Default::default() };
    let got = merge(&[ok(SourceKind::Snmp, snmp), ok(SourceKind::Ipp, ipp)]);
    assert_eq!(got.supplies, cmyk);
}

#[test]
fn jobs_prefer_cups_over_network() {
    let cups = PrinterState { jobs: Some(3), ..Default::default() };
    let ipp = PrinterState { jobs: Some(0), ..Default::default() };
    let got = merge(&[ok(SourceKind::Ipp, ipp), ok(SourceKind::Cups, cups)]);
    assert_eq!(got.jobs, Some(3));
}

#[test]
fn status_prefers_ipp() {
    let ipp = PrinterState { status: Some(Status::Printing), ..Default::default() };
    let snmp = PrinterState { status: Some(Status::Idle), ..Default::default() };
    let got = merge(&[ok(SourceKind::Snmp, snmp), ok(SourceKind::Ipp, ipp)]);
    assert_eq!(got.status, Some(Status::Printing));
}

#[test]
fn reasons_ipp_primary_plus_snmp_additive_deduped() {
    let ipp = PrinterState { reasons: vec![Reason::Jam], ..Default::default() };
    let snmp = PrinterState { reasons: vec![Reason::CoverOpen, Reason::Jam], ..Default::default() };
    let got = merge(&[ok(SourceKind::Ipp, ipp), ok(SourceKind::Snmp, snmp)]);
    assert_eq!(got.reasons, vec![Reason::Jam, Reason::CoverOpen]);
}

#[test]
fn all_sources_failed_is_offline() {
    let outs = vec![
        SourceOutcome::failed(SourceKind::Ipp, "no route".into(), Duration::ZERO),
        SourceOutcome::failed(SourceKind::Snmp, "timeout".into(), Duration::ZERO),
    ];
    let got = merge(&outs);
    assert_eq!(got.status, Some(Status::Offline));
    assert!(got.supplies.is_empty());
}

#[test]
fn no_outcomes_is_not_offline() {
    let got = merge(&[]);
    assert_eq!(got.status, None);
    assert!(got.supplies.is_empty());
    assert!(got.reasons.is_empty());
}

#[test]
fn one_failed_source_does_not_make_offline() {
    let ipp = PrinterState { status: Some(Status::Idle), ..Default::default() };
    let outs = vec![
        ok(SourceKind::Ipp, ipp),
        SourceOutcome::failed(SourceKind::Snmp, "timeout".into(), Duration::ZERO),
    ];
    let got = merge(&outs);
    assert_eq!(got.status, Some(Status::Idle));
}

#[test]
fn usable_snmp_supplies_win_over_ipp() {
    let snmp_set = vec![supply(SupplyKind::Toner, SupplyClass::Consumed, "K", Level::Pct(10))];
    let ipp_set = vec![supply(SupplyKind::Toner, SupplyClass::Consumed, "Black", Level::Pct(54))];
    let snmp = PrinterState { supplies: snmp_set.clone(), ..Default::default() };
    let ipp = PrinterState { supplies: ipp_set, ..Default::default() };
    let got = merge(&[ok(SourceKind::Ipp, ipp), ok(SourceKind::Snmp, snmp)]);
    assert_eq!(got.supplies, snmp_set);
}

#[test]
fn lone_waste_row_shows_when_nothing_better() {
    let waste = vec![supply(SupplyKind::Waste, SupplyClass::Filled, "Waste", Level::Pct(20))];
    let snmp = PrinterState { supplies: waste.clone(), ..Default::default() };
    let ipp = PrinterState::default();
    let got = merge(&[ok(SourceKind::Ipp, ipp), ok(SourceKind::Snmp, snmp)]);
    assert_eq!(got.supplies, waste);
}

#[test]
fn model_and_pages_prefer_snmp_then_ipp() {
    let snmp = PrinterState { pages: Some(165), ..Default::default() };
    let ipp = PrinterState { model: Some("HP M477".into()), pages: Some(1), ..Default::default() };
    let got = merge(&[ok(SourceKind::Ipp, ipp), ok(SourceKind::Snmp, snmp)]);
    assert_eq!(got.pages, Some(165));
    assert_eq!(got.model.as_deref(), Some("HP M477"));
}

#[test]
fn first_outcome_of_a_kind_counts() {
    let a = PrinterState { status: Some(Status::Stopped), ..Default::default() };
    let b = PrinterState { status: Some(Status::Idle), ..Default::default() };
    let got = merge(&[ok(SourceKind::Ipp, a), ok(SourceKind::Ipp, b)]);
    assert_eq!(got.status, Some(Status::Stopped));
}

#[test]
fn other_reasons_deduplicate_by_text() {
    let ipp = PrinterState { reasons: vec![Reason::Other("x".into())], ..Default::default() };
    let cups = PrinterState {
        reasons: vec![Reason::Other("x".into()), Reason::Other("y".into())],
        ..Default::default()
    };
    let got = merge(&[ok(SourceKind::Ipp, ipp), ok(SourceKind::Cups, cups)]);
    assert_eq!(got.reasons, vec![Reason::Other("x".into()), Reason::Other("y".into())]);
}

#[test]
fn failed_snmp_changes_nothing() {
    let ipp = PrinterState {
        status: Some(Status::Idle),
        jobs: Some(2),
        model: Some("HP M477".into()),
        reasons: vec![Reason::Jam],
        supplies: vec![supply(SupplyKind::Toner, SupplyClass::Consumed, "Black", Level::Pct(54))],
        ..Default::default()
    };
    let alone = merge(&[ok(SourceKind::Ipp, ipp.clone())]);
    let with_failed_snmp = merge(&[
        ok(SourceKind::Ipp, ipp),
        SourceOutcome::failed(SourceKind::Snmp, "timeout".into(), Duration::ZERO),
    ]);
    assert_eq!(alone, with_failed_snmp);
    assert_eq!(alone.status, Some(Status::Idle));
    assert_eq!(alone.reasons, vec![Reason::Jam]);
}
