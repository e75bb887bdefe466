use printbar::config::{OnMissing, PrinterConfig};
use printbar::model::{Color, InputTray, Level, PrinterState, Reason, Status, Supply, SupplyClass, SupplyKind};
use printbar::render::{levels_ok, render, render_template, status_icon, worst_class};
use printbar::theme::ThemeColors;

fn cfg() -> PrinterConfig {
    PrinterConfig::default()
}

fn consumed(name: &str, color: Color, pct: u8) -> Supply {
    Supply {
        name: name.into(),
        kind: SupplyKind::Toner,
        class: SupplyClass::Consumed,
        color_raw: None,
        color: Some(color),
        level: Level::Pct(pct),
        max_capacity: None,
        unit: None,
    }
}

#[test]
fn token_substitution_basic() {
    let mut st = PrinterState { status: Some(Status::Idle), ..Default::default() };
    st.supplies.push(consumed("Black", Color::Black, 54));
    let (text, _) = render_template("🖨 {supply_min}% {status_icon}", &st, OnMissing::Hide);
    assert_eq!(text, format!("🖨 54% {}", status_icon(Some(&Status::Idle))));
}

#[test]
fn hidden_token_absorbs_adjacent_literal() {
    let st = PrinterState::default();
    let (text, err) = render_template("{supply_min}% ok", &st, OnMissing::Hide);
    assert_eq!(text, "ok");
    assert!(!err);
}

#[test]
fn missing_token_error_mode() {
    let st = PrinterState::default();
    let (text, err) = render_template("{supply_min}", &st, OnMissing::Error);
    assert_eq!(text, "n/d");
    assert!(err);
}

#[test]
fn class_from_thresholds_consumed_vs_filled() {
    let mut c = cfg();
    c.thresholds.supply_low = 15;
    c.thresholds.supply_critical = 5;
    let mut consumed_low = PrinterState::default();
    consumed_low.supplies.push(consumed("Black", Color::Black, 4));
    assert_eq!(worst_class(&consumed_low, &c, false), "critical");

    let mut filled_high = PrinterState::default();
    filled_high.supplies.push(Supply {
        name: "Waste".into(),
        kind: SupplyKind::Waste,
        class: SupplyClass::Filled,
        color_raw: None,
        color: None,
        level: Level::Pct(96),
        max_capacity: None,
        unit: None,
    });
    assert_eq!(worst_class(&filled_high, &c, false), "critical");
}

#[test]
fn tooltip_caps_rows() {
    let t = ThemeColors::default();
    let mut c = cfg();
    c.tooltip.items = vec!["supplies".into()];
    c.tooltip.max_rows = 12;
    // The two border lines below are those of the framed tooltip.
    c.tooltip.frame = true;
    let mut st = PrinterState::default();
    for i in 0..20 {
        st.supplies.push(consumed(&format!("S{i}"), Color::Other, 50));
    }
    let tip = render(&st, &c, &t).tooltip;
    assert!(tip.contains("+8 more"));
    assert_eq!(tip.lines().count(), 12 + 1 + 2);
}

#[test]
fn plain_tooltip_caps_rows_without_frame() {
    let t = ThemeColors::default();
    let mut c = cfg();
    c.tooltip.items = vec!["supplies".into()];
    c.tooltip.max_rows = 12;
    let mut st = PrinterState::default();
    for i in 0..20 {
        st.supplies.push(consumed(&format!("S{i}"), Color::Other, 50));
    }
    let tip = render(&st, &c, &t).tooltip;
    assert!(tip.contains("+8 more"));
    assert_eq!(tip.lines().count(), 12 + 1);
    assert!(!tip.contains('╭'));
    assert!(!tip.contains("font_family"));
}

#[test]
fn alerts_fold_at_max_rows() {
    let t = ThemeColors::default();
    let mut c = cfg();
    c.tooltip.items = vec!["alerts".into()];
    c.tooltip.max_rows = 2;
    let st = PrinterState {
        reasons: vec![Reason::Jam, Reason::CoverOpen, Reason::MediaLow, Reason::Other("x".into())],
        ..Default::default()
    };
    let tip = render(&st, &c, &t).tooltip;
    assert_eq!(tip.lines().count(), 2 + 1);
    assert!(tip.contains("Paper jam"));
    assert!(tip.contains("Cover open"));
    assert!(!tip.contains("Paper low"));
    assert!(tip.contains("+2 more"));
}

#[test]
fn framed_tooltip_pins_the_font() {
    let t = ThemeColors::default();
    let mut c = cfg();
    c.tooltip.items = vec!["jobs".into()];
    c.tooltip.frame = true;
    let st = PrinterState { jobs: Some(1), ..Default::default() };
    let tip = render(&st, &c, &t).tooltip;
    assert!(tip.starts_with("<span font_family='JetBrainsMono Nerd Font Mono'><span foreground='#565f89'>╭"));
    assert!(tip.ends_with("╯</span></span>"));
    c.tooltip.frame_font = "Iosevka Nerd Font Mono".into();
    let tip = render(&st, &c, &t).tooltip;
    assert!(tip.starts_with("<span font_family='Iosevka Nerd Font Mono'>"));
    c.tooltip.frame = false;
    let tip = render(&st, &c, &t).tooltip;
    assert_eq!(tip, "<span foreground='#737aa2'>Jobs</span> <span foreground='#c0caf5'>1</span>");
}

#[test]
fn bar_escapes_model_and_name() {
    let mut c = cfg();
    c.bar.format = "{model}".into();
    c.bar.on_missing = OnMissing::Hide;
    let t = ThemeColors::default();
    let st = PrinterState {
        model: Some("A<b>&C".into()),
        name: Some("x&y".into()),
        ..Default::default()
    };
    assert_eq!(render(&st, &c, &t).text, "A&lt;b&gt;&amp;C");
    let (text, _) = render_template("{name}", &st, OnMissing::Hide);
    assert_eq!(text, "x&amp;y");
}

#[test]
fn unclosed_brace_stays_literal() {
    let st = PrinterState { jobs: Some(2), ..Default::default() };
    let (text, err) = render_template("jobs {jobs} {oops", &st, OnMissing::Hide);
    assert_eq!(text, "jobs 2 {oops");
    assert!(!err);
}

#[test]
fn unknown_token_is_missing() {
    let st = PrinterState::default();
    let (text, err) = render_template("a {nope}x b", &st, OnMissing::Hide);
    assert_eq!(text, "a b");
    assert!(!err);
    let (text, err) = render_template("a {nope}x b", &st, OnMissing::Error);
    assert_eq!(text, "a n/dx b");
    assert!(err);
}

#[test]
fn whitespace_collapses() {
    let st = PrinterState { pages: Some(165), ..Default::default() };
    let (text, _) = render_template("  {pages}\t\tpages  ", &st, OnMissing::Hide);
    assert_eq!(text, "165 pages");
}

#[test]
fn color_tokens_and_kind_minimums() {
    let mut st = PrinterState::default();
    st.supplies.push(consumed("K", Color::Black, 73));
    st.supplies.push(consumed("C", Color::Cyan, 54));
    let mut ink = consumed("Tri", Color::TriColor, 33);
    ink.kind = SupplyKind::Ink;
    st.supplies.push(ink);
    let (text, _) = render_template(
        "{black} {cyan} {magenta}% {toner_min} {ink_min} {supply_min}",
        &st,
        OnMissing::Hide,
    );
    assert_eq!(text, "73 54 54 33 33");
}

#[test]
fn filled_supply_contributes_headroom() {
    let mut st = PrinterState::default();
    st.supplies.push(consumed("K", Color::Black, 73));
    st.supplies.push(Supply {
        name: "Waste".into(),
        kind: SupplyKind::Waste,
        class: SupplyClass::Filled,
        color_raw: None,
        color: None,
        level: Level::Pct(90),
        max_capacity: None,
        unit: None,
    });
    let (text, _) = render_template("{supply_min}%", &st, OnMissing::Hide);
    assert_eq!(text, "10%");
}

#[test]
fn class_ranks() {
    let c = cfg();
    let ok = PrinterState { status: Some(Status::Idle), ..Default::default() };
    assert_eq!(worst_class(&ok, &c, false), "ok");
    assert_eq!(worst_class(&ok, &c, true), "error");
    let offline = PrinterState { status: Some(Status::Offline), ..Default::default() };
    assert_eq!(worst_class(&offline, &c, false), "offline");
    let stopped = PrinterState { status: Some(Status::Stopped), ..Default::default() };
    assert_eq!(worst_class(&stopped, &c, false), "critical");
    let low = PrinterState { reasons: vec![Reason::MediaLow], ..Default::default() };
    assert_eq!(worst_class(&low, &c, false), "warn");
    let mut toner = PrinterState::default();
    toner.supplies.push(consumed("K", Color::Black, 15));
    assert_eq!(worst_class(&toner, &c, false), "warn");
}

#[test]
fn render_sets_alt_to_class() {
    let c = cfg();
    let t = ThemeColors::default();
    let st = PrinterState { status: Some(Status::Offline), ..Default::default() };
    let out = render(&st, &c, &t);
    assert_eq!(out.class, vec!["offline".to_string()]);
    assert_eq!(out.alt, "offline");
}

#[test]
fn empty_state_tooltip_says_no_data() {
    let c = cfg();
    let t = ThemeColors::default();
    let out = render(&PrinterState::default(), &c, &t);
    assert_eq!(out.tooltip, "<span foreground='#737aa2'>no data</span>");
    assert_eq!(out.text, "\u{f042a}");
}

#[test]
fn tooltip_rows_for_items() {
    let mut c = cfg();
    c.tooltip.items = vec!["model".into(), "status".into(), "supplies".into(), "paper".into(), "jobs".into(), "pages".into(), "alerts".into()];
    c.tooltip.frame = true;
    let t = ThemeColors::default();
    let mut st = PrinterState {
        model: Some("HP <M477>".into()),
        status: Some(Status::Idle),
        jobs: Some(0),
        pages: Some(165),
        reasons: vec![Reason::Jam],
        ..Default::default()
    };
    st.supplies.push(consumed("Black Cartridge", Color::Black, 54));
    st.paper.push(InputTray { name: "Tray 2".into(), level: Level::SomeRemaining });
    let tip = render(&st, &c, &t).tooltip;
    assert!(tip.contains("HP &lt;M477&gt;"));
    assert!(tip.contains("▰▰▰▱▱ 54%"));
    assert!(tip.contains(">Tray 2</span> <span foreground='#c0caf5'>ok</span>"));
    assert!(tip.contains("Paper jam"));
    assert!(tip.contains(">165<"));
    assert_eq!(tip.lines().count(), 7 + 2);
}

#[test]
fn model_error_mode_shows_nd() {
    let mut c = cfg();
    c.tooltip.items = vec!["model".into()];
    c.tooltip.on_missing = OnMissing::Error;
    let t = ThemeColors::default();
    let tip = render(&PrinterState::default(), &c, &t).tooltip;
    assert!(tip.contains("Model"));
    assert!(tip.contains("n/d"));
}

#[test]
fn levels_ok_rejects_overfull_tank() {
    let mut st = PrinterState::default();
    st.supplies.push(Supply {
        name: "Waste".into(),
        kind: SupplyKind::Waste,
        class: SupplyClass::Filled,
        color_raw: None,
        color: None,
        level: Level::Pct(101),
        max_capacity: None,
        unit: None,
    });
    assert!(!levels_ok(&st));
    st.supplies[0].level = Level::Pct(100);
    assert!(levels_ok(&st));
}

#[test]
fn status_icons() {
    assert_eq!(status_icon(Some(&Status::Idle)), "\u{f02f}");
    assert_eq!(status_icon(Some(&Status::Stopped)), "\u{f071}");
    assert_eq!(status_icon(Some(&Status::Offline)), "\u{f127}");
    assert_eq!(status_icon(None), "\u{f059}");
}
