use printbar::theme::ThemeColors;

fn e(k: &str, v: &str) -> (String, String) {
    (k.to_string(), v.to_string())
}

#[test]
fn palette_from_theme_table() {
    let entries = vec![
        e("foreground", "#a9b1d6"),
        e("accent", "#bb9af7"),
        e("color1", "#ff0000"),
        e("error", "red"),
        e("color8", "#444b6a"),
        e("green", "#00ff00"),
        e("color2", "#008800"),
        e("color3", "#ffff00; x='"),
    ];
    let t = ThemeColors::from_entries(&entries);
    assert_eq!(t.text, "#a9b1d6");
    assert_eq!(t.accent, "#bb9af7");
    assert_eq!(t.error, "#ff0000");
    assert_eq!(t.border, "#444b6a");
    assert_eq!(t.dim, "#444b6a");
    assert_eq!(t.green, "#00ff00");
    assert_eq!(t.yellow, "#e0af68");
    assert_eq!(t.orange, "#ff9e64");
}

#[test]
fn empty_table_keeps_fallback() {
    let t = ThemeColors::from_entries(&Vec::new());
    let d = ThemeColors::default();
    assert_eq!(t.border, d.border);
    assert_eq!(t.text, d.text);
    assert_eq!(t.error, d.error);
}
