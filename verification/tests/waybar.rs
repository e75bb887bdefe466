use printbar::waybar::{
    bold_fg, border_line, bottom_border, error_waybar, fg, pango_escape, separator, top_border,
    visible_len,
};

#[test]
fn fg_wraps_in_pango_span() {
    assert_eq!(fg("#fff", "x"), "<span foreground='#fff'>x</span>");
}

#[test]
fn visible_len_ignores_markup_and_entities() {
    assert_eq!(visible_len("<span foreground='#fff'>ab</span>"), 2);
    assert_eq!(visible_len("a&amp;b"), 3);
}

#[test]
fn error_output_fields() {
    let out = error_waybar("boom");
    assert_eq!(out.text, "?");
    assert_eq!(out.tooltip, "boom");
    assert_eq!(out.class, vec!["error".to_string()]);
    assert_eq!(out.alt, "error");
}

#[test]
fn escape_and_bold() {
    assert_eq!(pango_escape("a<b>&c"), "a&lt;b&gt;&amp;c");
    assert_eq!(bold_fg("#abc", "x"), "<span font_weight='bold' foreground='#abc'>x</span>");
}

#[test]
fn colored_text_has_its_plain_width() {
    assert_eq!(visible_len(&fg("#123456", "hello")), 5);
    assert_eq!(visible_len(&bold_fg("#123456", "wide")), 4);
}

#[test]
fn frame_pieces() {
    assert_eq!(top_border(2, "#b"), "<span foreground='#b'>╭────╮</span>");
    assert_eq!(bottom_border(0, "#b"), "<span foreground='#b'>╰──╯</span>");
    let bar = "<span foreground='#b'>│</span>";
    assert_eq!(border_line("ab", 4, "#b"), format!("{bar} ab   {bar}"));
    assert_eq!(border_line("abcdef", 4, "#b"), format!("{bar} abcdef {bar}"));
    assert_eq!(
        separator(2, "#b", "#d"),
        format!("{bar} <span foreground='#d'>──</span> {bar}")
    );
}

#[test]
fn escaped_text_holds_no_markup() {
    let raw = "<span foreground='#f00'>x</span> & more";
    let e = pango_escape(raw);
    assert!(!e.contains('<'));
    assert!(!e.contains('>'));
    assert_eq!(visible_len(&fg("#000", &e)), raw.chars().count());
}

#[test]
fn error_tooltip_is_escaped() {
    let out = error_waybar("bad <uri> & co");
    assert_eq!(out.text, "?");
    assert_eq!(out.tooltip, "bad &lt;uri&gt; &amp; co");
    assert_eq!(out.class, vec!["error".to_string()]);
    assert_eq!(out.alt, "error");
}
