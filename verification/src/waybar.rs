//! The Waybar output record and the Pango/box-drawing helpers of the tooltip.
use crate::text::{push_char, repeat, repeat_str, to_chars};
use vstd::prelude::*;

verus! {

/// What Waybar reads: bar text, tooltip, CSS classes and the `alt` string.
#[derive(Debug, PartialEq, Eq, Clone)]
pub struct WaybarOutput {
    pub text: String,
    pub tooltip: String,
    pub class: Vec<String>,
    pub alt: String,
}

/// The output for any fatal error: `?` in the bar, the reason (escaped for Pango) in the
/// tooltip, class `error`.
pub fn error_waybar(reason: &str) -> (r: WaybarOutput)
    ensures
        r.text@ == "?"@,
        r.tooltip@ == escape(reason@),
        r.class@.len() == 1,
        r.class@[0]@ == "error"@,
        r.alt@ == "error"@,
{
    let mut class: Vec<String> = Vec::new();
    class.push(String::from_str("error"));
    WaybarOutput {
        text: String::from_str("?"),
        tooltip: pango_escape(reason),
        class,
        alt: String::from_str("error"),
    }
}

// ---------------------------------------------------------------------------
// Pango markup
// ---------------------------------------------------------------------------

/// The escape of one character: `&`, `<` and `>` become entities.
pub open spec fn escape_char(c: char) -> Seq<char> {
    if c == '&' {
        "&amp;"@
    } else if c == '<' {
        "&lt;"@
    } else if c == '>' {
        "&gt;"@
    } else {
        seq![c]
    }
}

/// `s` with `&`, `<` and `>` written as entities.
pub open spec fn escape(s: Seq<char>) -> Seq<char>
    decreases s.len(),
{
    if s.len() == 0 {
        Seq::empty()
    } else {
        escape(s.drop_last()) + escape_char(s.last())
    }
}

/// `s` with `&`, `<` and `>` written as entities, so it can stand in Pango markup.
pub fn pango_escape(s: &str) -> (r: String)
    ensures
        r@ == escape(s@),
{
    let c = to_chars(s);
    let mut r = String::new();
    let mut i: usize = 0;
    while i < c.len()
        invariant
            i <= c@.len(),
            c@ == s@,
            r@ == escape(c@.take(i as int)),
        decreases c@.len() - i,
    {
        assert(c@.take(i + 1).drop_last() =~= c@.take(i as int));
        let ch = c[i];
        if ch == '&' {
            r.append("&amp;");
        } else if ch == '<' {
            r.append("&lt;");
        } else if ch == '>' {
            r.append("&gt;");
        } else {
            push_char(&mut r, ch);
            assert(r@ =~= escape(c@.take(i as int)) + seq![ch]);
        }
        i += 1;
    }
    assert(c@.take(c@.len() as int) =~= c@);
    r
}

pub open spec fn fg_markup(color: Seq<char>, text: Seq<char>) -> Seq<char> {
    "<span foreground='"@ + color + "'>"@ + text + "</span>"@
}

pub open spec fn bold_fg_markup(color: Seq<char>, text: Seq<char>) -> Seq<char> {
    "<span font_weight='bold' foreground='"@ + color + "'>"@ + text + "</span>"@
}

/// `text` in the color `color`.
pub fn fg(color: &str, text: &str) -> (r: String)
    ensures
        r@ == fg_markup(color@, text@),
{
    let mut r = String::from_str("<span foreground='");
    r.append(color);
    r.append("'>");
    r.append(text);
    r.append("</span>");
    r
}

/// `text` in bold and in the color `color`.
pub fn bold_fg(color: &str, text: &str) -> (r: String)
    ensures
        r@ == bold_fg_markup(color@, text@),
{
    let mut r = String::from_str("<span font_weight='bold' foreground='");
    r.append(color);
    r.append("'>");
    r.append(text);
    r.append("</span>");
    r
}

// ---------------------------------------------------------------------------
// Visible width
// ---------------------------------------------------------------------------

/// State of the markup scanner: the visible text so far, inside a tag, inside an entity.
#[verifier::ext_equal]
pub struct Scan {
    pub plain: Seq<char>,
    pub in_tag: bool,
    pub in_entity: bool,
}

pub open spec fn scan_start() -> Scan {
    Scan { plain: Seq::empty(), in_tag: false, in_entity: false }
}

/// One character of the scan: tags are skipped, an entity counts as one character.
pub open spec fn scan_step(st: Scan, ch: char) -> Scan {
    if st.in_tag {
        Scan { in_tag: ch != '>', ..st }
    } else if st.in_entity {
        if ch == ';' {
            Scan { plain: st.plain.push('x'), in_entity: false, ..st }
        } else {
            st
        }
    } else if ch == '<' {
        Scan { in_tag: true, ..st }
    } else if ch == '&' {
        Scan { in_entity: true, ..st }
    } else {
        Scan { plain: st.plain.push(ch), ..st }
    }
}

/// The scan of `s` from the state `st`.
pub open spec fn scan_from(st: Scan, s: Seq<char>) -> Scan
    decreases s.len(),
{
    if s.len() == 0 {
        st
    } else {
        scan_step(scan_from(st, s.drop_last()), s.last())
    }
}

/// The text of `s` that is shown: markup tags removed, each entity one placeholder.
pub open spec fn visible(s: Seq<char>) -> Seq<char> {
    scan_from(scan_start(), s).plain
}

/// Displayed width in columns of a plain string: what `UnicodeWidthStr::width` returns.
pub uninterp spec fn display_width(s: Seq<char>) -> usize;

/// Calls `unicode_width::UnicodeWidthStr::width`, the displayed width of `s` in terminal
/// columns. The result is named `display_width`; its Unicode rules are not restated here.
#[verifier::external_body]
fn str_display_width(s: &str) -> (r: usize)
    ensures
        r == display_width(s@),
{
    unicode_width::UnicodeWidthStr::width(s)
}

/// Visible (rendered) width of a string, ignoring Pango tags and counting entities as one.
pub fn visible_len(s: &str) -> (r: usize)
    ensures
        r == display_width(visible(s@)),
{
    let c = to_chars(s);
    let mut plain = String::new();
    let mut in_tag = false;
    let mut in_entity = false;
    let mut i: usize = 0;
    while i < c.len()
        invariant
            i <= c@.len(),
            c@ == s@,
            scan_from(scan_start(), c@.take(i as int)) == (Scan {
                plain: plain@,
                in_tag,
                in_entity,
            }),
        decreases c@.len() - i,
    {
        assert(c@.take(i + 1).drop_last() =~= c@.take(i as int));
        let ch = c[i];
        if in_tag {
            if ch == '>' {
                in_tag = false;
            }
        } else if in_entity {
            if ch == ';' {
                in_entity = false;
                push_char(&mut plain, 'x');
            }
        } else if ch == '<' {
            in_tag = true;
        } else if ch == '&' {
            in_entity = true;
        } else {
            push_char(&mut plain, ch);
        }
        i += 1;
    }
    assert(c@.take(c@.len() as int) =~= c@);
    str_display_width(plain.as_str())
}

// ---------------------------------------------------------------------------
// Frame
// ---------------------------------------------------------------------------

/// The saturating difference `a - b`.
pub open spec fn sat_sub(a: int, b: int) -> nat {
    if a > b {
        (a - b) as nat
    } else {
        0
    }
}

pub open spec fn border_line_markup(content: Seq<char>, width: nat, border: Seq<char>) -> Seq<char> {
    fg_markup(border, "│"@) + " "@ + content + repeat(
        " "@,
        sat_sub(width as int, display_width(visible(content)) as int),
    ) + " "@ + fg_markup(border, "│"@)
}

/// A framed row: `│ content<padding> │`, padded to `width` visible columns.
pub fn border_line(content: &str, width: usize, border_color: &str) -> (r: String)
    ensures
        r@ == border_line_markup(content@, width as nat, border_color@),
{
    let pad = width.saturating_sub(visible_len(content));
    let bar = fg(border_color, "│");
    let mut r = String::new();
    r.append(bar.as_str());
    r.append(" ");
    r.append(content);
    let right = repeat_str(" ", pad);
    r.append(right.as_str());
    r.append(" ");
    r.append(bar.as_str());
    r
}

/// A framed horizontal rule of `width` columns.
pub fn separator(width: usize, border_color: &str, dim_color: &str) -> (r: String)
    ensures
        r@ == border_line_markup(fg_markup(dim_color@, repeat("─"@, width as nat)), width as nat, border_color@),
{
    let rule = repeat_str("─", width);
    let inner = fg(dim_color, rule.as_str());
    border_line(inner.as_str(), width, border_color)
}

pub open spec fn top_markup(width: nat, border: Seq<char>) -> Seq<char> {
    fg_markup(border, "╭"@ + repeat("─"@, width + 2) + "╮"@)
}

pub open spec fn bottom_markup(width: nat, border: Seq<char>) -> Seq<char> {
    fg_markup(border, "╰"@ + repeat("─"@, width + 2) + "╯"@)
}

/// `s` written `n + 2` times.
fn repeat_plus_two(s: &str, n: usize) -> (r: String)
    ensures
        r@ == repeat(s@, n as nat + 2),
{
    let mut r = repeat_str(s, n);
    r.append(s);
    r.append(s);
    proof {
        assert(repeat(s@, n as nat + 1) == repeat(s@, n as nat) + s@);
        assert(repeat(s@, n as nat + 2) == repeat(s@, n as nat + 1) + s@);
    }
    r
}

/// The top edge of a frame whose rows are `width` columns wide.
pub fn top_border(width: usize, border_color: &str) -> (r: String)
    ensures
        r@ == top_markup(width as nat, border_color@),
{
    let mut inner = String::from_str("╭");
    let line = repeat_plus_two("─", width);
    inner.append(line.as_str());
    inner.append("╮");
    fg(border_color, inner.as_str())
}

/// The bottom edge of a frame whose rows are `width` columns wide.
pub fn bottom_border(width: usize, border_color: &str) -> (r: String)
    ensures
        r@ == bottom_markup(width as nat, border_color@),
{
    let mut inner = String::from_str("╰");
    let line = repeat_plus_two("─", width);
    inner.append(line.as_str());
    inner.append("╯");
    fg(border_color, inner.as_str())
}

// ---------------------------------------------------------------------------
// Laws
// ---------------------------------------------------------------------------

/// Scanning `a + b` is scanning `a`, then `b`.
pub proof fn lemma_scan_concat(st: Scan, a: Seq<char>, b: Seq<char>)
    ensures
        scan_from(st, a + b) == scan_from(scan_from(st, a), b),
    decreases b.len(),
{
    if b.len() == 0 {
        assert(a + b =~= a);
    } else {
        lemma_scan_concat(st, a, b.drop_last());
        assert((a + b).drop_last() =~= a + b.drop_last());
    }
}

/// Scanning one character is one step.
proof fn lemma_scan_one(st: Scan, c: char)
    ensures
        scan_from(st, seq![c]) == scan_step(st, c),
{
    let s = seq![c];
    assert(s.drop_last() =~= Seq::<char>::empty());
    assert(scan_from(st, s.drop_last()) == st);
    assert(s.last() == c);
}

/// Inside a tag, text without `>` is skipped.
proof fn lemma_scan_in_tag(st: Scan, s: Seq<char>)
    requires
        st.in_tag,
        !s.contains('>'),
    ensures
        scan_from(st, s) == st,
    decreases s.len(),
{
    if s.len() > 0 {
        assert(!s.drop_last().contains('>')) by {
            if s.drop_last().contains('>') {
                let i = choose|i: int| 0 <= i < s.drop_last().len() && s.drop_last()[i] == '>';
                assert(s[i] == '>');
            }
        }
        lemma_scan_in_tag(st, s.drop_last());
        assert(s[s.len() - 1] == s.last());
    }
}

/// Outside markup, text without `<` or `&` is shown as it is.
proof fn lemma_scan_plain(st: Scan, s: Seq<char>)
    requires
        !st.in_tag,
        !st.in_entity,
        !s.contains('<'),
        !s.contains('&'),
    ensures
        scan_from(st, s) == (Scan { plain: st.plain + s, ..st }),
    decreases s.len(),
{
    if s.len() == 0 {
        assert(st.plain + s =~= st.plain);
    } else {
        assert(!s.drop_last().contains('<') && !s.drop_last().contains('&')) by {
            if s.drop_last().contains('<') || s.drop_last().contains('&') {
                let i = choose|i: int|
                    0 <= i < s.drop_last().len() && (s.drop_last()[i] == '<' || s.drop_last()[i]
                        == '&');
                assert(s[i] == s.drop_last()[i]);
            }
        }
        lemma_scan_plain(st, s.drop_last());
        assert(s[s.len() - 1] == s.last());
        assert((st.plain + s.drop_last()).push(s.last()) =~= st.plain + s);
        assert(scan_from(st, s) =~= (Scan { plain: st.plain + s, ..st }));
    }
}

/// Coloring adds no visible text: the visible text of `text` in color `color` is `text`
/// itself, for plain text (no `<`, no `&`) and a color value without `>`.
pub proof fn law_color_markup_is_invisible(color: Seq<char>, text: Seq<char>)
    requires
        !color.contains('>'),
        !text.contains('<'),
        !text.contains('&'),
    ensures
        visible(fg_markup(color, text)) == text,
        visible(bold_fg_markup(color, text)) == text,
{
    reveal_strlit("<span foreground='");
    reveal_strlit("<span font_weight='bold' foreground='");
    reveal_strlit("'>");
    reveal_strlit("</span>");
    let close = "</span>"@;
    let quote = "'>"@;
    let q = seq!['\''];
    assert(quote =~= q + seq!['>']);
    assert(close =~= seq!['<'] + "/span"@ + seq!['>']) by {
        reveal_strlit("/span");
    }
    reveal_strlit("/span");
    assert(!"/span"@.contains('>')) by {
        assert forall|i: int| 0 <= i < "/span"@.len() implies "/span"@[i] != '>' by {}
    }
    assert(!q.contains('>')) by {
        assert(q.len() == 1);
    }
    let open_a = "<span foreground='"@;
    let open_b = "<span font_weight='bold' foreground='"@;
    let tail_a = open_a.drop_first();
    let tail_b = open_b.drop_first();
    assert(open_a =~= seq!['<'] + tail_a);
    assert(open_b =~= seq!['<'] + tail_b);
    assert(!tail_a.contains('>')) by {
        assert forall|i: int| 0 <= i < tail_a.len() implies tail_a[i] != '>' by {}
    }
    assert(!tail_b.contains('>')) by {
        assert forall|i: int| 0 <= i < tail_b.len() implies tail_b[i] != '>' by {}
    }
    let start = scan_start();
    lemma_scan_one(start, '<');
    lemma_scan_one(Scan { in_tag: true, ..start }, '>');
    lemma_scan_one(Scan { plain: text, ..start }, '<');
    lemma_scan_one(Scan { in_tag: true, plain: text, ..start }, '>');
    assert(scan_from(start, seq!['<']) == Scan { in_tag: true, ..start }) by {
        assert(seq!['<'].drop_last() =~= Seq::<char>::empty());
        assert(seq!['<'].last() == '<');
    }
    let in_tag = Scan { in_tag: true, ..start };
    assert(scan_from(in_tag, seq!['>']) == start) by {
        assert(seq!['>'].drop_last() =~= Seq::<char>::empty());
        assert(seq!['>'].last() == '>');
    }
    let with_text = Scan { plain: text, ..start };
    assert(scan_from(with_text, seq!['<']) == Scan { in_tag: true, ..with_text }) by {
        assert(seq!['<'].drop_last() =~= Seq::<char>::empty());
        assert(seq!['<'].last() == '<');
    }
    assert(scan_from(Scan { in_tag: true, ..with_text }, seq!['>']) == with_text) by {
        assert(seq!['>'].drop_last() =~= Seq::<char>::empty());
        assert(seq!['>'].last() == '>');
    }
    lemma_scan_in_tag(in_tag, tail_a);
    lemma_scan_in_tag(in_tag, tail_b);
    lemma_scan_in_tag(in_tag, color);
    lemma_scan_in_tag(in_tag, q);
    lemma_scan_plain(start, text);
    assert(start.plain + text =~= text);
    lemma_scan_in_tag(Scan { in_tag: true, ..with_text }, "/span"@);
    let parts_a = seq!['<'] + tail_a + color + q + seq!['>'] + text + seq!['<'] + "/span"@ + seq!['>'];
    assert(fg_markup(color, text) =~= parts_a);
    lemma_scan_concat(start, seq!['<'], tail_a);
    lemma_scan_concat(start, seq!['<'] + tail_a, color);
    lemma_scan_concat(start, seq!['<'] + tail_a + color, q);
    lemma_scan_concat(start, seq!['<'] + tail_a + color + q, seq!['>']);
    lemma_scan_concat(start, seq!['<'] + tail_a + color + q + seq!['>'], text);
    lemma_scan_concat(start, seq!['<'] + tail_a + color + q + seq!['>'] + text, seq!['<']);
    lemma_scan_concat(start, seq!['<'] + tail_a + color + q + seq!['>'] + text + seq!['<'], "/span"@);
    lemma_scan_concat(
        start,
        seq!['<'] + tail_a + color + q + seq!['>'] + text + seq!['<'] + "/span"@,
        seq!['>'],
    );
    let parts_b = seq!['<'] + tail_b + color + q + seq!['>'] + text + seq!['<'] + "/span"@ + seq!['>'];
    assert(bold_fg_markup(color, text) =~= parts_b);
    lemma_scan_concat(start, seq!['<'], tail_b);
    lemma_scan_concat(start, seq!['<'] + tail_b, color);
    lemma_scan_concat(start, seq!['<'] + tail_b + color, q);
    lemma_scan_concat(start, seq!['<'] + tail_b + color + q, seq!['>']);
    lemma_scan_concat(start, seq!['<'] + tail_b + color + q + seq!['>'], text);
    lemma_scan_concat(start, seq!['<'] + tail_b + color + q + seq!['>'] + text, seq!['<']);
    lemma_scan_concat(start, seq!['<'] + tail_b + color + q + seq!['>'] + text + seq!['<'], "/span"@);
    lemma_scan_concat(
        start,
        seq!['<'] + tail_b + color + q + seq!['>'] + text + seq!['<'] + "/span"@,
        seq!['>'],
    );
}

/// Escaped text holds no markup: neither `<` nor `>` occurs in it.
pub proof fn law_escape_has_no_markup(s: Seq<char>)
    ensures
        !escape(s).contains('<'),
        !escape(s).contains('>'),
    decreases s.len(),
{
    reveal_strlit("&amp;");
    reveal_strlit("&lt;");
    reveal_strlit("&gt;");
    if s.len() > 0 {
        law_escape_has_no_markup(s.drop_last());
        let a = escape(s.drop_last());
        let b = escape_char(s.last());
        assert(!b.contains('<') && !b.contains('>'));
        assert forall|i: int| 0 <= i < (a + b).len() implies (a + b)[i] != '<' && (a + b)[i] != '>' by {
            if i < a.len() {
                assert((a + b)[i] == a[i]);
            } else {
                assert((a + b)[i] == b[i - a.len()]);
            }
        }
    }
}

} // verus!
