//! Rendering of a `PrinterState` for Waybar: the bar text from a token template (a hidden
//! token takes its adjacent literal with it), a framed, themed tooltip, and the worst-state
//! class.
use crate::config::{views_of, OnMissing, PrinterConfig, Thresholds};
use crate::model::{
    pct, InputTray, Level, PrinterState, Reason, Status, Supply, SupplyClass, SupplyKind, Color,
};
use crate::text::{
    dec, dec_string, is_ws, char_is_whitespace, push_char, push_chars, slice_is, str_eq, to_chars,
};
use crate::theme::ThemeColors;
use crate::waybar::{
    bold_fg, bold_fg_markup, border_line, border_line_markup, bottom_border, bottom_markup,
    display_width, escape, fg, fg_markup, pango_escape, top_border, top_markup, visible,
    visible_len, WaybarOutput,
};
use vstd::prelude::*;

verus! {

/// Marker for a hidden token; a word holding it is dropped from the bar text.
pub const HIDDEN: char = '\u{0}';

// ---------------------------------------------------------------------------
// Status, reasons, supplies
// ---------------------------------------------------------------------------

pub open spec fn deref_status(s: Option<&Status>) -> Option<Status> {
    match s {
        Some(x) => Some(*x),
        None => None,
    }
}

/// Nerd Font glyph for a status.
pub open spec fn icon_of(s: Option<Status>) -> Seq<char> {
    match s {
        Some(Status::Idle) => "\u{f02f}"@,
        Some(Status::Printing) => "\u{f02f}"@,
        Some(Status::Stopped) => "\u{f071}"@,
        Some(Status::Offline) => "\u{f127}"@,
        _ => "\u{f059}"@,
    }
}

/// Word for a status.
pub open spec fn text_of(s: Option<Status>) -> Seq<char> {
    match s {
        Some(Status::Idle) => "Idle"@,
        Some(Status::Printing) => "Printing"@,
        Some(Status::Stopped) => "Stopped"@,
        Some(Status::Offline) => "Offline"@,
        _ => "Unknown"@,
    }
}

/// The Nerd Font glyph shown for a status.
pub fn status_icon(s: Option<&Status>) -> (r: &'static str)
    ensures
        r@ == icon_of(deref_status(s)),
{
    match s {
        Some(Status::Idle) => "\u{f02f}",
        Some(Status::Printing) => "\u{f02f}",
        Some(Status::Stopped) => "\u{f071}",
        Some(Status::Offline) => "\u{f127}",
        _ => "\u{f059}",
    }
}

fn status_text(s: Option<&Status>) -> (r: &'static str)
    ensures
        r@ == text_of(deref_status(s)),
{
    match s {
        Some(Status::Idle) => "Idle",
        Some(Status::Printing) => "Printing",
        Some(Status::Stopped) => "Stopped",
        Some(Status::Offline) => "Offline",
        _ => "Unknown",
    }
}

/// Human label of an active condition.
pub open spec fn reason_label(r: Reason) -> Seq<char> {
    match r {
        Reason::Jam => "Paper jam"@,
        Reason::MediaEmpty => "Out of paper"@,
        Reason::MediaLow => "Paper low"@,
        Reason::SupplyLow => "Supply low"@,
        Reason::SupplyEmpty => "Supply empty"@,
        Reason::CoverOpen => "Cover open"@,
        Reason::Offline => "Offline"@,
        Reason::Other(s) => s@,
    }
}

/// Theme color of an active condition.
pub open spec fn reason_color(r: Reason, t: ThemeColors) -> Seq<char> {
    match r {
        Reason::Jam => t.error@,
        Reason::MediaEmpty => t.error@,
        Reason::MediaLow => t.orange@,
        Reason::SupplyLow => t.orange@,
        Reason::SupplyEmpty => t.error@,
        Reason::CoverOpen => t.error@,
        Reason::Offline => t.dim@,
        Reason::Other(_) => t.orange@,
    }
}

fn reason_display<'a>(r: &Reason, t: &'a ThemeColors) -> (out: (String, &'a str))
    ensures
        out.0@ == reason_label(*r),
        out.1@ == reason_color(*r, *t),
{
    match r {
        Reason::Jam => (String::from_str("Paper jam"), t.error.as_str()),
        Reason::MediaEmpty => (String::from_str("Out of paper"), t.error.as_str()),
        Reason::MediaLow => (String::from_str("Paper low"), t.orange.as_str()),
        Reason::SupplyLow => (String::from_str("Supply low"), t.orange.as_str()),
        Reason::SupplyEmpty => (String::from_str("Supply empty"), t.error.as_str()),
        Reason::CoverOpen => (String::from_str("Cover open"), t.error.as_str()),
        Reason::Offline => (String::from_str("Offline"), t.dim.as_str()),
        Reason::Other(s) => (s.clone(), t.orange.as_str()),
    }
}

/// How close a supply is to its bad end: the level of a consumed supply, the headroom
/// of a filled one (a waste tank). `None` for a sentinel level.
pub open spec fn badness(s: Supply) -> Option<u8> {
    match pct(s.level) {
        Some(p) => Some(
            match s.class {
                SupplyClass::Consumed => p,
                SupplyClass::Filled => (100 - p) as u8,
            },
        ),
        None => None,
    }
}

/// A filled supply never reports more than 100 %.
pub open spec fn supply_in_range(s: Supply) -> bool {
    s.class == SupplyClass::Filled && pct(s.level) is Some ==> pct(s.level)->0 <= 100
}

/// Every filled supply of the state reports at most 100 %.
pub open spec fn levels_in_range(st: PrinterState) -> bool {
    forall|i: int| 0 <= i < st.supplies@.len() ==> supply_in_range(#[trigger] st.supplies@[i])
}

fn supply_badness(s: &Supply) -> (r: Option<u8>)
    requires
        supply_in_range(*s),
    ensures
        r == badness(*s),
{
    match s.level.as_pct() {
        Some(p) => Some(
            match s.class {
                SupplyClass::Consumed => p,
                SupplyClass::Filled => 100 - p,
            },
        ),
        None => None,
    }
}

pub open spec fn min_opt(a: Option<u8>, b: Option<u8>) -> Option<u8> {
    match (a, b) {
        (Some(x), Some(y)) => Some(if x <= y {
            x
        } else {
            y
        }),
        (Some(_), None) => a,
        (None, _) => b,
    }
}

/// Least badness among the supplies of kind `k` (of every kind when `k` is `None`).
pub open spec fn min_badness(ss: Seq<Supply>, k: Option<SupplyKind>) -> Option<u8>
    decreases ss.len(),
{
    if ss.len() == 0 {
        None
    } else {
        let rest = min_badness(ss.drop_last(), k);
        if k is None || k == Some(ss.last().kind) {
            min_opt(rest, badness(ss.last()))
        } else {
            rest
        }
    }
}

fn min_supply_badness(ss: &Vec<Supply>, k: Option<SupplyKind>) -> (r: Option<u8>)
    requires
        forall|i: int| 0 <= i < ss@.len() ==> supply_in_range(#[trigger] ss@[i]),
    ensures
        r == min_badness(ss@, k),
{
    let mut r: Option<u8> = None;
    let mut i: usize = 0;
    while i < ss.len()
        invariant
            i <= ss@.len(),
            forall|j: int| 0 <= j < ss@.len() ==> supply_in_range(#[trigger] ss@[j]),
            r == min_badness(ss@.take(i as int), k),
        decreases ss@.len() - i,
    {
        assert(ss@.take(i + 1).drop_last() =~= ss@.take(i as int));
        let s = &ss[i];
        let wanted = match k {
            None => true,
            Some(kk) => kk == s.kind,
        };
        if wanted {
            let b = supply_badness(s);
            r = match (r, b) {
                (Some(x), Some(y)) => Some(
                    if x <= y {
                        x
                    } else {
                        y
                    },
                ),
                (Some(x), None) => Some(x),
                (None, _) => b,
            };
        }
        i += 1;
    }
    assert(ss@.take(ss@.len() as int) =~= ss@);
    r
}

fn worst_supply_badness(state: &PrinterState) -> (r: Option<u8>)
    requires
        levels_in_range(*state),
    ensures
        r == min_badness(state.supplies@, None),
{
    min_supply_badness(&state.supplies, None)
}

/// The level of the first supply of color `c`.
pub open spec fn color_level(ss: Seq<Supply>, c: Color) -> Option<u8>
    decreases ss.len(),
{
    if ss.len() == 0 {
        None
    } else if ss[0].color == Some(c) {
        pct(ss[0].level)
    } else {
        color_level(ss.drop_first(), c)
    }
}

proof fn lemma_color_level(ss: Seq<Supply>, c: Color, i: int)
    requires
        0 <= i <= ss.len(),
        forall|j: int| 0 <= j < i ==> ss[j].color != Some(c),
    ensures
        color_level(ss, c) == color_level(ss.skip(i), c),
    decreases i,
{
    if i > 0 {
        lemma_color_level(ss.drop_first(), c, i - 1);
        assert(ss.drop_first().skip(i - 1) =~= ss.skip(i));
    } else {
        assert(ss.skip(0) =~= ss);
    }
}

fn color_pct(ss: &Vec<Supply>, c: Color) -> (r: Option<u8>)
    ensures
        r == color_level(ss@, c),
{
    let mut i: usize = 0;
    while i < ss.len()
        invariant
            i <= ss@.len(),
            forall|j: int| 0 <= j < i ==> ss@[j].color != Some(c),
        decreases ss@.len() - i,
    {
        if ss[i].color == Some(c) {
            proof {
                lemma_color_level(ss@, c, i as int);
            }
            return ss[i].level.as_pct();
        }
        i += 1;
    }
    proof {
        lemma_color_level(ss@, c, ss@.len() as int);
    }
    None
}

/// Least percentage among the trays.
pub open spec fn min_paper(ps: Seq<InputTray>) -> Option<u8>
    decreases ps.len(),
{
    if ps.len() == 0 {
        None
    } else {
        min_opt(min_paper(ps.drop_last()), pct(ps.last().level))
    }
}

fn paper_pct(ps: &Vec<InputTray>) -> (r: Option<u8>)
    ensures
        r == min_paper(ps@),
{
    let mut r: Option<u8> = None;
    let mut i: usize = 0;
    while i < ps.len()
        invariant
            i <= ps@.len(),
            r == min_paper(ps@.take(i as int)),
        decreases ps@.len() - i,
    {
        assert(ps@.take(i + 1).drop_last() =~= ps@.take(i as int));
        let b = ps[i].level.as_pct();
        r = match (r, b) {
            (Some(x), Some(y)) => Some(
                if x <= y {
                    x
                } else {
                    y
                },
            ),
            (Some(x), None) => Some(x),
            (None, _) => b,
        };
        i += 1;
    }
    assert(ps@.take(ps@.len() as int) =~= ps@);
    r
}

pub open spec fn dec_opt(v: Option<u8>) -> Option<Seq<char>> {
    match v {
        Some(p) => Some(dec(p as nat)),
        None => None,
    }
}

/// The value a bar token stands for, `None` when the state does not know it. The model and
/// the name come from the printer and are escaped for Pango.
pub open spec fn token_value(token: Seq<char>, st: PrinterState) -> Option<Seq<char>> {
    if token == "supply_min"@ {
        dec_opt(min_badness(st.supplies@, None))
    } else if token == "toner_min"@ {
        dec_opt(min_badness(st.supplies@, Some(SupplyKind::Toner)))
    } else if token == "ink_min"@ {
        dec_opt(min_badness(st.supplies@, Some(SupplyKind::Ink)))
    } else if token == "black"@ {
        dec_opt(color_level(st.supplies@, Color::Black))
    } else if token == "cyan"@ {
        dec_opt(color_level(st.supplies@, Color::Cyan))
    } else if token == "magenta"@ {
        dec_opt(color_level(st.supplies@, Color::Magenta))
    } else if token == "yellow"@ {
        dec_opt(color_level(st.supplies@, Color::Yellow))
    } else if token == "status"@ {
        match st.status {
            Some(_) => Some(text_of(st.status)),
            None => None,
        }
    } else if token == "status_icon"@ {
        Some(icon_of(st.status))
    } else if token == "model"@ {
        match st.model {
            Some(m) => Some(escape(m@)),
            None => None,
        }
    } else if token == "name"@ {
        match st.name {
            Some(m) => Some(escape(m@)),
            None => None,
        }
    } else if token == "jobs"@ {
        match st.jobs {
            Some(j) => Some(dec(j as nat)),
            None => None,
        }
    } else if token == "pages"@ {
        match st.pages {
            Some(p) => Some(dec(p as nat)),
            None => None,
        }
    } else if token == "paper"@ {
        dec_opt(min_paper(st.paper@))
    } else {
        None
    }
}

fn dec_u8(v: Option<u8>) -> (r: Option<String>)
    ensures
        match dec_opt(v) {
            Some(s) => r matches Some(x) && x@ == s,
            None => r is None,
        },
{
    match v {
        Some(p) => Some(dec_string(p as u64)),
        None => None,
    }
}

/// Resolve a bar/tooltip token to its display value, or `None` if absent.
fn resolve(token: &[char], state: &PrinterState) -> (r: Option<String>)
    requires
        levels_in_range(*state),
    ensures
        match token_value(token@, *state) {
            Some(s) => r matches Some(x) && x@ == s,
            None => r is None,
        },
{
    if slice_is(token, "supply_min") {
        dec_u8(worst_supply_badness(state))
    } else if slice_is(token, "toner_min") {
        dec_u8(min_supply_badness(&state.supplies, Some(SupplyKind::Toner)))
    } else if slice_is(token, "ink_min") {
        dec_u8(min_supply_badness(&state.supplies, Some(SupplyKind::Ink)))
    } else if slice_is(token, "black") {
        dec_u8(color_pct(&state.supplies, Color::Black))
    } else if slice_is(token, "cyan") {
        dec_u8(color_pct(&state.supplies, Color::Cyan))
    } else if slice_is(token, "magenta") {
        dec_u8(color_pct(&state.supplies, Color::Magenta))
    } else if slice_is(token, "yellow") {
        dec_u8(color_pct(&state.supplies, Color::Yellow))
    } else if slice_is(token, "status") {
        match &state.status {
            Some(_) => Some(String::from_str(status_text(state.status.as_ref()))),
            None => None,
        }
    } else if slice_is(token, "status_icon") {
        Some(String::from_str(status_icon(state.status.as_ref())))
    } else if slice_is(token, "model") {
        match &state.model {
            Some(m) => Some(pango_escape(m.as_str())),
            None => None,
        }
    } else if slice_is(token, "name") {
        match &state.name {
            Some(m) => Some(pango_escape(m.as_str())),
            None => None,
        }
    } else if slice_is(token, "jobs") {
        match state.jobs {
            Some(j) => Some(dec_string(j as u64)),
            None => None,
        }
    } else if slice_is(token, "pages") {
        match state.pages {
            Some(p) => Some(dec_string(p)),
            None => None,
        }
    } else if slice_is(token, "paper") {
        dec_u8(paper_pct(&state.paper))
    } else {
        None
    }
}

// ---------------------------------------------------------------------------
// Bar template
// ---------------------------------------------------------------------------

/// Index of the first `c` in `s`.
pub open spec fn first_index(s: Seq<char>, c: char) -> Option<int>
    decreases s.len(),
{
    if s.len() == 0 {
        None
    } else if s[0] == c {
        Some(0)
    } else {
        match first_index(s.drop_first(), c) {
            Some(i) => Some(i + 1),
            None => None,
        }
    }
}

pub proof fn lemma_first_index(s: Seq<char>, c: char)
    ensures
        match first_index(s, c) {
            Some(i) => 0 <= i < s.len() && s[i] == c && forall|j: int| 0 <= j < i ==> s[j] != c,
            None => forall|j: int| 0 <= j < s.len() ==> s[j] != c,
        },
    decreases s.len(),
{
    if s.len() > 0 {
        lemma_first_index(s.drop_first(), c);
        if s[0] != c {
            match first_index(s.drop_first(), c) {
                Some(i) => {
                    assert forall|j: int| 0 <= j < i + 1 implies s[j] != c by {
                        if j > 0 {
                            assert(s[j] == s.drop_first()[j - 1]);
                        }
                    }
                },
                None => {
                    assert forall|j: int| 0 <= j < s.len() implies s[j] != c by {
                        if j > 0 {
                            assert(s[j] == s.drop_first()[j - 1]);
                        }
                    }
                },
            }
        }
    }
}

/// The value written for a token: its value; else the hidden marker or `n/d` (with the
/// error flag), by the `on_missing` setting.
pub open spec fn token_text(token: Seq<char>, st: PrinterState, om: OnMissing) -> (Seq<char>, bool) {
    match token_value(token, st) {
        Some(v) => (v, false),
        None => match om {
            OnMissing::Hide => (seq![HIDDEN], false),
            OnMissing::Error => ("n/d"@, true),
        },
    }
}

/// `fmt` with each `{token}` replaced by its text; a `{` without a closing `}` stays.
/// The flag tells whether an unknown value was written as an error.
pub open spec fn expand(fmt: Seq<char>, st: PrinterState, om: OnMissing) -> (Seq<char>, bool)
    decreases fmt.len(),
{
    proof {
        lemma_first_index(fmt, '{');
    }
    match first_index(fmt, '{') {
        None => (fmt, false),
        Some(s) => {
            let after = fmt.skip(s + 1);
            proof {
                lemma_first_index(after, '}');
            }
            match first_index(after, '}') {
                Some(e) => {
                    let tail = expand(after.skip(e + 1), st, om);
                    let v = token_text(after.take(e), st, om);
                    (fmt.take(s) + v.0 + tail.0, v.1 || tail.1)
                },
                None => {
                    let tail = expand(after, st, om);
                    (fmt.take(s) + seq!['{'] + tail.0, tail.1)
                },
            }
        },
    }
}

/// The words of `s` done so far and the word under way, scanning left to right.
pub open spec fn words_from(s: Seq<char>) -> (Seq<Seq<char>>, Seq<char>)
    decreases s.len(),
{
    if s.len() == 0 {
        (Seq::empty(), Seq::empty())
    } else {
        let w = words_from(s.drop_last());
        let c = s.last();
        if is_ws(c) {
            if w.1.len() > 0 {
                (w.0.push(w.1), Seq::empty())
            } else {
                (w.0, Seq::empty())
            }
        } else {
            (w.0, w.1.push(c))
        }
    }
}

/// The whitespace-separated words of `s` (what `split_whitespace` yields).
pub open spec fn words(s: Seq<char>) -> Seq<Seq<char>> {
    let w = words_from(s);
    if w.1.len() > 0 {
        w.0.push(w.1)
    } else {
        w.0
    }
}

/// The words that hold no hidden marker.
pub open spec fn shown(ws: Seq<Seq<char>>) -> Seq<Seq<char>>
    decreases ws.len(),
{
    if ws.len() == 0 {
        Seq::empty()
    } else if ws.last().contains(HIDDEN) {
        shown(ws.drop_last())
    } else {
        shown(ws.drop_last()).push(ws.last())
    }
}

/// The words joined by single spaces.
pub open spec fn join_space(ws: Seq<Seq<char>>) -> Seq<char>
    decreases ws.len(),
{
    if ws.len() == 0 {
        Seq::empty()
    } else if ws.len() == 1 {
        ws[0]
    } else {
        join_space(ws.drop_last()) + " "@ + ws.last()
    }
}

/// The bar text of a template and its error flag: the expanded template with every word
/// that holds a hidden token dropped and whitespace collapsed to single spaces.
pub open spec fn bar_text(fmt: Seq<char>, st: PrinterState, om: OnMissing) -> (Seq<char>, bool) {
    let e = expand(fmt, st, om);
    (join_space(shown(words(e.0))), e.1)
}

/// Index of the first `c` in `v[from..]`.
fn find_char(v: &[char], c: char, from: usize) -> (r: Option<usize>)
    requires
        from <= v@.len(),
    ensures
        r matches Some(q) ==> first_index(v@.skip(from as int), c) == Some(q - from),
        r is None ==> first_index(v@.skip(from as int), c) is None,
        r matches Some(q) ==> from <= q < v.len() && v@[q as int] == c,
{
    proof {
        lemma_first_index(v@.skip(from as int), c);
    }
    let mut i = from;
    while i < v.len()
        invariant
            from <= i <= v@.len(),
            forall|j: int| from <= j < i ==> v@[j] != c,
        decreases v@.len() - i,
    {
        if v[i] == c {
            proof {
                let s = v@.skip(from as int);
                lemma_first_index(s, c);
                match first_index(s, c) {
                    Some(k) => {
                        if k < i - from {
                            assert(s[k] == v@[from + k]);
                        } else if k > i - from {
                            assert(s[i - from] == v@[i as int]);
                        }
                    },
                    None => {
                        assert(s[i - from] == v@[i as int]);
                    },
                }
            }
            return Some(i);
        }
        i += 1;
    }
    proof {
        let s = v@.skip(from as int);
        lemma_first_index(s, c);
        match first_index(s, c) {
            Some(k) => {
                assert(s[k] == v@[from + k]);
            },
            None => {},
        }
    }
    None
}

/// Writes each `{token}` of `fmt`; returns the text and whether `Error` mode hit a miss.
fn expand_template(fmt: &[char], state: &PrinterState, on_missing: OnMissing) -> (r: (String, bool))
    requires
        levels_in_range(*state),
    ensures
        r.0@ == expand(fmt@, *state, on_missing).0,
        r.1 == expand(fmt@, *state, on_missing).1,
{
    let mut out = String::new();
    let mut had_error = false;
    let mut p: usize = 0;
    assert(fmt@.skip(0) =~= fmt@);
    loop
        invariant
            p <= fmt@.len(),
            levels_in_range(*state),
            expand(fmt@, *state, on_missing).0 == out@ + expand(fmt@.skip(p as int), *state, on_missing).0,
            expand(fmt@, *state, on_missing).1 == (had_error || expand(fmt@.skip(p as int), *state, on_missing).1),
        decreases fmt@.len() - p,
    {
        let ghost rest = fmt@.skip(p as int);
        let ghost out0 = out@;
        let ghost err0 = had_error;
        match find_char(fmt, '{', p) {
            None => {
                push_chars(&mut out, fmt, p, fmt.len());
                assert(fmt@.subrange(p as int, fmt@.len() as int) =~= rest);
                return (out, had_error);
            },
            Some(s) => {
                push_chars(&mut out, fmt, p, s);
                let ghost pre = rest.take(s - p);
                assert(fmt@.subrange(p as int, s as int) =~= pre);
                let ghost after = rest.skip(s - p + 1);
                assert(after =~= fmt@.skip(s + 1));
                assert(first_index(rest, '{') == Some(s - p));
                match find_char(fmt, '}', s + 1) {
                    Some(e) => {
                        let token = &fmt[s + 1..e];
                        assert(token@ =~= after.take(e - s - 1));
                        let ghost tt = token_text(token@, *state, on_missing);
                        let ghost out1 = out@;
                        match resolve(token, state) {
                            Some(v) => out.append(v.as_str()),
                            None => match on_missing {
                                OnMissing::Hide => push_char(&mut out, HIDDEN),
                                OnMissing::Error => {
                                    out.append("n/d");
                                    had_error = true;
                                },
                            },
                        }
                        assert(out@ =~= out1 + tt.0);
                        assert(had_error == (err0 || tt.1));
                        assert(after.skip(e - s - 1 + 1) =~= fmt@.skip(e + 1));
                        let ghost tail = expand(fmt@.skip(e + 1), *state, on_missing);
                        assert(first_index(after, '}') == Some(e - s - 1));
                        assert(after.take(e - s - 1) == token@);
                        assert(expand(rest, *state, on_missing) == (pre + tt.0 + tail.0, tt.1 || tail.1));
                        assert(out0 + (pre + tt.0 + tail.0) =~= out@ + tail.0);
                        p = e + 1;
                    },
                    None => {
                        push_char(&mut out, '{');
                        let ghost tail = expand(fmt@.skip(s + 1), *state, on_missing);
                        assert(first_index(after, '}') is None);
                        assert(expand(rest, *state, on_missing) == (pre + seq!['{'] + tail.0, tail.1));
                        assert(out0 + (pre + seq!['{'] + tail.0) =~= out@ + tail.0);
                        p = s + 1;
                    },
                }
            },
        }
    }
}

/// Keeps the words of `s` that hold no hidden marker, joined by single spaces.
fn drop_hidden_words(s: &[char]) -> (r: String)
    ensures
        r@ == join_space(shown(words(s@))),
{
    let mut joined = String::new();
    let mut any_kept = false;
    let mut cur: Vec<char> = Vec::new();
    let mut cur_hidden = false;
    let ghost mut done: Seq<Seq<char>> = Seq::empty();
    let mut i: usize = 0;
    while i < s.len()
        invariant
            i <= s@.len(),
            words_from(s@.take(i as int)) == (done, cur@),
            cur_hidden == cur@.contains(HIDDEN),
            any_kept == (shown(done).len() > 0),
            joined@ == join_space(shown(done)),
        decreases s@.len() - i,
    {
        assert(s@.take(i + 1).drop_last() =~= s@.take(i as int));
        let c = s[i];
        if char_is_whitespace(c) {
            if cur.len() > 0 {
                let ghost old_done = done;
                proof {
                    done = done.push(cur@);
                    assert(done.drop_last() =~= old_done);
                }
                proof {
                    let sd = shown(old_done);
                    assert(done.last() == cur@);
                    if !cur_hidden {
                        assert(shown(done) == sd.push(cur@));
                        assert(sd.push(cur@).drop_last() =~= sd);
                    } else {
                        assert(shown(done) == sd);
                    }
                }
                if !cur_hidden {
                    if any_kept {
                        joined.append(" ");
                        push_chars(&mut joined, cur.as_slice(), 0, cur.len());
                    } else {
                        push_chars(&mut joined, cur.as_slice(), 0, cur.len());
                        assert(shown(done).len() == 1);
                    }
                    assert(cur@.subrange(0, cur@.len() as int) =~= cur@);
                    any_kept = true;
                }
                cur = Vec::new();
                cur_hidden = false;
            }
        } else {
            let ghost old_cur = cur@;
            cur.push(c);
            proof {
                if c == HIDDEN {
                    assert(cur@[cur@.len() - 1] == HIDDEN);
                }
                if old_cur.contains(HIDDEN) {
                    let k = choose|k: int| 0 <= k < old_cur.len() && old_cur[k] == HIDDEN;
                    assert(cur@[k] == HIDDEN);
                }
                if cur@.contains(HIDDEN) && c != HIDDEN {
                    let k = choose|k: int| 0 <= k < cur@.len() && cur@[k] == HIDDEN;
                    assert(old_cur[k] == HIDDEN);
                }
            }
            if c == HIDDEN {
                cur_hidden = true;
            }
        }
        i += 1;
    }
    assert(s@.take(s@.len() as int) =~= s@);
    if cur.len() > 0 && !cur_hidden {
        proof {
            assert(done.push(cur@).drop_last() =~= done);
            let sd = shown(done);
            assert(shown(done.push(cur@)) == sd.push(cur@));
            assert(sd.push(cur@).drop_last() =~= sd);
        }
        if any_kept {
            joined.append(" ");
        }
        push_chars(&mut joined, cur.as_slice(), 0, cur.len());
        assert(cur@.subrange(0, cur@.len() as int) =~= cur@);
    } else if cur.len() > 0 {
        proof {
            assert(done.push(cur@).drop_last() =~= done);
            assert(shown(done.push(cur@)) == shown(done));
        }
    }
    joined
}

/// Substitutes `{token}`s; a hidden token takes the word it stands in with it, so
/// `"{x}%"` leaves no dangling `%`. Returns the text and whether `Error` mode hit a miss.
pub fn render_template(fmt: &str, state: &PrinterState, on_missing: OnMissing) -> (r: (String, bool))
    requires
        levels_in_range(*state),
    ensures
        r.0@ == bar_text(fmt@, *state, on_missing).0,
        r.1 == bar_text(fmt@, *state, on_missing).1,
{
    let f = to_chars(fmt);
    let (out, had_error) = expand_template(f.as_slice(), state, on_missing);
    let o = to_chars(out.as_str());
    (drop_hidden_words(o.as_slice()), had_error)
}

// ---------------------------------------------------------------------------
// Class
// ---------------------------------------------------------------------------

pub open spec fn max_nat(a: nat, b: nat) -> nat {
    if a >= b {
        a
    } else {
        b
    }
}

/// Severity of a condition: 3 offline, 2 critical, 1 warning.
pub open spec fn reason_rank(r: Reason) -> nat {
    match r {
        Reason::Offline => 3,
        Reason::Jam | Reason::MediaEmpty | Reason::SupplyEmpty | Reason::CoverOpen => 2,
        Reason::MediaLow | Reason::SupplyLow | Reason::Other(_) => 1,
    }
}

pub open spec fn reasons_rank(rs: Seq<Reason>) -> nat
    decreases rs.len(),
{
    if rs.len() == 0 {
        0
    } else {
        max_nat(reasons_rank(rs.drop_last()), reason_rank(rs.last()))
    }
}

/// Severity of a supply: 2 at or below the critical threshold, 1 at or below the low one.
pub open spec fn supply_rank(s: Supply, th: Thresholds) -> nat {
    match badness(s) {
        Some(b) => if b <= th.supply_critical {
            2
        } else if b <= th.supply_low {
            1
        } else {
            0
        },
        None => 0,
    }
}

pub open spec fn supplies_rank(ss: Seq<Supply>, th: Thresholds) -> nat
    decreases ss.len(),
{
    if ss.len() == 0 {
        0
    } else {
        max_nat(supplies_rank(ss.drop_last(), th), supply_rank(ss.last(), th))
    }
}

/// Worst severity: 4 error (a template miss), 3 offline, 2 critical (stopped, or a
/// critical condition or supply), 1 warning, 0 ok.
pub open spec fn class_rank(st: PrinterState, th: Thresholds, template_error: bool) -> nat {
    max_nat(
        max_nat(
            if template_error {
                4nat
            } else {
                0nat
            },
            if st.status == Some(Status::Offline) {
                3nat
            } else if st.status == Some(Status::Stopped) {
                2nat
            } else {
                0nat
            },
        ),
        max_nat(reasons_rank(st.reasons@), supplies_rank(st.supplies@, th)),
    )
}

pub open spec fn class_name(rank: nat) -> Seq<char> {
    if rank == 4 {
        "error"@
    } else if rank == 3 {
        "offline"@
    } else if rank == 2 {
        "critical"@
    } else if rank == 1 {
        "warn"@
    } else {
        "ok"@
    }
}

/// Worst severity class. Order: ok < warn < critical < offline < error.
pub fn worst_class(state: &PrinterState, cfg: &PrinterConfig, template_error: bool) -> (r: String)
    requires
        levels_in_range(*state),
    ensures
        r@ == class_name(class_rank(*state, cfg.thresholds, template_error)),
{
    let mut rank: u8 = 0;
    if template_error {
        rank = 4;
    }
    let mut status_rank: u8 = 0;
    if state.status == Some(Status::Offline) {
        status_rank = 3;
    } else if state.status == Some(Status::Stopped) {
        status_rank = 2;
    }
    if status_rank > rank {
        rank = status_rank;
    }
    let mut rr: u8 = 0;
    let mut i: usize = 0;
    while i < state.reasons.len()
        invariant
            i <= state.reasons@.len(),
            rr as nat == reasons_rank(state.reasons@.take(i as int)),
            rr <= 3,
        decreases state.reasons@.len() - i,
    {
        assert(state.reasons@.take(i + 1).drop_last() =~= state.reasons@.take(i as int));
        let v: u8 = match &state.reasons[i] {
            Reason::Offline => 3,
            Reason::Jam | Reason::MediaEmpty | Reason::SupplyEmpty | Reason::CoverOpen => 2,
            Reason::MediaLow | Reason::SupplyLow => 1,
            Reason::Other(_) => 1,
        };
        if v > rr {
            rr = v;
        }
        i += 1;
    }
    assert(state.reasons@.take(state.reasons@.len() as int) =~= state.reasons@);
    let mut sr: u8 = 0;
    let mut j: usize = 0;
    while j < state.supplies.len()
        invariant
            j <= state.supplies@.len(),
            levels_in_range(*state),
            sr as nat == supplies_rank(state.supplies@.take(j as int), cfg.thresholds),
            sr <= 2,
        decreases state.supplies@.len() - j,
    {
        assert(state.supplies@.take(j + 1).drop_last() =~= state.supplies@.take(j as int));
        let v: u8 = match supply_badness(&state.supplies[j]) {
            Some(b) => if b <= cfg.thresholds.supply_critical {
                2
            } else if b <= cfg.thresholds.supply_low {
                1
            } else {
                0
            },
            None => 0,
        };
        if v > sr {
            sr = v;
        }
        j += 1;
    }
    assert(state.supplies@.take(state.supplies@.len() as int) =~= state.supplies@);
    let other = if rr >= sr {
        rr
    } else {
        sr
    };
    if other > rank {
        rank = other;
    }
    if rank == 4 {
        String::from_str("error")
    } else if rank == 3 {
        String::from_str("offline")
    } else if rank == 2 {
        String::from_str("critical")
    } else if rank == 1 {
        String::from_str("warn")
    } else {
        String::from_str("ok")
    }
}

// ---------------------------------------------------------------------------
// Tooltip
// ---------------------------------------------------------------------------

/// A level as text: `54%`, `∞` (no restriction), `?` (unknown), `ok` (some remaining).
pub open spec fn level_text(l: Level) -> Seq<char> {
    match l {
        Level::Pct(p) => dec(p as nat) + "%"@,
        Level::NoRestriction => "∞"@,
        Level::Unknown => "?"@,
        Level::SomeRemaining => "ok"@,
    }
}

fn level_str(l: Level) -> (r: String)
    ensures
        r@ == level_text(l),
{
    match l {
        Level::Pct(p) => {
            let mut s = dec_string(p as u64);
            s.append("%");
            s
        },
        Level::NoRestriction => String::from_str("∞"),
        Level::Unknown => String::from_str("?"),
        Level::SomeRemaining => String::from_str("ok"),
    }
}

/// Five cells, the first `ceil(p / 20)` of them filled.
pub open spec fn cells(p: u8) -> Seq<char> {
    Seq::new(5, |i: int| if i < (p as int + 19) / 20 { '▰' } else { '▱' })
}

/// A supply's level as a bar (`▰▰▰▱▱ 54%`), or as text for a sentinel.
pub open spec fn bar_of(s: Supply) -> Seq<char> {
    match pct(s.level) {
        Some(p) => cells(p) + " "@ + dec(p as nat) + "%"@,
        None => level_text(s.level),
    }
}

fn supply_bar(s: &Supply) -> (r: String)
    ensures
        r@ == bar_of(*s),
{
    match s.level.as_pct() {
        Some(p) => {
            let filled = (p as usize + 19) / 20;
            let mut r = String::new();
            let mut i: usize = 0;
            while i < 5
                invariant
                    i <= 5,
                    filled == (p as int + 19) / 20,
                    r@ == cells(p).take(i as int),
                decreases 5 - i,
            {
                if i < filled {
                    push_char(&mut r, '▰');
                } else {
                    push_char(&mut r, '▱');
                }
                assert(r@ =~= cells(p).take(i + 1));
                i += 1;
            }
            assert(cells(p).take(5) =~= cells(p));
            r.append(" ");
            let num = dec_string(p as u64);
            r.append(num.as_str());
            r.append("%");
            r
        },
        None => level_str(s.level),
    }
}

/// Theme color of a supply by its class-aware level.
pub open spec fn supply_color_of(s: Supply, th: Thresholds, t: ThemeColors) -> Seq<char> {
    match badness(s) {
        Some(b) => if b <= th.supply_critical {
            t.error@
        } else if b <= th.supply_low {
            t.orange@
        } else {
            t.green@
        },
        None => t.dim@,
    }
}

fn supply_color<'a>(s: &Supply, cfg: &PrinterConfig, t: &'a ThemeColors) -> (r: &'a str)
    requires
        supply_in_range(*s),
    ensures
        r@ == supply_color_of(*s, cfg.thresholds, *t),
{
    match supply_badness(s) {
        Some(b) => if b <= cfg.thresholds.supply_critical {
            t.error.as_str()
        } else if b <= cfg.thresholds.supply_low {
            t.orange.as_str()
        } else {
            t.green.as_str()
        },
        None => t.dim.as_str(),
    }
}

/// `label value` row, the label dim.
pub open spec fn labeled(t: ThemeColors, label: Seq<char>, value: Seq<char>) -> Seq<char> {
    fg_markup(t.dim@, label) + " "@ + value
}

pub open spec fn supply_row_text(s: Supply, th: Thresholds, t: ThemeColors) -> Seq<char> {
    fg_markup(t.text@, escape(s.name@)) + "  "@ + fg_markup(supply_color_of(s, th, t), bar_of(s))
}

pub open spec fn tray_row_text(tray: InputTray, t: ThemeColors) -> Seq<char> {
    labeled(t, escape(tray.name@), fg_markup(t.text@, level_text(tray.level)))
}

pub open spec fn alert_row_text(r: Reason, t: ThemeColors) -> Seq<char> {
    fg_markup(reason_color(r, t), "\u{26a0} "@ + escape(reason_label(r)))
}

/// The `+N more` row when `total` rows were cut to `cap`.
pub open spec fn more_rows(total: nat, cap: nat, t: ThemeColors) -> Seq<Seq<char>> {
    if total > cap {
        seq![fg_markup(t.dim@, "+"@ + dec((total - cap) as nat) + " more"@)]
    } else {
        Seq::empty()
    }
}

/// The row cap of a list: `max_rows`, at least one.
pub open spec fn row_cap(cfg: PrinterConfig) -> nat {
    if cfg.tooltip.max_rows >= 1 {
        cfg.tooltip.max_rows as nat
    } else {
        1
    }
}

pub open spec fn min_nat(a: nat, b: nat) -> nat {
    if a <= b {
        a
    } else {
        b
    }
}

/// The rows one tooltip item contributes.
pub open spec fn item_rows(item: Seq<char>, st: PrinterState, cfg: PrinterConfig, t: ThemeColors) -> Seq<Seq<char>> {
    let cap = row_cap(cfg);
    if item == "model"@ {
        match st.model {
            Some(m) => seq![bold_fg_markup(t.accent@, escape(m@))],
            None => if cfg.tooltip.on_missing == OnMissing::Error {
                seq![labeled(t, "Model"@, fg_markup(t.error@, "n/d"@))]
            } else {
                Seq::empty()
            },
        }
    } else if item == "status"@ && st.status is Some {
        seq![labeled(t, "Status"@, fg_markup(t.text@, text_of(st.status)))]
    } else if item == "display"@ {
        match st.display {
            Some(d) => seq![labeled(t, "Panel"@, fg_markup(t.accent@, escape(d@)))],
            None => Seq::empty(),
        }
    } else if item == "alerts"@ {
        let n = min_nat(st.reasons@.len(), cap);
        Seq::new(n, |i: int| alert_row_text(st.reasons@[i], t)) + more_rows(st.reasons@.len(), cap, t)
    } else if item == "supplies"@ {
        let n = min_nat(st.supplies@.len(), cap);
        Seq::new(n, |i: int| supply_row_text(st.supplies@[i], cfg.thresholds, t)) + more_rows(
            st.supplies@.len(),
            cap,
            t,
        )
    } else if item == "paper"@ {
        let n = min_nat(st.paper@.len(), cap);
        Seq::new(n, |i: int| tray_row_text(st.paper@[i], t)) + more_rows(st.paper@.len(), cap, t)
    } else if item == "jobs"@ {
        match st.jobs {
            Some(j) => seq![labeled(t, "Jobs"@, fg_markup(t.text@, dec(j as nat)))],
            None => Seq::empty(),
        }
    } else if item == "pages"@ {
        match st.pages {
            Some(p) => seq![labeled(t, "Pages"@, fg_markup(t.text@, dec(p as nat)))],
            None => Seq::empty(),
        }
    } else {
        Seq::empty()
    }
}

/// The rows of the items, in order.
pub open spec fn items_rows(items: Seq<Seq<char>>, st: PrinterState, cfg: PrinterConfig, t: ThemeColors) -> Seq<Seq<char>>
    decreases items.len(),
{
    if items.len() == 0 {
        Seq::empty()
    } else {
        items_rows(items.drop_last(), st, cfg, t) + item_rows(items.last(), st, cfg, t)
    }
}

/// The tooltip's rows: those of the configured items, or a single `no data` row.
pub open spec fn tooltip_rows(st: PrinterState, cfg: PrinterConfig, t: ThemeColors) -> Seq<Seq<char>> {
    let rows = items_rows(views_of(cfg.tooltip.items@), st, cfg, t);
    if rows.len() == 0 {
        seq![fg_markup(t.dim@, "no data"@)]
    } else {
        rows
    }
}

/// The widest visible row.
pub open spec fn max_row_width(rows: Seq<Seq<char>>) -> nat
    decreases rows.len(),
{
    if rows.len() == 0 {
        0
    } else {
        max_nat(max_row_width(rows.drop_last()), display_width(visible(rows.last())) as nat)
    }
}

/// The lines joined by newlines.
pub open spec fn join_lines(ls: Seq<Seq<char>>) -> Seq<char>
    decreases ls.len(),
{
    if ls.len() == 0 {
        Seq::empty()
    } else if ls.len() == 1 {
        ls[0]
    } else {
        join_lines(ls.drop_last()) + "\n"@ + ls.last()
    }
}

/// The framed tooltip: a top edge, each row padded to the frame width between borders,
/// a bottom edge. The frame is as wide as the widest row and at least 12 columns.
pub open spec fn framed(rows: Seq<Seq<char>>, border: Seq<char>) -> Seq<char> {
    let w = max_nat(max_row_width(rows), 12);
    join_lines(
        seq![top_markup(w, border)] + Seq::new(rows.len(), |i: int| border_line_markup(rows[i], w, border))
            + seq![bottom_markup(w, border)],
    )
}

/// `body` set in the font family `font`.
pub open spec fn font_markup(font: Seq<char>, body: Seq<char>) -> Seq<char> {
    "<span font_family='"@ + font + "'>"@ + body + "</span>"@
}

/// The tooltip: with `frame` on, the rows framed and set in `frame_font` so they stay
/// aligned under any bar font; with it off, the rows one per line, in the user's font.
pub open spec fn tooltip_text(st: PrinterState, cfg: PrinterConfig, t: ThemeColors) -> Seq<char> {
    let rows = tooltip_rows(st, cfg, t);
    if cfg.tooltip.frame {
        font_markup(cfg.tooltip.frame_font@, framed(rows, t.border@))
    } else {
        join_lines(rows)
    }
}

fn labeled_row(t: &ThemeColors, label: &str, value: &str) -> (r: String)
    ensures
        r@ == labeled(*t, label@, value@),
{
    let mut r = fg(t.dim.as_str(), label);
    r.append(" ");
    r.append(value);
    r
}

/// Appends the `+N more` row when `total` rows were cut to `cap`.
fn push_more(rows: &mut Vec<String>, total: usize, cap: usize, t: &ThemeColors)
    ensures
        views_of(final(rows)@) == views_of(old(rows)@) + more_rows(total as nat, cap as nat, *t),
{
    if total > cap {
        let mut s = String::from_str("+");
        let n = dec_string((total - cap) as u64);
        s.append(n.as_str());
        s.append(" more");
        let row = fg(t.dim.as_str(), s.as_str());
        let ghost before = rows@;
        rows.push(row);
        assert(views_of(rows@) =~= views_of(before) + more_rows(total as nat, cap as nat, *t));
    } else {
        assert(views_of(rows@) =~= views_of(rows@) + more_rows(total as nat, cap as nat, *t));
    }
}

/// Appends one row.
fn push_row(rows: &mut Vec<String>, row: String)
    ensures
        views_of(final(rows)@) == views_of(old(rows)@).push(row@),
{
    let ghost before = rows@;
    rows.push(row);
    assert(views_of(rows@) =~= views_of(before).push(row@));
}

/// Appends the rows of one tooltip item.
fn push_item_rows(rows: &mut Vec<String>, item: &str, state: &PrinterState, cfg: &PrinterConfig, t: &ThemeColors)
    requires
        levels_in_range(*state),
    ensures
        views_of(final(rows)@) == views_of(old(rows)@) + item_rows(item@, *state, *cfg, *t),
{
    let ghost start = views_of(rows@);
    let cap = if cfg.tooltip.max_rows >= 1 {
        cfg.tooltip.max_rows
    } else {
        1
    };
    if str_eq(item, "model") {
        match &state.model {
            Some(m) => {
                let e = pango_escape(m.as_str());
                push_row(rows, bold_fg(t.accent.as_str(), e.as_str()));
            },
            None => {
                if cfg.tooltip.on_missing == OnMissing::Error {
                    let v = fg(t.error.as_str(), "n/d");
                    push_row(rows, labeled_row(t, "Model", v.as_str()));
                }
            },
        }
        assert(views_of(rows@) =~= start + item_rows(item@, *state, *cfg, *t));
    } else if str_eq(item, "status") && state.status.is_some() {
        let v = fg(t.text.as_str(), status_text(state.status.as_ref()));
        push_row(rows, labeled_row(t, "Status", v.as_str()));
        assert(views_of(rows@) =~= start + item_rows(item@, *state, *cfg, *t));
    } else if str_eq(item, "display") {
        match &state.display {
            Some(d) => {
                let e = pango_escape(d.as_str());
                let v = fg(t.accent.as_str(), e.as_str());
                push_row(rows, labeled_row(t, "Panel", v.as_str()));
            },
            None => {},
        }
        assert(views_of(rows@) =~= start + item_rows(item@, *state, *cfg, *t));
    } else if str_eq(item, "alerts") {
        let total = state.reasons.len();
        let n = if total <= cap {
            total
        } else {
            cap
        };
        let mut i: usize = 0;
        while i < n
            invariant
                i <= n <= state.reasons@.len(),
                views_of(rows@) == start + Seq::new(i as nat, |k: int| alert_row_text(state.reasons@[k], *t)),
            decreases n - i,
        {
            let (txt, color) = reason_display(&state.reasons[i], t);
            let mut s = String::from_str("\u{26a0} ");
            let e = pango_escape(txt.as_str());
            s.append(e.as_str());
            let ghost before = views_of(rows@);
            push_row(rows, fg(color, s.as_str()));
            assert(views_of(rows@) =~= start + Seq::new((i + 1) as nat, |k: int| alert_row_text(state.reasons@[k], *t)));
            i += 1;
        }
        push_more(rows, total, cap, t);
        assert(views_of(rows@) =~= start + item_rows(item@, *state, *cfg, *t));
    } else if str_eq(item, "supplies") {
        let total = state.supplies.len();
        let n = if total <= cap {
            total
        } else {
            cap
        };
        let mut i: usize = 0;
        while i < n
            invariant
                i <= n <= state.supplies@.len(),
                levels_in_range(*state),
                views_of(rows@) == start + Seq::new(i as nat, |k: int| supply_row_text(state.supplies@[k], cfg.thresholds, *t)),
            decreases n - i,
        {
            let s = &state.supplies[i];
            let name = pango_escape(s.name.as_str());
            let mut row = fg(t.text.as_str(), name.as_str());
            row.append("  ");
            let bar = supply_bar(s);
            let colored = fg(supply_color(s, cfg, t), bar.as_str());
            row.append(colored.as_str());
            push_row(rows, row);
            assert(views_of(rows@) =~= start + Seq::new((i + 1) as nat, |k: int| supply_row_text(state.supplies@[k], cfg.thresholds, *t)));
            i += 1;
        }
        push_more(rows, total, cap, t);
        assert(views_of(rows@) =~= start + item_rows(item@, *state, *cfg, *t));
    } else if str_eq(item, "paper") {
        let total = state.paper.len();
        let n = if total <= cap {
            total
        } else {
            cap
        };
        let mut i: usize = 0;
        while i < n
            invariant
                i <= n <= state.paper@.len(),
                views_of(rows@) == start + Seq::new(i as nat, |k: int| tray_row_text(state.paper@[k], *t)),
            decreases n - i,
        {
            let tray = &state.paper[i];
            let name = pango_escape(tray.name.as_str());
            let lv = level_str(tray.level);
            let v = fg(t.text.as_str(), lv.as_str());
            push_row(rows, labeled_row(t, name.as_str(), v.as_str()));
            assert(views_of(rows@) =~= start + Seq::new((i + 1) as nat, |k: int| tray_row_text(state.paper@[k], *t)));
            i += 1;
        }
        push_more(rows, total, cap, t);
        assert(views_of(rows@) =~= start + item_rows(item@, *state, *cfg, *t));
    } else if str_eq(item, "jobs") {
        match state.jobs {
            Some(j) => {
                let n = dec_string(j as u64);
                let v = fg(t.text.as_str(), n.as_str());
                push_row(rows, labeled_row(t, "Jobs", v.as_str()));
            },
            None => {},
        }
        assert(views_of(rows@) =~= start + item_rows(item@, *state, *cfg, *t));
    } else if str_eq(item, "pages") {
        match state.pages {
            Some(p) => {
                let n = dec_string(p);
                let v = fg(t.text.as_str(), n.as_str());
                push_row(rows, labeled_row(t, "Pages", v.as_str()));
            },
            None => {},
        }
        assert(views_of(rows@) =~= start + item_rows(item@, *state, *cfg, *t));
    } else {
        assert(views_of(rows@) =~= start + item_rows(item@, *state, *cfg, *t));
    }
}

/// Build the themed tooltip from the configured items, framed when `frame` is on.
fn build_tooltip(state: &PrinterState, cfg: &PrinterConfig, t: &ThemeColors) -> (r: String)
    requires
        levels_in_range(*state),
    ensures
        r@ == tooltip_text(*state, *cfg, *t),
{
    let mut rows: Vec<String> = Vec::new();
    let ghost items = views_of(cfg.tooltip.items@);
    let mut i: usize = 0;
    while i < cfg.tooltip.items.len()
        invariant
            i <= cfg.tooltip.items@.len(),
            items == views_of(cfg.tooltip.items@),
            levels_in_range(*state),
            views_of(rows@) == items_rows(items.take(i as int), *state, *cfg, *t),
        decreases cfg.tooltip.items@.len() - i,
    {
        assert(items.take(i + 1).drop_last() =~= items.take(i as int));
        assert(items.take(i + 1).last() == cfg.tooltip.items@[i as int]@);
        push_item_rows(&mut rows, cfg.tooltip.items[i].as_str(), state, cfg, t);
        i += 1;
    }
    assert(items.take(items.len() as int) =~= items);
    if rows.len() == 0 {
        push_row(&mut rows, fg(t.dim.as_str(), "no data"));
    }
    assert(views_of(rows@) == tooltip_rows(*state, *cfg, *t));
    if cfg.tooltip.frame {
        let boxed = frame_rows(&rows, t.border.as_str());
        let mut out = String::from_str("<span font_family='");
        out.append(cfg.tooltip.frame_font.as_str());
        out.append("'>");
        out.append(boxed.as_str());
        out.append("</span>");
        out
    } else {
        join_rows(&rows)
    }
}

/// The rows one per line.
fn join_rows(rows: &Vec<String>) -> (r: String)
    ensures
        r@ == join_lines(views_of(rows@)),
{
    let ghost rs = views_of(rows@);
    let mut out = String::new();
    let mut j: usize = 0;
    while j < rows.len()
        invariant
            j <= rows@.len(),
            rs == views_of(rows@),
            out@ == join_lines(rs.take(j as int)),
        decreases rows@.len() - j,
    {
        let ghost before = rs.take(j as int);
        assert(rs.take(j + 1).drop_last() =~= before);
        if j > 0 {
            out.append("\n");
        } else {
            assert(out@ =~= Seq::<char>::empty());
        }
        out.append(rows[j].as_str());
        j += 1;
    }
    assert(rs.take(rs.len() as int) =~= rs);
    out
}

/// The rows in a frame as wide as the widest row (at least 12 columns).
fn frame_rows(rows: &Vec<String>, border: &str) -> (r: String)
    ensures
        r@ == framed(views_of(rows@), border@),
{
    let ghost rs = views_of(rows@);

    let mut width: usize = 0;
    let mut k: usize = 0;
    while k < rows.len()
        invariant
            k <= rows@.len(),
            rs == views_of(rows@),
            width as nat == max_row_width(rs.take(k as int)),
        decreases rows@.len() - k,
    {
        assert(rs.take(k + 1).drop_last() =~= rs.take(k as int));
        let w = visible_len(rows[k].as_str());
        if w > width {
            width = w;
        }
        k += 1;
    }
    assert(rs.take(rs.len() as int) =~= rs);
    if width < 12 {
        width = 12;
    }
    let ghost lines_rows = Seq::new(rs.len(), |j: int| border_line_markup(rs[j], width as nat, border@));
    let mut out = top_border(width, border);
    let ghost mut lines: Seq<Seq<char>> = seq![out@];
    assert(out@ == join_lines(lines));
    let mut j: usize = 0;
    while j < rows.len()
        invariant
            j <= rows@.len(),
            rs == views_of(rows@),
            lines_rows == Seq::new(rs.len(), |x: int| border_line_markup(rs[x], width as nat, border@)),
            lines == seq![top_markup(width as nat, border@)] + lines_rows.take(j as int),
            out@ == join_lines(lines),
        decreases rows@.len() - j,
    {
        let line = border_line(rows[j].as_str(), width, border);
        out.append("\n");
        out.append(line.as_str());
        proof {
            let nl = lines.push(line@);
            assert(nl.drop_last() =~= lines);
            lines = nl;
            assert(lines =~= seq![top_markup(width as nat, border@)] + lines_rows.take(j + 1));
        }
        j += 1;
    }
    let bottom = bottom_border(width, border);
    out.append("\n");
    out.append(bottom.as_str());
    proof {
        let nl = lines.push(bottom@);
        assert(nl.drop_last() =~= lines);
        assert(lines_rows.take(rs.len() as int) =~= lines_rows);
        assert(nl =~= seq![top_markup(width as nat, border@)] + lines_rows + seq![bottom_markup(width as nat, border@)]);
    }
    out
}

/// The Waybar output of a printer state: the bar text from the template, the tooltip
/// (framed when configured), and the worst-state class, which is also `alt`.
pub fn render(state: &PrinterState, cfg: &PrinterConfig, t: &ThemeColors) -> (r: WaybarOutput)
    requires
        levels_in_range(*state),
    ensures
        r.text@ == bar_text(cfg.bar.format@, *state, cfg.bar.on_missing).0,
        r.tooltip@ == tooltip_text(*state, *cfg, *t),
        r.class@.len() == 1,
        r.class@[0]@ == class_name(
            class_rank(*state, cfg.thresholds, bar_text(cfg.bar.format@, *state, cfg.bar.on_missing).1),
        ),
        r.alt@ == r.class@[0]@,
{
    let (text, err) = render_template(cfg.bar.format.as_str(), state, cfg.bar.on_missing);
    let class = worst_class(state, cfg, err);
    let tooltip = build_tooltip(state, cfg, t);
    let alt = class.clone();
    let mut classes: Vec<String> = Vec::new();
    classes.push(class);
    WaybarOutput { text, tooltip, alt, class: classes }
}

/// Whether every filled supply of the state reports at most 100 %, as `render` requires.
pub fn levels_ok(state: &PrinterState) -> (r: bool)
    ensures
        r == levels_in_range(*state),
{
    let mut i: usize = 0;
    while i < state.supplies.len()
        invariant
            i <= state.supplies@.len(),
            forall|j: int| 0 <= j < i ==> supply_in_range(#[trigger] state.supplies@[j]),
        decreases state.supplies@.len() - i,
    {
        let s = &state.supplies[i];
        if s.class == SupplyClass::Filled {
            match s.level.as_pct() {
                Some(p) => if p > 100 {
                    return false;
                },
                None => {},
            }
        }
        i += 1;
    }
    true
}

// ---------------------------------------------------------------------------
// Laws
// ---------------------------------------------------------------------------

proof fn lemma_shown_has_no_marker(ws: Seq<Seq<char>>)
    ensures
        forall|i: int| 0 <= i < shown(ws).len() ==> !(#[trigger] shown(ws)[i]).contains(HIDDEN),
    decreases ws.len(),
{
    if ws.len() > 0 {
        lemma_shown_has_no_marker(ws.drop_last());
        let prev = shown(ws.drop_last());
        if !ws.last().contains(HIDDEN) {
            assert forall|i: int| 0 <= i < shown(ws).len() implies !(#[trigger] shown(ws)[i]).contains(HIDDEN) by {
                if i < prev.len() {
                    assert(shown(ws)[i] == prev[i]);
                }
            }
        }
    }
}

proof fn lemma_join_has_no_marker(ws: Seq<Seq<char>>)
    requires
        forall|i: int| 0 <= i < ws.len() ==> !(#[trigger] ws[i]).contains(HIDDEN),
    ensures
        !join_space(ws).contains(HIDDEN),
    decreases ws.len(),
{
    reveal_strlit(" ");
    if ws.len() > 1 {
        let a = ws.drop_last();
        assert forall|i: int| 0 <= i < a.len() implies !(#[trigger] a[i]).contains(HIDDEN) by {
            assert(a[i] == ws[i]);
        }
        lemma_join_has_no_marker(a);
        let j = join_space(a) + " "@ + ws.last();
        assert(!ws[ws.len() - 1].contains(HIDDEN));
        if j.contains(HIDDEN) {
            let k = choose|k: int| 0 <= k < j.len() && j[k] == HIDDEN;
            let la = join_space(a).len();
            if k < la {
                assert(join_space(a)[k] == HIDDEN);
            } else if k == la {
                assert(j[k] == ' ');
            } else {
                assert(ws.last()[k - la - 1] == HIDDEN);
            }
        }
    } else if ws.len() == 1 {
        assert(!ws[0].contains(HIDDEN));
    }
}

/// A hidden token leaves no trace: the bar text never holds the hidden marker, whatever
/// the template and the state.
pub proof fn law_bar_text_has_no_marker(fmt: Seq<char>, st: PrinterState, om: OnMissing)
    ensures
        !bar_text(fmt, st, om).0.contains(HIDDEN),
{
    let ws = words(expand(fmt, st, om).0);
    lemma_shown_has_no_marker(ws);
    lemma_join_has_no_marker(shown(ws));
}

/// The status glyph is always known, so `{status_icon}` is never hidden.
pub proof fn law_status_icon_always_known(st: PrinterState)
    ensures
        token_value("status_icon"@, st) == Some(icon_of(st.status)),
{
    reveal_strlit("status_icon");
    reveal_strlit("supply_min");
    reveal_strlit("toner_min");
    reveal_strlit("ink_min");
    reveal_strlit("black");
    reveal_strlit("cyan");
    reveal_strlit("magenta");
    reveal_strlit("yellow");
    reveal_strlit("status");
    assert("status_icon"@.len() == 11);
    assert("supply_min"@.len() == 10);
    assert("toner_min"@.len() == 9);
    assert("ink_min"@.len() == 7);
    assert("black"@.len() == 5);
    assert("cyan"@.len() == 4);
    assert("magenta"@.len() == 7);
    assert("yellow"@.len() == 6);
    assert("status"@.len() == 6);
}

/// Long lists fold: the supplies, the paper trays and the alerts each take at most
/// `max_rows` rows of the tooltip (at least one), plus one `+N more` row when some are left
/// out.
pub proof fn law_tooltip_lists_are_capped(st: PrinterState, cfg: PrinterConfig, t: ThemeColors)
    ensures
        item_rows("supplies"@, st, cfg, t).len() <= row_cap(cfg) + 1,
        item_rows("paper"@, st, cfg, t).len() <= row_cap(cfg) + 1,
        item_rows("alerts"@, st, cfg, t).len() <= row_cap(cfg) + 1,
        st.supplies@.len() > row_cap(cfg) ==> item_rows("supplies"@, st, cfg, t).len() == row_cap(cfg) + 1,
        st.reasons@.len() > row_cap(cfg) ==> item_rows("alerts"@, st, cfg, t).len() == row_cap(cfg) + 1,
{
    reveal_strlit("supplies");
    reveal_strlit("paper");
    reveal_strlit("model");
    reveal_strlit("status");
    reveal_strlit("display");
    reveal_strlit("alerts");
    assert("supplies"@.len() == 8);
    assert("paper"@.len() == 5);
    assert("model"@.len() == 5);
    assert("status"@.len() == 6);
    assert("display"@.len() == 7);
    assert("alerts"@.len() == 6);
    assert("paper"@[0] != "model"@[0]);
    assert("alerts"@[0] != "status"@[0]);
}

/// A supply at or past `limit`: a consumed one at or below `limit` percent, a filled one
/// (a waste tank) with at most `limit` percent of headroom left.
pub open spec fn supply_at_limit(s: Supply, limit: u8) -> bool {
    match pct(s.level) {
        Some(p) => if s.class == SupplyClass::Consumed {
            p <= limit
        } else {
            100 - p <= limit
        },
        None => false,
    }
}

proof fn lemma_reasons_rank(rs: Seq<Reason>)
    ensures
        forall|i: int| 0 <= i < rs.len() ==> reasons_rank(rs) >= reason_rank(#[trigger] rs[i]),
        reasons_rank(rs) > 0 ==> exists|i: int|
            0 <= i < rs.len() && reason_rank(#[trigger] rs[i]) == reasons_rank(rs),
    decreases rs.len(),
{
    if rs.len() > 0 {
        let f = rs.drop_last();
        lemma_reasons_rank(f);
        assert forall|i: int| 0 <= i < rs.len() implies reasons_rank(rs) >= reason_rank(#[trigger] rs[i]) by {
            if i < rs.len() - 1 {
                assert(rs[i] == f[i]);
            }
        }
        if reasons_rank(rs) == reason_rank(rs.last()) {
            assert(reason_rank(rs[rs.len() - 1]) == reasons_rank(rs));
        } else {
            let i = choose|i: int| 0 <= i < f.len() && reason_rank(#[trigger] f[i]) == reasons_rank(f);
            assert(rs[i] == f[i]);
        }
    }
}

proof fn lemma_supplies_rank(ss: Seq<Supply>, th: Thresholds)
    ensures
        forall|i: int| 0 <= i < ss.len() ==> supplies_rank(ss, th) >= supply_rank(#[trigger] ss[i], th),
        supplies_rank(ss, th) > 0 ==> exists|i: int|
            0 <= i < ss.len() && supply_rank(#[trigger] ss[i], th) == supplies_rank(ss, th),
        supplies_rank(ss, th) <= 2,
    decreases ss.len(),
{
    if ss.len() > 0 {
        let f = ss.drop_last();
        lemma_supplies_rank(f, th);
        assert forall|i: int| 0 <= i < ss.len() implies supplies_rank(ss, th) >= supply_rank(#[trigger] ss[i], th) by {
            if i < ss.len() - 1 {
                assert(ss[i] == f[i]);
            }
        }
        if supplies_rank(ss, th) == supply_rank(ss.last(), th) {
            assert(supply_rank(ss[ss.len() - 1], th) == supplies_rank(ss, th));
        } else {
            let i = choose|i: int| 0 <= i < f.len() && supply_rank(#[trigger] f[i], th) == supplies_rank(f, th);
            assert(ss[i] == f[i]);
        }
    }
}

/// A reason that makes the printer offline.
pub open spec fn offline_reason(r: Reason) -> bool {
    r is Offline
}

/// A reason that stops printing: a jam, no paper, an empty supply, an open cover.
pub open spec fn blocking_reason(r: Reason) -> bool {
    r is Jam || r is MediaEmpty || r is SupplyEmpty || r is CoverOpen
}

/// The class names the worst condition of the state:
/// * `error` exactly when the bar template hit a missing value in error mode;
/// * `error` or `offline` exactly when, besides, the printer is offline (by status or reason);
/// * `error`, `offline` or `critical` exactly when, besides, printing is stopped, blocked (a
///   jam, no paper, an empty supply, an open cover) or a supply is at the critical threshold;
/// * `ok` exactly when nothing is wrong: no template error, not stopped or offline, no
///   reason at all, and no supply at the low or critical threshold;
/// * `warn` otherwise.
pub proof fn law_class_names_the_worst_condition(st: PrinterState, th: Thresholds, e: bool)
    requires
        levels_in_range(st),
    ensures
        ({
            let c = class_name(class_rank(st, th, e));
            let rs = st.reasons@;
            let ss = st.supplies@;
            let offline = st.status == Some(Status::Offline) || exists|i: int|
                0 <= i < rs.len() && offline_reason(#[trigger] rs[i]);
            let critical = offline || st.status == Some(Status::Stopped) || (exists|i: int|
                0 <= i < rs.len() && blocking_reason(#[trigger] rs[i])) || exists|i: int|
                0 <= i < ss.len() && supply_at_limit(#[trigger] ss[i], th.supply_critical);
            let warning = critical || rs.len() > 0 || exists|i: int|
                0 <= i < ss.len() && supply_at_limit(#[trigger] ss[i], th.supply_low);
            &&& (c == "error"@) == e
            &&& (c == "error"@ || c == "offline"@) == (e || offline)
            &&& (c == "error"@ || c == "offline"@ || c == "critical"@) == (e || critical)
            &&& (c == "ok"@) == !(e || warning)
            &&& (c == "warn"@) == (!(e || critical) && warning)
        }),
{
    reveal_strlit("error");
    reveal_strlit("offline");
    reveal_strlit("critical");
    reveal_strlit("warn");
    reveal_strlit("ok");
    let rs = st.reasons@;
    let ss = st.supplies@;
    lemma_reasons_rank(rs);
    lemma_supplies_rank(ss, th);
    let n = class_rank(st, th, e);
    let rr = reasons_rank(rs);
    let sr = supplies_rank(ss, th);
    let off_r = exists|i: int| 0 <= i < rs.len() && offline_reason(#[trigger] rs[i]);
    let blk_r = exists|i: int| 0 <= i < rs.len() && blocking_reason(#[trigger] rs[i]);
    let crit_s = exists|i: int| 0 <= i < ss.len() && supply_at_limit(#[trigger] ss[i], th.supply_critical);
    let low_s = exists|i: int| 0 <= i < ss.len() && supply_at_limit(#[trigger] ss[i], th.supply_low);
    // Each supply's rank against the two limits.
    assert forall|i: int| 0 <= i < ss.len() implies (supply_rank(#[trigger] ss[i], th) >= 2) == supply_at_limit(
        ss[i],
        th.supply_critical,
    ) && (supply_rank(ss[i], th) >= 1) == (supply_at_limit(ss[i], th.supply_low) || supply_at_limit(
        ss[i],
        th.supply_critical,
    )) by {
        assert(supply_in_range(ss[i]));
    }
    // Each reason's rank by kind.
    assert forall|i: int| 0 <= i < rs.len() implies (reason_rank(#[trigger] rs[i]) >= 3) == offline_reason(rs[i])
        && (reason_rank(rs[i]) >= 2) == (offline_reason(rs[i]) || blocking_reason(rs[i]))
        && 1 <= reason_rank(rs[i]) <= 3 by {}
    // The reasons' rank.
    assert(rr <= 3 && (rr >= 3) == off_r && (rr >= 2) == (off_r || blk_r) && (rr >= 1) == (rs.len() > 0)) by {
        if rr > 0 {
            let i = choose|i: int| 0 <= i < rs.len() && reason_rank(#[trigger] rs[i]) == rr;
        }
        if off_r {
            let i = choose|i: int| 0 <= i < rs.len() && offline_reason(#[trigger] rs[i]);
        }
        if blk_r {
            let i = choose|i: int| 0 <= i < rs.len() && blocking_reason(#[trigger] rs[i]);
        }
        if rs.len() > 0 {
            assert(reason_rank(rs[0]) >= 1);
        }
    }
    // The supplies' rank.
    assert((sr >= 2) == crit_s && (sr >= 1) == (crit_s || low_s)) by {
        if sr > 0 {
            let i = choose|i: int| 0 <= i < ss.len() && supply_rank(#[trigger] ss[i], th) == sr;
        }
        if crit_s {
            let i = choose|i: int| 0 <= i < ss.len() && supply_at_limit(#[trigger] ss[i], th.supply_critical);
        }
        if low_s {
            let i = choose|i: int| 0 <= i < ss.len() && supply_at_limit(#[trigger] ss[i], th.supply_low);
        }
    }
    let offline = st.status == Some(Status::Offline) || off_r;
    let critical = offline || st.status == Some(Status::Stopped) || blk_r || crit_s;
    let warning = critical || rs.len() > 0 || low_s;
    assert(n <= 4);
    assert((n == 4) == e);
    assert((n >= 3) == (e || offline));
    assert((n >= 2) == (e || critical));
    assert((n >= 1) == (e || warning));
    assert("error"@.len() == 5 && "offline"@.len() == 7 && "critical"@.len() == 8);
    assert("warn"@.len() == 4 && "ok"@.len() == 2);
    let c = class_name(n);
    if n == 4 {
        assert(c == "error"@);
    } else if n == 3 {
        assert(c == "offline"@);
    } else if n == 2 {
        assert(c == "critical"@);
    } else if n == 1 {
        assert(c == "warn"@);
    } else {
        assert(c == "ok"@);
    }
}

/// How far a supply with a known level is from its bad end, in percent: the level of a
/// consumed supply, the headroom left in a filled one.
pub open spec fn margin(s: Supply) -> Option<int> {
    match pct(s.level) {
        Some(p) => Some(if s.class == SupplyClass::Consumed {
            p as int
        } else {
            100 - p
        }),
        None => None,
    }
}

/// `s` is counted by a minimum over kind `k` (every kind when `k` is `None`).
pub open spec fn of_kind(s: Supply, k: Option<SupplyKind>) -> bool {
    match k {
        Some(kk) => s.kind == kk,
        None => true,
    }
}

/// The minimum behind `{supply_min}`, `{toner_min}` and `{ink_min}` is the least margin
/// among the supplies of the kind with a known level, and it is that of one of them; there
/// is none exactly when no supply of the kind has a known level.
pub proof fn law_supply_minimum_is_the_least(ss: Seq<Supply>, k: Option<SupplyKind>)
    requires
        forall|i: int| 0 <= i < ss.len() ==> supply_in_range(#[trigger] ss[i]),
    ensures
        match min_badness(ss, k) {
            Some(m) => (exists|i: int|
                0 <= i < ss.len() && of_kind(ss[i], k) && #[trigger] margin(ss[i]) == Some(m as int))
                && forall|i: int|
                0 <= i < ss.len() && of_kind(ss[i], k) && (#[trigger] margin(ss[i])) is Some ==> m
                    <= margin(ss[i])->0,
            None => forall|i: int| 0 <= i < ss.len() && of_kind(ss[i], k) ==> (#[trigger] margin(ss[i])) is None,
        },
    decreases ss.len(),
{
    if ss.len() > 0 {
        let f = ss.drop_last();
        assert forall|i: int| 0 <= i < f.len() implies supply_in_range(#[trigger] f[i]) by {
            assert(f[i] == ss[i]);
        }
        law_supply_minimum_is_the_least(f, k);
        let l = ss.last();
        let n = ss.len() - 1;
        assert(ss[n] == l);
        assert(supply_in_range(ss[n]));
        assert(margin(l) matches Some(b) ==> badness(l) == Some(b as u8));
        assert(margin(l) is None ==> badness(l) is None);
        assert forall|i: int| 0 <= i < f.len() implies f[i] == ss[i] by {}
        match min_badness(f, k) {
            Some(m0) => {
                let i0 = choose|i: int|
                    0 <= i < f.len() && of_kind(f[i], k) && #[trigger] margin(f[i]) == Some(m0 as int);
                assert(ss[i0] == f[i0]);
            },
            None => {},
        }
        match min_badness(ss, k) {
            Some(m) => {
                if min_badness(ss, k) == min_badness(f, k) {
                    let i0 = choose|i: int|
                        0 <= i < f.len() && of_kind(f[i], k) && #[trigger] margin(f[i]) == Some(m as int);
                    assert(ss[i0] == f[i0]);
                } else {
                    assert(margin(ss[n]) == Some(m as int));
                }
            },
            None => {},
        }
    }
}

/// A supply is drawn in the error color exactly when it is at the critical threshold, in
/// orange when it is only at the low one, in green when its known level is above both, and
/// dimmed when its level is not known.
pub proof fn law_supply_color_follows_thresholds(s: Supply, th: Thresholds, t: ThemeColors)
    requires
        supply_in_range(s),
    ensures
        supply_at_limit(s, th.supply_critical) ==> supply_color_of(s, th, t) == t.error@,
        !supply_at_limit(s, th.supply_critical) && supply_at_limit(s, th.supply_low)
            ==> supply_color_of(s, th, t) == t.orange@,
        margin(s) is Some && !supply_at_limit(s, th.supply_critical) && !supply_at_limit(s, th.supply_low)
            ==> supply_color_of(s, th, t) == t.green@,
        margin(s) is None ==> supply_color_of(s, th, t) == t.dim@,
{
}

/// What each bar token shows: `{supply_min}`, `{toner_min}`, `{ink_min}` the least margin
/// of all, the toner, the ink supplies; `{black}` `{cyan}` `{magenta}` `{yellow}` the level
/// of the first supply of that color; `{status}` the status word, hidden when no status is
/// known; `{status_icon}` the glyph, always shown; `{model}` and `{name}` the printer's text,
/// escaped; `{jobs}` and `{pages}` the counts in decimal; `{paper}` the lowest tray level.
/// Every other token is unknown and so missing.
pub proof fn law_bar_tokens(st: PrinterState, token: Seq<char>)
    ensures
        token_value("supply_min"@, st) == dec_opt(min_badness(st.supplies@, None)),
        token_value("toner_min"@, st) == dec_opt(min_badness(st.supplies@, Some(SupplyKind::Toner))),
        token_value("ink_min"@, st) == dec_opt(min_badness(st.supplies@, Some(SupplyKind::Ink))),
        token_value("black"@, st) == dec_opt(color_level(st.supplies@, Color::Black)),
        token_value("cyan"@, st) == dec_opt(color_level(st.supplies@, Color::Cyan)),
        token_value("magenta"@, st) == dec_opt(color_level(st.supplies@, Color::Magenta)),
        token_value("yellow"@, st) == dec_opt(color_level(st.supplies@, Color::Yellow)),
        st.status is None ==> token_value("status"@, st) is None,
        st.status == Some(Status::Idle) ==> token_value("status"@, st) == Some("Idle"@),
        st.status == Some(Status::Printing) ==> token_value("status"@, st) == Some("Printing"@),
        st.status == Some(Status::Stopped) ==> token_value("status"@, st) == Some("Stopped"@),
        st.status == Some(Status::Offline) ==> token_value("status"@, st) == Some("Offline"@),
        st.status == Some(Status::Unknown) ==> token_value("status"@, st) == Some("Unknown"@),
        token_value("status_icon"@, st) is Some,
        token_value("model"@, st) == (match st.model {
            Some(m) => Some(escape(m@)),
            None => None,
        }),
        token_value("name"@, st) == (match st.name {
            Some(m) => Some(escape(m@)),
            None => None,
        }),
        token_value("jobs"@, st) == (match st.jobs {
            Some(j) => Some(dec(j as nat)),
            None => None,
        }),
        token_value("pages"@, st) == (match st.pages {
            Some(p) => Some(dec(p as nat)),
            None => None,
        }),
        token_value("paper"@, st) == dec_opt(min_paper(st.paper@)),
        token != "supply_min"@ && token != "toner_min"@ && token != "ink_min"@ && token != "black"@
            && token != "cyan"@ && token != "magenta"@ && token != "yellow"@ && token != "status"@
            && token != "status_icon"@ && token != "model"@ && token != "name"@ && token != "jobs"@
            && token != "pages"@ && token != "paper"@ ==> token_value(token, st) is None,
{
    reveal_strlit("black");
    reveal_strlit("cyan");
    reveal_strlit("ink_min");
    reveal_strlit("jobs");
    reveal_strlit("magenta");
    reveal_strlit("model");
    reveal_strlit("name");
    reveal_strlit("pages");
    reveal_strlit("paper");
    reveal_strlit("status");
    reveal_strlit("status_icon");
    reveal_strlit("supply_min");
    reveal_strlit("toner_min");
    reveal_strlit("yellow");
    assert("toner_min"@.len() != "supply_min"@.len());
    assert("ink_min"@.len() != "supply_min"@.len());
    assert("ink_min"@.len() != "toner_min"@.len());
    assert("black"@.len() != "supply_min"@.len());
    assert("black"@.len() != "toner_min"@.len());
    assert("black"@.len() != "ink_min"@.len());
    assert("cyan"@.len() != "supply_min"@.len());
    assert("cyan"@.len() != "toner_min"@.len());
    assert("cyan"@.len() != "ink_min"@.len());
    assert("cyan"@.len() != "black"@.len());
    assert("magenta"@.len() != "supply_min"@.len());
    assert("magenta"@.len() != "toner_min"@.len());
    assert("magenta"@[0] != "ink_min"@[0]);
    assert("magenta"@.len() != "black"@.len());
    assert("magenta"@.len() != "cyan"@.len());
    assert("yellow"@.len() != "supply_min"@.len());
    assert("yellow"@.len() != "toner_min"@.len());
    assert("yellow"@.len() != "ink_min"@.len());
    assert("yellow"@.len() != "black"@.len());
    assert("yellow"@.len() != "cyan"@.len());
    assert("yellow"@.len() != "magenta"@.len());
    assert("status"@.len() != "supply_min"@.len());
    assert("status"@.len() != "toner_min"@.len());
    assert("status"@.len() != "ink_min"@.len());
    assert("status"@.len() != "black"@.len());
    assert("status"@.len() != "cyan"@.len());
    assert("status"@.len() != "magenta"@.len());
    assert("status"@[0] != "yellow"@[0]);
    assert("status_icon"@.len() != "supply_min"@.len());
    assert("status_icon"@.len() != "toner_min"@.len());
    assert("status_icon"@.len() != "ink_min"@.len());
    assert("status_icon"@.len() != "black"@.len());
    assert("status_icon"@.len() != "cyan"@.len());
    assert("status_icon"@.len() != "magenta"@.len());
    assert("status_icon"@.len() != "yellow"@.len());
    assert("status_icon"@.len() != "status"@.len());
    assert("model"@.len() != "supply_min"@.len());
    assert("model"@.len() != "toner_min"@.len());
    assert("model"@.len() != "ink_min"@.len());
    assert("model"@[0] != "black"@[0]);
    assert("model"@.len() != "cyan"@.len());
    assert("model"@.len() != "magenta"@.len());
    assert("model"@.len() != "yellow"@.len());
    assert("model"@.len() != "status"@.len());
    assert("model"@.len() != "status_icon"@.len());
    assert("name"@.len() != "supply_min"@.len());
    assert("name"@.len() != "toner_min"@.len());
    assert("name"@.len() != "ink_min"@.len());
    assert("name"@.len() != "black"@.len());
    assert("name"@[0] != "cyan"@[0]);
    assert("name"@.len() != "magenta"@.len());
    assert("name"@.len() != "yellow"@.len());
    assert("name"@.len() != "status"@.len());
    assert("name"@.len() != "status_icon"@.len());
    assert("name"@.len() != "model"@.len());
    assert("jobs"@.len() != "supply_min"@.len());
    assert("jobs"@.len() != "toner_min"@.len());
    assert("jobs"@.len() != "ink_min"@.len());
    assert("jobs"@.len() != "black"@.len());
    assert("jobs"@[0] != "cyan"@[0]);
    assert("jobs"@.len() != "magenta"@.len());
    assert("jobs"@.len() != "yellow"@.len());
    assert("jobs"@.len() != "status"@.len());
    assert("jobs"@.len() != "status_icon"@.len());
    assert("jobs"@.len() != "model"@.len());
    assert("jobs"@[0] != "name"@[0]);
    assert("pages"@.len() != "supply_min"@.len());
    assert("pages"@.len() != "toner_min"@.len());
    assert("pages"@.len() != "ink_min"@.len());
    assert("pages"@[0] != "black"@[0]);
    assert("pages"@.len() != "cyan"@.len());
    assert("pages"@.len() != "magenta"@.len());
    assert("pages"@.len() != "yellow"@.len());
    assert("pages"@.len() != "status"@.len());
    assert("pages"@.len() != "status_icon"@.len());
    assert("pages"@[0] != "model"@[0]);
    assert("pages"@.len() != "name"@.len());
    assert("pages"@.len() != "jobs"@.len());
    assert("paper"@.len() != "supply_min"@.len());
    assert("paper"@.len() != "toner_min"@.len());
    assert("paper"@.len() != "ink_min"@.len());
    assert("paper"@[0] != "black"@[0]);
    assert("paper"@.len() != "cyan"@.len());
    assert("paper"@.len() != "magenta"@.len());
    assert("paper"@.len() != "yellow"@.len());
    assert("paper"@.len() != "status"@.len());
    assert("paper"@.len() != "status_icon"@.len());
    assert("paper"@[0] != "model"@[0]);
    assert("paper"@.len() != "name"@.len());
    assert("paper"@.len() != "jobs"@.len());
    assert("paper"@[2] != "pages"@[2]);

}

/// `{black}`, `{cyan}`, `{magenta}` and `{yellow}` show the level of the first supply of
/// that color, and nothing when there is none or its level is not a percentage.
pub proof fn law_color_token_is_the_first_of_its_color(ss: Seq<Supply>, c: Color)
    ensures
        forall|i: int|
            0 <= i < ss.len() && (#[trigger] ss[i]).color == Some(c) && (forall|j: int|
                0 <= j < i ==> (#[trigger] ss[j]).color != Some(c)) ==> color_level(ss, c) == pct(ss[i].level),
        (forall|j: int| 0 <= j < ss.len() ==> (#[trigger] ss[j]).color != Some(c)) ==> color_level(ss, c) is None,
{
    assert forall|i: int|
        0 <= i < ss.len() && (#[trigger] ss[i]).color == Some(c) && (forall|j: int|
            0 <= j < i ==> (#[trigger] ss[j]).color != Some(c)) implies color_level(ss, c) == pct(ss[i].level) by {
        lemma_color_level(ss, c, i);
        assert(ss.skip(i)[0] == ss[i]);
    }
    if forall|j: int| 0 <= j < ss.len() ==> (#[trigger] ss[j]).color != Some(c) {
        lemma_color_level(ss, c, ss.len() as int);
    }
}

/// `{paper}` shows the lowest tray level in percent, that of one of the trays; nothing
/// exactly when no tray level is a percentage.
pub proof fn law_paper_minimum_is_the_least(ps: Seq<InputTray>)
    ensures
        match min_paper(ps) {
            Some(m) => (exists|i: int| 0 <= i < ps.len() && #[trigger] pct(ps[i].level) == Some(m))
                && forall|i: int| 0 <= i < ps.len() && (#[trigger] pct(ps[i].level)) is Some ==> m <= pct(
                ps[i].level,
            )->0,
            None => forall|i: int| 0 <= i < ps.len() ==> (#[trigger] pct(ps[i].level)) is None,
        },
    decreases ps.len(),
{
    if ps.len() > 0 {
        let f = ps.drop_last();
        law_paper_minimum_is_the_least(f);
        let n = ps.len() - 1;
        assert forall|i: int| 0 <= i < f.len() implies f[i] == ps[i] by {}
        match min_paper(f) {
            Some(m0) => {
                let i0 = choose|i: int| 0 <= i < f.len() && #[trigger] pct(f[i].level) == Some(m0);
                assert(ps[i0] == f[i0]);
            },
            None => {},
        }
        match min_paper(ps) {
            Some(m) => {
                if min_paper(ps) == min_paper(f) {
                    let i0 = choose|i: int| 0 <= i < f.len() && #[trigger] pct(f[i].level) == Some(m);
                    assert(ps[i0] == f[i0]);
                } else {
                    assert(pct(ps[n].level) == Some(m));
                }
            },
            None => {},
        }
    }
}

/// A supply bar has five cells, filled ones first: cell `i` is filled exactly when the
/// level is above `20 * i` percent, so each started fifth of the level fills a cell.
pub proof fn law_supply_bar_cells(p: u8)
    ensures
        cells(p).len() == 5,
        forall|i: int| 0 <= i < 5 ==> ((#[trigger] cells(p)[i]) == '▰') == (20 * i < p),
        forall|i: int| 0 <= i < 5 ==> (#[trigger] cells(p)[i]) == '▰' || cells(p)[i] == '▱',
{
    assert forall|i: int| 0 <= i < 5 implies ((#[trigger] cells(p)[i]) == '▰') == (20 * i < p) by {
        let q = (p as int + 19) / 20;
        assert(20 * q <= p as int + 19 < 20 * q + 20);
        assert((i < q) == (20 * i < p)) by (nonlinear_arith)
            requires
                20 * q <= p as int + 19 < 20 * q + 20,
        ;
    }
}

} // verus!
