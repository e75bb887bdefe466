//! Tooltip colors: the palette taken from the desktop theme's color table (read outside
//! this library), with a fallback for each color the theme does not give.
use crate::text::{str_eq, to_chars};
use vstd::prelude::*;

verus! {

/// The palette the tooltip is drawn in.
#[derive(Debug, Clone)]
pub struct ThemeColors {
    pub border: String,
    pub text: String,
    pub dim: String,
    pub accent: String,
    pub green: String,
    pub yellow: String,
    pub orange: String,
    pub error: String,
}

impl Default for ThemeColors {
    fn default() -> (r: Self)
        ensures
            r.border@ == "#565f89"@,
            r.text@ == "#c0caf5"@,
            r.dim@ == "#737aa2"@,
            r.accent@ == "#7aa2f7"@,
            r.green@ == "#9ece6a"@,
            r.yellow@ == "#e0af68"@,
            r.orange@ == "#ff9e64"@,
            r.error@ == "#f7768e"@,
    {
        ThemeColors {
            border: String::from_str("#565f89"),
            text: String::from_str("#c0caf5"),
            dim: String::from_str("#737aa2"),
            accent: String::from_str("#7aa2f7"),
            green: String::from_str("#9ece6a"),
            yellow: String::from_str("#e0af68"),
            orange: String::from_str("#ff9e64"),
            error: String::from_str("#f7768e"),
        }
    }
}

// ---------------------------------------------------------------------------
// From a theme's color table
// ---------------------------------------------------------------------------

pub open spec fn is_hex_digit(c: char) -> bool {
    ('0' <= c && c <= '9') || ('a' <= c && c <= 'f') || ('A' <= c && c <= 'F')
}

/// A color Pango reads in a `foreground` attribute: `#` and 3, 4, 6 or 8 hex digits.
pub open spec fn is_color(s: Seq<char>) -> bool {
    &&& s.len() == 4 || s.len() == 5 || s.len() == 7 || s.len() == 9
    &&& s[0] == '#'
    &&& forall|i: int| 1 <= i < s.len() ==> is_hex_digit(#[trigger] s[i])
}

/// The value of the first entry named `key` in the table, when it is a color.
pub open spec fn color_at(es: Seq<(String, String)>, key: Seq<char>) -> Option<Seq<char>>
    decreases es.len(),
{
    if es.len() == 0 {
        None
    } else if es[0].0@ == key {
        if is_color(es[0].1@) {
            Some(es[0].1@)
        } else {
            None
        }
    } else {
        color_at(es.drop_first(), key)
    }
}

/// The color under `key`, else the one under `alt`, else `fallback`.
pub open spec fn pick(es: Seq<(String, String)>, key: Seq<char>, alt: Seq<char>, fallback: Seq<char>) -> Seq<char> {
    match color_at(es, key) {
        Some(c) => c,
        None => match color_at(es, alt) {
            Some(c) => c,
            None => fallback,
        },
    }
}

fn is_color_str(s: &str) -> (r: bool)
    ensures
        r == is_color(s@),
{
    let c = to_chars(s);
    let n = c.len();
    if !(n == 4 || n == 5 || n == 7 || n == 9) || c[0] != '#' {
        return false;
    }
    let mut i: usize = 1;
    while i < n
        invariant
            1 <= i <= n,
            n == c@.len(),
            c@ == s@,
            forall|j: int| 1 <= j < i ==> is_hex_digit(#[trigger] c@[j]),
        decreases n - i,
    {
        let d = c[i];
        if !(('0' <= d && d <= '9') || ('a' <= d && d <= 'f') || ('A' <= d && d <= 'F')) {
            return false;
        }
        i += 1;
    }
    true
}

proof fn lemma_color_at_skip(es: Seq<(String, String)>, key: Seq<char>, i: int)
    requires
        0 <= i <= es.len(),
        forall|j: int| 0 <= j < i ==> (#[trigger] es[j]).0@ != key,
    ensures
        color_at(es, key) == color_at(es.skip(i), key),
    decreases i,
{
    if i > 0 {
        lemma_color_at_skip(es.drop_first(), key, i - 1);
        assert(es.drop_first().skip(i - 1) =~= es.skip(i));
    } else {
        assert(es.skip(0) =~= es);
    }
}

/// The color of the first entry named `key`, when it is one.
fn find_color(es: &Vec<(String, String)>, key: &str) -> (r: Option<String>)
    ensures
        match color_at(es@, key@) {
            Some(c) => r matches Some(x) && x@ == c,
            None => r is None,
        },
{
    let mut i: usize = 0;
    while i < es.len()
        invariant
            i <= es@.len(),
            forall|j: int| 0 <= j < i ==> (#[trigger] es@[j]).0@ != key@,
        decreases es@.len() - i,
    {
        if str_eq(es[i].0.as_str(), key) {
            proof {
                lemma_color_at_skip(es@, key@, i as int);
            }
            if is_color_str(es[i].1.as_str()) {
                return Some(es[i].1.clone());
            } else {
                return None;
            }
        }
        i += 1;
    }
    proof {
        lemma_color_at_skip(es@, key@, es@.len() as int);
    }
    None
}

fn pick_color(es: &Vec<(String, String)>, key: &str, alt: &str, fallback: String) -> (r: String)
    ensures
        r@ == pick(es@, key@, alt@, fallback@),
{
    match find_color(es, key) {
        Some(c) => c,
        None => match find_color(es, alt) {
            Some(c) => c,
            None => fallback,
        },
    }
}

impl ThemeColors {
    /// The palette from a theme's color table (name and value of each entry). Each color
    /// is taken under its own name, else under the terminal-palette name of the desktop
    /// theme (`color8` for the border and dimmed text, `foreground` for text, `color4` accent,
    /// `color2` green, `color3` yellow, `color11` orange, `color1` error); an entry that is
    /// not a `#` hex color is passed over, and a color found nowhere keeps its fallback.
    pub fn from_entries(es: &Vec<(String, String)>) -> (r: Self)
        ensures
            r.border@ == pick(es@, "border"@, "color8"@, "#565f89"@),
            r.text@ == pick(es@, "text"@, "foreground"@, "#c0caf5"@),
            r.dim@ == pick(es@, "dim"@, "color8"@, "#737aa2"@),
            r.accent@ == pick(es@, "accent"@, "color4"@, "#7aa2f7"@),
            r.green@ == pick(es@, "green"@, "color2"@, "#9ece6a"@),
            r.yellow@ == pick(es@, "yellow"@, "color3"@, "#e0af68"@),
            r.orange@ == pick(es@, "orange"@, "color11"@, "#ff9e64"@),
            r.error@ == pick(es@, "error"@, "color1"@, "#f7768e"@),
    {
        let d = ThemeColors::default();
        ThemeColors {
            border: pick_color(es, "border", "color8", d.border),
            text: pick_color(es, "text", "foreground", d.text),
            dim: pick_color(es, "dim", "color8", d.dim),
            accent: pick_color(es, "accent", "color4", d.accent),
            green: pick_color(es, "green", "color2", d.green),
            yellow: pick_color(es, "yellow", "color3", d.yellow),
            orange: pick_color(es, "orange", "color11", d.orange),
            error: pick_color(es, "error", "color1", d.error),
        }
    }
}

} // verus!
