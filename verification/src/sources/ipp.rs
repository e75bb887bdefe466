//! IPP source. A network printer (`ipp://host/<path>`) and a local CUPS queue
//! (`ipp://localhost:631/printers/<queue>`) share one parser: a pure mapping from the
//! printer's attributes to a partial printer view.
use crate::model::{
    add_reason_views, contains_reason, lemma_has_reason_view, Level, PrinterState, Reason, ReasonView, Status,
    Supply, SupplyClass, SupplyKind, Color,
};
use crate::model::is_empty_state;
use crate::render::{levels_in_range, supply_in_range};
use crate::sources::{SourceKind, SourceOutcome, Target};
use crate::text::{
    count, count_char, dec, dec_string, ends_with, has_sub, lowercase, occurs_at, slice_eq, starts_with,
    starts_with_str, str_contains, str_eq, string_of, to_chars, to_lowercase, trim, trim_chars,
};
use std::time::Duration;
use vstd::prelude::*;

verus! {

/// One attribute value, as far as this program reads it.
#[derive(Debug, PartialEq, Eq)]
pub enum AttrVal {
    Int(i64),
    Str(String),
}

impl Clone for AttrVal {
    fn clone(&self) -> (r: Self)
        ensures
            r == *self,
    {
        match self {
            AttrVal::Int(i) => AttrVal::Int(*i),
            AttrVal::Str(s) => AttrVal::Str(s.clone()),
        }
    }
}

/// The attributes of a printer by name. A later `insert` of a name replaces the earlier one.
#[derive(Debug)]
pub struct AttrMap {
    entries: Vec<(String, Vec<AttrVal>)>,
}

/// The map that a list of insertions builds, the last insertion of a name winning.
pub open spec fn entries_map(es: Seq<(String, Vec<AttrVal>)>) -> Map<Seq<char>, Seq<AttrVal>>
    decreases es.len(),
{
    if es.len() == 0 {
        Map::empty()
    } else {
        entries_map(es.drop_last()).insert(es.last().0@, es.last().1@)
    }
}

impl AttrMap {
    /// The insertions that built this map, in order.
    pub closed spec fn inserts(&self) -> Seq<(String, Vec<AttrVal>)> {
        self.entries@
    }
}

impl View for AttrMap {
    type V = Map<Seq<char>, Seq<AttrVal>>;

    open spec fn view(&self) -> Map<Seq<char>, Seq<AttrVal>> {
        entries_map(self.inserts())
    }
}

proof fn lemma_entries_map_last(es: Seq<(String, Vec<AttrVal>)>, k: Seq<char>, i: int)
    requires
        -1 <= i < es.len(),
        forall|j: int| i < j < es.len() ==> (#[trigger] es[j]).0@ != k,
    ensures
        entries_map(es).contains_key(k) == entries_map(es.take(i + 1)).contains_key(k),
        entries_map(es).contains_key(k) ==> entries_map(es)[k] == entries_map(es.take(i + 1))[k],
    decreases es.len(),
{
    if es.len() == i + 1 {
        assert(es.take(i + 1) =~= es);
    } else {
        lemma_entries_map_last(es.drop_last(), k, i);
        assert(es.drop_last().take(i + 1) =~= es.take(i + 1));
    }
}

impl AttrMap {
    pub fn new() -> (r: Self)
        ensures
            r.inserts().len() == 0,
            r@ == Map::<Seq<char>, Seq<AttrVal>>::empty(),
    {
        AttrMap { entries: Vec::new() }
    }

    /// Sets the values of attribute `key`, replacing any earlier ones.
    pub fn insert(&mut self, key: String, vals: Vec<AttrVal>)
        ensures
            final(self).inserts() == old(self).inserts().push((key, vals)),
            final(self)@ == old(self)@.insert(key@, vals@),
    {
        let ghost es = self.entries@;
        self.entries.push((key, vals));
        assert(self.entries@.drop_last() =~= es);
    }

    /// The values of attribute `key`, if the map holds it.
    pub fn get(&self, key: &str) -> (r: Option<&Vec<AttrVal>>)
        ensures
            match r {
                Some(v) => self@.contains_key(key@) && self@[key@] == v@,
                None => !self@.contains_key(key@),
            },
    {
        let mut i = self.entries.len();
        while i > 0
            invariant
                i <= self.entries@.len(),
                forall|j: int| i <= j < self.entries@.len() ==> (#[trigger] self.entries@[j]).0@ != key@,
            decreases i,
        {
            if str_eq(self.entries[i - 1].0.as_str(), key) {
                proof {
                    let es = self.entries@;
                    lemma_entries_map_last(es, key@, i - 1);
                    assert(es.take(i as int).drop_last() =~= es.take(i - 1));
                }
                return Some(&self.entries[i - 1].1);
            }
            i -= 1;
        }
        proof {
            lemma_entries_map_last(self.entries@, key@, -1);
            assert(self.entries@.take(0) =~= Seq::<(String, Vec<AttrVal>)>::empty());
        }
        None
    }
}

// ---------------------------------------------------------------------------
// Specification of the mapping
// ---------------------------------------------------------------------------

/// The values of `key` (none when absent).
pub open spec fn attr(m: Map<Seq<char>, Seq<AttrVal>>, key: Seq<char>) -> Seq<AttrVal> {
    if m.contains_key(key) {
        m[key]
    } else {
        Seq::empty()
    }
}

/// The integers among `vs`, in order.
pub open spec fn ints_of(vs: Seq<AttrVal>) -> Seq<i64>
    decreases vs.len(),
{
    if vs.len() == 0 {
        Seq::empty()
    } else {
        match vs.last() {
            AttrVal::Int(i) => ints_of(vs.drop_last()).push(i),
            AttrVal::Str(_) => ints_of(vs.drop_last()),
        }
    }
}

/// The strings among `vs`, in order.
pub open spec fn strs_of(vs: Seq<AttrVal>) -> Seq<Seq<char>>
    decreases vs.len(),
{
    if vs.len() == 0 {
        Seq::empty()
    } else {
        match vs.last() {
            AttrVal::Str(s) => strs_of(vs.drop_last()).push(s@),
            AttrVal::Int(_) => strs_of(vs.drop_last()),
        }
    }
}

pub open spec fn views(v: Seq<String>) -> Seq<Seq<char>> {
    v.map_values(|s: String| s@)
}

pub open spec fn first<T>(s: Seq<T>) -> Option<T> {
    if s.len() > 0 {
        Some(s[0])
    } else {
        None
    }
}

/// `printer-state`: 3 idle, 4 processing, 5 stopped.
pub open spec fn status_for(state: Option<i64>) -> Option<Status> {
    match state {
        Some(3) => Some(Status::Idle),
        Some(4) => Some(Status::Printing),
        Some(5) => Some(Status::Stopped),
        _ => None,
    }
}

/// `s` with every trailing copy of `p` removed (what `trim_end_matches` gives).
pub open spec fn trim_suffix_all(s: Seq<char>, p: Seq<char>) -> Seq<char>
    decreases s.len(),
{
    if p.len() > 0 && ends_with(s, p) {
        trim_suffix_all(s.take(s.len() - p.len()), p)
    } else {
        s
    }
}

/// A state reason keyword without its `-warning`/`-error`/`-report` severity suffix.
pub open spec fn reason_base(raw: Seq<char>) -> Seq<char> {
    trim_suffix_all(trim_suffix_all(trim_suffix_all(raw, "-warning"@), "-error"@), "-report"@)
}

/// The condition that an IPP `printer-state-reasons` keyword reports, if any.
pub open spec fn reason_of(raw: Seq<char>) -> Option<ReasonView> {
    let b = reason_base(raw);
    if b.len() == 0 || b == "none"@ {
        None
    } else if has_sub(b, "jam"@) {
        Some(ReasonView::Jam)
    } else if has_sub(b, "cover-open"@) || has_sub(b, "door-open"@) || has_sub(b, "interlock"@) {
        Some(ReasonView::CoverOpen)
    } else if has_sub(b, "media-low"@) || has_sub(b, "input-media-supply-low"@) {
        Some(ReasonView::MediaLow)
    } else if has_sub(b, "media-empty"@) || has_sub(b, "media-needed"@) || has_sub(
        b,
        "input-tray-missing"@,
    ) {
        Some(ReasonView::MediaEmpty)
    } else if (has_sub(b, "waste"@) && has_sub(b, "full"@)) || has_sub(b, "toner-empty"@)
        || has_sub(b, "marker-supply-empty"@) || has_sub(b, "developer-empty"@) {
        Some(ReasonView::SupplyEmpty)
    } else if has_sub(b, "toner-low"@) || has_sub(b, "marker-supply-low"@) || has_sub(
        b,
        "developer-low"@,
    ) || has_sub(b, "waste"@) {
        Some(ReasonView::SupplyLow)
    } else if has_sub(b, "offline"@) || has_sub(b, "shutdown"@) {
        Some(ReasonView::Offline)
    } else {
        Some(ReasonView::Other(b))
    }
}

/// A keyword that carries none of the three severity suffixes.
pub open spec fn plain_keyword(b: Seq<char>) -> bool {
    !ends_with(b, "-warning"@) && !ends_with(b, "-error"@) && !ends_with(b, "-report"@)
}

proof fn lemma_trim_one(b: Seq<char>, p: Seq<char>)
    requires
        p.len() > 0,
        !ends_with(b, p),
    ensures
        trim_suffix_all(b + p, p) == b,
{
    let s = b + p;
    assert(s.subrange(s.len() - p.len(), s.len() as int) =~= p);
    assert(ends_with(s, p));
    assert(s.take(s.len() - p.len()) =~= b);
    assert(trim_suffix_all(b, p) == b);
    assert(trim_suffix_all(s, p) == trim_suffix_all(s.take(s.len() - p.len()), p));
}

proof fn lemma_other_suffix(b: Seq<char>, q: Seq<char>, p: Seq<char>)
    requires
        q.len() > 0,
        p.len() > 0,
        q.last() != p.last(),
    ensures
        !ends_with(b + q, p),
{
    let s = b + q;
    if ends_with(s, p) {
        assert(s.subrange(s.len() - p.len(), s.len() as int)[p.len() - 1] == s.last());
    }
}

/// A severity suffix never changes the condition a keyword reports: `b-warning`,
/// `b-error` and `b-report` report what `b` does, for a keyword `b` without such a suffix;
/// and `b` reports nothing exactly when it is empty or `none`.
pub proof fn law_severity_suffix_is_ignored(b: Seq<char>)
    requires
        plain_keyword(b),
    ensures
        reason_of(b + "-warning"@) == reason_of(b),
        reason_of(b + "-error"@) == reason_of(b),
        reason_of(b + "-report"@) == reason_of(b),
        reason_of(b) is None <==> (b.len() == 0 || b == "none"@),
{
    reveal_strlit("-warning");
    reveal_strlit("-error");
    reveal_strlit("-report");
    let w = "-warning"@;
    let e = "-error"@;
    let r = "-report"@;
    assert(reason_base(b) == b);
    lemma_trim_one(b, w);
    assert(reason_base(b + w) == b);
    lemma_other_suffix(b, e, w);
    lemma_trim_one(b, e);
    assert(reason_base(b + e) == b);
    lemma_other_suffix(b, r, w);
    lemma_other_suffix(b, r, e);
    lemma_trim_one(b, r);
    assert(reason_base(b + r) == b);
}


proof fn lemma_missing_char(s: Seq<char>, p: Seq<char>, k: int)
    requires
        0 <= k < p.len(),
        !s.contains(p[k]),
    ensures
        !has_sub(s, p),
{
    if has_sub(s, p) {
        let i = choose|i: int| occurs_at(s, p, i);
        assert(s.subrange(i, i + p.len())[k] == p[k]);
        assert(s[i + k] == p[k]);
    }
}

proof fn lemma_suffix_differs(s: Seq<char>, p: Seq<char>, k: int)
    requires
        0 <= k < p.len(),
        s.len() < p.len() || s[s.len() - p.len() + k] != p[k],
    ensures
        !ends_with(s, p),
{
    if ends_with(s, p) {
        assert(s.subrange(s.len() - p.len(), s.len() as int)[k] == s[s.len() - p.len() + k]);
    }
}

proof fn lemma_standard_keyword(i: int)
    requires
        0 <= i < standard_keywords().len(),
    ensures
        plain_keyword(standard_keywords()[i].0),
        reason_of(standard_keywords()[i].0) == Some(standard_keywords()[i].1),
{
    reveal_strlit("-error");
    reveal_strlit("-report");
    reveal_strlit("-warning");
    reveal_strlit("cover-open");
    reveal_strlit("developer-empty");
    reveal_strlit("developer-low");
    reveal_strlit("door-open");
    reveal_strlit("full");
    reveal_strlit("input-media-supply-low");
    reveal_strlit("input-tray-missing");
    reveal_strlit("interlock");
    reveal_strlit("interlock-open");
    reveal_strlit("jam");
    reveal_strlit("marker-supply-empty");
    reveal_strlit("marker-supply-low");
    reveal_strlit("marker-waste-full");
    reveal_strlit("media-empty");
    reveal_strlit("media-jam");
    reveal_strlit("media-low");
    reveal_strlit("media-needed");
    reveal_strlit("none");
    reveal_strlit("offline");
    reveal_strlit("shutdown");
    reveal_strlit("toner-empty");
    reveal_strlit("toner-low");
    reveal_strlit("waste");
    if i == 0 {
        let w = "media-jam"@;
        lemma_suffix_differs(w, "-warning"@, 0);
        lemma_suffix_differs(w, "-error"@, 0);
        lemma_suffix_differs(w, "-report"@, 0);
        assert(reason_base(w) == w);
        assert(w.subrange(6, 9) =~= "jam"@);
        assert(occurs_at(w, "jam"@, 6));
    } else if i == 1 {
        let w = "cover-open"@;
        lemma_suffix_differs(w, "-warning"@, 0);
        lemma_suffix_differs(w, "-error"@, 0);
        lemma_suffix_differs(w, "-report"@, 0);
        assert(reason_base(w) == w);
        lemma_missing_char(w, "jam"@, 0);
        assert(w.subrange(0, 10) =~= "cover-open"@);
        assert(occurs_at(w, "cover-open"@, 0));
    } else if i == 2 {
        let w = "door-open"@;
        lemma_suffix_differs(w, "-warning"@, 0);
        lemma_suffix_differs(w, "-error"@, 0);
        lemma_suffix_differs(w, "-report"@, 0);
        assert(reason_base(w) == w);
        lemma_missing_char(w, "jam"@, 0);
        assert(w.subrange(0, 9) =~= "door-open"@);
        assert(occurs_at(w, "door-open"@, 0));
    } else if i == 3 {
        let w = "interlock-open"@;
        lemma_suffix_differs(w, "-warning"@, 0);
        lemma_suffix_differs(w, "-error"@, 0);
        lemma_suffix_differs(w, "-report"@, 0);
        assert(reason_base(w) == w);
        lemma_missing_char(w, "jam"@, 0);
        assert(w.subrange(0, 9) =~= "interlock"@);
        assert(occurs_at(w, "interlock"@, 0));
    } else if i == 4 {
        let w = "media-low"@;
        lemma_suffix_differs(w, "-warning"@, 0);
        lemma_suffix_differs(w, "-error"@, 0);
        lemma_suffix_differs(w, "-report"@, 0);
        assert(reason_base(w) == w);
        lemma_missing_char(w, "jam"@, 0);
        lemma_missing_char(w, "cover-open"@, 0);
        lemma_missing_char(w, "door-open"@, 3);
        lemma_missing_char(w, "interlock"@, 1);
        assert(w.subrange(0, 9) =~= "media-low"@);
        assert(occurs_at(w, "media-low"@, 0));
    } else if i == 5 {
        let w = "media-empty"@;
        lemma_suffix_differs(w, "-warning"@, 0);
        lemma_suffix_differs(w, "-error"@, 2);
        lemma_suffix_differs(w, "-report"@, 0);
        assert(reason_base(w) == w);
        lemma_missing_char(w, "jam"@, 0);
        lemma_missing_char(w, "cover-open"@, 0);
        lemma_missing_char(w, "door-open"@, 1);
        lemma_missing_char(w, "interlock"@, 1);
        lemma_missing_char(w, "media-low"@, 6);
        lemma_missing_char(w, "input-media-supply-low"@, 1);
        assert(w.subrange(0, 11) =~= "media-empty"@);
        assert(occurs_at(w, "media-empty"@, 0));
    } else if i == 6 {
        let w = "media-needed"@;
        lemma_suffix_differs(w, "-warning"@, 0);
        lemma_suffix_differs(w, "-error"@, 0);
        lemma_suffix_differs(w, "-report"@, 1);
        assert(reason_base(w) == w);
        lemma_missing_char(w, "jam"@, 0);
        lemma_missing_char(w, "cover-open"@, 0);
        lemma_missing_char(w, "door-open"@, 1);
        lemma_missing_char(w, "interlock"@, 2);
        lemma_missing_char(w, "media-low"@, 6);
        lemma_missing_char(w, "input-media-supply-low"@, 2);
        assert(w.subrange(0, 12) =~= "media-needed"@);
        assert(occurs_at(w, "media-needed"@, 0));
    } else if i == 7 {
        let w = "input-tray-missing"@;
        lemma_suffix_differs(w, "-warning"@, 1);
        lemma_suffix_differs(w, "-error"@, 0);
        lemma_suffix_differs(w, "-report"@, 0);
        assert(reason_base(w) == w);
        lemma_missing_char(w, "jam"@, 0);
        lemma_missing_char(w, "cover-open"@, 0);
        lemma_missing_char(w, "door-open"@, 0);
        lemma_missing_char(w, "interlock"@, 3);
        lemma_missing_char(w, "media-low"@, 1);
        lemma_missing_char(w, "input-media-supply-low"@, 7);
        assert(w.subrange(0, 18) =~= "input-tray-missing"@);
        assert(occurs_at(w, "input-tray-missing"@, 0));
    } else if i == 8 {
        let w = "toner-empty"@;
        lemma_suffix_differs(w, "-warning"@, 0);
        lemma_suffix_differs(w, "-error"@, 2);
        lemma_suffix_differs(w, "-report"@, 0);
        assert(reason_base(w) == w);
        lemma_missing_char(w, "jam"@, 0);
        lemma_missing_char(w, "cover-open"@, 0);
        lemma_missing_char(w, "door-open"@, 0);
        lemma_missing_char(w, "interlock"@, 0);
        lemma_missing_char(w, "media-low"@, 2);
        lemma_missing_char(w, "input-media-supply-low"@, 0);
        lemma_missing_char(w, "media-empty"@, 2);
        lemma_missing_char(w, "media-needed"@, 2);
        lemma_missing_char(w, "input-tray-missing"@, 0);
        assert(w.subrange(0, 11) =~= "toner-empty"@);
        assert(occurs_at(w, "toner-empty"@, 0));
    } else if i == 9 {
        let w = "marker-supply-empty"@;
        lemma_suffix_differs(w, "-warning"@, 0);
        lemma_suffix_differs(w, "-error"@, 2);
        lemma_suffix_differs(w, "-report"@, 0);
        assert(reason_base(w) == w);
        lemma_missing_char(w, "jam"@, 0);
        lemma_missing_char(w, "cover-open"@, 0);
        lemma_missing_char(w, "door-open"@, 0);
        lemma_missing_char(w, "interlock"@, 0);
        lemma_missing_char(w, "media-low"@, 2);
        lemma_missing_char(w, "input-media-supply-low"@, 0);
        lemma_missing_char(w, "media-empty"@, 2);
        lemma_missing_char(w, "media-needed"@, 2);
        lemma_missing_char(w, "input-tray-missing"@, 0);
        assert(w.subrange(0, 19) =~= "marker-supply-empty"@);
        assert(occurs_at(w, "marker-supply-empty"@, 0));
    } else if i == 10 {
        let w = "developer-empty"@;
        lemma_suffix_differs(w, "-warning"@, 0);
        lemma_suffix_differs(w, "-error"@, 2);
        lemma_suffix_differs(w, "-report"@, 0);
        assert(reason_base(w) == w);
        lemma_missing_char(w, "jam"@, 0);
        lemma_missing_char(w, "cover-open"@, 0);
        lemma_missing_char(w, "door-open"@, 8);
        lemma_missing_char(w, "interlock"@, 0);
        lemma_missing_char(w, "media-low"@, 3);
        lemma_missing_char(w, "input-media-supply-low"@, 0);
        lemma_missing_char(w, "media-empty"@, 3);
        lemma_missing_char(w, "media-needed"@, 3);
        lemma_missing_char(w, "input-tray-missing"@, 0);
        assert(w.subrange(0, 15) =~= "developer-empty"@);
        assert(occurs_at(w, "developer-empty"@, 0));
    } else if i == 11 {
        let w = "marker-waste-full"@;
        lemma_suffix_differs(w, "-warning"@, 0);
        lemma_suffix_differs(w, "-error"@, 0);
        lemma_suffix_differs(w, "-report"@, 0);
        assert(reason_base(w) == w);
        lemma_missing_char(w, "jam"@, 0);
        lemma_missing_char(w, "cover-open"@, 0);
        lemma_missing_char(w, "door-open"@, 0);
        lemma_missing_char(w, "interlock"@, 0);
        lemma_missing_char(w, "media-low"@, 2);
        lemma_missing_char(w, "input-media-supply-low"@, 0);
        lemma_missing_char(w, "media-empty"@, 2);
        lemma_missing_char(w, "media-needed"@, 2);
        lemma_missing_char(w, "input-tray-missing"@, 0);
        assert(w.subrange(7, 12) =~= "waste"@);
        assert(occurs_at(w, "waste"@, 7));
        assert(w.subrange(13, 17) =~= "full"@);
        assert(occurs_at(w, "full"@, 13));
    } else if i == 12 {
        let w = "toner-low"@;
        lemma_suffix_differs(w, "-warning"@, 0);
        lemma_suffix_differs(w, "-error"@, 0);
        lemma_suffix_differs(w, "-report"@, 0);
        assert(reason_base(w) == w);
        lemma_missing_char(w, "jam"@, 0);
        lemma_missing_char(w, "cover-open"@, 0);
        lemma_missing_char(w, "door-open"@, 0);
        lemma_missing_char(w, "interlock"@, 0);
        lemma_missing_char(w, "media-low"@, 0);
        lemma_missing_char(w, "input-media-supply-low"@, 0);
        lemma_missing_char(w, "media-empty"@, 0);
        lemma_missing_char(w, "media-needed"@, 0);
        lemma_missing_char(w, "input-tray-missing"@, 0);
        lemma_missing_char(w, "waste"@, 1);
        lemma_missing_char(w, "toner-empty"@, 7);
        lemma_missing_char(w, "marker-supply-empty"@, 0);
        lemma_missing_char(w, "developer-empty"@, 0);
        assert(w.subrange(0, 9) =~= "toner-low"@);
        assert(occurs_at(w, "toner-low"@, 0));
    } else if i == 13 {
        let w = "marker-supply-low"@;
        lemma_suffix_differs(w, "-warning"@, 0);
        lemma_suffix_differs(w, "-error"@, 0);
        lemma_suffix_differs(w, "-report"@, 0);
        assert(reason_base(w) == w);
        lemma_missing_char(w, "jam"@, 0);
        lemma_missing_char(w, "cover-open"@, 0);
        lemma_missing_char(w, "door-open"@, 0);
        lemma_missing_char(w, "interlock"@, 0);
        lemma_missing_char(w, "media-low"@, 2);
        lemma_missing_char(w, "input-media-supply-low"@, 0);
        lemma_missing_char(w, "media-empty"@, 2);
        lemma_missing_char(w, "media-needed"@, 2);
        lemma_missing_char(w, "input-tray-missing"@, 0);
        lemma_missing_char(w, "waste"@, 3);
        lemma_missing_char(w, "toner-empty"@, 0);
        lemma_missing_char(w, "marker-supply-empty"@, 17);
        lemma_missing_char(w, "developer-empty"@, 0);
        assert(w.subrange(0, 17) =~= "marker-supply-low"@);
        assert(occurs_at(w, "marker-supply-low"@, 0));
    } else if i == 14 {
        let w = "developer-low"@;
        lemma_suffix_differs(w, "-warning"@, 0);
        lemma_suffix_differs(w, "-error"@, 0);
        lemma_suffix_differs(w, "-report"@, 0);
        assert(reason_base(w) == w);
        lemma_missing_char(w, "jam"@, 0);
        lemma_missing_char(w, "cover-open"@, 0);
        lemma_missing_char(w, "door-open"@, 8);
        lemma_missing_char(w, "interlock"@, 0);
        lemma_missing_char(w, "media-low"@, 0);
        lemma_missing_char(w, "input-media-supply-low"@, 0);
        lemma_missing_char(w, "media-empty"@, 0);
        lemma_missing_char(w, "media-needed"@, 0);
        lemma_missing_char(w, "input-tray-missing"@, 0);
        lemma_missing_char(w, "waste"@, 1);
        lemma_missing_char(w, "toner-empty"@, 0);
        lemma_missing_char(w, "marker-supply-empty"@, 0);
        lemma_missing_char(w, "developer-empty"@, 11);
        assert(w.subrange(0, 13) =~= "developer-low"@);
        assert(occurs_at(w, "developer-low"@, 0));
    } else if i == 15 {
        let w = "offline"@;
        lemma_suffix_differs(w, "-warning"@, 1);
        lemma_suffix_differs(w, "-error"@, 0);
        lemma_suffix_differs(w, "-report"@, 0);
        assert(reason_base(w) == w);
        lemma_missing_char(w, "jam"@, 0);
        lemma_missing_char(w, "cover-open"@, 0);
        lemma_missing_char(w, "door-open"@, 0);
        lemma_missing_char(w, "interlock"@, 2);
        lemma_missing_char(w, "media-low"@, 0);
        lemma_missing_char(w, "input-media-supply-low"@, 2);
        lemma_missing_char(w, "media-empty"@, 0);
        lemma_missing_char(w, "media-needed"@, 0);
        lemma_missing_char(w, "input-tray-missing"@, 2);
        lemma_missing_char(w, "waste"@, 0);
        lemma_missing_char(w, "toner-empty"@, 0);
        lemma_missing_char(w, "marker-supply-empty"@, 0);
        lemma_missing_char(w, "developer-empty"@, 0);
        lemma_missing_char(w, "toner-low"@, 0);
        lemma_missing_char(w, "marker-supply-low"@, 0);
        lemma_missing_char(w, "developer-low"@, 0);
        lemma_missing_char(w, "waste"@, 0);
        assert(w.subrange(0, 7) =~= "offline"@);
        assert(occurs_at(w, "offline"@, 0));
    } else if i == 16 {
        let w = "shutdown"@;
        lemma_suffix_differs(w, "-warning"@, 0);
        lemma_suffix_differs(w, "-error"@, 0);
        lemma_suffix_differs(w, "-report"@, 0);
        assert(reason_base(w) == w);
        lemma_missing_char(w, "jam"@, 0);
        lemma_missing_char(w, "cover-open"@, 0);
        lemma_missing_char(w, "door-open"@, 3);
        lemma_missing_char(w, "interlock"@, 0);
        lemma_missing_char(w, "media-low"@, 0);
        lemma_missing_char(w, "input-media-supply-low"@, 0);
        lemma_missing_char(w, "media-empty"@, 0);
        lemma_missing_char(w, "media-needed"@, 0);
        lemma_missing_char(w, "input-tray-missing"@, 0);
        lemma_missing_char(w, "waste"@, 1);
        lemma_missing_char(w, "toner-empty"@, 3);
        lemma_missing_char(w, "marker-supply-empty"@, 0);
        lemma_missing_char(w, "developer-empty"@, 1);
        lemma_missing_char(w, "toner-low"@, 3);
        lemma_missing_char(w, "marker-supply-low"@, 0);
        lemma_missing_char(w, "developer-low"@, 1);
        lemma_missing_char(w, "waste"@, 1);
        assert(w.subrange(0, 8) =~= "shutdown"@);
        assert(occurs_at(w, "shutdown"@, 0));
    }
}

/// The standard `printer-state-reasons` keywords (RFC 8011 and the PWG registry) that
/// name a condition, with the condition each reports.
pub open spec fn standard_keywords() -> Seq<(Seq<char>, ReasonView)> {
    seq![
        ("media-jam"@, ReasonView::Jam),
        ("cover-open"@, ReasonView::CoverOpen),
        ("door-open"@, ReasonView::CoverOpen),
        ("interlock-open"@, ReasonView::CoverOpen),
        ("media-low"@, ReasonView::MediaLow),
        ("media-empty"@, ReasonView::MediaEmpty),
        ("media-needed"@, ReasonView::MediaEmpty),
        ("input-tray-missing"@, ReasonView::MediaEmpty),
        ("toner-empty"@, ReasonView::SupplyEmpty),
        ("marker-supply-empty"@, ReasonView::SupplyEmpty),
        ("developer-empty"@, ReasonView::SupplyEmpty),
        ("marker-waste-full"@, ReasonView::SupplyEmpty),
        ("toner-low"@, ReasonView::SupplyLow),
        ("marker-supply-low"@, ReasonView::SupplyLow),
        ("developer-low"@, ReasonView::SupplyLow),
        ("offline"@, ReasonView::Offline),
        ("shutdown"@, ReasonView::Offline),
    ]
}


/// A severity suffix: none, `-warning`, `-error` or `-report`.
pub open spec fn is_severity_suffix(s: Seq<char>) -> bool {
    s.len() == 0 || s == "-warning"@ || s == "-error"@ || s == "-report"@
}

/// Each standard keyword that names a condition reports that condition, with or without a
/// severity suffix: `media-jam` a jam, `toner-empty` an empty supply, `door-open` an open
/// cover, and so on through the list of `standard_keywords`.
pub proof fn law_standard_keywords(i: int, suffix: Seq<char>)
    requires
        0 <= i < standard_keywords().len(),
        is_severity_suffix(suffix),
    ensures
        reason_of(standard_keywords()[i].0 + suffix) == Some(standard_keywords()[i].1),
{
    let w = standard_keywords()[i].0;
    lemma_standard_keyword(i);
    law_severity_suffix_is_ignored(w);
    if suffix.len() == 0 {
        assert(w + suffix =~= w);
    }
}

/// Standard `marker-types` keywords (lowercased) and the supply kind each names.
pub open spec fn standard_marker_types() -> Seq<(Seq<char>, SupplyKind)> {
    seq![
        ("toner"@, SupplyKind::Toner),
        ("toner-cartridge"@, SupplyKind::Toner),
        ("waste-toner"@, SupplyKind::Waste),
        ("ink"@, SupplyKind::Ink),
        ("ink-cartridge"@, SupplyKind::Ink),
        ("ink-ribbon"@, SupplyKind::Ink),
        ("waste-ink"@, SupplyKind::Waste),
        ("waste-wax"@, SupplyKind::Waste),
        ("waste-water"@, SupplyKind::Waste),
        ("opc"@, SupplyKind::Drum),
        ("drum"@, SupplyKind::Drum),
        ("imaging-unit"@, SupplyKind::Drum),
        ("developer"@, SupplyKind::Other),
        ("fuser"@, SupplyKind::Other),
        ("transfer-unit"@, SupplyKind::Other),
        ("staples"@, SupplyKind::Other),
        ("solid-wax"@, SupplyKind::Other),
    ]
}

/// Each standard `marker-types` keyword names its kind: toner and toner cartridges toner,
/// inks and ink cartridges or ribbons ink, every waste container a waste tank, the
/// photoconductor and imaging units a drum, anything else other.
#[verifier::spinoff_prover]
#[verifier::rlimit(60)]
pub proof fn law_standard_marker_types(i: int)
    requires
        0 <= i < standard_marker_types().len(),
    ensures
        kind_of(standard_marker_types()[i].0) == standard_marker_types()[i].1,
{
    reveal_strlit("developer");
    reveal_strlit("drum");
    reveal_strlit("fuser");
    reveal_strlit("imaging");
    reveal_strlit("imaging-unit");
    reveal_strlit("ink");
    reveal_strlit("ink-cartridge");
    reveal_strlit("ink-ribbon");
    reveal_strlit("opc");
    reveal_strlit("photoconductor");
    reveal_strlit("solid-wax");
    reveal_strlit("staples");
    reveal_strlit("toner");
    reveal_strlit("toner-cartridge");
    reveal_strlit("transfer-unit");
    reveal_strlit("waste");
    reveal_strlit("waste-ink");
    reveal_strlit("waste-toner");
    reveal_strlit("waste-water");
    reveal_strlit("waste-wax");
    if i == 0 {
        let w = "toner"@;
        lemma_missing_char(w, "waste"@, 0);
        assert(w.subrange(0, 5) =~= "toner"@);
        assert(occurs_at(w, "toner"@, 0));
    } else if i == 1 {
        let w = "toner-cartridge"@;
        lemma_missing_char(w, "waste"@, 0);
        assert(w.subrange(0, 5) =~= "toner"@);
        assert(occurs_at(w, "toner"@, 0));
    } else if i == 2 {
        let w = "waste-toner"@;
        assert(w.subrange(0, 5) =~= "waste"@);
        assert(occurs_at(w, "waste"@, 0));
    } else if i == 3 {
        let w = "ink"@;
        lemma_missing_char(w, "waste"@, 0);
        lemma_missing_char(w, "toner"@, 0);
        assert(w.subrange(0, 3) =~= "ink"@);
        assert(occurs_at(w, "ink"@, 0));
    } else if i == 4 {
        let w = "ink-cartridge"@;
        lemma_missing_char(w, "waste"@, 0);
        lemma_missing_char(w, "toner"@, 1);
        assert(w.subrange(0, 3) =~= "ink"@);
        assert(occurs_at(w, "ink"@, 0));
    } else if i == 5 {
        let w = "ink-ribbon"@;
        lemma_missing_char(w, "waste"@, 0);
        lemma_missing_char(w, "toner"@, 0);
        assert(w.subrange(0, 3) =~= "ink"@);
        assert(occurs_at(w, "ink"@, 0));
    } else if i == 6 {
        let w = "waste-ink"@;
        assert(w.subrange(0, 5) =~= "waste"@);
        assert(occurs_at(w, "waste"@, 0));
    } else if i == 7 {
        let w = "waste-wax"@;
        assert(w.subrange(0, 5) =~= "waste"@);
        assert(occurs_at(w, "waste"@, 0));
    } else if i == 8 {
        let w = "waste-water"@;
        assert(w.subrange(0, 5) =~= "waste"@);
        assert(occurs_at(w, "waste"@, 0));
    } else if i == 9 {
        let w = "opc"@;
        lemma_missing_char(w, "waste"@, 0);
        lemma_missing_char(w, "toner"@, 0);
        lemma_missing_char(w, "ink"@, 0);
        assert(w.subrange(0, 3) =~= "opc"@);
        assert(occurs_at(w, "opc"@, 0));
    } else if i == 10 {
        let w = "drum"@;
        lemma_missing_char(w, "waste"@, 0);
        lemma_missing_char(w, "toner"@, 0);
        lemma_missing_char(w, "ink"@, 0);
        assert(w.subrange(0, 4) =~= "drum"@);
        assert(occurs_at(w, "drum"@, 0));
    } else if i == 11 {
        let w = "imaging-unit"@;
        lemma_missing_char(w, "waste"@, 0);
        lemma_missing_char(w, "toner"@, 1);
        lemma_missing_char(w, "ink"@, 2);
        assert(w.subrange(0, 7) =~= "imaging"@);
        assert(occurs_at(w, "imaging"@, 0));
    } else if i == 12 {
        let w = "developer"@;
        lemma_missing_char(w, "waste"@, 0);
        lemma_missing_char(w, "toner"@, 0);
        lemma_missing_char(w, "ink"@, 0);
        lemma_missing_char(w, "opc"@, 2);
        lemma_missing_char(w, "drum"@, 2);
        lemma_missing_char(w, "photoconductor"@, 1);
        lemma_missing_char(w, "imaging"@, 0);
    } else if i == 13 {
        let w = "fuser"@;
        lemma_missing_char(w, "waste"@, 0);
        lemma_missing_char(w, "toner"@, 0);
        lemma_missing_char(w, "ink"@, 0);
        lemma_missing_char(w, "opc"@, 0);
        lemma_missing_char(w, "drum"@, 0);
        lemma_missing_char(w, "photoconductor"@, 0);
        lemma_missing_char(w, "imaging"@, 0);
    } else if i == 14 {
        let w = "transfer-unit"@;
        lemma_missing_char(w, "waste"@, 0);
        lemma_missing_char(w, "toner"@, 1);
        lemma_missing_char(w, "ink"@, 2);
        lemma_missing_char(w, "opc"@, 0);
        lemma_missing_char(w, "drum"@, 0);
        lemma_missing_char(w, "photoconductor"@, 0);
        lemma_missing_char(w, "imaging"@, 1);
    } else if i == 15 {
        let w = "staples"@;
        lemma_missing_char(w, "waste"@, 0);
        lemma_missing_char(w, "toner"@, 1);
        lemma_missing_char(w, "ink"@, 0);
        lemma_missing_char(w, "opc"@, 0);
        lemma_missing_char(w, "drum"@, 0);
        lemma_missing_char(w, "photoconductor"@, 1);
        lemma_missing_char(w, "imaging"@, 0);
    } else if i == 16 {
        let w = "solid-wax"@;
        lemma_missing_char(w, "waste"@, 3);
        lemma_missing_char(w, "toner"@, 0);
        lemma_missing_char(w, "ink"@, 1);
        lemma_missing_char(w, "opc"@, 1);
        lemma_missing_char(w, "drum"@, 1);
        lemma_missing_char(w, "photoconductor"@, 0);
        lemma_missing_char(w, "imaging"@, 1);
    }
}

/// `marker-colors` values (trimmed, lowercased) and the display color each names:
/// the four process colors by name, hex value or letter, no color for none or unknown,
/// and the tri-color, photo and other inks.
pub open spec fn standard_marker_colors() -> Seq<(Seq<char>, Option<Color>)> {
    seq![
        ("black"@, Some(Color::Black)),
        ("#000000"@, Some(Color::Black)),
        ("#000"@, Some(Color::Black)),
        ("k"@, Some(Color::Black)),
        ("cyan"@, Some(Color::Cyan)),
        ("#00ffff"@, Some(Color::Cyan)),
        ("c"@, Some(Color::Cyan)),
        ("magenta"@, Some(Color::Magenta)),
        ("#ff00ff"@, Some(Color::Magenta)),
        ("m"@, Some(Color::Magenta)),
        ("yellow"@, Some(Color::Yellow)),
        ("#ffff00"@, Some(Color::Yellow)),
        ("y"@, Some(Color::Yellow)),
        ("none"@, None),
        ("unknown"@, None),
        ("tri-color"@, Some(Color::TriColor)),
        ("color"@, Some(Color::TriColor)),
        ("photo-black"@, Some(Color::Photo)),
        ("light-cyan"@, Some(Color::Other)),
        ("#808080"@, Some(Color::Other)),
    ]
}

/// Each standard `marker-colors` value names its display color: the four process colors
/// by name, hex value or letter; no color for none or unknown; tri-color and photo inks;
/// any other value some other color.
pub proof fn law_standard_marker_colors(i: int)
    requires
        0 <= i < standard_marker_colors().len(),
    ensures
        color_of(standard_marker_colors()[i].0) == standard_marker_colors()[i].1,
{
    reveal_strlit("#000");
    reveal_strlit("#000000");
    reveal_strlit("#00ffff");
    reveal_strlit("#808080");
    reveal_strlit("#ff00ff");
    reveal_strlit("#ffff00");
    reveal_strlit("black");
    reveal_strlit("c");
    reveal_strlit("color");
    reveal_strlit("cyan");
    reveal_strlit("k");
    reveal_strlit("light-cyan");
    reveal_strlit("m");
    reveal_strlit("magenta");
    reveal_strlit("none");
    reveal_strlit("photo");
    reveal_strlit("photo-black");
    reveal_strlit("tri");
    reveal_strlit("tri-color");
    reveal_strlit("unknown");
    reveal_strlit("y");
    reveal_strlit("yellow");
    if i == 0 {
        let w = "black"@;
    } else if i == 1 {
        let w = "#000000"@;
    } else if i == 2 {
        let w = "#000"@;
    } else if i == 3 {
        let w = "k"@;
    } else if i == 4 {
        let w = "cyan"@;
        assert(w.len() != "black"@.len());
        assert(w.len() != "#000000"@.len());
        assert(w[0] != "#000"@[0]);
        assert(w.len() != "k"@.len());
    } else if i == 5 {
        let w = "#00ffff"@;
        assert(w.len() != "black"@.len());
        assert(w[3] != "#000000"@[3]);
        assert(w.len() != "#000"@.len());
        assert(w.len() != "k"@.len());
    } else if i == 6 {
        let w = "c"@;
        assert(w.len() != "black"@.len());
        assert(w.len() != "#000000"@.len());
        assert(w.len() != "#000"@.len());
        assert(w[0] != "k"@[0]);
    } else if i == 7 {
        let w = "magenta"@;
        assert(w.len() != "black"@.len());
        assert(w[0] != "#000000"@[0]);
        assert(w.len() != "#000"@.len());
        assert(w.len() != "k"@.len());
        assert(w.len() != "cyan"@.len());
        assert(w[0] != "#00ffff"@[0]);
        assert(w.len() != "c"@.len());
    } else if i == 8 {
        let w = "#ff00ff"@;
        assert(w.len() != "black"@.len());
        assert(w[1] != "#000000"@[1]);
        assert(w.len() != "#000"@.len());
        assert(w.len() != "k"@.len());
        assert(w.len() != "cyan"@.len());
        assert(w[1] != "#00ffff"@[1]);
        assert(w.len() != "c"@.len());
    } else if i == 9 {
        let w = "m"@;
        assert(w.len() != "black"@.len());
        assert(w.len() != "#000000"@.len());
        assert(w.len() != "#000"@.len());
        assert(w[0] != "k"@[0]);
        assert(w.len() != "cyan"@.len());
        assert(w.len() != "#00ffff"@.len());
        assert(w[0] != "c"@[0]);
    } else if i == 10 {
        let w = "yellow"@;
        assert(w.len() != "black"@.len());
        assert(w.len() != "#000000"@.len());
        assert(w.len() != "#000"@.len());
        assert(w.len() != "k"@.len());
        assert(w.len() != "cyan"@.len());
        assert(w.len() != "#00ffff"@.len());
        assert(w.len() != "c"@.len());
        assert(w.len() != "magenta"@.len());
        assert(w.len() != "#ff00ff"@.len());
        assert(w.len() != "m"@.len());
    } else if i == 11 {
        let w = "#ffff00"@;
        assert(w.len() != "black"@.len());
        assert(w[1] != "#000000"@[1]);
        assert(w.len() != "#000"@.len());
        assert(w.len() != "k"@.len());
        assert(w.len() != "cyan"@.len());
        assert(w[1] != "#00ffff"@[1]);
        assert(w.len() != "c"@.len());
        assert(w[0] != "magenta"@[0]);
        assert(w[3] != "#ff00ff"@[3]);
        assert(w.len() != "m"@.len());
    } else if i == 12 {
        let w = "y"@;
        assert(w.len() != "black"@.len());
        assert(w.len() != "#000000"@.len());
        assert(w.len() != "#000"@.len());
        assert(w[0] != "k"@[0]);
        assert(w.len() != "cyan"@.len());
        assert(w.len() != "#00ffff"@.len());
        assert(w[0] != "c"@[0]);
        assert(w.len() != "magenta"@.len());
        assert(w.len() != "#ff00ff"@.len());
        assert(w[0] != "m"@[0]);
    } else if i == 13 {
        let w = "none"@;
        assert(w.len() != "black"@.len());
        assert(w.len() != "#000000"@.len());
        assert(w[0] != "#000"@[0]);
        assert(w.len() != "k"@.len());
        assert(w[0] != "cyan"@[0]);
        assert(w.len() != "#00ffff"@.len());
        assert(w.len() != "c"@.len());
        assert(w.len() != "magenta"@.len());
        assert(w.len() != "#ff00ff"@.len());
        assert(w.len() != "m"@.len());
        assert(w.len() != "yellow"@.len());
        assert(w.len() != "#ffff00"@.len());
        assert(w.len() != "y"@.len());
    } else if i == 14 {
        let w = "unknown"@;
        assert(w.len() != "black"@.len());
        assert(w[0] != "#000000"@[0]);
        assert(w.len() != "#000"@.len());
        assert(w.len() != "k"@.len());
        assert(w.len() != "cyan"@.len());
        assert(w[0] != "#00ffff"@[0]);
        assert(w.len() != "c"@.len());
        assert(w[0] != "magenta"@[0]);
        assert(w[0] != "#ff00ff"@[0]);
        assert(w.len() != "m"@.len());
        assert(w.len() != "yellow"@.len());
        assert(w[0] != "#ffff00"@[0]);
        assert(w.len() != "y"@.len());
    } else if i == 15 {
        let w = "tri-color"@;
        assert(w.len() != "black"@.len());
        assert(w.len() != "#000000"@.len());
        assert(w.len() != "#000"@.len());
        assert(w.len() != "k"@.len());
        assert(w.len() != "cyan"@.len());
        assert(w.len() != "#00ffff"@.len());
        assert(w.len() != "c"@.len());
        assert(w.len() != "magenta"@.len());
        assert(w.len() != "#ff00ff"@.len());
        assert(w.len() != "m"@.len());
        assert(w.len() != "yellow"@.len());
        assert(w.len() != "#ffff00"@.len());
        assert(w.len() != "y"@.len());
        assert(w.len() != 0);
        assert(w.len() != "none"@.len());
        assert(w.len() != "unknown"@.len());
        assert(w.subrange(0, 3) =~= "tri"@);
        assert(occurs_at(w, "tri"@, 0));
    } else if i == 16 {
        let w = "color"@;
        assert(w[0] != "black"@[0]);
        assert(w.len() != "#000000"@.len());
        assert(w.len() != "#000"@.len());
        assert(w.len() != "k"@.len());
        assert(w.len() != "cyan"@.len());
        assert(w.len() != "#00ffff"@.len());
        assert(w.len() != "c"@.len());
        assert(w.len() != "magenta"@.len());
        assert(w.len() != "#ff00ff"@.len());
        assert(w.len() != "m"@.len());
        assert(w.len() != "yellow"@.len());
        assert(w.len() != "#ffff00"@.len());
        assert(w.len() != "y"@.len());
        assert(w.len() != 0);
        assert(w.len() != "none"@.len());
        assert(w.len() != "unknown"@.len());
        assert(w.subrange(0, 5) =~= "color"@);
        assert(occurs_at(w, "color"@, 0));
    } else if i == 17 {
        let w = "photo-black"@;
        assert(w.len() != "black"@.len());
        assert(w.len() != "#000000"@.len());
        assert(w.len() != "#000"@.len());
        assert(w.len() != "k"@.len());
        assert(w.len() != "cyan"@.len());
        assert(w.len() != "#00ffff"@.len());
        assert(w.len() != "c"@.len());
        assert(w.len() != "magenta"@.len());
        assert(w.len() != "#ff00ff"@.len());
        assert(w.len() != "m"@.len());
        assert(w.len() != "yellow"@.len());
        assert(w.len() != "#ffff00"@.len());
        assert(w.len() != "y"@.len());
        assert(w.len() != 0);
        assert(w.len() != "none"@.len());
        assert(w.len() != "unknown"@.len());
        lemma_missing_char(w, "tri"@, 1);
        lemma_missing_char(w, "color"@, 4);
        assert(w.subrange(0, 5) =~= "photo"@);
        assert(occurs_at(w, "photo"@, 0));
    } else if i == 18 {
        let w = "light-cyan"@;
        assert(w.len() != "black"@.len());
        assert(w.len() != "#000000"@.len());
        assert(w.len() != "#000"@.len());
        assert(w.len() != "k"@.len());
        assert(w.len() != "cyan"@.len());
        assert(w.len() != "#00ffff"@.len());
        assert(w.len() != "c"@.len());
        assert(w.len() != "magenta"@.len());
        assert(w.len() != "#ff00ff"@.len());
        assert(w.len() != "m"@.len());
        assert(w.len() != "yellow"@.len());
        assert(w.len() != "#ffff00"@.len());
        assert(w.len() != "y"@.len());
        assert(w.len() != 0);
        assert(w.len() != "none"@.len());
        assert(w.len() != "unknown"@.len());
        lemma_missing_char(w, "tri"@, 1);
        lemma_missing_char(w, "color"@, 1);
        lemma_missing_char(w, "photo"@, 0);
    } else if i == 19 {
        let w = "#808080"@;
        assert(w.len() != "black"@.len());
        assert(w[1] != "#000000"@[1]);
        assert(w.len() != "#000"@.len());
        assert(w.len() != "k"@.len());
        assert(w.len() != "cyan"@.len());
        assert(w[1] != "#00ffff"@[1]);
        assert(w.len() != "c"@.len());
        assert(w[0] != "magenta"@[0]);
        assert(w[1] != "#ff00ff"@[1]);
        assert(w.len() != "m"@.len());
        assert(w.len() != "yellow"@.len());
        assert(w[1] != "#ffff00"@[1]);
        assert(w.len() != "y"@.len());
        assert(w.len() != 0);
        assert(w.len() != "none"@.len());
        assert(w[0] != "unknown"@[0]);
        lemma_missing_char(w, "tri"@, 0);
        lemma_missing_char(w, "color"@, 0);
        lemma_missing_char(w, "photo"@, 0);
    }
}


/// The `printer-state` values (RFC 8011): 3 idle, 4 processing, 5 stopped; any other value,
/// or none, gives no status.
pub proof fn law_printer_states(v: i64)
    ensures
        status_for(Some(3i64)) == Some(Status::Idle),
        status_for(Some(4i64)) == Some(Status::Printing),
        status_for(Some(5i64)) == Some(Status::Stopped),
        !(3 <= v <= 5) ==> status_for(Some(v)) is None,
        status_for(None) is None,
{
}

/// The `marker-levels` values: a level from 0 is a percentage, capped at 100; -1 (no
/// restriction), -3 (some remaining) and -2 (unknown) are distinct sentinels; any other
/// negative value, or none, is unknown.
pub proof fn law_marker_levels(v: i64)
    ensures
        v >= 0 ==> level_of(Some(v)) == Level::Pct(if v > 100 { 100u8 } else { v as u8 }),
        level_of(Some(-1i64)) == Level::NoRestriction,
        level_of(Some(-3i64)) == Level::SomeRemaining,
        level_of(Some(-2i64)) == Level::Unknown,
        v < 0 && v != -1 && v != -3 ==> level_of(Some(v)) == Level::Unknown,
        level_of(None) == Level::Unknown,
{
}

/// A parsed supply is a filled one (bad when high) exactly when it is a waste container;
/// every other supply is consumed (bad when low).
pub proof fn law_only_waste_fills(m: Map<Seq<char>, Seq<AttrVal>>, st: PrinterState)
    requires
        parsed_from(m, st),
    ensures
        forall|i: int|
            0 <= i < st.supplies@.len() ==> ((#[trigger] st.supplies@[i]).class == SupplyClass::Filled
                <==> st.supplies@[i].kind == SupplyKind::Waste),
{
    assert forall|i: int| 0 <= i < st.supplies@.len() implies ((#[trigger] st.supplies@[i]).class
        == SupplyClass::Filled <==> st.supplies@[i].kind == SupplyKind::Waste) by {
        assert(supply_row(m, i, st.supplies@[i]));
    }
}

/// The conditions of a list of keywords, in order (keywords without one dropped).
pub open spec fn reasons_of_raw(raws: Seq<Seq<char>>) -> Seq<ReasonView>
    decreases raws.len(),
{
    if raws.len() == 0 {
        Seq::empty()
    } else {
        match reason_of(raws.last()) {
            Some(r) => reasons_of_raw(raws.drop_last()).push(r),
            None => reasons_of_raw(raws.drop_last()),
        }
    }
}

/// The supply kind named by a lowercased `marker-types` keyword.
pub open spec fn kind_of(l: Seq<char>) -> SupplyKind {
    if has_sub(l, "waste"@) {
        SupplyKind::Waste
    } else if has_sub(l, "toner"@) {
        SupplyKind::Toner
    } else if has_sub(l, "ink"@) {
        SupplyKind::Ink
    } else if has_sub(l, "opc"@) || has_sub(l, "drum"@) || has_sub(l, "photoconductor"@)
        || has_sub(l, "imaging"@) {
        SupplyKind::Drum
    } else {
        SupplyKind::Other
    }
}

/// The display color named by a trimmed, lowercased `marker-colors` value.
pub open spec fn color_of(l: Seq<char>) -> Option<Color> {
    if l == "black"@ || l == "#000000"@ || l == "#000"@ || l == "k"@ {
        Some(Color::Black)
    } else if l == "cyan"@ || l == "#00ffff"@ || l == "c"@ {
        Some(Color::Cyan)
    } else if l == "magenta"@ || l == "#ff00ff"@ || l == "m"@ {
        Some(Color::Magenta)
    } else if l == "yellow"@ || l == "#ffff00"@ || l == "y"@ {
        Some(Color::Yellow)
    } else if l.len() == 0 || l == "none"@ || l == "unknown"@ {
        None
    } else if has_sub(l, "tri"@) || has_sub(l, "color"@) {
        Some(Color::TriColor)
    } else if has_sub(l, "photo"@) {
        Some(Color::Photo)
    } else {
        Some(Color::Other)
    }
}

/// A `marker-levels` value: -1 no restriction, -3 some remaining, 0..100 a percentage
/// (larger values capped at 100), anything else or nothing unknown.
pub open spec fn level_of(raw: Option<i64>) -> Level {
    match raw {
        Some(v) => if v == -1 {
            Level::NoRestriction
        } else if v == -3 {
            Level::SomeRemaining
        } else if v >= 0 {
            Level::Pct(if v > 100 {
                100u8
            } else {
                v as u8
            })
        } else {
            Level::Unknown
        },
        None => Level::Unknown,
    }
}

pub open spec fn at<T>(s: Seq<T>, i: int) -> Option<T> {
    if 0 <= i < s.len() {
        Some(s[i])
    } else {
        None
    }
}

pub open spec fn marker_names(m: Map<Seq<char>, Seq<AttrVal>>) -> Seq<Seq<char>> {
    strs_of(attr(m, "marker-names"@))
}

pub open spec fn marker_levels(m: Map<Seq<char>, Seq<AttrVal>>) -> Seq<i64> {
    ints_of(attr(m, "marker-levels"@))
}

pub open spec fn marker_colors(m: Map<Seq<char>, Seq<AttrVal>>) -> Seq<Seq<char>> {
    strs_of(attr(m, "marker-colors"@))
}

pub open spec fn marker_types(m: Map<Seq<char>, Seq<AttrVal>>) -> Seq<Seq<char>> {
    strs_of(attr(m, "marker-types"@))
}

/// Number of supply rows: the longer of the name and level lists.
pub open spec fn marker_count(m: Map<Seq<char>, Seq<AttrVal>>) -> nat {
    let a = marker_names(m).len();
    let b = marker_levels(m).len();
    if a >= b {
        a
    } else {
        b
    }
}

/// `s` is the `i`-th supply row of the attributes `m`.
pub open spec fn supply_row(m: Map<Seq<char>, Seq<AttrVal>>, i: int, s: Supply) -> bool {
    let t = match at(marker_types(m), i) {
        Some(t) => t,
        None => Seq::empty(),
    };
    let kind = kind_of(lowercase(t));
    &&& s.name@ == (match at(marker_names(m), i) {
        Some(n) => n,
        None => "Supply "@ + dec((i + 1) as nat),
    })
    &&& s.kind == kind
    &&& s.class == (if kind == SupplyKind::Waste {
        SupplyClass::Filled
    } else {
        SupplyClass::Consumed
    })
    &&& (match at(marker_colors(m), i) {
        Some(c) => {
            &&& s.color_raw matches Some(r) && r@ == c
            &&& s.color == color_of(lowercase(trim(c)))
        },
        None => s.color_raw is None && s.color is None,
    })
    &&& s.level == level_of(at(marker_levels(m), i))
    &&& s.max_capacity is None
    &&& s.unit is None
}

/// `st` is the partial printer view that the attributes `m` describe.
pub open spec fn parsed_from(m: Map<Seq<char>, Seq<AttrVal>>, st: PrinterState) -> bool {
    &&& (match first(strs_of(attr(m, "printer-info"@))) {
        Some(n) => st.name matches Some(x) && x@ == n,
        None => st.name is None,
    })
    &&& (match first(strs_of(attr(m, "printer-make-and-model"@))) {
        Some(n) => st.model matches Some(x) && x@ == n,
        None => st.model is None,
    })
    &&& st.status == status_for(first(ints_of(attr(m, "printer-state"@))))
    &&& st.reasons@.map_values(|r: Reason| r@) == add_reason_views(
        Seq::empty(),
        reasons_of_raw(strs_of(attr(m, "printer-state-reasons"@))),
    )
    &&& st.supplies@.len() == marker_count(m)
    &&& forall|i: int| 0 <= i < st.supplies@.len() ==> supply_row(m, i, #[trigger] st.supplies@[i])
    &&& st.paper@.len() == 0
    &&& st.pages is None
    &&& st.jobs == (match first(ints_of(attr(m, "queued-job-count"@))) {
        Some(j) => Some((if j < 0 {
            0
        } else {
            j
        }) as u32),
        None => None,
    })
    &&& st.display is None
}

// ---------------------------------------------------------------------------
// Executable mapping
// ---------------------------------------------------------------------------

fn ints(m: &AttrMap, key: &str) -> (r: Vec<i64>)
    ensures
        r@ == ints_of(attr(m@, key@)),
{
    let mut r: Vec<i64> = Vec::new();
    match m.get(key) {
        Some(vs) => {
            let mut i: usize = 0;
            while i < vs.len()
                invariant
                    i <= vs@.len(),
                    vs@ == attr(m@, key@),
                    r@ == ints_of(vs@.take(i as int)),
                decreases vs@.len() - i,
            {
                assert(vs@.take(i + 1).drop_last() =~= vs@.take(i as int));
                match &vs[i] {
                    AttrVal::Int(x) => r.push(*x),
                    AttrVal::Str(_) => {},
                }
                i += 1;
            }
            assert(vs@.take(vs@.len() as int) =~= vs@);
        },
        None => {},
    }
    r
}

fn strs(m: &AttrMap, key: &str) -> (r: Vec<String>)
    ensures
        views(r@) == strs_of(attr(m@, key@)),
{
    let mut r: Vec<String> = Vec::new();
    match m.get(key) {
        Some(vs) => {
            let mut i: usize = 0;
            while i < vs.len()
                invariant
                    i <= vs@.len(),
                    vs@ == attr(m@, key@),
                    views(r@) == strs_of(vs@.take(i as int)),
                decreases vs@.len() - i,
            {
                assert(vs@.take(i + 1).drop_last() =~= vs@.take(i as int));
                match &vs[i] {
                    AttrVal::Int(_) => {},
                    AttrVal::Str(s) => {
                        let ghost before = r@;
                        r.push(s.clone());
                        assert(views(r@) =~= views(before).push(s@));
                    },
                }
                i += 1;
            }
            assert(vs@.take(vs@.len() as int) =~= vs@);
        },
        None => {
            assert(views(r@) =~= Seq::<Seq<char>>::empty());
        },
    }
    r
}

fn first_int(m: &AttrMap, key: &str) -> (r: Option<i64>)
    ensures
        r == first(ints_of(attr(m@, key@))),
{
    let v = ints(m, key);
    if v.len() > 0 {
        Some(v[0])
    } else {
        None
    }
}

fn first_str(m: &AttrMap, key: &str) -> (r: Option<String>)
    ensures
        match first(strs_of(attr(m@, key@))) {
            Some(n) => r matches Some(x) && x@ == n,
            None => r is None,
        },
{
    let v = strs(m, key);
    if v.len() > 0 {
        assert(views(v@)[0] == v@[0]@);
        Some(v[0].clone())
    } else {
        None
    }
}

fn map_status(state: Option<i64>) -> (r: Option<Status>)
    ensures
        r == status_for(state),
{
    match state {
        Some(3) => Some(Status::Idle),
        Some(4) => Some(Status::Printing),
        Some(5) => Some(Status::Stopped),
        _ => None,
    }
}

/// Length of `s[..end]` once every trailing copy of `p` is removed.
fn trim_suffix_len(s: &[char], end: usize, p: &str) -> (r: usize)
    requires
        end <= s@.len(),
    ensures
        r <= end,
        s@.take(r as int) == trim_suffix_all(s@.take(end as int), p@),
{
    let pv = to_chars(p);
    let mut e = end;
    loop
        invariant
            e <= end <= s@.len(),
            pv@ == p@,
            trim_suffix_all(s@.take(end as int), p@) == trim_suffix_all(s@.take(e as int), p@),
        decreases e,
    {
        if pv.len() == 0 || pv.len() > e {
            assert(trim_suffix_all(s@.take(e as int), p@) == s@.take(e as int));
            return e;
        }
        let t = &s[0..e];
        assert(t@ =~= s@.take(e as int));
        let mut k: usize = 0;
        let mut same = true;
        while k < pv.len()
            invariant
                0 < pv@.len() <= e <= s@.len(),
                k <= pv@.len(),
                same ==> forall|j: int| 0 <= j < k ==> s@[e - pv@.len() + j] == pv@[j],
                !same ==> !ends_with(s@.take(e as int), pv@),
            decreases pv@.len() - k,
        {
            if s[e - pv.len() + k] != pv[k] {
                proof {
                    let w = s@.take(e as int);
                    if ends_with(w, pv@) {
                        assert(w.subrange(w.len() - pv@.len(), w.len() as int)[k as int] == pv@[k as int]);
                    }
                }
                same = false;
            }
            k += 1;
        }
        if !same {
            return e;
        }
        proof {
            let w = s@.take(e as int);
            assert(w.subrange(w.len() - pv@.len(), w.len() as int) =~= pv@);
            assert(w.take(w.len() - pv@.len()) =~= s@.take(e - pv@.len()));
        }
        e = e - pv.len();
    }
}

/// The condition an IPP `printer-state-reasons` keyword reports, if any.
fn map_reason(raw: &str) -> (r: Option<Reason>)
    ensures
        match r {
            Some(x) => reason_of(raw@) == Some(x@),
            None => reason_of(raw@) is None,
        },
{
    let s = to_chars(raw);
    let e1 = trim_suffix_len(s.as_slice(), s.len(), "-warning");
    let e2 = trim_suffix_len(s.as_slice(), e1, "-error");
    let e3 = trim_suffix_len(s.as_slice(), e2, "-report");
    proof {
        assert(s@.take(s@.len() as int) =~= s@);
        assert(s@.take(e1 as int).take(e2 as int) =~= s@.take(e2 as int));
        assert(s@.take(e2 as int).take(e3 as int) =~= s@.take(e3 as int));
    }
    let bv = &s[0..e3];
    assert(bv@ =~= reason_base(raw@)) by {
        assert(s@.take(e1 as int).take(e1 as int) =~= s@.take(e1 as int));
    }
    let none = to_chars("none");
    if e3 == 0 || slice_eq(bv, none.as_slice()) {
        return None;
    }
    let r = if str_contains(bv, "jam") {
        Reason::Jam
    } else if str_contains(bv, "cover-open") || str_contains(bv, "door-open") || str_contains(
        bv,
        "interlock",
    ) {
        Reason::CoverOpen
    } else if str_contains(bv, "media-low") || str_contains(bv, "input-media-supply-low") {
        Reason::MediaLow
    } else if str_contains(bv, "media-empty") || str_contains(bv, "media-needed")
        || str_contains(bv, "input-tray-missing") {
        Reason::MediaEmpty
    } else if (str_contains(bv, "waste") && str_contains(bv, "full")) || str_contains(
        bv,
        "toner-empty",
    ) || str_contains(bv, "marker-supply-empty") || str_contains(bv, "developer-empty") {
        Reason::SupplyEmpty
    } else if str_contains(bv, "toner-low") || str_contains(bv, "marker-supply-low")
        || str_contains(bv, "developer-low") || str_contains(bv, "waste") {
        Reason::SupplyLow
    } else if str_contains(bv, "offline") || str_contains(bv, "shutdown") {
        Reason::Offline
    } else {
        let o = string_of(bv, 0, bv.len());
        assert(o@ =~= bv@);
        Reason::Other(o)
    };
    Some(r)
}

/// The supply kind named by a `marker-types` keyword.
fn map_kind(t: &str) -> (r: SupplyKind)
    ensures
        r == kind_of(lowercase(t@)),
{
    let lower = to_lowercase(t);
    let l = to_chars(lower.as_str());
    if str_contains(l.as_slice(), "waste") {
        SupplyKind::Waste
    } else if str_contains(l.as_slice(), "toner") {
        SupplyKind::Toner
    } else if str_contains(l.as_slice(), "ink") {
        SupplyKind::Ink
    } else if str_contains(l.as_slice(), "opc") || str_contains(l.as_slice(), "drum")
        || str_contains(l.as_slice(), "photoconductor") || str_contains(l.as_slice(), "imaging") {
        SupplyKind::Drum
    } else {
        SupplyKind::Other
    }
}

/// The display color named by a `marker-colors` value.
fn map_color(s: &str) -> (r: Option<Color>)
    ensures
        r == color_of(lowercase(trim(s@))),
{
    let c = to_chars(s);
    let t = trim_chars(c.as_slice());
    let ts = string_of(t.as_slice(), 0, t.len());
    assert(ts@ =~= trim(s@));
    let lower = to_lowercase(ts.as_str());
    let l = lower.as_str();
    let lv = to_chars(l);
    if str_eq(l, "black") || str_eq(l, "#000000") || str_eq(l, "#000") || str_eq(l, "k") {
        Some(Color::Black)
    } else if str_eq(l, "cyan") || str_eq(l, "#00ffff") || str_eq(l, "c") {
        Some(Color::Cyan)
    } else if str_eq(l, "magenta") || str_eq(l, "#ff00ff") || str_eq(l, "m") {
        Some(Color::Magenta)
    } else if str_eq(l, "yellow") || str_eq(l, "#ffff00") || str_eq(l, "y") {
        Some(Color::Yellow)
    } else if lv.len() == 0 || str_eq(l, "none") || str_eq(l, "unknown") {
        None
    } else {
        if str_contains(lv.as_slice(), "tri") || str_contains(lv.as_slice(), "color") {
            Some(Color::TriColor)
        } else if str_contains(lv.as_slice(), "photo") {
            Some(Color::Photo)
        } else {
            Some(Color::Other)
        }
    }
}

/// A `marker-levels` value as a level.
fn map_level(raw: Option<i64>) -> (r: Level)
    ensures
        r == level_of(raw),
{
    match raw {
        Some(v) => {
            if v == -1 {
                Level::NoRestriction
            } else if v == -3 {
                Level::SomeRemaining
            } else if v >= 0 {
                Level::Pct(
                    if v > 100 {
                        100u8
                    } else {
                        v as u8
                    },
                )
            } else {
                Level::Unknown
            }
        },
        None => Level::Unknown,
    }
}

/// The attributes this program reads; a query asks for these and no others.
pub fn wanted_attributes() -> (r: Vec<&'static str>)
    ensures
        r@.map_values(|s: &str| s@) == seq![
            "marker-names"@,
            "marker-levels"@,
            "marker-colors"@,
            "marker-types"@,
            "printer-state"@,
            "printer-state-reasons"@,
            "printer-info"@,
            "printer-make-and-model"@,
            "queued-job-count"@,
        ],
{
    let r = vec![
        "marker-names",
        "marker-levels",
        "marker-colors",
        "marker-types",
        "printer-state",
        "printer-state-reasons",
        "printer-info",
        "printer-make-and-model",
        "queued-job-count",
    ];
    assert(r@.map_values(|s: &str| s@) =~= seq![
        "marker-names"@,
        "marker-levels"@,
        "marker-colors"@,
        "marker-types"@,
        "printer-state"@,
        "printer-state-reasons"@,
        "printer-info"@,
        "printer-make-and-model"@,
        "queued-job-count"@,
    ]);
    r
}

/// Pure mapping from IPP attributes to a partial printer view.
pub fn parse_attrs(m: &AttrMap) -> (r: PrinterState)
    ensures
        parsed_from(m@, r),
{
    let names = strs(m, "marker-names");
    let levels = ints(m, "marker-levels");
    let colors = strs(m, "marker-colors");
    let types = strs(m, "marker-types");
    let n = if names.len() >= levels.len() {
        names.len()
    } else {
        levels.len()
    };

    let mut supplies: Vec<Supply> = Vec::new();
    let mut i: usize = 0;
    while i < n
        invariant
            i <= n,
            n == marker_count(m@),
            views(names@) == marker_names(m@),
            levels@ == marker_levels(m@),
            views(colors@) == marker_colors(m@),
            views(types@) == marker_types(m@),
            supplies@.len() == i,
            forall|j: int| 0 <= j < i ==> supply_row(m@, j, #[trigger] supplies@[j]),
        decreases n - i,
    {
        let kind = if i < types.len() {
            assert(views(types@)[i as int] == types@[i as int]@);
            map_kind(types[i].as_str())
        } else {
            let empty = String::new();
            map_kind(empty.as_str())
        };
        let class = if kind == SupplyKind::Waste {
            SupplyClass::Filled
        } else {
            SupplyClass::Consumed
        };
        let name = if i < names.len() {
            assert(views(names@)[i as int] == names@[i as int]@);
            names[i].clone()
        } else {
            let mut s = String::from_str("Supply ");
            let num = dec_string(i as u64 + 1);
            s.append(num.as_str());
            s
        };
        let (color_raw, color) = if i < colors.len() {
            assert(views(colors@)[i as int] == colors@[i as int]@);
            (Some(colors[i].clone()), map_color(colors[i].as_str()))
        } else {
            (None, None)
        };
        let level = map_level(
            if i < levels.len() {
                Some(levels[i])
            } else {
                None
            },
        );
        let s = Supply {
            name,
            kind,
            class,
            color_raw,
            color,
            level,
            max_capacity: None,
            unit: None,
        };
        assert(supply_row(m@, i as int, s));
        supplies.push(s);
        i += 1;
    }

    let raws = strs(m, "printer-state-reasons");
    let mut reasons: Vec<Reason> = Vec::new();
    let mut k: usize = 0;
    while k < raws.len()
        invariant
            k <= raws@.len(),
            views(raws@) == strs_of(attr(m@, "printer-state-reasons"@)),
            reasons@.map_values(|r: Reason| r@) == add_reason_views(
                Seq::empty(),
                reasons_of_raw(views(raws@).take(k as int)),
            ),
        decreases raws@.len() - k,
    {
        assert(views(raws@).take(k + 1).drop_last() =~= views(raws@).take(k as int));
        assert(views(raws@)[k as int] == raws@[k as int]@);
        assert(views(raws@).take(k + 1).last() == raws@[k as int]@);
        match map_reason(raws[k].as_str()) {
            Some(reason) => {
                proof {
                    lemma_has_reason_view(reasons@, reason);
                    let x = reasons_of_raw(views(raws@).take(k as int));
                    assert(x.push(reason@).drop_last() =~= x);
                }
                if !contains_reason(&reasons, &reason) {
                    let ghost before = reasons@;
                    reasons.push(reason);
                    assert(reasons@.map_values(|r: Reason| r@) =~= before.map_values(
                        |r: Reason| r@,
                    ).push(reason@));
                }
            },
            None => {},
        }
        k += 1;
    }
    assert(views(raws@).take(raws@.len() as int) =~= views(raws@));

    let jobs = match first_int(m, "queued-job-count") {
        Some(j) => Some(
            (if j < 0 {
                0
            } else {
                j
            }) as u32,
        ),
        None => None,
    };

    PrinterState {
        name: first_str(m, "printer-info"),
        model: first_str(m, "printer-make-and-model"),
        status: map_status(first_int(m, "printer-state")),
        reasons,
        supplies,
        paper: Vec::new(),
        pages: None,
        jobs,
        display: None,
    }
}

// ---------------------------------------------------------------------------
// What is kept of a printer's answer
// ---------------------------------------------------------------------------
//
// A printer is a device on the network: one that is hostile or broken can answer with an
// attribute set that never ends. These caps bound what is retained of an answer: at most
// `MAX_ATTRS` attributes, `MAX_VALS_PER_ATTR` raw values per attribute, `MAX_STR`
// characters per attribute name or string value.

pub const MAX_ATTRS: usize = 512;

pub const MAX_VALS_PER_ATTR: usize = 256;

pub const MAX_STR: usize = 4096;

/// `s` cut to at most `MAX_STR` characters.
pub open spec fn cap_str(s: Seq<char>) -> Seq<char> {
    if s.len() > MAX_STR {
        s.take(MAX_STR as int)
    } else {
        s
    }
}

/// The present values among `raw`, in order.
pub open spec fn present(raw: Seq<Option<AttrVal>>) -> Seq<AttrVal>
    decreases raw.len(),
{
    if raw.len() == 0 {
        Seq::empty()
    } else {
        match raw.last() {
            Some(v) => present(raw.drop_last()).push(v),
            None => present(raw.drop_last()),
        }
    }
}

/// `v` is `raw` with a string value capped.
pub open spec fn val_kept(raw: AttrVal, v: AttrVal) -> bool {
    match (raw, v) {
        (AttrVal::Int(a), AttrVal::Int(b)) => a == b,
        (AttrVal::Str(a), AttrVal::Str(b)) => b@ == cap_str(a@),
        _ => false,
    }
}

/// `out` is what is kept of the raw values of one attribute: of the first
/// `MAX_VALS_PER_ATTR` raw values, the present ones, each capped.
pub open spec fn vals_kept(raw: Seq<Option<AttrVal>>, out: Seq<AttrVal>) -> bool {
    let n = if raw.len() > MAX_VALS_PER_ATTR {
        MAX_VALS_PER_ATTR as int
    } else {
        raw.len() as int
    };
    let p = present(raw.take(n));
    out.len() == p.len() && forall|i: int| 0 <= i < out.len() ==> val_kept(p[i], #[trigger] out[i])
}

/// `e` is what is kept of the raw attribute `raw`.
pub open spec fn entry_kept(raw: (String, Vec<Option<AttrVal>>), e: (String, Vec<AttrVal>)) -> bool {
    e.0@ == cap_str(raw.0@) && vals_kept(raw.1@, e.1@)
}

/// A new string holding at most the first `MAX_STR` characters of `s`.
fn capped(s: &str) -> (r: String)
    ensures
        r@ == cap_str(s@),
{
    let c = to_chars(s);
    let n = if c.len() > MAX_STR {
        MAX_STR
    } else {
        c.len()
    };
    let r = string_of(c.as_slice(), 0, n);
    assert(r@ =~= cap_str(s@));
    r
}

/// What is kept of one attribute's raw values.
fn keep_vals(raw: &Vec<Option<AttrVal>>) -> (r: Vec<AttrVal>)
    ensures
        vals_kept(raw@, r@),
{
    let n = if raw.len() > MAX_VALS_PER_ATTR {
        MAX_VALS_PER_ATTR
    } else {
        raw.len()
    };
    let mut r: Vec<AttrVal> = Vec::new();
    let mut i: usize = 0;
    while i < n
        invariant
            i <= n <= raw@.len(),
            n == (if raw@.len() > MAX_VALS_PER_ATTR {
                MAX_VALS_PER_ATTR as int
            } else {
                raw@.len() as int
            }),
            r@.len() == present(raw@.take(i as int)).len(),
            forall|j: int| 0 <= j < r@.len() ==> val_kept(present(raw@.take(i as int))[j], #[trigger] r@[j]),
        decreases n - i,
    {
        assert(raw@.take(i + 1).drop_last() =~= raw@.take(i as int));
        match &raw[i] {
            Some(AttrVal::Int(x)) => {
                r.push(AttrVal::Int(*x));
            },
            Some(AttrVal::Str(s)) => {
                r.push(AttrVal::Str(capped(s.as_str())));
            },
            None => {},
        }
        i += 1;
    }
    r
}

/// The attribute map kept of a printer's raw answer: the first `MAX_ATTRS` attributes,
/// inserted in order (a later attribute of the same capped name replaces an earlier one),
/// each with its name and values capped.
pub fn bounded_attr_map(group: &Vec<(String, Vec<Option<AttrVal>>)>) -> (r: AttrMap)
    ensures
        r.inserts().len() == (if group@.len() > MAX_ATTRS {
            MAX_ATTRS as int
        } else {
            group@.len() as int
        }),
        forall|i: int| 0 <= i < r.inserts().len() ==> entry_kept(group@[i], #[trigger] r.inserts()[i]),
{
    let n = if group.len() > MAX_ATTRS {
        MAX_ATTRS
    } else {
        group.len()
    };
    let mut m = AttrMap::new();
    let mut i: usize = 0;
    while i < n
        invariant
            i <= n <= group@.len(),
            n == (if group@.len() > MAX_ATTRS {
                MAX_ATTRS as int
            } else {
                group@.len() as int
            }),
            m.inserts().len() == i,
            forall|j: int| 0 <= j < i ==> entry_kept(group@[j], #[trigger] m.inserts()[j]),
        decreases n - i,
    {
        let name = capped(group[i].0.as_str());
        let vals = keep_vals(&group[i].1);
        m.insert(name, vals);
        i += 1;
    }
    m
}

// ---------------------------------------------------------------------------
// The source
// ---------------------------------------------------------------------------

/// A bare IPv6 literal bracketed for use in a URL authority; anything else unchanged.
pub open spec fn bracketed(host: Seq<char>) -> Seq<char> {
    if count_char(host, ':') >= 2 && !starts_with(host, "["@) {
        "["@ + host + "]"@
    } else {
        host
    }
}

/// Bracket a bare IPv6 literal (two or more `:`, not already bracketed).
pub fn bracket_ipv6(host: &str) -> (r: String)
    ensures
        r@ == bracketed(host@),
{
    let c = to_chars(host);
    if count(c.as_slice(), ':') >= 2 && !starts_with_str(c.as_slice(), "[") {
        let mut s = String::from_str("[");
        s.append(host);
        s.append("]");
        s
    } else {
        String::from_str(host)
    }
}

pub open spec fn opt_str(s: Option<String>) -> Seq<char> {
    match s {
        Some(x) => x@,
        None => Seq::empty(),
    }
}

/// The URI a source of kind `kind` queries for `target`.
pub open spec fn ipp_uri(kind: SourceKind, target: Target) -> Seq<char> {
    match kind {
        SourceKind::Cups => "ipp://localhost:631/printers/"@ + opt_str(target.cups),
        _ => "ipp://"@ + bracketed(opt_str(target.host)) + target.ipp_path@,
    }
}

/// One IPP source: `Ipp` for a network host, `Cups` for a local queue.
#[derive(Debug, Clone, Copy)]
pub struct IppSource {
    pub kind: SourceKind,
}

impl IppSource {
    pub fn kind(&self) -> (r: SourceKind)
        ensures
            r == self.kind,
    {
        self.kind
    }

    /// The URI this source queries for `target`.
    pub fn uri(&self, target: &Target) -> (r: String)
        ensures
            r@ == ipp_uri(self.kind, *target),
    {
        match self.kind {
            SourceKind::Cups => {
                let mut s = String::from_str("ipp://localhost:631/printers/");
                match &target.cups {
                    Some(q) => s.append(q.as_str()),
                    None => {
                        assert(s@ =~= s@ + Seq::<char>::empty());
                    },
                }
                s
            },
            _ => {
                let mut s = String::from_str("ipp://");
                let h = match &target.host {
                    Some(h) => bracket_ipv6(h.as_str()),
                    None => {
                        let e = String::new();
                        bracket_ipv6(e.as_str())
                    },
                };
                s.append(h.as_str());
                s.append(target.ipp_path.as_str());
                s
            },
        }
    }

    /// The outcome of this source given the printer's answer (its attributes, or the
    /// error that kept them away) and how long the query took.
    pub fn outcome(&self, answer: Result<AttrMap, String>, duration: Duration) -> (r: SourceOutcome)
        ensures
            r.kind == self.kind,
            r.duration == duration,
            match answer {
                Ok(m) => r.error is None && parsed_from(m@, r.partial),
                Err(e) => r.error == Some(e) && is_empty_state(r.partial),
            },
    {
        match answer {
            Ok(m) => SourceOutcome {
                kind: self.kind,
                partial: parse_attrs(&m),
                duration,
                error: None,
            },
            Err(e) => SourceOutcome::failed(self.kind, e, duration),
        }
    }
}

/// A parsed level is never above 100 %, so a parsed state always meets what the renderer
/// requires.
pub proof fn law_parsed_levels_in_range(m: Map<Seq<char>, Seq<AttrVal>>, st: PrinterState)
    requires
        parsed_from(m, st),
    ensures
        levels_in_range(st),
{
    assert forall|i: int| 0 <= i < st.supplies@.len() implies supply_in_range(#[trigger] st.supplies@[i]) by {
        assert(supply_row(m, i, st.supplies@[i]));
    }
}

/// The URI a source queries: a CUPS source the local queue's page
/// (`ipp://localhost:631/printers/<queue>`); an IPP source `ipp://`, the host (a bare IPv6
/// literal, with two or more `:` and not already bracketed, in brackets) and the path.
pub proof fn law_source_uris(kind: SourceKind, target: Target)
    ensures
        kind == SourceKind::Cups ==> ipp_uri(kind, target) == "ipp://localhost:631/printers/"@ + opt_str(
            target.cups,
        ),
        kind != SourceKind::Cups ==> ipp_uri(kind, target) == "ipp://"@ + ({
            let h = opt_str(target.host);
            if count_char(h, ':') >= 2 && !(h.len() > 0 && h[0] == '[') {
                "["@ + h + "]"@
            } else {
                h
            }
        }) + target.ipp_path@,
{
    reveal_strlit("[");
    let hv = opt_str(target.host);
    if hv.len() > 0 && hv[0] == '[' {
        assert(hv.subrange(0, 1) =~= "["@);
    }
    if starts_with(hv, "["@) {
        assert(hv.subrange(0, 1)[0] == hv[0]);
    }
}

} // verus!
