//! The unified printer model that every source fills in and the renderer reads.
use vstd::prelude::*;

verus! {

/// What the printer is doing.
#[derive(Debug, Clone, Copy, PartialEq, Eq, Structural)]
pub enum Status {
    Idle,
    Printing,
    Stopped,
    Offline,
    Unknown,
}

/// An active condition reported by the printer.
#[derive(Debug, PartialEq, Eq)]
pub enum Reason {
    Jam,
    MediaEmpty,
    MediaLow,
    SupplyLow,
    SupplyEmpty,
    CoverOpen,
    Offline,
    Other(String),
}

/// What a consumable is.
#[derive(Debug, Clone, Copy, PartialEq, Eq, Structural)]
pub enum SupplyKind {
    Toner,
    Ink,
    Drum,
    Waste,
    Other,
}

/// Whether a supply is bad when low (`Consumed`) or bad when high (`Filled`, a waste tank).
#[derive(Debug, Clone, Copy, PartialEq, Eq, Structural)]
pub enum SupplyClass {
    Consumed,
    Filled,
}

/// Normalized display color of a supply.
#[derive(Debug, Clone, Copy, PartialEq, Eq, Structural)]
pub enum Color {
    Cyan,
    Magenta,
    Yellow,
    Black,
    TriColor,
    Photo,
    Other,
}

/// Unit in which a supply's capacity is counted.
#[derive(Debug, Clone, Copy, PartialEq, Eq, Structural)]
pub enum SupplyUnit {
    Percent,
    Impressions,
    Sheets,
    Items,
    Other,
}

/// A supply level: a percentage or one of the distinct sentinels of RFC 3805 / CUPS.
#[derive(Debug, Clone, Copy, PartialEq, Eq, Structural)]
pub enum Level {
    Pct(u8),
    /// -1: no restriction.
    NoRestriction,
    /// -2: unknown.
    Unknown,
    /// -3: some remaining.
    SomeRemaining,
}

/// One consumable.
#[derive(Debug, PartialEq, Eq)]
pub struct Supply {
    pub name: String,
    pub kind: SupplyKind,
    pub class: SupplyClass,
    pub color_raw: Option<String>,
    pub color: Option<Color>,
    pub level: Level,
    pub max_capacity: Option<i32>,
    pub unit: Option<SupplyUnit>,
}

/// One paper input tray.
#[derive(Debug, PartialEq, Eq)]
pub struct InputTray {
    pub name: String,
    pub level: Level,
}

/// Everything known about one printer. A source fills in the part it knows.
#[derive(Debug, PartialEq, Eq)]
pub struct PrinterState {
    pub name: Option<String>,
    pub model: Option<String>,
    pub status: Option<Status>,
    pub reasons: Vec<Reason>,
    pub supplies: Vec<Supply>,
    pub paper: Vec<InputTray>,
    pub pages: Option<u64>,
    pub jobs: Option<u32>,
    /// Text shown on the printer's front panel.
    pub display: Option<String>,
}

// ---------------------------------------------------------------------------
// Specifications
// ---------------------------------------------------------------------------

/// The percentage of a level, `None` for every sentinel.
pub open spec fn pct(l: Level) -> Option<u8> {
    match l {
        Level::Pct(p) => Some(p),
        _ => None,
    }
}

/// A usable supply: a consumed supply with a real percentage. A waste tank or a
/// sentinel-only row is not usable.
pub open spec fn usable(s: Supply) -> bool {
    s.class == SupplyClass::Consumed && pct(s.level) is Some
}

/// The meaning of a reason: `Other` by its text.
pub enum ReasonView {
    Jam,
    MediaEmpty,
    MediaLow,
    SupplyLow,
    SupplyEmpty,
    CoverOpen,
    Offline,
    Other(Seq<char>),
}

impl View for Reason {
    type V = ReasonView;

    open spec fn view(&self) -> ReasonView {
        match self {
            Reason::Jam => ReasonView::Jam,
            Reason::MediaEmpty => ReasonView::MediaEmpty,
            Reason::MediaLow => ReasonView::MediaLow,
            Reason::SupplyLow => ReasonView::SupplyLow,
            Reason::SupplyEmpty => ReasonView::SupplyEmpty,
            Reason::CoverOpen => ReasonView::CoverOpen,
            Reason::Offline => ReasonView::Offline,
            Reason::Other(s) => ReasonView::Other(s@),
        }
    }
}

/// Two reasons say the same thing.
pub open spec fn same_reason(a: Reason, b: Reason) -> bool {
    a@ == b@
}

/// `r` is among `rs` (by `same_reason`).
pub open spec fn has_reason(rs: Seq<Reason>, r: Reason) -> bool {
    exists|i: int| 0 <= i < rs.len() && same_reason(rs[i], r)
}

/// `out` extended by every reason meaning of `src` that it does not hold yet, in order.
pub open spec fn add_reason_views(out: Seq<ReasonView>, src: Seq<ReasonView>) -> Seq<ReasonView>
    decreases src.len(),
{
    if src.len() == 0 {
        out
    } else {
        let prev = add_reason_views(out, src.drop_last());
        if prev.contains(src.last()) {
            prev
        } else {
            prev.push(src.last())
        }
    }
}

/// `r` is among `rs` exactly when its meaning is among their meanings.
pub proof fn lemma_has_reason_view(rs: Seq<Reason>, r: Reason)
    ensures
        has_reason(rs, r) == rs.map_values(|x: Reason| x@).contains(r@),
{
    let vs = rs.map_values(|x: Reason| x@);
    if has_reason(rs, r) {
        let i = choose|i: int| 0 <= i < rs.len() && same_reason(rs[i], r);
        assert(vs[i] == r@);
    }
    if vs.contains(r@) {
        let i = choose|i: int| 0 <= i < vs.len() && vs[i] == r@;
        assert(same_reason(rs[i], r));
    }
}

/// No reason occurs twice in `rs`.
pub open spec fn reasons_distinct(rs: Seq<Reason>) -> bool {
    forall|i: int, j: int| 0 <= i < j < rs.len() ==> !same_reason(rs[i], rs[j])
}

/// `out` extended by every reason of `src` that it does not hold yet, in order.
pub open spec fn add_reasons(out: Seq<Reason>, src: Seq<Reason>) -> Seq<Reason>
    decreases src.len(),
{
    if src.len() == 0 {
        out
    } else {
        let prev = add_reasons(out, src.drop_last());
        if has_reason(prev, src.last()) {
            prev
        } else {
            prev.push(src.last())
        }
    }
}

/// `st` holds nothing: every field is absent or empty.
pub open spec fn is_empty_state(st: PrinterState) -> bool {
    &&& st.name is None
    &&& st.model is None
    &&& st.status is None
    &&& st.reasons@.len() == 0
    &&& st.supplies@.len() == 0
    &&& st.paper@.len() == 0
    &&& st.pages is None
    &&& st.jobs is None
    &&& st.display is None
}

// ---------------------------------------------------------------------------
// Executable code
// ---------------------------------------------------------------------------

impl Level {
    /// The percentage, `None` for a sentinel.
    pub fn as_pct(&self) -> (r: Option<u8>)
        ensures
            r == pct(*self),
    {
        match self {
            Level::Pct(p) => Some(*p),
            _ => None,
        }
    }
}

impl Supply {
    /// A real consumable with a known percentage.
    pub fn is_usable(&self) -> (r: bool)
        ensures
            r == usable(*self),
    {
        self.class == SupplyClass::Consumed && self.level.as_pct().is_some()
    }
}

impl Clone for Reason {
    fn clone(&self) -> (r: Self)
        ensures
            r == *self,
    {
        match self {
            Reason::Jam => Reason::Jam,
            Reason::MediaEmpty => Reason::MediaEmpty,
            Reason::MediaLow => Reason::MediaLow,
            Reason::SupplyLow => Reason::SupplyLow,
            Reason::SupplyEmpty => Reason::SupplyEmpty,
            Reason::CoverOpen => Reason::CoverOpen,
            Reason::Offline => Reason::Offline,
            Reason::Other(s) => Reason::Other(s.clone()),
        }
    }
}

impl Clone for Supply {
    fn clone(&self) -> (r: Self)
        ensures
            r == *self,
    {
        Supply {
            name: self.name.clone(),
            kind: self.kind,
            class: self.class,
            color_raw: match &self.color_raw {
                Some(c) => Some(c.clone()),
                None => None,
            },
            color: self.color,
            level: self.level,
            max_capacity: self.max_capacity,
            unit: self.unit,
        }
    }
}

impl Clone for InputTray {
    fn clone(&self) -> (r: Self)
        ensures
            r == *self,
    {
        InputTray { name: self.name.clone(), level: self.level }
    }
}

/// A copy of an optional string.
pub fn clone_opt_string(s: &Option<String>) -> (r: Option<String>)
    ensures
        r == *s,
{
    match s {
        Some(x) => Some(x.clone()),
        None => None,
    }
}

/// `a` and `b` hold the same data (their vectors have the same elements).
pub open spec fn same_state(a: PrinterState, b: PrinterState) -> bool {
    &&& a.name == b.name
    &&& a.model == b.model
    &&& a.status == b.status
    &&& a.reasons@ == b.reasons@
    &&& a.supplies@ == b.supplies@
    &&& a.paper@ == b.paper@
    &&& a.pages == b.pages
    &&& a.jobs == b.jobs
    &&& a.display == b.display
}

impl Clone for PrinterState {
    fn clone(&self) -> (r: Self)
        ensures
            same_state(r, *self),
    {
        let reasons = self.reasons.clone();
        let supplies = self.supplies.clone();
        let paper = self.paper.clone();
        assert(reasons@ =~= self.reasons@);
        assert(supplies@ =~= self.supplies@);
        assert(paper@ =~= self.paper@);
        PrinterState {
            name: clone_opt_string(&self.name),
            model: clone_opt_string(&self.model),
            status: self.status,
            reasons,
            supplies,
            paper,
            pages: self.pages,
            jobs: self.jobs,
            display: clone_opt_string(&self.display),
        }
    }
}

impl Default for PrinterState {
    fn default() -> (r: Self)
        ensures
            is_empty_state(r),
    {
        PrinterState {
            name: None,
            model: None,
            status: None,
            reasons: Vec::new(),
            supplies: Vec::new(),
            paper: Vec::new(),
            pages: None,
            jobs: None,
            display: None,
        }
    }
}

/// Whether two reasons say the same thing.
pub fn reason_eq(a: &Reason, b: &Reason) -> (r: bool)
    ensures
        r == same_reason(*a, *b),
{
    match (a, b) {
        (Reason::Other(x), Reason::Other(y)) => *x == *y,
        (Reason::Other(_), _) => false,
        (_, Reason::Other(_)) => false,
        (Reason::Jam, Reason::Jam) => true,
        (Reason::MediaEmpty, Reason::MediaEmpty) => true,
        (Reason::MediaLow, Reason::MediaLow) => true,
        (Reason::SupplyLow, Reason::SupplyLow) => true,
        (Reason::SupplyEmpty, Reason::SupplyEmpty) => true,
        (Reason::CoverOpen, Reason::CoverOpen) => true,
        (Reason::Offline, Reason::Offline) => true,
        _ => false,
    }
}

/// Whether `r` is among `rs`.
pub fn contains_reason(rs: &Vec<Reason>, r: &Reason) -> (b: bool)
    ensures
        b == has_reason(rs@, *r),
{
    let mut i: usize = 0;
    while i < rs.len()
        invariant
            i <= rs@.len(),
            forall|j: int| 0 <= j < i ==> !same_reason(rs@[j], *r),
        decreases rs@.len() - i,
    {
        if reason_eq(&rs[i], r) {
            return true;
        }
        i += 1;
    }
    false
}

/// Appends to `out` every reason of `src` it does not hold yet, keeping first-seen order.
pub fn push_new_reasons(out: &mut Vec<Reason>, src: &Vec<Reason>)
    ensures
        final(out)@ == add_reasons(old(out)@, src@),
{
    let ghost start = out@;
    let mut i: usize = 0;
    while i < src.len()
        invariant
            i <= src@.len(),
            out@ == add_reasons(start, src@.take(i as int)),
        decreases src@.len() - i,
    {
        assert(src@.take(i + 1).drop_last() =~= src@.take(i as int));
        if !contains_reason(out, &src[i]) {
            out.push(src[i].clone());
        }
        i += 1;
    }
    assert(src@.take(src@.len() as int) =~= src@);
}

} // verus!
