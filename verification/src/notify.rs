//! Desktop notifications on state transitions (not steady state): which events are active,
//! which of them are new since the previous poll, and the message of each. Reading and
//! writing the cache of the previous poll and sending the notification happen outside.
use crate::config::{views_of, PrinterConfig, Thresholds};
use crate::model::{
    contains_reason, has_reason, pct, same_reason, PrinterState, Reason, Status, Supply, SupplyClass,
};
use crate::text::{has_sub, occurs_at, push_char, str_eq, to_chars};
use vstd::prelude::*;

verus! {

// ---------------------------------------------------------------------------
// Active events
// ---------------------------------------------------------------------------

/// A consumed supply at or below the threshold `low`.
pub open spec fn consumed_low(s: Supply, low: u8) -> bool {
    s.class == SupplyClass::Consumed && match pct(s.level) {
        Some(p) => p <= low,
        None => false,
    }
}

/// A consumed supply is at or below the low threshold.
pub open spec fn some_supply_low(st: PrinterState, low: u8) -> bool {
    exists|i: int| 0 <= i < st.supplies@.len() && consumed_low(#[trigger] st.supplies@[i], low)
}

pub open spec fn push_if(s: Seq<Seq<char>>, cond: bool, e: Seq<char>) -> Seq<Seq<char>> {
    if cond {
        s.push(e)
    } else {
        s
    }
}

/// The notifiable events that hold in `st`, in a fixed order.
pub open spec fn active_list(st: PrinterState, th: Thresholds) -> Seq<Seq<char>> {
    let rs = st.reasons@;
    let e0 = Seq::<Seq<char>>::empty();
    let e1 = push_if(e0, has_reason(rs, Reason::Jam), "jam"@);
    let e2 = push_if(e1, has_reason(rs, Reason::MediaEmpty), "media_empty"@);
    let e3 = push_if(e2, has_reason(rs, Reason::CoverOpen), "cover_open"@);
    let e4 = push_if(
        e3,
        st.status == Some(Status::Offline) || has_reason(rs, Reason::Offline),
        "offline"@,
    );
    let e5 = push_if(
        e4,
        has_reason(rs, Reason::SupplyLow) || some_supply_low(st, th.supply_low),
        "supply_low"@,
    );
    let e6 = push_if(e5, has_reason(rs, Reason::SupplyEmpty), "supply_empty"@);
    let e7 = push_if(e6, has_reason(rs, Reason::MediaLow), "media_low"@);
    add_other_events(e7, rs)
}

/// The event a reason stands for: its keyword, or the text of an `Other` reason.
pub open spec fn reason_event(r: Reason) -> Seq<char> {
    match r {
        Reason::Jam => "jam"@,
        Reason::MediaEmpty => "media_empty"@,
        Reason::MediaLow => "media_low"@,
        Reason::SupplyLow => "supply_low"@,
        Reason::SupplyEmpty => "supply_empty"@,
        Reason::CoverOpen => "cover_open"@,
        Reason::Offline => "offline"@,
        Reason::Other(s) => s@,
    }
}

/// `acc` extended, in order, by the text of each `Other` reason of `rs` it does not hold yet.
pub open spec fn add_other_events(acc: Seq<Seq<char>>, rs: Seq<Reason>) -> Seq<Seq<char>>
    decreases rs.len(),
{
    if rs.len() == 0 {
        acc
    } else {
        let a = add_other_events(acc, rs.drop_last());
        match rs.last() {
            Reason::Other(s) => if a.contains(s@) {
                a
            } else {
                a.push(s@)
            },
            _ => a,
        }
    }
}

fn push_event(v: &mut Vec<String>, cond: bool, e: &str)
    ensures
        views_of(final(v)@) == push_if(views_of(old(v)@), cond, e@),
{
    if cond {
        let ghost before = v@;
        v.push(String::from_str(e));
        assert(views_of(v@) =~= views_of(before).push(e@));
    }
}

fn any_supply_low(state: &PrinterState, low: u8) -> (r: bool)
    ensures
        r == some_supply_low(*state, low),
{
    let mut i: usize = 0;
    while i < state.supplies.len()
        invariant
            i <= state.supplies@.len(),
            forall|j: int| 0 <= j < i ==> !consumed_low(#[trigger] state.supplies@[j], low),
        decreases state.supplies@.len() - i,
    {
        let s = &state.supplies[i];
        if s.class == SupplyClass::Consumed {
            match s.level.as_pct() {
                Some(p) => if p <= low {
                    return true;
                },
                None => {},
            }
        }
        i += 1;
    }
    false
}

/// The set of currently-active notifiable events for a printer state.
pub fn active_events(state: &PrinterState, cfg: &PrinterConfig) -> (r: Vec<String>)
    ensures
        views_of(r@) == active_list(*state, cfg.thresholds),
{
    let mut e: Vec<String> = Vec::new();
    assert(views_of(e@) =~= Seq::<Seq<char>>::empty());
    let rs = &state.reasons;
    push_event(&mut e, contains_reason(rs, &Reason::Jam), "jam");
    push_event(&mut e, contains_reason(rs, &Reason::MediaEmpty), "media_empty");
    push_event(&mut e, contains_reason(rs, &Reason::CoverOpen), "cover_open");
    let offline = state.status == Some(Status::Offline) || contains_reason(rs, &Reason::Offline);
    push_event(&mut e, offline, "offline");
    let low = contains_reason(rs, &Reason::SupplyLow) || any_supply_low(
        state,
        cfg.thresholds.supply_low,
    );
    push_event(&mut e, low, "supply_low");
    push_event(&mut e, contains_reason(rs, &Reason::SupplyEmpty), "supply_empty");
    push_event(&mut e, contains_reason(rs, &Reason::MediaLow), "media_low");
    let ghost base = views_of(e@);
    let mut i: usize = 0;
    while i < rs.len()
        invariant
            i <= rs@.len(),
            views_of(e@) == add_other_events(base, rs@.take(i as int)),
        decreases rs@.len() - i,
    {
        assert(rs@.take(i + 1).drop_last() =~= rs@.take(i as int));
        match &rs[i] {
            Reason::Other(text) => {
                if !contains_str(e.as_slice(), text.as_str()) {
                    let ghost before = e@;
                    e.push(text.clone());
                    assert(views_of(e@) =~= views_of(before).push(text@));
                }
            },
            _ => {},
        }
        i += 1;
    }
    assert(rs@.take(rs@.len() as int) =~= rs@);
    e
}

// ---------------------------------------------------------------------------
// Transitions
// ---------------------------------------------------------------------------

/// The events of `cur` that were not active in `prev` and are configured to notify.
pub open spec fn new_events(prev: Seq<Seq<char>>, cur: Seq<Seq<char>>, configured: Seq<Seq<char>>) -> Seq<Seq<char>>
    decreases cur.len(),
{
    if cur.len() == 0 {
        Seq::empty()
    } else {
        let rest = new_events(prev, cur.drop_last(), configured);
        let e = cur.last();
        if !prev.contains(e) && configured.contains(e) {
            rest.push(e)
        } else {
            rest
        }
    }
}

fn contains_str(v: &[String], e: &str) -> (r: bool)
    ensures
        r == views_of(v@).contains(e@),
{
    let mut i: usize = 0;
    while i < v.len()
        invariant
            i <= v@.len(),
            forall|j: int| 0 <= j < i ==> (#[trigger] v@[j])@ != e@,
        decreases v@.len() - i,
    {
        if str_eq(v[i].as_str(), e) {
            assert(views_of(v@)[i as int] == e@);
            return true;
        }
        i += 1;
    }
    proof {
        if views_of(v@).contains(e@) {
            let k = choose|k: int| 0 <= k < views_of(v@).len() && views_of(v@)[k] == e@;
            assert(v@[k]@ == e@);
        }
    }
    false
}

/// Newly-active events that are configured to notify (in `cur`, not in `prev`).
pub fn diff_events(prev: &[String], cur: &[String], configured: &[String]) -> (r: Vec<String>)
    ensures
        views_of(r@) == new_events(views_of(prev@), views_of(cur@), views_of(configured@)),
{
    let mut r: Vec<String> = Vec::new();
    let ghost cv = views_of(cur@);
    let mut i: usize = 0;
    while i < cur.len()
        invariant
            i <= cur@.len(),
            cv == views_of(cur@),
            views_of(r@) == new_events(views_of(prev@), cv.take(i as int), views_of(configured@)),
        decreases cur@.len() - i,
    {
        assert(cv.take(i + 1).drop_last() =~= cv.take(i as int));
        assert(cv.take(i + 1).last() == cur@[i as int]@);
        let e = cur[i].as_str();
        if !contains_str(prev, e) && contains_str(configured, e) {
            let ghost before = r@;
            r.push(cur[i].clone());
            assert(views_of(r@) =~= views_of(before).push(cur@[i as int]@));
        }
        i += 1;
    }
    assert(cv.take(cv.len() as int) =~= cv);
    r
}

// ---------------------------------------------------------------------------
// Messages and the plan of one poll
// ---------------------------------------------------------------------------

/// The notification text of an event.
pub open spec fn message_of(event: Seq<char>) -> Seq<char> {
    if event == "jam"@ {
        "Paper jam"@
    } else if event == "media_empty"@ {
        "Out of paper"@
    } else if event == "media_low"@ {
        "Paper low"@
    } else if event == "cover_open"@ {
        "Cover open"@
    } else if event == "offline"@ {
        "Printer offline"@
    } else if event == "supply_low"@ {
        "Supply low"@
    } else if event == "supply_empty"@ {
        "Supply empty"@
    } else {
        event
    }
}

/// The notification text of an event.
pub fn event_message(event: &str) -> (r: String)
    ensures
        r@ == message_of(event@),
{
    if str_eq(event, "jam") {
        String::from_str("Paper jam")
    } else if str_eq(event, "media_empty") {
        String::from_str("Out of paper")
    } else if str_eq(event, "media_low") {
        String::from_str("Paper low")
    } else if str_eq(event, "cover_open") {
        String::from_str("Cover open")
    } else if str_eq(event, "offline") {
        String::from_str("Printer offline")
    } else if str_eq(event, "supply_low") {
        String::from_str("Supply low")
    } else if str_eq(event, "supply_empty") {
        String::from_str("Supply empty")
    } else {
        String::from_str(event)
    }
}

/// One notification to send.
#[derive(Debug, Clone, PartialEq, Eq)]
pub struct Notification {
    pub event: String,
    pub message: String,
}

/// What one poll does: send `fire`, then remember `active` for the next poll.
#[derive(Debug, Clone, PartialEq, Eq)]
pub struct NotifyPlan {
    pub fire: Vec<Notification>,
    pub active: Vec<String>,
}

/// `plan` sends the newly active configured events of `st` (with their messages) and
/// remembers the active ones.
pub open spec fn is_plan(plan: NotifyPlan, prev: Seq<String>, st: PrinterState, cfg: PrinterConfig) -> bool {
    let fired = new_events(views_of(prev), active_list(st, cfg.thresholds), views_of(cfg.notify.events@));
    &&& views_of(plan.active@) == active_list(st, cfg.thresholds)
    &&& plan.fire@.len() == fired.len()
    &&& forall|i: int|
        0 <= i < fired.len() ==> (#[trigger] plan.fire@[i]).event@ == fired[i]
            && plan.fire@[i].message@ == message_of(fired[i])
}

/// The notifications of one poll, given the events remembered from the previous one:
/// `None` when notifications are off; else the newly active configured events with their
/// messages, and the events to remember.
pub fn maybe_notify(cfg: &PrinterConfig, state: &PrinterState, prev: &Vec<String>) -> (r: Option<NotifyPlan>)
    ensures
        !cfg.notify.enabled ==> r is None,
        cfg.notify.enabled ==> (r matches Some(plan) && is_plan(plan, prev@, *state, *cfg)),
{
    if !cfg.notify.enabled {
        return None;
    }
    let cur = active_events(state, cfg);
    let evs = diff_events(prev.as_slice(), cur.as_slice(), cfg.notify.events.as_slice());
    let mut fire: Vec<Notification> = Vec::new();
    let mut i: usize = 0;
    while i < evs.len()
        invariant
            i <= evs@.len(),
            fire@.len() == i,
            forall|j: int|
                0 <= j < i ==> (#[trigger] fire@[j]).event@ == evs@[j]@ && fire@[j].message@
                    == message_of(evs@[j]@),
        decreases evs@.len() - i,
    {
        let msg = event_message(evs[i].as_str());
        fire.push(Notification { event: evs[i].clone(), message: msg });
        i += 1;
    }
    proof {
        assert forall|j: int| 0 <= j < evs@.len() implies views_of(evs@)[j] == evs@[j]@ by {}
    }
    Some(NotifyPlan { fire, active: cur })
}

// ---------------------------------------------------------------------------
// Cache file name
// ---------------------------------------------------------------------------

/// A character safe in a file name: ASCII letters, digits, `-`, `_`; anything else `_`.
pub open spec fn safe_char(c: char) -> char {
    if ('a' <= c && c <= 'z') || ('A' <= c && c <= 'Z') || ('0' <= c && c <= '9') || c == '-'
        || c == '_' {
        c
    } else {
        '_'
    }
}

/// The name of the file caching a printer's last event set.
pub open spec fn cache_name(name: Seq<char>) -> Seq<char> {
    "printbar-"@ + name.map_values(|c: char| safe_char(c)) + ".json"@
}

/// The file name (without directory) caching a printer's last event set, with the
/// printer name sanitized.
pub fn cache_file_name(name: &str) -> (r: String)
    ensures
        r@ == cache_name(name@),
{
    let c = to_chars(name);
    let mut r = String::from_str("printbar-");
    let ghost start = r@;
    let mut i: usize = 0;
    while i < c.len()
        invariant
            i <= c@.len(),
            c@ == name@,
            start == "printbar-"@,
            r@ == start + c@.take(i as int).map_values(|x: char| safe_char(x)),
        decreases c@.len() - i,
    {
        let ch = c[i];
        let ok = ('a' <= ch && ch <= 'z') || ('A' <= ch && ch <= 'Z') || ('0' <= ch && ch <= '9')
            || ch == '-' || ch == '_';
        if ok {
            push_char(&mut r, ch);
        } else {
            push_char(&mut r, '_');
        }
        assert(c@.take(i + 1).map_values(|x: char| safe_char(x)) =~= c@.take(i as int).map_values(
            |x: char| safe_char(x),
        ).push(safe_char(ch)));
        i += 1;
    }
    assert(c@.take(c@.len() as int) =~= c@);
    r.append(".json");
    r
}

// ---------------------------------------------------------------------------
// Laws
// ---------------------------------------------------------------------------

/// A notification fires only for an event that is active now, was not active at the previous
/// poll, and is configured.
pub proof fn law_fires_only_new_configured_events(prev: Seq<Seq<char>>, cur: Seq<Seq<char>>, configured: Seq<Seq<char>>)
    ensures
        forall|i: int|
            0 <= i < new_events(prev, cur, configured).len() ==> {
                let e = #[trigger] new_events(prev, cur, configured)[i];
                &&& cur.contains(e)
                &&& !prev.contains(e)
                &&& configured.contains(e)
            },
    decreases cur.len(),
{
    if cur.len() > 0 {
        law_fires_only_new_configured_events(prev, cur.drop_last(), configured);
        let rest = new_events(prev, cur.drop_last(), configured);
        let r = new_events(prev, cur, configured);
        assert forall|i: int| 0 <= i < r.len() implies {
            let e = #[trigger] r[i];
            &&& cur.contains(e)
            &&& !prev.contains(e)
            &&& configured.contains(e)
        } by {
            if i < rest.len() {
                assert(r[i] == rest[i]);
                let k = choose|k: int| 0 <= k < cur.drop_last().len() && cur.drop_last()[k] == rest[i];
                assert(cur[k] == rest[i]);
            } else {
                assert(r[i] == cur[cur.len() - 1]);
            }
        }
    }
}

proof fn lemma_push_if(s: Seq<Seq<char>>, cond: bool, e: Seq<char>)
    ensures
        forall|x: Seq<char>| s.contains(x) ==> push_if(s, cond, e).contains(x),
        cond ==> push_if(s, cond, e).contains(e),
{
    let r = push_if(s, cond, e);
    assert forall|x: Seq<char>| s.contains(x) implies r.contains(x) by {
        let k = choose|k: int| 0 <= k < s.len() && s[k] == x;
        assert(r[k] == x);
    }
    if cond {
        assert(r[r.len() - 1] == e);
    }
}

proof fn lemma_other_events(acc: Seq<Seq<char>>, rs: Seq<Reason>)
    ensures
        forall|x: Seq<char>| acc.contains(x) ==> add_other_events(acc, rs).contains(x),
        forall|i: int|
            0 <= i < rs.len() && rs[i] is Other ==> add_other_events(acc, rs).contains(
                reason_event(#[trigger] rs[i]),
            ),
    decreases rs.len(),
{
    if rs.len() > 0 {
        let front = rs.drop_last();
        lemma_other_events(acc, front);
        let a = add_other_events(acc, front);
        let r = add_other_events(acc, rs);
        assert forall|x: Seq<char>| a.contains(x) implies r.contains(x) by {
            let k = choose|k: int| 0 <= k < a.len() && a[k] == x;
            assert(r[k] == x);
        }
        assert forall|i: int| 0 <= i < rs.len() && rs[i] is Other implies r.contains(
            reason_event(#[trigger] rs[i]),
        ) by {
            if i < rs.len() - 1 {
                assert(rs[i] == front[i]);
                assert(a.contains(reason_event(front[i])));
            } else if let Reason::Other(t) = rs.last() {
                if !a.contains(t@) {
                    assert(r[r.len() - 1] == t@);
                }
            }
        }
    }
}

/// Every reason of a state is notifiable: its event (`jam`, `media_empty`, `media_low`,
/// `supply_low`, `supply_empty`, `cover_open`, `offline`, or the text of an `Other` reason)
/// is among the active events.
pub proof fn law_every_reason_has_an_event(st: PrinterState, th: Thresholds)
    ensures
        forall|i: int|
            0 <= i < st.reasons@.len() ==> active_list(st, th).contains(
                reason_event(#[trigger] st.reasons@[i]),
            ),
{
    let rs = st.reasons@;
    let e0 = Seq::<Seq<char>>::empty();
    let c1 = has_reason(rs, Reason::Jam);
    let e1 = push_if(e0, c1, "jam"@);
    let c2 = has_reason(rs, Reason::MediaEmpty);
    let e2 = push_if(e1, c2, "media_empty"@);
    let c3 = has_reason(rs, Reason::CoverOpen);
    let e3 = push_if(e2, c3, "cover_open"@);
    let c4 = st.status == Some(Status::Offline) || has_reason(rs, Reason::Offline);
    let e4 = push_if(e3, c4, "offline"@);
    let c5 = has_reason(rs, Reason::SupplyLow) || some_supply_low(st, th.supply_low);
    let e5 = push_if(e4, c5, "supply_low"@);
    let c6 = has_reason(rs, Reason::SupplyEmpty);
    let e6 = push_if(e5, c6, "supply_empty"@);
    let c7 = has_reason(rs, Reason::MediaLow);
    let e7 = push_if(e6, c7, "media_low"@);
    lemma_push_if(e0, c1, "jam"@);
    lemma_push_if(e1, c2, "media_empty"@);
    lemma_push_if(e2, c3, "cover_open"@);
    lemma_push_if(e3, c4, "offline"@);
    lemma_push_if(e4, c5, "supply_low"@);
    lemma_push_if(e5, c6, "supply_empty"@);
    lemma_push_if(e6, c7, "media_low"@);
    lemma_other_events(e7, rs);
    assert(active_list(st, th) == add_other_events(e7, rs));
    assert forall|i: int| 0 <= i < rs.len() implies active_list(st, th).contains(
        reason_event(#[trigger] rs[i]),
    ) by {
        let r = rs[i];
        if !(r is Other) {
            assert(same_reason(rs[i], r));
            assert(e7.contains(reason_event(r)));
        }
    }
}

/// `r` is among the reasons `rs`.
pub open spec fn reported(rs: Seq<Reason>, r: Reason) -> bool {
    exists|i: int| 0 <= i < rs.len() && rs[i] == r
}

/// `x` is the text of an `Other` reason among `rs`.
pub open spec fn other_text(rs: Seq<Reason>, x: Seq<char>) -> bool {
    exists|i: int| 0 <= i < rs.len() && ((#[trigger] rs[i]) matches Reason::Other(t) && t@ == x)
}

proof fn lemma_push_if_members(s: Seq<Seq<char>>, cond: bool, e: Seq<char>)
    ensures
        forall|x: Seq<char>| push_if(s, cond, e).contains(x) <==> (s.contains(x) || (cond && x == e)),
{
    let r = push_if(s, cond, e);
    assert forall|x: Seq<char>| r.contains(x) implies (s.contains(x) || (cond && x == e)) by {
        let k = choose|k: int| 0 <= k < r.len() && r[k] == x;
        if k < s.len() {
            assert(s[k] == x);
        }
    }
    lemma_push_if(s, cond, e);
}

proof fn lemma_other_events_members(acc: Seq<Seq<char>>, rs: Seq<Reason>)
    ensures
        forall|x: Seq<char>| add_other_events(acc, rs).contains(x) <==> (acc.contains(x) || other_text(rs, x)),
    decreases rs.len(),
{
    if rs.len() > 0 {
        let f = rs.drop_last();
        lemma_other_events_members(acc, f);
        let a = add_other_events(acc, f);
        let r = add_other_events(acc, rs);
        assert forall|x: Seq<char>| r.contains(x) implies (acc.contains(x) || other_text(rs, x)) by {
            let k = choose|k: int| 0 <= k < r.len() && r[k] == x;
            if k < a.len() {
                assert(a[k] == x);
                if other_text(f, x) {
                    let i = choose|i: int| 0 <= i < f.len() && ((#[trigger] f[i]) matches Reason::Other(t) && t@ == x);
                    assert(rs[i] == f[i]);
                }
            } else {
                assert(rs[rs.len() - 1] matches Reason::Other(t) && t@ == x);
            }
        }
        assert forall|x: Seq<char>| (acc.contains(x) || other_text(rs, x)) implies r.contains(x) by {
            lemma_other_events(acc, rs);
            if !acc.contains(x) {
                let i = choose|i: int| 0 <= i < rs.len() && ((#[trigger] rs[i]) matches Reason::Other(t) && t@ == x);
                assert(rs[i] is Other);
                assert(reason_event(rs[i]) == x);
            }
        }
    }
}

/// The active events are exactly what holds of the state: `jam`, `media_empty`,
/// `media_low`, `cover_open` and `supply_empty` when that reason is reported; `offline` when
/// the status or a reason says so; `supply_low` when a reason says so or any consumed supply,
/// whatever its kind, is at or below the low threshold; and the text of each `Other` reason.
/// Nothing else is ever active.
pub proof fn law_events_match_conditions(st: PrinterState, th: Thresholds)
    ensures
        ({
            let a = active_list(st, th);
            let rs = st.reasons@;
            let ss = st.supplies@;
            let low = exists|i: int|
                0 <= i < ss.len() && (#[trigger] ss[i]).class == SupplyClass::Consumed && (pct(ss[i].level)
                    matches Some(p) && p <= th.supply_low);
            &&& a.contains("jam"@) == (reported(rs, Reason::Jam) || other_text(rs, "jam"@))
            &&& a.contains("media_empty"@) == (reported(rs, Reason::MediaEmpty) || other_text(rs, "media_empty"@))
            &&& a.contains("media_low"@) == (reported(rs, Reason::MediaLow) || other_text(rs, "media_low"@))
            &&& a.contains("cover_open"@) == (reported(rs, Reason::CoverOpen) || other_text(rs, "cover_open"@))
            &&& a.contains("supply_empty"@) == (reported(rs, Reason::SupplyEmpty) || other_text(rs, "supply_empty"@))
            &&& a.contains("offline"@) == (st.status == Some(Status::Offline) || reported(rs, Reason::Offline)
                || other_text(rs, "offline"@))
            &&& a.contains("supply_low"@) == (reported(rs, Reason::SupplyLow) || low || other_text(rs, "supply_low"@))
            &&& forall|x: Seq<char>| #[trigger] a.contains(x) ==> (x == "jam"@ || x == "media_empty"@
                || x == "media_low"@ || x == "cover_open"@ || x == "supply_empty"@ || x == "offline"@
                || x == "supply_low"@ || other_text(rs, x))
        }),
{
    reveal_strlit("jam");
    reveal_strlit("media_empty");
    reveal_strlit("media_low");
    reveal_strlit("cover_open");
    reveal_strlit("supply_empty");
    reveal_strlit("offline");
    reveal_strlit("supply_low");
    let rs = st.reasons@;
    let ss = st.supplies@;
    let e0 = Seq::<Seq<char>>::empty();
    let c1 = has_reason(rs, Reason::Jam);
    let e1 = push_if(e0, c1, "jam"@);
    let c2 = has_reason(rs, Reason::MediaEmpty);
    let e2 = push_if(e1, c2, "media_empty"@);
    let c3 = has_reason(rs, Reason::CoverOpen);
    let e3 = push_if(e2, c3, "cover_open"@);
    let c4 = st.status == Some(Status::Offline) || has_reason(rs, Reason::Offline);
    let e4 = push_if(e3, c4, "offline"@);
    let c5 = has_reason(rs, Reason::SupplyLow) || some_supply_low(st, th.supply_low);
    let e5 = push_if(e4, c5, "supply_low"@);
    let c6 = has_reason(rs, Reason::SupplyEmpty);
    let e6 = push_if(e5, c6, "supply_empty"@);
    let c7 = has_reason(rs, Reason::MediaLow);
    let e7 = push_if(e6, c7, "media_low"@);
    lemma_push_if_members(e0, c1, "jam"@);
    lemma_push_if_members(e1, c2, "media_empty"@);
    lemma_push_if_members(e2, c3, "cover_open"@);
    lemma_push_if_members(e3, c4, "offline"@);
    lemma_push_if_members(e4, c5, "supply_low"@);
    lemma_push_if_members(e5, c6, "supply_empty"@);
    lemma_push_if_members(e6, c7, "media_low"@);
    lemma_other_events_members(e7, rs);
    assert(active_list(st, th) == add_other_events(e7, rs));
    // Reported reasons are the ones `has_reason` finds.
    assert forall|r: Reason| !(r is Other) implies has_reason(rs, r) == reported(rs, r) by {
        if has_reason(rs, r) {
            let i = choose|i: int| 0 <= i < rs.len() && same_reason(rs[i], r);
            assert(rs[i] == r);
        }
        if reported(rs, r) {
            let i = choose|i: int| 0 <= i < rs.len() && rs[i] == r;
            assert(same_reason(rs[i], r));
        }
    }
    assert(has_reason(rs, Reason::Jam) == reported(rs, Reason::Jam));
    assert(has_reason(rs, Reason::MediaEmpty) == reported(rs, Reason::MediaEmpty));
    assert(has_reason(rs, Reason::MediaLow) == reported(rs, Reason::MediaLow));
    assert(has_reason(rs, Reason::CoverOpen) == reported(rs, Reason::CoverOpen));
    assert(has_reason(rs, Reason::SupplyEmpty) == reported(rs, Reason::SupplyEmpty));
    assert(has_reason(rs, Reason::SupplyLow) == reported(rs, Reason::SupplyLow));
    assert(has_reason(rs, Reason::Offline) == reported(rs, Reason::Offline));
    let low = exists|i: int|
        0 <= i < ss.len() && (#[trigger] ss[i]).class == SupplyClass::Consumed && (pct(ss[i].level)
            matches Some(p) && p <= th.supply_low);
    assert(some_supply_low(st, th.supply_low) == low) by {
        if some_supply_low(st, th.supply_low) {
            let i = choose|i: int| 0 <= i < ss.len() && consumed_low(#[trigger] ss[i], th.supply_low);
            assert(ss[i].class == SupplyClass::Consumed);
        }
        if low {
            let i = choose|i: int|
                0 <= i < ss.len() && (#[trigger] ss[i]).class == SupplyClass::Consumed && (pct(ss[i].level)
                    matches Some(p) && p <= th.supply_low);
            assert(consumed_low(ss[i], th.supply_low));
        }
    }
    // The keywords are distinct.
    assert("cover_open"@[0] != "supply_low"@[0]);
    assert("jam"@.len() == 3 && "media_empty"@.len() == 11 && "media_low"@.len() == 9);
    assert("cover_open"@.len() == 10 && "supply_empty"@.len() == 12 && "offline"@.len() == 7);
    assert("supply_low"@.len() == 10);
    let a = active_list(st, th);
    assert(!e0.contains("jam"@));
    assert(e1.contains("jam"@) == (e0.contains("jam"@) || (c1 && "jam"@ == "jam"@)));
    assert(e2.contains("jam"@) == (e1.contains("jam"@) || (c2 && "jam"@ == "media_empty"@)));
    assert(e3.contains("jam"@) == (e2.contains("jam"@) || (c3 && "jam"@ == "cover_open"@)));
    assert(e4.contains("jam"@) == (e3.contains("jam"@) || (c4 && "jam"@ == "offline"@)));
    assert(e5.contains("jam"@) == (e4.contains("jam"@) || (c5 && "jam"@ == "supply_low"@)));
    assert(e6.contains("jam"@) == (e5.contains("jam"@) || (c6 && "jam"@ == "supply_empty"@)));
    assert(e7.contains("jam"@) == (e6.contains("jam"@) || (c7 && "jam"@ == "media_low"@)));
    assert(a.contains("jam"@) == (e7.contains("jam"@) || other_text(rs, "jam"@)));
    assert(!e0.contains("media_empty"@));
    assert(e1.contains("media_empty"@) == (e0.contains("media_empty"@) || (c1 && "media_empty"@ == "jam"@)));
    assert(e2.contains("media_empty"@) == (e1.contains("media_empty"@) || (c2 && "media_empty"@ == "media_empty"@)));
    assert(e3.contains("media_empty"@) == (e2.contains("media_empty"@) || (c3 && "media_empty"@ == "cover_open"@)));
    assert(e4.contains("media_empty"@) == (e3.contains("media_empty"@) || (c4 && "media_empty"@ == "offline"@)));
    assert(e5.contains("media_empty"@) == (e4.contains("media_empty"@) || (c5 && "media_empty"@ == "supply_low"@)));
    assert(e6.contains("media_empty"@) == (e5.contains("media_empty"@) || (c6 && "media_empty"@ == "supply_empty"@)));
    assert(e7.contains("media_empty"@) == (e6.contains("media_empty"@) || (c7 && "media_empty"@ == "media_low"@)));
    assert(a.contains("media_empty"@) == (e7.contains("media_empty"@) || other_text(rs, "media_empty"@)));
    assert(!e0.contains("cover_open"@));
    assert(e1.contains("cover_open"@) == (e0.contains("cover_open"@) || (c1 && "cover_open"@ == "jam"@)));
    assert(e2.contains("cover_open"@) == (e1.contains("cover_open"@) || (c2 && "cover_open"@ == "media_empty"@)));
    assert(e3.contains("cover_open"@) == (e2.contains("cover_open"@) || (c3 && "cover_open"@ == "cover_open"@)));
    assert(e4.contains("cover_open"@) == (e3.contains("cover_open"@) || (c4 && "cover_open"@ == "offline"@)));
    assert(e5.contains("cover_open"@) == (e4.contains("cover_open"@) || (c5 && "cover_open"@ == "supply_low"@)));
    assert(e6.contains("cover_open"@) == (e5.contains("cover_open"@) || (c6 && "cover_open"@ == "supply_empty"@)));
    assert(e7.contains("cover_open"@) == (e6.contains("cover_open"@) || (c7 && "cover_open"@ == "media_low"@)));
    assert(a.contains("cover_open"@) == (e7.contains("cover_open"@) || other_text(rs, "cover_open"@)));
    assert(!e0.contains("offline"@));
    assert(e1.contains("offline"@) == (e0.contains("offline"@) || (c1 && "offline"@ == "jam"@)));
    assert(e2.contains("offline"@) == (e1.contains("offline"@) || (c2 && "offline"@ == "media_empty"@)));
    assert(e3.contains("offline"@) == (e2.contains("offline"@) || (c3 && "offline"@ == "cover_open"@)));
    assert(e4.contains("offline"@) == (e3.contains("offline"@) || (c4 && "offline"@ == "offline"@)));
    assert(e5.contains("offline"@) == (e4.contains("offline"@) || (c5 && "offline"@ == "supply_low"@)));
    assert(e6.contains("offline"@) == (e5.contains("offline"@) || (c6 && "offline"@ == "supply_empty"@)));
    assert(e7.contains("offline"@) == (e6.contains("offline"@) || (c7 && "offline"@ == "media_low"@)));
    assert(a.contains("offline"@) == (e7.contains("offline"@) || other_text(rs, "offline"@)));
    assert(!e0.contains("supply_low"@));
    assert(e1.contains("supply_low"@) == (e0.contains("supply_low"@) || (c1 && "supply_low"@ == "jam"@)));
    assert(e2.contains("supply_low"@) == (e1.contains("supply_low"@) || (c2 && "supply_low"@ == "media_empty"@)));
    assert(e3.contains("supply_low"@) == (e2.contains("supply_low"@) || (c3 && "supply_low"@ == "cover_open"@)));
    assert(e4.contains("supply_low"@) == (e3.contains("supply_low"@) || (c4 && "supply_low"@ == "offline"@)));
    assert(e5.contains("supply_low"@) == (e4.contains("supply_low"@) || (c5 && "supply_low"@ == "supply_low"@)));
    assert(e6.contains("supply_low"@) == (e5.contains("supply_low"@) || (c6 && "supply_low"@ == "supply_empty"@)));
    assert(e7.contains("supply_low"@) == (e6.contains("supply_low"@) || (c7 && "supply_low"@ == "media_low"@)));
    assert(a.contains("supply_low"@) == (e7.contains("supply_low"@) || other_text(rs, "supply_low"@)));
    assert(!e0.contains("supply_empty"@));
    assert(e1.contains("supply_empty"@) == (e0.contains("supply_empty"@) || (c1 && "supply_empty"@ == "jam"@)));
    assert(e2.contains("supply_empty"@) == (e1.contains("supply_empty"@) || (c2 && "supply_empty"@ == "media_empty"@)));
    assert(e3.contains("supply_empty"@) == (e2.contains("supply_empty"@) || (c3 && "supply_empty"@ == "cover_open"@)));
    assert(e4.contains("supply_empty"@) == (e3.contains("supply_empty"@) || (c4 && "supply_empty"@ == "offline"@)));
    assert(e5.contains("supply_empty"@) == (e4.contains("supply_empty"@) || (c5 && "supply_empty"@ == "supply_low"@)));
    assert(e6.contains("supply_empty"@) == (e5.contains("supply_empty"@) || (c6 && "supply_empty"@ == "supply_empty"@)));
    assert(e7.contains("supply_empty"@) == (e6.contains("supply_empty"@) || (c7 && "supply_empty"@ == "media_low"@)));
    assert(a.contains("supply_empty"@) == (e7.contains("supply_empty"@) || other_text(rs, "supply_empty"@)));
    assert(!e0.contains("media_low"@));
    assert(e1.contains("media_low"@) == (e0.contains("media_low"@) || (c1 && "media_low"@ == "jam"@)));
    assert(e2.contains("media_low"@) == (e1.contains("media_low"@) || (c2 && "media_low"@ == "media_empty"@)));
    assert(e3.contains("media_low"@) == (e2.contains("media_low"@) || (c3 && "media_low"@ == "cover_open"@)));
    assert(e4.contains("media_low"@) == (e3.contains("media_low"@) || (c4 && "media_low"@ == "offline"@)));
    assert(e5.contains("media_low"@) == (e4.contains("media_low"@) || (c5 && "media_low"@ == "supply_low"@)));
    assert(e6.contains("media_low"@) == (e5.contains("media_low"@) || (c6 && "media_low"@ == "supply_empty"@)));
    assert(e7.contains("media_low"@) == (e6.contains("media_low"@) || (c7 && "media_low"@ == "media_low"@)));
    assert(a.contains("media_low"@) == (e7.contains("media_low"@) || other_text(rs, "media_low"@)));
    assert forall|x: Seq<char>| #[trigger] a.contains(x) implies (x == "jam"@ || x == "media_empty"@
        || x == "media_low"@ || x == "cover_open"@ || x == "supply_empty"@ || x == "offline"@
        || x == "supply_low"@ || other_text(rs, x)) by {
        assert(!e0.contains(x));
        assert(e1.contains(x) == (e0.contains(x) || (c1 && x == "jam"@)));
        assert(e2.contains(x) == (e1.contains(x) || (c2 && x == "media_empty"@)));
        assert(e3.contains(x) == (e2.contains(x) || (c3 && x == "cover_open"@)));
        assert(e4.contains(x) == (e3.contains(x) || (c4 && x == "offline"@)));
        assert(e5.contains(x) == (e4.contains(x) || (c5 && x == "supply_low"@)));
        assert(e6.contains(x) == (e5.contains(x) || (c6 && x == "supply_empty"@)));
        assert(e7.contains(x) == (e6.contains(x) || (c7 && x == "media_low"@)));
    }
}

/// Every event that is active now, was not active at the previous poll and is configured
/// fires: no new configured event is missed.
pub proof fn law_every_new_configured_event_fires(prev: Seq<Seq<char>>, cur: Seq<Seq<char>>, configured: Seq<Seq<char>>)
    ensures
        forall|e: Seq<char>|
            cur.contains(e) && !prev.contains(e) && configured.contains(e) ==> #[trigger] new_events(
                prev,
                cur,
                configured,
            ).contains(e),
    decreases cur.len(),
{
    if cur.len() > 0 {
        let f = cur.drop_last();
        law_every_new_configured_event_fires(prev, f, configured);
        let rest = new_events(prev, f, configured);
        let r = new_events(prev, cur, configured);
        assert forall|e: Seq<char>|
            cur.contains(e) && !prev.contains(e) && configured.contains(e) implies #[trigger] new_events(
                prev,
                cur,
                configured,
            ).contains(e) by {
            let k = choose|k: int| 0 <= k < cur.len() && cur[k] == e;
            if k < cur.len() - 1 {
                assert(f[k] == e);
                assert(rest.contains(e));
                let j = choose|j: int| 0 <= j < rest.len() && rest[j] == e;
                assert(r[j] == e);
            } else {
                assert(r[r.len() - 1] == e);
            }
        }
    }
}

/// Steady state is silent: when the events are the ones remembered from the previous poll,
/// nothing fires. So a condition notifies once, at the poll where it becomes active.
pub proof fn law_steady_state_is_silent(cur: Seq<Seq<char>>, configured: Seq<Seq<char>>)
    ensures
        new_events(cur, cur, configured).len() == 0,
{
    law_fires_only_new_configured_events(cur, cur, configured);
    if new_events(cur, cur, configured).len() > 0 {
        let e = new_events(cur, cur, configured)[0];
        assert(cur.contains(e) && !cur.contains(e));
    }
}

/// The cache file name stays inside its directory: it holds no `/` and no `..`.
pub proof fn law_cache_name_is_confined(name: Seq<char>)
    ensures
        !cache_name(name).contains('/'),
        !has_sub(cache_name(name), ".."@),
{
    reveal_strlit("printbar-");
    reveal_strlit(".json");
    let pre = "printbar-"@;
    let mid = name.map_values(|c: char| safe_char(c));
    let suf = ".json"@;
    let whole = cache_name(name);
    assert(whole =~= pre + mid + suf);
    assert forall|i: int| 0 <= i < whole.len() implies whole[i] != '/' && (whole[i] == '.' ==> i == whole.len() - 5) by {
        if i < pre.len() {
            assert(whole[i] == pre[i]);
        } else if i < pre.len() + mid.len() {
            assert(whole[i] == mid[i - pre.len()]);
            assert(mid[i - pre.len()] == safe_char(name[i - pre.len()]));
        } else {
            assert(whole[i] == suf[i - pre.len() - mid.len()]);
        }
    }
    reveal_strlit("..");
    if has_sub(whole, ".."@) {
        let i = choose|i: int| occurs_at(whole, ".."@, i);
        assert(whole.subrange(i, i + 2)[0] == '.');
        assert(whole.subrange(i, i + 2)[1] == '.');
        assert(whole[i] == '.' && whole[i + 1] == '.');
    }
}

} // verus!
