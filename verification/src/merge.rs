//! Merge of per-source partial views into one `PrinterState`. No I/O.
//!
//! * supplies: wholesale from the highest-priority source with a usable set
//!   (SNMP > IPP > CUPS), else from the highest-priority non-empty set;
//! * paper, pages, model, name: SNMP, then IPP, then CUPS;
//! * status: IPP, then CUPS, then SNMP;
//! * jobs: CUPS (the local spool), then IPP, then SNMP;
//! * reasons: IPP, then CUPS, then SNMP, each adding what is not there yet;
//! * every source failed: offline, nothing else.
use crate::model::{
    add_reasons, clone_opt_string, has_reason, is_empty_state, push_new_reasons, reasons_distinct,
    same_reason, usable, pct,
    InputTray, PrinterState, Reason, Status, Supply, SupplyClass,
};
use crate::render::{levels_in_range, supply_in_range};
use crate::sources::{SourceKind, SourceOutcome};
use vstd::prelude::*;

verus! {

// ---------------------------------------------------------------------------
// Specification
// ---------------------------------------------------------------------------

/// The partial view of the first outcome of kind `k`.
pub open spec fn find(outs: Seq<SourceOutcome>, k: SourceKind) -> Option<PrinterState>
    decreases outs.len(),
{
    if outs.len() == 0 {
        None
    } else if outs[0].kind == k {
        Some(outs[0].partial)
    } else {
        find(outs.drop_first(), k)
    }
}

/// Every source failed (and there was at least one).
pub open spec fn all_failed(outs: Seq<SourceOutcome>) -> bool {
    outs.len() > 0 && forall|i: int| 0 <= i < outs.len() ==> (#[trigger] outs[i]).error is Some
}

pub open spec fn any_usable(s: Seq<Supply>) -> bool {
    exists|i: int| 0 <= i < s.len() && usable(s[i])
}

/// The supplies of an optional partial view (empty when absent).
pub open spec fn supplies_of(p: Option<PrinterState>) -> Seq<Supply> {
    match p {
        Some(x) => x.supplies@,
        None => Seq::empty(),
    }
}

pub open spec fn reasons_of(p: Option<PrinterState>) -> Seq<Reason> {
    match p {
        Some(x) => x.reasons@,
        None => Seq::empty(),
    }
}

pub open spec fn paper_of(p: Option<PrinterState>) -> Seq<InputTray> {
    match p {
        Some(x) => x.paper@,
        None => Seq::empty(),
    }
}

pub open spec fn pages_of(p: Option<PrinterState>) -> Option<u64> {
    match p {
        Some(x) => x.pages,
        None => None,
    }
}

pub open spec fn model_of(p: Option<PrinterState>) -> Option<String> {
    match p {
        Some(x) => x.model,
        None => None,
    }
}

pub open spec fn name_of(p: Option<PrinterState>) -> Option<String> {
    match p {
        Some(x) => x.name,
        None => None,
    }
}

pub open spec fn status_of(p: Option<PrinterState>) -> Option<Status> {
    match p {
        Some(x) => x.status,
        None => None,
    }
}

pub open spec fn jobs_of(p: Option<PrinterState>) -> Option<u32> {
    match p {
        Some(x) => x.jobs,
        None => None,
    }
}

/// The first present value of three, in order.
pub open spec fn first_some<T>(a: Option<T>, b: Option<T>, c: Option<T>) -> Option<T> {
    if a is Some {
        a
    } else if b is Some {
        b
    } else {
        c
    }
}

/// The first non-empty sequence of three, in order (empty if all are).
pub open spec fn first_nonempty<T>(a: Seq<T>, b: Seq<T>, c: Seq<T>) -> Seq<T> {
    if a.len() > 0 {
        a
    } else if b.len() > 0 {
        b
    } else {
        c
    }
}

/// The supply set chosen from `outs`.
pub open spec fn chosen_supplies(outs: Seq<SourceOutcome>) -> Seq<Supply> {
    let s = supplies_of(find(outs, SourceKind::Snmp));
    let i = supplies_of(find(outs, SourceKind::Ipp));
    let c = supplies_of(find(outs, SourceKind::Cups));
    if any_usable(s) {
        s
    } else if any_usable(i) {
        i
    } else if any_usable(c) {
        c
    } else {
        first_nonempty(s, i, c)
    }
}

/// The reasons of `outs`: IPP first, then what CUPS and SNMP add.
pub open spec fn merged_reasons(outs: Seq<SourceOutcome>) -> Seq<Reason> {
    add_reasons(
        add_reasons(
            add_reasons(Seq::empty(), reasons_of(find(outs, SourceKind::Ipp))),
            reasons_of(find(outs, SourceKind::Cups)),
        ),
        reasons_of(find(outs, SourceKind::Snmp)),
    )
}

pub open spec fn rich<T>(outs: Seq<SourceOutcome>, f: spec_fn(Option<PrinterState>) -> Option<T>) -> Option<T> {
    first_some(
        f(find(outs, SourceKind::Snmp)),
        f(find(outs, SourceKind::Ipp)),
        f(find(outs, SourceKind::Cups)),
    )
}

/// `st` is the merge of `outs`.
pub open spec fn is_merge_of(outs: Seq<SourceOutcome>, st: PrinterState) -> bool {
    if all_failed(outs) {
        &&& st.status == Some(Status::Offline)
        &&& st.name is None
        &&& st.model is None
        &&& st.reasons@.len() == 0
        &&& st.supplies@.len() == 0
        &&& st.paper@.len() == 0
        &&& st.pages is None
        &&& st.jobs is None
        &&& st.display is None
    } else {
        &&& st.supplies@ == chosen_supplies(outs)
        &&& st.paper@ == first_nonempty(
            paper_of(find(outs, SourceKind::Snmp)),
            paper_of(find(outs, SourceKind::Ipp)),
            paper_of(find(outs, SourceKind::Cups)),
        )
        &&& st.pages == rich(outs, |p: Option<PrinterState>| pages_of(p))
        &&& st.model == rich(outs, |p: Option<PrinterState>| model_of(p))
        &&& st.name == rich(outs, |p: Option<PrinterState>| name_of(p))
        &&& st.status == first_some(
            status_of(find(outs, SourceKind::Ipp)),
            status_of(find(outs, SourceKind::Cups)),
            status_of(find(outs, SourceKind::Snmp)),
        )
        &&& st.jobs == first_some(
            jobs_of(find(outs, SourceKind::Cups)),
            jobs_of(find(outs, SourceKind::Ipp)),
            jobs_of(find(outs, SourceKind::Snmp)),
        )
        &&& st.reasons@ == merged_reasons(outs)
        &&& st.display is None
    }
}

// ---------------------------------------------------------------------------
// Lemmas
// ---------------------------------------------------------------------------

/// `find` returns the first outcome of the kind.
proof fn lemma_find_first(outs: Seq<SourceOutcome>, k: SourceKind, i: int)
    requires
        0 <= i < outs.len(),
        outs[i].kind == k,
        forall|j: int| 0 <= j < i ==> outs[j].kind != k,
    ensures
        find(outs, k) == Some(outs[i].partial),
    decreases i,
{
    if i > 0 {
        lemma_find_first(outs.drop_first(), k, i - 1);
    }
}

/// `find` finds nothing when no outcome has the kind.
proof fn lemma_find_none(outs: Seq<SourceOutcome>, k: SourceKind)
    requires
        forall|j: int| 0 <= j < outs.len() ==> outs[j].kind != k,
    ensures
        find(outs, k) is None,
    decreases outs.len(),
{
    if outs.len() > 0 {
        lemma_find_none(outs.drop_first(), k);
    }
}

/// Adding reasons keeps a duplicate-free list duplicate-free.
pub proof fn lemma_add_reasons_distinct(out: Seq<Reason>, src: Seq<Reason>)
    requires
        reasons_distinct(out),
    ensures
        reasons_distinct(add_reasons(out, src)),
    decreases src.len(),
{
    if src.len() > 0 {
        lemma_add_reasons_distinct(out, src.drop_last());
        let prev = add_reasons(out, src.drop_last());
        if !has_reason(prev, src.last()) {
            let n = prev.push(src.last());
            assert forall|i: int, j: int| 0 <= i < j < n.len() implies !same_reason(n[i], n[j]) by {
                if j == n.len() - 1 {
                    if same_reason(n[i], n[j]) {
                        assert(same_reason(prev[i], src.last()));
                    }
                }
            }
        }
    }
}

/// Adding reasons loses none: what was there and every added reason are in the result.
pub proof fn lemma_add_reasons_keeps(out: Seq<Reason>, src: Seq<Reason>)
    ensures
        add_reasons(out, src).len() >= out.len(),
        forall|i: int| 0 <= i < out.len() ==> add_reasons(out, src)[i] == #[trigger] out[i],
        forall|i: int| 0 <= i < src.len() ==> has_reason(add_reasons(out, src), #[trigger] src[i]),
    decreases src.len(),
{
    if src.len() > 0 {
        lemma_add_reasons_keeps(out, src.drop_last());
        let prev = add_reasons(out, src.drop_last());
        let res = add_reasons(out, src);
        assert forall|i: int| 0 <= i < out.len() implies res[i] == #[trigger] out[i] by {
            assert(prev[i] == out[i]);
        }
        assert forall|i: int| 0 <= i < src.len() implies has_reason(res, #[trigger] src[i]) by {
            if i < src.len() - 1 {
                assert(src.drop_last()[i] == src[i]);
                let w = choose|w: int| 0 <= w < prev.len() && same_reason(prev[w], src[i]);
                assert(res[w] == prev[w]);
            } else if !has_reason(prev, src.last()) {
                assert(res[prev.len() as int] == src[i]);
                assert(same_reason(src[i], src[i]));
            } else {
                let w = choose|w: int| 0 <= w < prev.len() && same_reason(prev[w], src.last());
                assert(res[w] == prev[w]);
            }
        }
    }
}

/// Every element of the result of adding reasons came from the list or the source.
pub proof fn lemma_add_reasons_from(out: Seq<Reason>, src: Seq<Reason>)
    ensures
        forall|i: int| 0 <= i < add_reasons(out, src).len() ==> out.contains(#[trigger] add_reasons(out, src)[i]) || src.contains(add_reasons(out, src)[i]),
    decreases src.len(),
{
    if src.len() > 0 {
        lemma_add_reasons_from(out, src.drop_last());
        let prev = add_reasons(out, src.drop_last());
        let res = add_reasons(out, src);
        assert forall|i: int| 0 <= i < res.len() implies out.contains(#[trigger] res[i]) || src.contains(res[i]) by {
            if i < prev.len() {
                assert(res[i] == prev[i]);
                if src.drop_last().contains(prev[i]) {
                    let w = choose|w: int| 0 <= w < src.drop_last().len() && src.drop_last()[w] == prev[i];
                    assert(src[w] == prev[i]);
                }
            } else {
                assert(res[i] == src[src.len() - 1]);
            }
        }
    }
}

// ---------------------------------------------------------------------------
// Executable code
// ---------------------------------------------------------------------------

/// The partial view of the first outcome of kind `k`.
fn find_partial(outcomes: &[SourceOutcome], k: SourceKind) -> (r: Option<&PrinterState>)
    ensures
        match r {
            Some(p) => find(outcomes@, k) == Some(*p),
            None => find(outcomes@, k) is None,
        },
{
    let mut i: usize = 0;
    while i < outcomes.len()
        invariant
            i <= outcomes@.len(),
            forall|j: int| 0 <= j < i ==> outcomes@[j].kind != k,
        decreases outcomes@.len() - i,
    {
        if outcomes[i].kind == k {
            proof {
                lemma_find_first(outcomes@, k, i as int);
            }
            return Some(&outcomes[i].partial);
        }
        i += 1;
    }
    proof {
        lemma_find_none(outcomes@, k);
    }
    None
}

fn has_usable(s: &Vec<Supply>) -> (r: bool)
    ensures
        r == any_usable(s@),
{
    let mut i: usize = 0;
    while i < s.len()
        invariant
            i <= s@.len(),
            forall|j: int| 0 <= j < i ==> !usable(s@[j]),
        decreases s@.len() - i,
    {
        if s[i].is_usable() {
            return true;
        }
        i += 1;
    }
    false
}

/// Whether the partial view holds a usable supply set.
fn usable_in(p: Option<&PrinterState>) -> (r: bool)
    ensures
        r == any_usable(
            match p {
                Some(x) => x.supplies@,
                None => Seq::empty(),
            },
        ),
{
    match p {
        Some(x) => has_usable(&x.supplies),
        None => false,
    }
}

fn nonempty_in(p: Option<&PrinterState>) -> (r: bool)
    ensures
        r == ((match p {
            Some(x) => x.supplies@,
            None => Seq::<Supply>::empty(),
        }).len() > 0),
{
    match p {
        Some(x) => x.supplies.len() > 0,
        None => false,
    }
}

/// The supply set: wholesale from the highest-priority source with a usable set; else the
/// highest-priority non-empty set.
fn pick_supplies(outcomes: &[SourceOutcome]) -> (r: Vec<Supply>)
    ensures
        r@ == chosen_supplies(outcomes@),
{
    let s = find_partial(outcomes, SourceKind::Snmp);
    let i = find_partial(outcomes, SourceKind::Ipp);
    let c = find_partial(outcomes, SourceKind::Cups);
    let pick = if usable_in(s) {
        s
    } else if usable_in(i) {
        i
    } else if usable_in(c) {
        c
    } else if nonempty_in(s) {
        s
    } else if nonempty_in(i) {
        i
    } else if nonempty_in(c) {
        c
    } else {
        None
    };
    match pick {
        Some(p) => {
            let v = p.supplies.clone();
            assert(v@ =~= p.supplies@);
            v
        },
        None => Vec::new(),
    }
}

fn clone_paper(p: Option<&PrinterState>) -> (r: Vec<InputTray>)
    ensures
        r@ == paper_of(
            match p {
                Some(x) => Some(*x),
                None => None,
            },
        ),
{
    match p {
        Some(x) => {
            let v = x.paper.clone();
            assert(v@ =~= x.paper@);
            v
        },
        None => Vec::new(),
    }
}

fn model_in(p: Option<&PrinterState>) -> (r: Option<String>)
    ensures
        r == model_of(
            match p {
                Some(x) => Some(*x),
                None => None,
            },
        ),
{
    match p {
        Some(x) => clone_opt_string(&x.model),
        None => None,
    }
}

fn name_in(p: Option<&PrinterState>) -> (r: Option<String>)
    ensures
        r == name_of(
            match p {
                Some(x) => Some(*x),
                None => None,
            },
        ),
{
    match p {
        Some(x) => clone_opt_string(&x.name),
        None => None,
    }
}

fn pages_in(p: Option<&PrinterState>) -> (r: Option<u64>)
    ensures
        r == pages_of(
            match p {
                Some(x) => Some(*x),
                None => None,
            },
        ),
{
    match p {
        Some(x) => x.pages,
        None => None,
    }
}

fn status_in(p: Option<&PrinterState>) -> (r: Option<Status>)
    ensures
        r == status_of(
            match p {
                Some(x) => Some(*x),
                None => None,
            },
        ),
{
    match p {
        Some(x) => x.status,
        None => None,
    }
}

fn jobs_in(p: Option<&PrinterState>) -> (r: Option<u32>)
    ensures
        r == jobs_of(
            match p {
                Some(x) => Some(*x),
                None => None,
            },
        ),
{
    match p {
        Some(x) => x.jobs,
        None => None,
    }
}

fn add_reasons_from(out: &mut Vec<Reason>, p: Option<&PrinterState>)
    ensures
        final(out)@ == add_reasons(
            old(out)@,
            reasons_of(
                match p {
                    Some(x) => Some(*x),
                    None => None,
                },
            ),
        ),
{
    match p {
        Some(x) => push_new_reasons(out, &x.reasons),
        None => {
            assert(add_reasons(out@, Seq::empty()) == out@);
        },
    }
}

fn every_failed(outcomes: &[SourceOutcome]) -> (r: bool)
    ensures
        r == all_failed(outcomes@),
{
    if outcomes.len() == 0 {
        return false;
    }
    let mut i: usize = 0;
    while i < outcomes.len()
        invariant
            i <= outcomes@.len(),
            forall|j: int| 0 <= j < i ==> (#[trigger] outcomes@[j]).error is Some,
        decreases outcomes@.len() - i,
    {
        if outcomes[i].error.is_none() {
            return false;
        }
        i += 1;
    }
    true
}

/// Merges the outcomes of all sources into one printer state (see the module documentation
/// for the priorities).
pub fn merge(outcomes: &[SourceOutcome]) -> (r: PrinterState)
    ensures
        is_merge_of(outcomes@, r),
{
    if every_failed(outcomes) {
        let mut st = PrinterState::default();
        st.status = Some(Status::Offline);
        return st;
    }
    let snmp = find_partial(outcomes, SourceKind::Snmp);
    let ipp = find_partial(outcomes, SourceKind::Ipp);
    let cups = find_partial(outcomes, SourceKind::Cups);

    let supplies = pick_supplies(outcomes);

    let ps = clone_paper(snmp);
    let paper = if ps.len() > 0 {
        ps
    } else {
        let pi = clone_paper(ipp);
        if pi.len() > 0 {
            pi
        } else {
            clone_paper(cups)
        }
    };

    let mut pages = pages_in(snmp);
    if pages.is_none() {
        pages = pages_in(ipp);
    }
    if pages.is_none() {
        pages = pages_in(cups);
    }
    let mut model = model_in(snmp);
    if model.is_none() {
        model = model_in(ipp);
    }
    if model.is_none() {
        model = model_in(cups);
    }
    let mut name = name_in(snmp);
    if name.is_none() {
        name = name_in(ipp);
    }
    if name.is_none() {
        name = name_in(cups);
    }
    let mut status = status_in(ipp);
    if status.is_none() {
        status = status_in(cups);
    }
    if status.is_none() {
        status = status_in(snmp);
    }
    let mut jobs = jobs_in(cups);
    if jobs.is_none() {
        jobs = jobs_in(ipp);
    }
    if jobs.is_none() {
        jobs = jobs_in(snmp);
    }

    let mut reasons: Vec<Reason> = Vec::new();
    proof {
        assert(reasons@ =~= Seq::<Reason>::empty());
    }
    add_reasons_from(&mut reasons, ipp);
    add_reasons_from(&mut reasons, cups);
    add_reasons_from(&mut reasons, snmp);

    PrinterState { name, model, status, reasons, supplies, paper, pages, jobs, display: None }
}

// ---------------------------------------------------------------------------
// Laws
// ---------------------------------------------------------------------------

/// The merged supplies are one source's set, taken whole (never a mix of sources),
/// or empty.
pub proof fn law_supplies_from_one_source(outs: Seq<SourceOutcome>)
    ensures
        ({
            let s = chosen_supplies(outs);
            ||| s.len() == 0
            ||| exists|k: SourceKind| #[trigger] find(outs, k) matches Some(p) && s == p.supplies@
        }),
{
    let s = chosen_supplies(outs);
    if s.len() > 0 {
        if s == supplies_of(find(outs, SourceKind::Snmp)) {
            assert(find(outs, SourceKind::Snmp) is Some);
        } else if s == supplies_of(find(outs, SourceKind::Ipp)) {
            assert(find(outs, SourceKind::Ipp) is Some);
        } else {
            assert(find(outs, SourceKind::Cups) is Some);
        }
    }
}

/// A source with a usable supply set always beats a source without one: when IPP's set is
/// usable and SNMP's is not, the merged supplies are IPP's. So an SNMP answer with only a
/// waste tank or sentinel levels never replaces a full IPP marker list.
pub proof fn law_unusable_snmp_keeps_ipp_supplies(outs: Seq<SourceOutcome>)
    requires
        !any_usable(supplies_of(find(outs, SourceKind::Snmp))),
        any_usable(supplies_of(find(outs, SourceKind::Ipp))),
    ensures
        chosen_supplies(outs) == supplies_of(find(outs, SourceKind::Ipp)),
{
}

/// The merged reasons hold no duplicate, lose no reason of any source, and hold nothing that
/// no source reported.
pub proof fn law_reasons_complete_and_distinct(outs: Seq<SourceOutcome>)
    ensures
        reasons_distinct(merged_reasons(outs)),
        forall|k: SourceKind, i: int|
            0 <= i < reasons_of(find(outs, k)).len() ==> has_reason(
                merged_reasons(outs),
                #[trigger] reasons_of(find(outs, k))[i],
            ),
        forall|i: int|
            0 <= i < merged_reasons(outs).len() ==> {
                let r = #[trigger] merged_reasons(outs)[i];
                ||| reasons_of(find(outs, SourceKind::Ipp)).contains(r)
                ||| reasons_of(find(outs, SourceKind::Cups)).contains(r)
                ||| reasons_of(find(outs, SourceKind::Snmp)).contains(r)
            },
{
    let e = Seq::<Reason>::empty();
    let ri = reasons_of(find(outs, SourceKind::Ipp));
    let rc = reasons_of(find(outs, SourceKind::Cups));
    let rs = reasons_of(find(outs, SourceKind::Snmp));
    let a = add_reasons(e, ri);
    let b = add_reasons(a, rc);
    let m = add_reasons(b, rs);
    lemma_add_reasons_distinct(e, ri);
    lemma_add_reasons_distinct(a, rc);
    lemma_add_reasons_distinct(b, rs);
    lemma_add_reasons_keeps(e, ri);
    lemma_add_reasons_keeps(a, rc);
    lemma_add_reasons_keeps(b, rs);
    lemma_add_reasons_from(e, ri);
    lemma_add_reasons_from(a, rc);
    lemma_add_reasons_from(b, rs);
    assert forall|k: SourceKind, i: int|
        0 <= i < reasons_of(find(outs, k)).len() implies has_reason(
        m,
        #[trigger] reasons_of(find(outs, k))[i],
    ) by {
        let r = reasons_of(find(outs, k))[i];
        if k == SourceKind::Ipp {
            let w = choose|w: int| 0 <= w < a.len() && same_reason(a[w], r);
            assert(b[w] == a[w]);
            assert(m[w] == b[w]);
        } else if k == SourceKind::Cups {
            let w = choose|w: int| 0 <= w < b.len() && same_reason(b[w], r);
            assert(m[w] == b[w]);
        }
    }
    assert forall|i: int| 0 <= i < m.len() implies {
        let r = #[trigger] m[i];
        ||| ri.contains(r)
        ||| rc.contains(r)
        ||| rs.contains(r)
    } by {
        if !rs.contains(m[i]) {
            assert(b.contains(m[i]));
            let w = choose|w: int| 0 <= w < b.len() && b[w] == m[i];
            if !rc.contains(b[w]) {
                assert(a.contains(b[w]));
                let v = choose|v: int| 0 <= v < a.len() && a[v] == b[w];
                assert(ri.contains(a[v]));
            }
        }
    }
}

/// The merged reasons begin with IPP's own reasons (deduplicated): CUPS and SNMP only add.
pub proof fn law_ipp_reasons_first(outs: Seq<SourceOutcome>)
    ensures
        ({
            let a = add_reasons(Seq::empty(), reasons_of(find(outs, SourceKind::Ipp)));
            &&& a.len() <= merged_reasons(outs).len()
            &&& merged_reasons(outs).take(a.len() as int) == a
        }),
{
    let e = Seq::<Reason>::empty();
    let a = add_reasons(e, reasons_of(find(outs, SourceKind::Ipp)));
    let b = add_reasons(a, reasons_of(find(outs, SourceKind::Cups)));
    let m = merged_reasons(outs);
    lemma_add_reasons_keeps(a, reasons_of(find(outs, SourceKind::Cups)));
    lemma_add_reasons_keeps(b, reasons_of(find(outs, SourceKind::Snmp)));
    assert forall|i: int| 0 <= i < a.len() implies m[i] == a[i] by {
        assert(b[i] == a[i]);
        assert(m[i] == b[i]);
    }
    assert(m.take(a.len() as int) =~= a);
}

/// When IPP reports a status, that status is the merged one, whatever CUPS and SNMP say;
/// when CUPS reports a job count, that count is the merged one.
pub proof fn law_status_and_jobs_priority(outs: Seq<SourceOutcome>, st: PrinterState)
    requires
        is_merge_of(outs, st),
        !all_failed(outs),
    ensures
        status_of(find(outs, SourceKind::Ipp)) is Some ==> st.status == status_of(
            find(outs, SourceKind::Ipp),
        ),
        jobs_of(find(outs, SourceKind::Cups)) is Some ==> st.jobs == jobs_of(
            find(outs, SourceKind::Cups),
        ),
{
}

proof fn lemma_find_is_an_outcome(outs: Seq<SourceOutcome>, k: SourceKind)
    ensures
        find(outs, k) matches Some(p) ==> exists|i: int| 0 <= i < outs.len() && (#[trigger] outs[i]).partial == p,
    decreases outs.len(),
{
    if outs.len() > 0 && outs[0].kind != k {
        lemma_find_is_an_outcome(outs.drop_first(), k);
        if let Some(p) = find(outs, k) {
            let i = choose|i: int| 0 <= i < outs.drop_first().len() && (#[trigger] outs.drop_first()[i]).partial == p;
            assert(outs[i + 1] == outs.drop_first()[i]);
        }
    }
}

/// Merging keeps levels in range: when every source's levels are, the merged ones are.
pub proof fn law_merge_keeps_levels_in_range(outs: Seq<SourceOutcome>, st: PrinterState)
    requires
        is_merge_of(outs, st),
        forall|i: int| 0 <= i < outs.len() ==> levels_in_range(#[trigger] outs[i].partial),
    ensures
        levels_in_range(st),
{
    if !all_failed(outs) {
        lemma_find_is_an_outcome(outs, SourceKind::Snmp);
        lemma_find_is_an_outcome(outs, SourceKind::Ipp);
        lemma_find_is_an_outcome(outs, SourceKind::Cups);
        let s = chosen_supplies(outs);
        assert forall|j: int| 0 <= j < st.supplies@.len() implies supply_in_range(#[trigger] st.supplies@[j]) by {
            let ks = if s == supplies_of(find(outs, SourceKind::Snmp)) {
                SourceKind::Snmp
            } else if s == supplies_of(find(outs, SourceKind::Ipp)) {
                SourceKind::Ipp
            } else {
                SourceKind::Cups
            };
            let p = find(outs, ks)->0;
            let i = choose|i: int| 0 <= i < outs.len() && (#[trigger] outs[i]).partial == p;
            assert(levels_in_range(outs[i].partial));
            assert(st.supplies@[j] == p.supplies@[j]);
        }
    }
}

/// `find` on an extended list: the earlier outcomes come first.
proof fn lemma_find_push(outs: Seq<SourceOutcome>, x: SourceOutcome, k: SourceKind)
    ensures
        find(outs.push(x), k) == (if find(outs, k) is Some {
            find(outs, k)
        } else if x.kind == k {
            Some(x.partial)
        } else {
            None
        }),
    decreases outs.len(),
{
    if outs.len() == 0 {
        assert(outs.push(x).drop_first() =~= Seq::<SourceOutcome>::empty());
        assert(outs.push(x)[0] == x);
        assert(find(Seq::<SourceOutcome>::empty(), k) is None);
    } else {
        assert(outs.push(x)[0] == outs[0]);
        assert(outs.push(x).drop_first() =~= outs.drop_first().push(x));
        lemma_find_push(outs.drop_first(), x, k);
    }
}

/// SNMP is purely additive: when SNMP is off or fails, the output is what IPP and CUPS give.
/// Adding a failed SNMP outcome (nothing known) to outcomes that hold none changes no field
/// of the merge.
pub proof fn law_failed_snmp_changes_nothing(outs: Seq<SourceOutcome>, snmp: SourceOutcome, st: PrinterState)
    requires
        outs.len() > 0,
        forall|i: int| 0 <= i < outs.len() ==> (#[trigger] outs[i]).kind != SourceKind::Snmp,
        snmp.kind == SourceKind::Snmp,
        is_empty_state(snmp.partial),
        snmp.error is Some,
    ensures
        is_merge_of(outs.push(snmp), st) == is_merge_of(outs, st),
{
    let all = outs.push(snmp);
    lemma_find_none(outs, SourceKind::Snmp);
    lemma_find_push(outs, snmp, SourceKind::Snmp);
    lemma_find_push(outs, snmp, SourceKind::Ipp);
    lemma_find_push(outs, snmp, SourceKind::Cups);
    assert(all_failed(all) == all_failed(outs)) by {
        if all_failed(outs) {
            assert forall|i: int| 0 <= i < all.len() implies (#[trigger] all[i]).error is Some by {
                if i < outs.len() {
                    assert(all[i] == outs[i]);
                }
            }
        }
        if all_failed(all) {
            assert forall|i: int| 0 <= i < outs.len() implies (#[trigger] outs[i]).error is Some by {
                assert(all[i] == outs[i]);
            }
        }
    }
    let e = snmp.partial;
    assert(supplies_of(Some(e)) =~= Seq::<Supply>::empty());
    assert(!any_usable(supplies_of(Some(e))));
    assert(reasons_of(Some(e)) =~= Seq::<Reason>::empty());
    assert(paper_of(Some(e)) =~= Seq::<InputTray>::empty());
    assert(chosen_supplies(all) == chosen_supplies(outs));
    assert(merged_reasons(all) == merged_reasons(outs)) by {
        let b = add_reasons(
            add_reasons(Seq::empty(), reasons_of(find(outs, SourceKind::Ipp))),
            reasons_of(find(outs, SourceKind::Cups)),
        );
        assert(add_reasons(b, Seq::<Reason>::empty()) == b);
    }
}

/// A supply set with a real consumable: a consumed supply with a known percentage.
pub open spec fn has_consumable(ss: Seq<Supply>) -> bool {
    exists|i: int| 0 <= i < ss.len() && (#[trigger] ss[i]).class == SupplyClass::Consumed && pct(ss[i].level) is Some
}

/// Each field of the merge comes from the first source, in the field's priority order, that
/// reports it, so no source's value is lost when no source before it has one:
/// * status: IPP, then CUPS, then SNMP;
/// * jobs: CUPS, then IPP, then SNMP;
/// * pages, model, name and paper trays: SNMP, then IPP, then CUPS;
/// * supplies: the first of SNMP, IPP, CUPS with a real consumable, else the first
///   non-empty set.
/// When every source failed (and there was one), the printer is offline and nothing else
/// is known.
pub proof fn law_merge_priorities(outs: Seq<SourceOutcome>, st: PrinterState)
    requires
        is_merge_of(outs, st),
    ensures
        ({
            let ipp = find(outs, SourceKind::Ipp);
            let cups = find(outs, SourceKind::Cups);
            let snmp = find(outs, SourceKind::Snmp);
            let failed = outs.len() > 0 && forall|i: int| 0 <= i < outs.len() ==> (#[trigger] outs[i]).error is Some;
            &&& failed ==> st.status == Some(Status::Offline) && st.supplies@.len() == 0
                && st.reasons@.len() == 0 && st.paper@.len() == 0 && st.jobs is None
                && st.pages is None && st.model is None && st.name is None
            &&& !failed ==> {
                &&& status_of(ipp) is Some ==> st.status == status_of(ipp)
                &&& status_of(ipp) is None && status_of(cups) is Some ==> st.status == status_of(cups)
                &&& status_of(ipp) is None && status_of(cups) is None ==> st.status == status_of(snmp)
                &&& jobs_of(cups) is Some ==> st.jobs == jobs_of(cups)
                &&& jobs_of(cups) is None && jobs_of(ipp) is Some ==> st.jobs == jobs_of(ipp)
                &&& jobs_of(cups) is None && jobs_of(ipp) is None ==> st.jobs == jobs_of(snmp)
                &&& pages_of(snmp) is Some ==> st.pages == pages_of(snmp)
                &&& pages_of(snmp) is None && pages_of(ipp) is Some ==> st.pages == pages_of(ipp)
                &&& pages_of(snmp) is None && pages_of(ipp) is None ==> st.pages == pages_of(cups)
                &&& model_of(snmp) is Some ==> st.model == model_of(snmp)
                &&& model_of(snmp) is None && model_of(ipp) is Some ==> st.model == model_of(ipp)
                &&& model_of(snmp) is None && model_of(ipp) is None ==> st.model == model_of(cups)
                &&& name_of(snmp) is Some ==> st.name == name_of(snmp)
                &&& name_of(snmp) is None && name_of(ipp) is Some ==> st.name == name_of(ipp)
                &&& name_of(snmp) is None && name_of(ipp) is None ==> st.name == name_of(cups)
                &&& paper_of(snmp).len() > 0 ==> st.paper@ == paper_of(snmp)
                &&& paper_of(snmp).len() == 0 && paper_of(ipp).len() > 0 ==> st.paper@ == paper_of(ipp)
                &&& paper_of(snmp).len() == 0 && paper_of(ipp).len() == 0 ==> st.paper@ == paper_of(cups)
                &&& has_consumable(supplies_of(snmp)) ==> st.supplies@ == supplies_of(snmp)
                &&& !has_consumable(supplies_of(snmp)) && has_consumable(supplies_of(ipp))
                    ==> st.supplies@ == supplies_of(ipp)
                &&& !has_consumable(supplies_of(snmp)) && !has_consumable(supplies_of(ipp))
                    && has_consumable(supplies_of(cups)) ==> st.supplies@ == supplies_of(cups)
                &&& !has_consumable(supplies_of(snmp)) && !has_consumable(supplies_of(ipp))
                    && !has_consumable(supplies_of(cups)) ==> st.supplies@ == (
                if supplies_of(snmp).len() > 0 {
                    supplies_of(snmp)
                } else if supplies_of(ipp).len() > 0 {
                    supplies_of(ipp)
                } else {
                    supplies_of(cups)
                })
            }
        }),
{
    let failed = outs.len() > 0 && forall|i: int| 0 <= i < outs.len() ==> (#[trigger] outs[i]).error is Some;
    assert(failed == all_failed(outs));
    let s = supplies_of(find(outs, SourceKind::Snmp));
    let i = supplies_of(find(outs, SourceKind::Ipp));
    let c = supplies_of(find(outs, SourceKind::Cups));
    assert(has_consumable(s) == any_usable(s));
    assert(has_consumable(i) == any_usable(i));
    assert(has_consumable(c) == any_usable(c));
}

/// The view a source contributes is that of the first outcome of its kind; there is none
/// exactly when no outcome has the kind.
pub proof fn law_find_is_the_first_of_its_kind(outs: Seq<SourceOutcome>, k: SourceKind)
    ensures
        find(outs, k) is None <==> forall|j: int| 0 <= j < outs.len() ==> (#[trigger] outs[j]).kind != k,
        forall|i: int|
            0 <= i < outs.len() && (#[trigger] outs[i]).kind == k && (forall|j: int|
                0 <= j < i ==> (#[trigger] outs[j]).kind != k) ==> find(outs, k) == Some(outs[i].partial),
    decreases outs.len(),
{
    if outs.len() > 0 {
        law_find_is_the_first_of_its_kind(outs.drop_first(), k);
        assert forall|j: int| 0 <= j < outs.len() && find(outs, k) is None implies (#[trigger] outs[j]).kind != k by {
            if j > 0 {
                assert(outs[j] == outs.drop_first()[j - 1]);
            }
        }
        if forall|j: int| 0 <= j < outs.len() ==> (#[trigger] outs[j]).kind != k {
            lemma_find_none(outs, k);
        }
        assert forall|i: int|
            0 <= i < outs.len() && (#[trigger] outs[i]).kind == k && (forall|j: int|
                0 <= j < i ==> (#[trigger] outs[j]).kind != k) implies find(outs, k) == Some(outs[i].partial) by {
            lemma_find_first(outs, k, i);
        }
    }
}

} // verus!
