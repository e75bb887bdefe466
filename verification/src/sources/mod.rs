//! Sources: each one reports what it learned as a `SourceOutcome`.
use crate::model::{is_empty_state, PrinterState};
use std::time::Duration;
use vstd::prelude::*;

pub mod ipp;

verus! {

/// A source contributes whatever it knows; the rest stays empty.
pub type PartialPrinter = PrinterState;

/// Where a partial view came from.
#[derive(Debug, Clone, Copy, PartialEq, Eq, Structural)]
pub enum SourceKind {
    Ipp,
    Cups,
    Snmp,
}

/// One source's answer: its identity, its partial view, how long it took, and its error.
#[derive(Debug)]
pub struct SourceOutcome {
    pub kind: SourceKind,
    pub partial: PartialPrinter,
    pub duration: Duration,
    pub error: Option<String>,
}

impl SourceOutcome {
    /// The outcome of a source that failed: nothing known, the error kept.
    pub fn failed(kind: SourceKind, error: String, duration: Duration) -> (r: Self)
        ensures
            r.kind == kind,
            is_empty_state(r.partial),
            r.duration == duration,
            r.error == Some(error),
    {
        SourceOutcome { kind, partial: PrinterState::default(), duration, error: Some(error) }
    }
}

/// How to reach a printer: a network `host` and/or a local CUPS queue.
#[derive(Debug)]
pub struct Target {
    pub host: Option<String>,
    pub ipp_path: String,
    pub cups: Option<String>,
    pub snmp_enabled: bool,
    pub community: String,
    /// Per-source protocol timeout, in seconds.
    pub timeout_secs: u64,
}

/// Something that can be asked about a printer.
pub trait Source: Send {
    fn kind(&self) -> SourceKind;

    fn collect(&self, target: &Target) -> SourceOutcome;
}

} // verus!
