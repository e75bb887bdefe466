//! The command line: `printbar <name>` polls a printer, `printbar action <ews|queue>
//! --printer <name>` runs a click action. This module holds the decisions; reading the
//! configuration, querying printers and printing happen outside.
use crate::config::{Config, PrinterConfig};
use crate::sources::{SourceKind, Target};
use crate::text::str_eq;
use vstd::prelude::*;

verus! {

/// Index of the first argument equal to `flag`.
pub open spec fn flag_index(args: Seq<String>, flag: Seq<char>) -> Option<int> {
    if exists|i: int| 0 <= i < args.len() && (#[trigger] args[i])@ == flag {
        Some(
            choose|i: int|
                0 <= i < args.len() && (#[trigger] args[i])@ == flag && forall|j: int|
                    0 <= j < i ==> (#[trigger] args[j])@ != flag,
        )
    } else {
        None
    }
}

/// The argument after the first `flag`, if both are there.
pub open spec fn flag_spec(args: Seq<String>, flag: Seq<char>) -> Option<Seq<char>> {
    match flag_index(args, flag) {
        Some(i) => if i + 1 < args.len() {
            Some(args[i + 1]@)
        } else {
            None
        },
        None => None,
    }
}

/// The value following `flag` in `args`.
pub fn flag_value(args: &[String], flag: &str) -> (r: Option<String>)
    ensures
        match flag_spec(args@, flag@) {
            Some(v) => r matches Some(x) && x@ == v,
            None => r is None,
        },
{
    let mut i: usize = 0;
    while i < args.len()
        invariant
            i <= args@.len(),
            forall|j: int| 0 <= j < i ==> (#[trigger] args@[j])@ != flag@,
        decreases args@.len() - i,
    {
        if str_eq(args[i].as_str(), flag) {
            proof {
                let w = choose|k: int|
                    0 <= k < args@.len() && (#[trigger] args@[k])@ == flag@ && forall|j: int|
                        0 <= j < k ==> (#[trigger] args@[j])@ != flag@;
                assert(0 <= i < args@.len() && args@[i as int]@ == flag@);
                if w < i {
                } else if w > i {
                }
                assert(w == i);
            }
            if i + 1 < args.len() {
                return Some(args[i + 1].clone());
            } else {
                return None;
            }
        }
        i += 1;
    }
    None
}

/// What the program was asked to do.
#[derive(Debug, Clone, PartialEq, Eq)]
pub enum Command {
    /// Poll the printer with this section name and print its status.
    Poll(String),
    /// Run a click action (`ews` or `queue`) for a printer.
    Action { kind: String, printer: String },
}

pub open spec fn arg(args: Seq<String>, i: int) -> Option<Seq<char>> {
    if 0 <= i < args.len() {
        Some(args[i]@)
    } else {
        None
    }
}

/// The command that `args` (program name first) asks for, or the usage error.
pub open spec fn command_spec(args: Seq<String>, c: Result<Command, String>) -> bool {
    if arg(args, 1) == Some("action"@) {
        match (arg(args, 2), flag_spec(args, "--printer"@)) {
            (None, _) => c matches Err(e) && e@ == "action: missing <ews|queue>"@,
            (Some(_), None) => c matches Err(e) && e@ == "action: missing --printer <name>"@,
            (Some(k), Some(p)) => c matches Ok(Command::Action { kind, printer }) && kind@ == k
                && printer@ == p,
        }
    } else {
        match arg(args, 1) {
            Some(n) => c matches Ok(Command::Poll(name)) && name@ == n,
            None => c matches Err(e) && e@ == "usage: printbar <printer-name>"@,
        }
    }
}

/// Reads the command line: `<name>`, or `action <ews|queue> --printer <name>`.
pub fn parse_command(args: &[String]) -> (r: Result<Command, String>)
    ensures
        command_spec(args@, r),
{
    if args.len() > 1 && str_eq(args[1].as_str(), "action") {
        if args.len() <= 2 {
            return Err(String::from_str("action: missing <ews|queue>"));
        }
        let kind = args[2].clone();
        match flag_value(args, "--printer") {
            Some(printer) => Ok(Command::Action { kind, printer }),
            None => Err(String::from_str("action: missing --printer <name>")),
        }
    } else if args.len() > 1 {
        Ok(Command::Poll(args[1].clone()))
    } else {
        Err(String::from_str("usage: printbar <printer-name>"))
    }
}

/// The section of printer `name`, or the error naming the missing section.
pub fn select_printer<'a>(cfg: &'a Config, name: &str) -> (r: Result<&'a PrinterConfig, String>)
    ensures
        match r {
            Ok(p) => exists|i: int|
                0 <= i < cfg.printer@.len() && (#[trigger] cfg.printer@[i]).0@ == name@
                    && cfg.printer@[i].1 == *p,
            Err(e) => e@ == "no [printer."@ + name@ + "] in config"@ && forall|i: int|
                0 <= i < cfg.printer@.len() ==> (#[trigger] cfg.printer@[i]).0@ != name@,
        },
{
    match cfg.for_printer(name) {
        Some(p) => Ok(p),
        None => {
            let mut e = String::from_str("no [printer.");
            e.append(name);
            e.append("] in config");
            Err(e)
        },
    }
}

/// How to reach the printer of a section. The timeout is clamped to 1..=60 seconds.
pub fn build_target(pc: &PrinterConfig) -> (r: Target)
    ensures
        r.host == pc.host,
        r.ipp_path == pc.ipp_path,
        r.cups == pc.cups,
        r.snmp_enabled == pc.snmp.enabled,
        r.community == pc.snmp.community,
        r.timeout_secs == (if pc.timeout < 1 {
            1
        } else if pc.timeout > 60 {
            60
        } else {
            pc.timeout
        }),
{
    let timeout_secs = if pc.timeout < 1 {
        1
    } else if pc.timeout > 60 {
        60
    } else {
        pc.timeout
    };
    Target {
        host: crate::model::clone_opt_string(&pc.host),
        ipp_path: pc.ipp_path.clone(),
        cups: crate::model::clone_opt_string(&pc.cups),
        snmp_enabled: pc.snmp.enabled,
        community: pc.snmp.community.clone(),
        timeout_secs,
    }
}

/// The sources a section asks for: IPP when a host is set, CUPS when a queue is set, SNMP
/// when it is enabled and a host is set.
pub open spec fn kinds_for(pc: PrinterConfig) -> Seq<SourceKind> {
    let a = if pc.host is Some {
        seq![SourceKind::Ipp]
    } else {
        Seq::empty()
    };
    let b = if pc.cups is Some {
        a.push(SourceKind::Cups)
    } else {
        a
    };
    if pc.snmp.enabled && pc.host is Some {
        b.push(SourceKind::Snmp)
    } else {
        b
    }
}

/// The kinds of source to run for a section, in order.
pub fn build_sources(pc: &PrinterConfig) -> (r: Vec<SourceKind>)
    ensures
        r@ == kinds_for(*pc),
{
    let mut v: Vec<SourceKind> = Vec::new();
    if pc.host.is_some() {
        v.push(SourceKind::Ipp);
    }
    if pc.cups.is_some() {
        v.push(SourceKind::Cups);
    }
    if pc.snmp.enabled && pc.host.is_some() {
        v.push(SourceKind::Snmp);
    }
    assert(v@ =~= kinds_for(*pc));
    v
}

/// The sources to poll for printer `name`, or the error when the section names neither a
/// host nor a queue.
pub fn poll_sources(name: &str, pc: &PrinterConfig) -> (r: Result<Vec<SourceKind>, String>)
    ensures
        match r {
            Ok(v) => v@ == kinds_for(*pc) && v@.len() > 0,
            Err(e) => kinds_for(*pc).len() == 0 && e@ == "printer '"@ + name@
                + "' has neither host nor cups configured"@,
        },
{
    let v = build_sources(pc);
    if v.len() == 0 {
        let mut e = String::from_str("printer '");
        e.append(name);
        e.append("' has neither host nor cups configured");
        Err(e)
    } else {
        Ok(v)
    }
}

/// The sources follow the section: IPP exactly when a host is set (whether or not SNMP is
/// enabled), CUPS exactly when a queue is set, SNMP exactly when a host is set and SNMP is
/// enabled, each at most once. So a poll lacks sources exactly when neither a host nor a
/// queue is set.
pub proof fn law_sources_follow_the_section(pc: PrinterConfig)
    ensures
        kinds_for(pc).contains(SourceKind::Ipp) == (pc.host is Some),
        kinds_for(pc).contains(SourceKind::Cups) == (pc.cups is Some),
        kinds_for(pc).contains(SourceKind::Snmp) == (pc.host is Some && pc.snmp.enabled),
        (kinds_for(pc).len() == 0) == (pc.host is None && pc.cups is None),
        forall|i: int, j: int|
            0 <= i < j < kinds_for(pc).len() ==> kinds_for(pc)[i] != kinds_for(pc)[j],
{
    let k = kinds_for(pc);
    let a = if pc.host is Some {
        seq![SourceKind::Ipp]
    } else {
        Seq::<SourceKind>::empty()
    };
    let b = if pc.cups is Some {
        a.push(SourceKind::Cups)
    } else {
        a
    };
    assert(forall|x: SourceKind| a.contains(x) <==> (x == SourceKind::Ipp && pc.host is Some)) by {
        if pc.host is Some {
            assert(a[0] == SourceKind::Ipp);
        }
    }
    assert(forall|x: SourceKind| b.contains(x) <==> (a.contains(x) || (x == SourceKind::Cups && pc.cups is Some))) by {
        assert forall|x: SourceKind| b.contains(x) implies (a.contains(x) || (x == SourceKind::Cups && pc.cups is Some)) by {
            let i = choose|i: int| 0 <= i < b.len() && b[i] == x;
            if pc.cups is Some && i == b.len() - 1 {
            } else {
                assert(a[i] == x);
            }
        }
        assert forall|x: SourceKind| (a.contains(x) || (x == SourceKind::Cups && pc.cups is Some)) implies b.contains(x) by {
            if a.contains(x) {
                let i = choose|i: int| 0 <= i < a.len() && a[i] == x;
                assert(b[i] == x);
            } else {
                assert(b[b.len() - 1] == x);
            }
        }
    }
    assert(forall|x: SourceKind| k.contains(x) <==> (b.contains(x) || (x == SourceKind::Snmp && pc.host is Some && pc.snmp.enabled))) by {
        assert forall|x: SourceKind| k.contains(x) implies (b.contains(x) || (x == SourceKind::Snmp && pc.host is Some && pc.snmp.enabled)) by {
            let i = choose|i: int| 0 <= i < k.len() && k[i] == x;
            if pc.snmp.enabled && pc.host is Some && i == k.len() - 1 {
            } else {
                assert(b[i] == x);
            }
        }
        assert forall|x: SourceKind| (b.contains(x) || (x == SourceKind::Snmp && pc.host is Some && pc.snmp.enabled)) implies k.contains(x) by {
            if b.contains(x) {
                let i = choose|i: int| 0 <= i < b.len() && b[i] == x;
                assert(k[i] == x);
            } else {
                assert(k[k.len() - 1] == x);
            }
        }
    }
}

} // verus!
