//! Click actions: the URL of the printer's web panel (EWS) or of its CUPS queue page.
//! Opening the URL happens outside this library.
use crate::config::PrinterConfig;
use crate::sources::ipp::{bracketed, bracket_ipv6};
use crate::text::{count_char, has_sub, starts_with, str_contains, str_eq, to_chars};
use vstd::prelude::*;

verus! {

/// The EWS URL of a section: the explicit `ews_url`; else the host itself when it holds a
/// scheme; else `http://<host>` with a bare IPv6 literal bracketed.
pub open spec fn ews_spec(pc: PrinterConfig) -> Result<Seq<char>, Seq<char>> {
    match pc.actions.ews_url {
        Some(u) => Ok(u@),
        None => match pc.host {
            None => Err("ews: no host configured"@),
            Some(h) => if has_sub(h@, "://"@) {
                Ok(h@)
            } else {
                Ok("http://"@ + bracketed(h@))
            },
        },
    }
}

/// The queue page: the local CUPS page of the configured queue, else the EWS.
pub open spec fn queue_spec(pc: PrinterConfig) -> Result<Seq<char>, Seq<char>> {
    match pc.cups {
        Some(q) => Ok("http://localhost:631/printers/"@ + q@),
        None => ews_spec(pc),
    }
}

pub open spec fn result_view(r: Result<String, String>) -> Result<Seq<char>, Seq<char>> {
    match r {
        Ok(s) => Ok(s@),
        Err(e) => Err(e@),
    }
}

/// Build the EWS URL: an explicit `ews_url` wins; otherwise `http://<host>`,
/// bracketing bare IPv6 literals.
pub fn ews_url(pc: &PrinterConfig) -> (r: Result<String, String>)
    ensures
        result_view(r) == ews_spec(*pc),
{
    if let Some(u) = &pc.actions.ews_url {
        return Ok(u.clone());
    }
    let host = match &pc.host {
        Some(h) => h,
        None => return Err(String::from_str("ews: no host configured")),
    };
    let hc = to_chars(host.as_str());
    if str_contains(hc.as_slice(), "://") {
        return Ok(host.clone());
    }
    let h = bracket_ipv6(host.as_str());
    let mut url = String::from_str("http://");
    url.append(h.as_str());
    Ok(url)
}

/// The CUPS queue page (job list) when a local queue is configured, else the EWS.
pub fn queue_url(pc: &PrinterConfig) -> (r: Result<String, String>)
    ensures
        result_view(r) == queue_spec(*pc),
{
    if let Some(q) = &pc.cups {
        let mut url = String::from_str("http://localhost:631/printers/");
        url.append(q.as_str());
        Ok(url)
    } else {
        ews_url(pc)
    }
}

/// The URL a click action opens: `ews` or `queue`; any other action is an error.
pub open spec fn action_spec(action: Seq<char>, pc: PrinterConfig) -> Result<Seq<char>, Seq<char>> {
    if action == "ews"@ {
        ews_spec(pc)
    } else if action == "queue"@ {
        queue_spec(pc)
    } else {
        Err("unknown action '"@ + action + "'"@)
    }
}

/// The URL that the click action `action` opens.
pub fn action_url(action: &str, pc: &PrinterConfig) -> (r: Result<String, String>)
    ensures
        result_view(r) == action_spec(action@, *pc),
{
    if str_eq(action, "ews") {
        ews_url(pc)
    } else if str_eq(action, "queue") {
        queue_url(pc)
    } else {
        let mut e = String::from_str("unknown action '");
        e.append(action);
        e.append("'");
        Err(e)
    }
}

/// Where a click goes. The EWS: an explicit `ews_url` always; else nothing without a host;
/// else a host that holds a scheme as it is; else `http://` and the host, a bare IPv6
/// literal (two or more `:`, not already bracketed) in brackets. The queue: the local CUPS
/// page of the queue when one is set, else the EWS. `ews` and `queue` are the only actions.
pub proof fn law_click_urls(pc: PrinterConfig, action: Seq<char>)
    ensures
        pc.actions.ews_url is Some ==> ews_spec(pc) == Ok::<Seq<char>, Seq<char>>(pc.actions.ews_url->0@),
        pc.actions.ews_url is None && pc.host is None ==> ews_spec(pc) is Err,
        (pc.actions.ews_url is None && pc.host is Some && has_sub(pc.host->0@, "://"@)) ==> ews_spec(pc)
            == Ok::<Seq<char>, Seq<char>>(pc.host->0@),
        (pc.actions.ews_url is None && pc.host is Some && !has_sub(pc.host->0@, "://"@)) ==> ews_spec(pc)
            == Ok::<Seq<char>, Seq<char>>("http://"@ + (if count_char(pc.host->0@, ':') >= 2 && !(
            pc.host->0@.len() > 0 && pc.host->0@[0] == '[') {
                "["@ + pc.host->0@ + "]"@
            } else {
                pc.host->0@
            })),
        pc.cups is Some ==> queue_spec(pc) == Ok::<Seq<char>, Seq<char>>(
            "http://localhost:631/printers/"@ + pc.cups->0@,
        ),
        pc.cups is None ==> queue_spec(pc) == ews_spec(pc),
        action == "ews"@ ==> action_spec(action, pc) == ews_spec(pc),
        action == "queue"@ ==> action_spec(action, pc) == queue_spec(pc),
        action != "ews"@ && action != "queue"@ ==> action_spec(action, pc) is Err,
{
    reveal_strlit("[");
    reveal_strlit("ews");
    reveal_strlit("queue");
    assert("ews"@.len() != "queue"@.len());
    if let Some(h) = pc.host {
        let hv = h@;
        if hv.len() > 0 && hv[0] == '[' {
            assert(hv.subrange(0, 1) =~= "["@);
        }
        if starts_with(hv, "["@) {
            assert(hv.subrange(0, 1)[0] == hv[0]);
        }
    }
}

} // verus!
