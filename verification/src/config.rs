//! Configuration: one section per printer, looked up by name. Reading and parsing the TOML
//! file happens outside this library; these are the values it produces, with their defaults.
use crate::text::str_eq;
use vstd::prelude::*;

verus! {

/// All configured printers, by name.
#[derive(Debug, Clone)]
pub struct Config {
    pub printer: Vec<(String, PrinterConfig)>,
}

/// One printer's section.
#[derive(Debug, Clone)]
pub struct PrinterConfig {
    pub host: Option<String>,
    pub ipp_path: String,
    pub cups: Option<String>,
    pub timeout: u64,
    pub snmp: SnmpCfg,
    pub bar: BarCfg,
    pub tooltip: TooltipCfg,
    pub thresholds: Thresholds,
    pub actions: ActionsCfg,
    pub notify: NotifyCfg,
}

#[derive(Debug, Clone)]
pub struct SnmpCfg {
    pub enabled: bool,
    pub community: String,
}

#[derive(Debug, Clone)]
pub struct BarCfg {
    pub format: String,
    pub on_missing: OnMissing,
}

#[derive(Debug, Clone)]
pub struct TooltipCfg {
    pub items: Vec<String>,
    pub on_missing: OnMissing,
    pub max_rows: usize,
    /// Draw the framed tooltip box and pin `frame_font`, so rows stay aligned under any bar
    /// font. Off (the default): plain rows, no frame, no font pinned.
    pub frame: bool,
    /// Font family pinned in framed mode (a monospace font).
    pub frame_font: String,
}

#[derive(Debug, Clone)]
pub struct Thresholds {
    pub supply_low: u8,
    pub supply_critical: u8,
}

#[derive(Debug, Clone)]
pub struct ActionsCfg {
    /// Consumed by the Waybar module configuration, not by this program.
    pub on_click: Option<String>,
    /// Consumed by the Waybar module configuration, not by this program.
    pub on_click_right: Option<String>,
    pub ews_url: Option<String>,
}

#[derive(Debug, Clone)]
pub struct NotifyCfg {
    pub enabled: bool,
    pub events: Vec<String>,
}

/// What to show for a value that is not known: nothing, or an explicit error.
#[derive(Debug, Clone, Copy, PartialEq, Eq, Structural)]
pub enum OnMissing {
    Hide,
    Error,
}

// ---------------------------------------------------------------------------
// Defaults
// ---------------------------------------------------------------------------

pub open spec fn views_of(v: Seq<String>) -> Seq<Seq<char>> {
    v.map_values(|s: String| s@)
}

pub fn default_ipp_path() -> (r: String)
    ensures
        r@ == "/ipp/print"@,
{
    String::from_str("/ipp/print")
}

pub fn default_timeout() -> (r: u64)
    ensures
        r == 4,
{
    4
}

pub fn default_community() -> (r: String)
    ensures
        r@ == "public"@,
{
    String::from_str("public")
}

/// The Nerd Font printer glyph and the worst supply level.
pub fn default_bar_format() -> (r: String)
    ensures
        r@ == "\u{f042a} {supply_min}%"@,
{
    String::from_str("\u{f042a} {supply_min}%")
}

pub open spec fn default_items() -> Seq<Seq<char>> {
    seq![
        "model"@,
        "status"@,
        "alerts"@,
        "display"@,
        "supplies"@,
        "paper"@,
        "jobs"@,
        "pages"@,
    ]
}

pub fn default_tooltip_items() -> (r: Vec<String>)
    ensures
        views_of(r@) == default_items(),
{
    let mut r: Vec<String> = Vec::new();
    r.push(String::from_str("model"));
    r.push(String::from_str("status"));
    r.push(String::from_str("alerts"));
    r.push(String::from_str("display"));
    r.push(String::from_str("supplies"));
    r.push(String::from_str("paper"));
    r.push(String::from_str("jobs"));
    r.push(String::from_str("pages"));
    assert(views_of(r@) =~= default_items());
    r
}

pub fn default_max_rows() -> (r: usize)
    ensures
        r == 12,
{
    12
}

pub fn default_frame_font() -> (r: String)
    ensures
        r@ == "JetBrainsMono Nerd Font Mono"@,
{
    String::from_str("JetBrainsMono Nerd Font Mono")
}

pub fn default_low() -> (r: u8)
    ensures
        r == 15,
{
    15
}

pub fn default_critical() -> (r: u8)
    ensures
        r == 5,
{
    5
}

impl Default for OnMissing {
    fn default() -> (r: Self)
        ensures
            r == OnMissing::Hide,
    {
        OnMissing::Hide
    }
}

impl Default for SnmpCfg {
    fn default() -> (r: Self)
        ensures
            !r.enabled,
            r.community@ == "public"@,
    {
        SnmpCfg { enabled: false, community: default_community() }
    }
}

impl Default for BarCfg {
    fn default() -> (r: Self)
        ensures
            r.format@ == "\u{f042a} {supply_min}%"@,
            r.on_missing == OnMissing::Hide,
    {
        BarCfg { format: default_bar_format(), on_missing: OnMissing::Hide }
    }
}

impl Default for TooltipCfg {
    fn default() -> (r: Self)
        ensures
            views_of(r.items@) == default_items(),
            r.on_missing == OnMissing::Hide,
            r.max_rows == 12,
            !r.frame,
            r.frame_font@ == "JetBrainsMono Nerd Font Mono"@,
    {
        TooltipCfg {
            items: default_tooltip_items(),
            on_missing: OnMissing::Hide,
            max_rows: default_max_rows(),
            frame: false,
            frame_font: default_frame_font(),
        }
    }
}

impl Default for Thresholds {
    fn default() -> (r: Self)
        ensures
            r.supply_low == 15,
            r.supply_critical == 5,
    {
        Thresholds { supply_low: default_low(), supply_critical: default_critical() }
    }
}

impl Default for ActionsCfg {
    fn default() -> (r: Self)
        ensures
            r.on_click is None,
            r.on_click_right is None,
            r.ews_url is None,
    {
        ActionsCfg { on_click: None, on_click_right: None, ews_url: None }
    }
}

impl Default for NotifyCfg {
    fn default() -> (r: Self)
        ensures
            !r.enabled,
            r.events@.len() == 0,
    {
        NotifyCfg { enabled: false, events: Vec::new() }
    }
}

/// A section with every key left out takes these values.
pub open spec fn is_default_section(p: PrinterConfig) -> bool {
    &&& p.host is None
    &&& p.ipp_path@ == "/ipp/print"@
    &&& p.cups is None
    &&& p.timeout == 4
    &&& !p.snmp.enabled
    &&& p.snmp.community@ == "public"@
    &&& p.bar.format@ == "\u{f042a} {supply_min}%"@
    &&& p.bar.on_missing == OnMissing::Hide
    &&& views_of(p.tooltip.items@) == default_items()
    &&& p.tooltip.on_missing == OnMissing::Hide
    &&& p.tooltip.max_rows == 12
    &&& !p.tooltip.frame
    &&& p.tooltip.frame_font@ == "JetBrainsMono Nerd Font Mono"@
    &&& p.thresholds.supply_low == 15
    &&& p.thresholds.supply_critical == 5
    &&& p.actions.on_click is None
    &&& p.actions.on_click_right is None
    &&& p.actions.ews_url is None
    &&& !p.notify.enabled
    &&& p.notify.events@.len() == 0
}

impl Default for PrinterConfig {
    /// The section `[printer.<name>]` with no keys.
    fn default() -> (r: Self)
        ensures
            is_default_section(r),
    {
        PrinterConfig {
            host: None,
            ipp_path: default_ipp_path(),
            cups: None,
            timeout: default_timeout(),
            snmp: SnmpCfg::default(),
            bar: BarCfg::default(),
            tooltip: TooltipCfg::default(),
            thresholds: Thresholds::default(),
            actions: ActionsCfg::default(),
            notify: NotifyCfg::default(),
        }
    }
}

// ---------------------------------------------------------------------------
// Lookup
// ---------------------------------------------------------------------------

impl Config {
    /// The section of the printer called `name`.
    pub fn for_printer(&self, name: &str) -> (r: Option<&PrinterConfig>)
        ensures
            match r {
                Some(p) => exists|i: int|
                    0 <= i < self.printer@.len() && (#[trigger] self.printer@[i]).0@ == name@
                        && self.printer@[i].1 == *p && forall|j: int|
                        0 <= j < i ==> (#[trigger] self.printer@[j]).0@ != name@,
                None => forall|i: int|
                    0 <= i < self.printer@.len() ==> (#[trigger] self.printer@[i]).0@ != name@,
            },
    {
        let mut i: usize = 0;
        while i < self.printer.len()
            invariant
                i <= self.printer@.len(),
                forall|j: int| 0 <= j < i ==> (#[trigger] self.printer@[j]).0@ != name@,
            decreases self.printer@.len() - i,
        {
            if str_eq(self.printer[i].0.as_str(), name) {
                return Some(&self.printer[i].1);
            }
            i += 1;
        }
        None
    }
}

} // verus!
