//! The application's safety mode, sidebar tabs and graph depth.
use vstd::prelude::*;

use crate::text::{concat2, decimal, decimal_string, string_from};

verus! {

/// Whether the application may change the project it looks at.
#[derive(Clone, Copy, Debug, PartialEq, Eq, Structural)]
pub enum AppMode {
    /// Read-only: scan, visualize, inspect and log; write nothing.
    Inspect,
    /// Approved automations may modify project files.
    Automate,
}

impl AppMode {
    pub fn is_inspect(&self) -> (b: bool)
        ensures
            b == (*self == AppMode::Inspect),
    {
        match self {
            AppMode::Inspect => true,
            AppMode::Automate => false,
        }
    }

    pub fn is_automate(&self) -> (b: bool)
        ensures
            b == (*self == AppMode::Automate),
    {
        match self {
            AppMode::Inspect => false,
            AppMode::Automate => true,
        }
    }

    pub open spec fn label_text(&self) -> Seq<char> {
        match self {
            AppMode::Inspect => "Inspect Mode"@,
            AppMode::Automate => "Automate Mode"@,
        }
    }

    pub open spec fn description_text(&self) -> Seq<char> {
        match self {
            AppMode::Inspect => "Read-only: scan, visualize, and inspect without modifying files."@,
            AppMode::Automate => "Automation enabled: approved actions may modify project files."@,
        }
    }

    pub fn label(&self) -> (r: &'static str)
        ensures
            r@ == self.label_text(),
    {
        match self {
            AppMode::Inspect => "Inspect Mode",
            AppMode::Automate => "Automate Mode",
        }
    }

    pub fn description(&self) -> (r: &'static str)
        ensures
            r@ == self.description_text(),
    {
        match self {
            AppMode::Inspect => "Read-only: scan, visualize, and inspect without modifying files.",
            AppMode::Automate => "Automation enabled: approved actions may modify project files.",
        }
    }
}

/// Every mode is either read-only or automating, never both.
pub proof fn law_mode_is_inspect_or_automate(m: AppMode)
    ensures
        (m == AppMode::Inspect) != (m == AppMode::Automate),
{
}

/// The sidebar panel that is open, if any.
#[derive(Clone, Copy, Debug, PartialEq, Eq, Structural)]
pub enum ActiveSidebarTab {
    /// No panel open.
    Closed,
    ControlPanel,
    QuestLog,
    Automations,
    PluginHub,
    SyncLog,
}

pub open spec fn toggle_spec(current: ActiveSidebarTab, tab: ActiveSidebarTab) -> ActiveSidebarTab {
    if current == tab {
        ActiveSidebarTab::Closed
    } else {
        tab
    }
}

/// The tab that is open after clicking `tab`: clicking the open tab closes
/// it, clicking another opens that one.
pub fn toggled_tab(current: ActiveSidebarTab, tab: ActiveSidebarTab) -> (r: ActiveSidebarTab)
    ensures
        r == toggle_spec(current, tab),
{
    if current == tab {
        ActiveSidebarTab::Closed
    } else {
        tab
    }
}

/// Clicking a tab twice leaves the sidebar as it was when that tab was open
/// or nothing was; clicking a tab opens it exactly when it was not open.
pub proof fn law_toggle_twice(current: ActiveSidebarTab, tab: ActiveSidebarTab)
    requires
        tab != ActiveSidebarTab::Closed,
    ensures
        (toggle_spec(current, tab) == tab) == (current != tab),
        (current == tab || current == ActiveSidebarTab::Closed) ==> toggle_spec(
            toggle_spec(current, tab),
            tab,
        ) == current,
{
}

/// The depth setting that stands for every level of the hierarchy.
pub const ALL_DEPTHS: i32 = 999;

/// The text shown for a hierarchy depth: `All` from the setting that stands
/// for every level on, else the number in decimal.
pub open spec fn depth_text(depth: int) -> Seq<char> {
    if depth >= ALL_DEPTHS {
        "All"@
    } else if depth < 0 {
        seq!['-'] + decimal((-depth) as nat)
    } else {
        decimal(depth as nat)
    }
}

pub fn depth_label(depth: i32) -> (r: String)
    ensures
        r@ == depth_text(depth as int),
{
    if depth >= ALL_DEPTHS {
        string_from("All")
    } else if depth < 0 {
        let magnitude: u64 = (-(depth as i64)) as u64;
        let digits = decimal_string(magnitude);
        proof {
            reveal_strlit("-");
        }
        concat2("-", digits.as_str())
    } else {
        decimal_string(depth as u64)
    }
}

} // verus!
