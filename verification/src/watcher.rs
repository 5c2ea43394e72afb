//! What the file watcher reports and does for each event, by safety mode.
use vstd::prelude::*;

use crate::app_state::AppMode;
use crate::paths::{extension, file_name};
use crate::text::{chars_of, eq_lit, string_from};

verus! {

pub open spec fn mode_banner_text(mode: AppMode) -> Seq<char> {
    match mode {
        AppMode::Inspect => "[SAFETY] Inspect Mode active: watcher will log file changes only."@,
        AppMode::Automate => "[SAFETY] Automate Mode active: approved watcher automations may modify files."@,
    }
}

/// The line the watcher logs once it watches, saying what it may do.
pub fn mode_banner(mode: AppMode) -> (r: String)
    ensures
        r@ == mode_banner_text(mode),
{
    match mode {
        AppMode::Inspect => string_from(
            "[SAFETY] Inspect Mode active: watcher will log file changes only.",
        ),
        AppMode::Automate => string_from(
            "[SAFETY] Automate Mode active: approved watcher automations may modify files.",
        ),
    }
}

/// What to do about a created path.
#[derive(Clone, Debug, PartialEq, Eq)]
pub enum CreatedPathAction {
    /// Not a Rust file: nothing.
    Ignore,
    /// Log both lines; write nothing.
    Report { detected: String, blocked: String },
    /// Log the line, then declare the file as a module.
    Inject { detected: String },
}

/// The watcher's reaction to the creation of `path` (shown as `display`):
/// a Rust file is logged, and declared only in Automate mode; in Inspect
/// mode nothing is ever written.
pub fn on_created_path(path: &str, display: &str, mode: AppMode) -> (r: CreatedPathAction)
    ensures
        extension(path@) != Some("rs"@) ==> r == CreatedPathAction::Ignore,
        extension(path@) == Some("rs"@) && mode == AppMode::Inspect ==> (r matches CreatedPathAction::Report { detected, blocked } && detected@
            == "[DETECTED] New Rust file: "@ + display@ && blocked@
            == "[INSPECT] Would consider module registration for "@ + display@
            + ", but writes are blocked."@),
        extension(path@) == Some("rs"@) && mode == AppMode::Automate ==> (r matches CreatedPathAction::Inject { detected } && detected@
            == "[DETECTED] New Rust file: "@ + display@),
        mode == AppMode::Inspect ==> !(r is Inject),
{
    if !crate::paths::extension_is(path, "rs") {
        return CreatedPathAction::Ignore;
    }
    let detected = crate::text::concat2("[DETECTED] New Rust file: ", display);
    match mode {
        AppMode::Inspect => {
            let blocked = crate::text::concat3(
                "[INSPECT] Would consider module registration for ",
                display,
                ", but writes are blocked.",
            );
            CreatedPathAction::Report { detected, blocked }
        },
        AppMode::Automate => CreatedPathAction::Inject { detected },
    }
}

/// The signal that the plan changed and the quest log must be re-read.
pub open spec fn sync_signal() -> Seq<char> {
    "[SYNC_TOC]"@
}

/// Whether a modification of `path` means the plan changed.
pub fn is_plan_file(path: &str) -> (b: bool)
    ensures
        b == (file_name(path@) == Some("MOR_PLAN.md"@)),
{
    crate::paths::file_name_is(path, "MOR_PLAN.md")
}

pub fn toc_sync_signal() -> (r: String)
    ensures
        r@ == sync_signal(),
{
    string_from("[SYNC_TOC]")
}

/// Whether a watcher message is the plan-changed signal rather than a line
/// for the log.
pub fn is_toc_sync_signal(msg: &str) -> (b: bool)
    ensures
        b == (msg@ == sync_signal()),
{
    let v = chars_of(msg);
    eq_lit(&v, "[SYNC_TOC]")
}

/// The line logged when declaring the created file failed.
pub fn parser_fault_message(display: &str, error: &str) -> (r: String)
    ensures
        r@ == "[ERROR] Parser fault on "@ + display@ + ": "@ + error@,
{
    let mut r = crate::text::concat3("[ERROR] Parser fault on ", display, ": ");
    r.append(error);
    r
}

} // verus!
