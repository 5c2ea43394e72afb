//! What the safety switch lets through: the steps that write to the project
//! (applying a module registration, saving the editor, swapping a block)
//! are blocked in Inspect mode and carried out only in Automate mode.
use vstd::prelude::*;

use crate::app_state::AppMode;
use crate::find_replace::{block_replace, block_replaced};
use crate::register_module::{is_apply_plan_of, plan_apply_register_module, ApplyPlan, RegisterModulePreview};
use crate::text::string_from;

verus! {

/// The next step of the Apply button of the automation dialog.
#[derive(Clone, Debug, PartialEq, Eq)]
pub enum RegisterApplyStep {
    /// Nothing happens; the message says why.
    Blocked(String),
    /// Carry out this plan.
    Apply(ApplyPlan),
}

/// The next step of saving the editor's buffer.
#[derive(Clone, Debug, PartialEq, Eq)]
pub enum SaveStep {
    Blocked(String),
    Write { path: String, contents: String },
}

/// The next step of the block swap of the find/replace plugin.
#[derive(Clone, Debug, PartialEq, Eq)]
pub enum SwapStep {
    Blocked(String),
    /// The block does not occur; the message is the warning to log.
    NotFound(String),
    /// Write this text back to the target file.
    Write(String),
}

/// What applying a registration writes, as (file, contents); `None` when
/// it writes nothing.
pub open spec fn register_apply_write(mode: AppMode, preview: Option<RegisterModulePreview>) -> Option<(Seq<char>, Seq<char>)> {
    match preview {
        Some(p) => if mode == AppMode::Automate && !p.already_declared {
            Some((p.target_file@, p.after@))
        } else {
            None
        },
        None => None,
    }
}

/// What saving the editor writes, as (file, contents); `None` when it
/// writes nothing.
pub open spec fn save_write(mode: AppMode, path: Seq<char>, buffer: Seq<char>) -> Option<(Seq<char>, Seq<char>)> {
    if mode == AppMode::Automate {
        Some((path, buffer))
    } else {
        None
    }
}

/// The text that a block swap writes back; `None` when it writes nothing.
pub open spec fn swap_write(mode: AppMode, content: Seq<char>, find: Seq<char>, replace: Seq<char>) -> Option<Seq<char>> {
    if mode == AppMode::Automate {
        block_replaced(content, find, replace)
    } else {
        None
    }
}

pub open spec fn not_found_warning() -> Seq<char> {
    "[WARNING] Find chunk not found in target file. Exact whitespace match required."@
}

/// Applying the previewed registration: blocked in Inspect mode and without
/// a preview; else the preview's plan.
pub fn register_apply_step(mode: AppMode, preview: Option<RegisterModulePreview>) -> (r: RegisterApplyStep)
    ensures
        mode == AppMode::Inspect ==> (r matches RegisterApplyStep::Blocked(m) && m@
            == "[BLOCKED] Register Module requires Automate Mode."@),
        mode == AppMode::Automate && preview is None ==> (r matches RegisterApplyStep::Blocked(m)
            && m@ == "[BLOCKED] Generate a preview before applying Register Module."@),
        mode == AppMode::Automate && preview is Some ==> (r matches RegisterApplyStep::Apply(plan)
            && is_apply_plan_of(plan, preview.unwrap())),
        register_apply_write(mode, preview) == match r {
            RegisterApplyStep::Apply(ApplyPlan::Write { path, contents }) => Some((path@, contents@)),
            _ => None::<(Seq<char>, Seq<char>)>,
        },
{
    match mode {
        AppMode::Inspect => RegisterApplyStep::Blocked(
            string_from("[BLOCKED] Register Module requires Automate Mode."),
        ),
        AppMode::Automate => match preview {
            None => RegisterApplyStep::Blocked(
                string_from("[BLOCKED] Generate a preview before applying Register Module."),
            ),
            Some(p) => RegisterApplyStep::Apply(plan_apply_register_module(&p)),
        },
    }
}

/// Saving the editor's `buffer` to `path`: blocked in Inspect mode.
pub fn save_step(mode: AppMode, path: &str, buffer: &str) -> (r: SaveStep)
    ensures
        mode == AppMode::Inspect ==> (r matches SaveStep::Blocked(m) && m@
            == "[BLOCKED] Save requires Automate Mode."@),
        mode == AppMode::Automate ==> (r matches SaveStep::Write { path: p, contents: c } && p@
            == path@ && c@ == buffer@),
        save_write(mode, path@, buffer@) == match r {
            SaveStep::Write { path: p, contents: c } => Some((p@, c@)),
            _ => None::<(Seq<char>, Seq<char>)>,
        },
{
    match mode {
        AppMode::Inspect => SaveStep::Blocked(string_from("[BLOCKED] Save requires Automate Mode.")),
        AppMode::Automate => SaveStep::Write { path: string_from(path), contents: string_from(buffer) },
    }
}

/// Swapping the block `find` for `replace` in `content`: blocked in Inspect
/// mode; else the new text, or the warning when the block does not occur.
pub fn swap_step(mode: AppMode, content: &str, find: &str, replace: &str) -> (r: SwapStep)
    ensures
        mode == AppMode::Inspect ==> (r matches SwapStep::Blocked(m) && m@
            == "[BLOCKED] Block replace requires Automate Mode."@),
        mode == AppMode::Automate ==> match block_replaced(content@, find@, replace@) {
            Some(t) => r matches SwapStep::Write(w) && w@ == t,
            None => r matches SwapStep::NotFound(m) && m@ == not_found_warning(),
        },
        swap_write(mode, content@, find@, replace@) == match r {
            SwapStep::Write(w) => Some(w@),
            _ => None::<Seq<char>>,
        },
{
    match mode {
        AppMode::Inspect => SwapStep::Blocked(
            string_from("[BLOCKED] Block replace requires Automate Mode."),
        ),
        AppMode::Automate => match block_replace(content, find, replace) {
            Some(t) => SwapStep::Write(t),
            None => SwapStep::NotFound(
                string_from(
                    "[WARNING] Find chunk not found in target file. Exact whitespace match required.",
                ),
            ),
        },
    }
}

/// Inspect mode writes nothing: no registration is applied, no buffer is
/// saved and no block is swapped, whatever the inputs.
pub proof fn law_inspect_never_writes(
    preview: Option<RegisterModulePreview>,
    path: Seq<char>,
    buffer: Seq<char>,
    content: Seq<char>,
    find: Seq<char>,
    replace: Seq<char>,
)
    ensures
        register_apply_write(AppMode::Inspect, preview) is None,
        save_write(AppMode::Inspect, path, buffer) is None,
        swap_write(AppMode::Inspect, content, find, replace) is None,
{
}

} // verus!
