//! The commands of the diff view.
#![allow(unused_imports)]
use vstd::prelude::*;

use crate::diff_actions::{DiffCommand, DiffCommandInfo};
use crate::diff_component::DiffComponent;
use crate::event::CommandBlocking;
use crate::laws::diff_keys::is_changeable;

verus! {

/// Whether a command stands in the bar as it should: it is available in a view
/// with the focus, where its key has an effect on the side that is shown, and
/// enabled where there is something for it to do.
pub open spec fn is_offered_rightly(c: DiffComponent, info: DiffCommandInfo) -> bool {
    let lines = match c.diff {
        Some(diff) => diff.lines as int,
        None => 0,
    };
    let hunks = match c.diff {
        Some(diff) => diff.hunks@.len() as int,
        None => 0,
    };
    let hunk = c.selected_hunk;
    let edits = !c.is_immutable && c.current.path@.len() > 0;
    match info.command {
        DiffCommand::Scroll => info.available == c.focused && info.enabled == (lines > 1)
            && !info.hidden,
        DiffCommand::HomeEnd => info.available == c.focused && info.enabled == (lines > 1)
            && info.hidden,
        DiffCommand::HunkNext => info.available == (c.focused && !c.settings.split)
            && info.enabled == (match hunk {
            Some(h) => h + 1 < hunks,
            None => hunks > 0,
        }) && !info.hidden,
        DiffCommand::HunkPrev => info.available == (c.focused && !c.settings.split)
            && info.enabled == (match hunk {
            Some(h) => h > 0,
            None => hunks > 0,
        }) && !info.hidden,
        DiffCommand::EditItem => info.available == (c.focused && edits) && info.enabled == edits
            && !info.hidden,
        DiffCommand::HunkRemove => info.available == (c.focused && c.current.is_stage)
            && info.enabled == (hunk is Some) && !info.hidden,
        DiffCommand::HunkAdd => info.available == (c.focused && !c.current.is_stage)
            && info.enabled == (hunk is Some) && !info.hidden,
        DiffCommand::HunkRevert => info.available == (c.focused && !c.current.is_stage)
            && info.enabled == (hunk is Some) && !info.hidden,
        DiffCommand::LinesRevert => info.available == (c.focused && !c.current.is_stage)
            && info.enabled && !info.hidden,
        DiffCommand::LinesStage => info.available == (c.focused && !c.current.is_stage)
            && info.enabled && !info.hidden,
        DiffCommand::LinesUnstage => info.available == (c.focused && c.current.is_stage)
            && info.enabled && !info.hidden,
        DiffCommand::Copy => info.available == c.focused && info.enabled && !info.hidden,
        DiffCommand::ToggleSyntax => info.available == c.focused && info.enabled && !info.hidden,
        DiffCommand::ToggleSplit(split) => info.available == c.focused && info.enabled
            && !info.hidden && split == c.settings.split,
    }
}

/// The commands that are offered behind those that are there already: moving,
/// then editing where the file may change, staging and reverting where that may
/// be done from this view, and viewing. Each of them is offered rightly.
pub proof fn law_commands_follow_the_view(
    c: DiffComponent,
    out: &mut Vec<DiffCommandInfo>,
    force_all: bool,
    blocking: CommandBlocking,
    j: int,
)
    requires
        c.wf(),
        call_ensures(DiffComponent::commands, (&c, out, force_all), blocking),
    ensures
        blocking == CommandBlocking::PassingOn,
        ({
            let n = old(out)@.len() as int;
            let all = final(out)@;
            let m = n + 4 + (if c.is_immutable {
                0int
            } else {
                1int
            });
            let k = m + (if is_changeable(c) {
                6int
            } else {
                0int
            });
            &&& all.len() == k + 3
            &&& all.take(n) == old(out)@
            &&& n <= j < all.len() ==> is_offered_rightly(c, all[j])
            &&& all[n].command == DiffCommand::Scroll
            &&& all[n + 1].command == DiffCommand::HunkNext
            &&& all[n + 2].command == DiffCommand::HunkPrev
            &&& all[n + 3].command == DiffCommand::HomeEnd
            &&& !c.is_immutable ==> all[n + 4].command == DiffCommand::EditItem
            &&& is_changeable(c) ==> {
                &&& all[m].command == DiffCommand::HunkRemove
                &&& all[m + 1].command == DiffCommand::HunkAdd
                &&& all[m + 2].command == DiffCommand::HunkRevert
                &&& all[m + 3].command == DiffCommand::LinesRevert
                &&& all[m + 4].command == DiffCommand::LinesStage
                &&& all[m + 5].command == DiffCommand::LinesUnstage
            }
            &&& all[k].command == DiffCommand::Copy
            &&& all[k + 1].command == DiffCommand::ToggleSyntax
            &&& all[k + 2].command is ToggleSplit
        }),
{
    let n = old(out)@.len() as int;
    let list = c.command_list();
    if let Some(diff) = c.diff {
        assert(diff.hunks.len() <= usize::MAX);
    }
    assert(final(out)@.take(n) =~= old(out)@);
    assert forall|i: int| 0 <= i < list.len() implies #[trigger] list[i] == final(out)@[n
        + i] by {}
    if n <= j < final(out)@.len() {
        assert(final(out)@[j] == list[j - n]);
    }
}

} // verus!
