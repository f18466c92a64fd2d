//! What the keys of the diff view ask of the application.
#![allow(unused_imports)]
use vstd::prelude::*;

use crate::diff::{DiffLine, DiffLinePosition, DiffLineType};
use crate::diff_actions::{copied_lines, copied_rows, joined_lines, selected_changes, DiffKeys};
use crate::diff_component::{request_views, DiffComponent, DiffRequest};
use crate::event::EventState;
use crate::laws::copying::{lemma_copied_lines, lemma_copied_rows, rows_to_copy, texts_to_copy};
use crate::laws::lists::{
    law_there_is_a_list, lemma_list_of_none, lemma_list_step, lists, selected,
};
use crate::selection::Selection;
use crate::split::law_rows_are_in_order;

verus! {

/// No key.
pub open spec fn no_key() -> DiffKeys {
    DiffKeys {
        move_down: false,
        shift_down: false,
        shift_up: false,
        end: false,
        home: false,
        move_up: false,
        page_up: false,
        page_down: false,
        move_right: false,
        move_left: false,
        diff_hunk_next: false,
        diff_hunk_prev: false,
        edit_file: false,
        stage_unstage_item: false,
        status_reset_item: false,
        diff_stage_lines: false,
        diff_reset_lines: false,
        copy: false,
        diff_toggle_syntax: false,
        diff_toggle_split: false,
    }
}

/// The lines of a diff that are selected and are additions or deletions.
pub open spec fn changed_and_selected(
    lines: Seq<DiffLine>,
    selection: Selection,
) -> spec_fn(int) -> bool {
    |i: int|
        selected(selection)(i) && (lines[i].line_type == DiffLineType::Add || lines[i].line_type
            == DiffLineType::Delete)
}

/// Whether `positions` are those of the selected additions and deletions, in
/// their order.
pub open spec fn are_selected_changes(c: DiffComponent, positions: Seq<DiffLinePosition>) -> bool {
    let lines = c.diff->0.flat();
    exists|at: Seq<int>|
        #[trigger] lists(at, lines.len() as int, changed_and_selected(lines, c.selection))
            && positions == Seq::new(at.len(), |j: int| lines[at[j]].position)
}

proof fn lemma_selected_changes(
    lines: Seq<DiffLine>,
    selection: Selection,
    at: Seq<int>,
    p: spec_fn(int) -> bool,
)
    requires
        lists(at, lines.len() as int, p),
        forall|i: int|
            0 <= i < lines.len() ==> #[trigger] p(i) == changed_and_selected(lines, selection)(i),
    ensures
        selected_changes(lines, selection) == Seq::new(at.len(), |j: int| lines[at[j]].position),
    decreases lines.len(),
{
    let n = lines.len() as int;
    let want = Seq::new(at.len(), |j: int| lines[at[j]].position);
    if n == 0 {
        lemma_list_of_none(at, p);
    } else {
        let front = lines.drop_last();
        lemma_list_step(at, n, p);
        let before = if p(n - 1) {
            at.drop_last()
        } else {
            at
        };
        assert forall|i: int| 0 <= i < front.len() implies #[trigger] p(i)
            == changed_and_selected(front, selection)(i) by {
            assert(front[i] == lines[i]);
        }
        lemma_selected_changes(front, selection, before, p);
        assert forall|j: int| 0 <= j < before.len() implies front[#[trigger] before[j]]
            == lines[at[j]] by {}
    }
    assert(selected_changes(lines, selection) =~= want);
}

/// The changes that the view has selected are the selected changes.
pub proof fn lemma_changes(c: DiffComponent)
    requires
        c.diff is Some,
    ensures
        are_selected_changes(c, c.changes()),
{
    let lines = c.diff->0.flat();
    let p = changed_and_selected(lines, c.selection);
    let at = law_there_is_a_list(lines.len(), p);
    lemma_selected_changes(lines, c.selection, at, p);
}

/// The selected positions are those of the selected additions and deletions, in
/// their order, and there are none without a diff.
pub proof fn law_selected_lines_are_the_selected_changes(
    c: DiffComponent,
    positions: Vec<DiffLinePosition>,
)
    requires
        call_ensures(DiffComponent::selected_lines, (&c,), positions),
    ensures
        c.diff is Some ==> are_selected_changes(c, positions@),
        c.diff is None ==> positions@.len() == 0,
{
    if c.diff is Some {
        lemma_changes(c);
    }
}

/// Whether the diff may be changed from the view: it is not immutable, and the
/// unified view is active.
pub open spec fn is_changeable(c: DiffComponent) -> bool {
    !c.is_immutable && !c.settings.split
}

/// Whether `hash` is that of the selected hunk.
pub open spec fn is_selected_hunk(c: DiffComponent, hash: u64) -> bool {
    c.diff matches Some(diff) && c.selected_hunk matches Some(h) && h < diff.hunks@.len()
        && diff.hunks@[h as int].header_hash == hash
}

/// Whether `text` is what copying gives: the texts of the selected rows.
pub open spec fn is_selected_text(c: DiffComponent, text: Seq<char>) -> bool {
    exists|at: Seq<int>|
        #[trigger] lists(at, rows_to_copy(c), selected(c.selection)) && text == joined_lines(
            texts_to_copy(c, at),
        )
}

/// Whether a request is about what the view shows and has selected, and on the
/// side that it shows: the stage is only ever taken from, the working directory
/// only ever staged or reverted.
pub open spec fn is_about_the_selection(c: DiffComponent, request: DiffRequest) -> bool {
    match request {
        DiffRequest::OpenExternalEditor(path) => path@ == c.current.path@ && path@.len() > 0
            && !c.is_immutable,
        DiffRequest::StageHunk { path, hash } => {
            &&& path@ == c.current.path@
            &&& is_changeable(c)
            &&& !c.current.is_stage
            &&& !c.diff->0.untracked
            &&& is_selected_hunk(c, hash)
        },
        DiffRequest::UnstageHunk { path, hash } => {
            &&& path@ == c.current.path@
            &&& is_changeable(c)
            &&& c.current.is_stage
            &&& is_selected_hunk(c, hash)
        },
        DiffRequest::StageFile { path } => {
            &&& path@ == c.current.path@
            &&& is_changeable(c)
            &&& !c.current.is_stage
            &&& c.selected_hunk is Some
            &&& c.diff matches Some(diff) && diff.untracked
        },
        DiffRequest::ConfirmResetHunk { path, hash } => {
            &&& path@ == c.current.path@
            &&& is_changeable(c)
            &&& !c.current.is_stage
            &&& !c.diff->0.untracked
            &&& is_selected_hunk(c, hash)
        },
        DiffRequest::ConfirmReset { path } => {
            &&& path@ == c.current.path@
            &&& is_changeable(c)
            &&& !c.current.is_stage
            &&& c.diff matches Some(diff) && diff.untracked
        },
        DiffRequest::StageLines { path, is_stage: taken_out, lines } => {
            &&& path@ == c.current.path@
            &&& is_changeable(c)
            &&& taken_out <==> c.current.is_stage
            &&& c.diff matches Some(diff) && !diff.untracked
            &&& are_selected_changes(c, lines@)
        },
        DiffRequest::ConfirmResetLines { path, lines } => {
            &&& path@ == c.current.path@
            &&& is_changeable(c)
            &&& !c.current.is_stage
            &&& c.diff matches Some(diff) && !diff.untracked
            &&& are_selected_changes(c, lines@)
        },
        DiffRequest::CopyToClipboard(text) => c.diff is Some && is_selected_text(c, text@),
        DiffRequest::ScrollRight => true,
        DiffRequest::ScrollLeft => true,
        DiffRequest::MoveAreaToVisible { height, start, end } => !c.settings.split,
        DiffRequest::CycleHighlightStyle => true,
        _ => false,
    }
}

proof fn lemma_copied(c: DiffComponent)
    requires
        c.wf(),
        c.diff is Some,
    ensures
        is_selected_text(c, c.copied_text()),
{
    let lines = c.diff->0.flat();
    law_rows_are_in_order(c.diff->0.types());
    let at = law_there_is_a_list(rows_to_copy(c) as nat, selected(c.selection));
    if c.settings.split {
        lemma_copied_rows(c.split_rows@, lines, c.selection, at);
        assert(texts_to_copy(c, at) =~= copied_rows(c.split_rows@, lines, c.selection));
    } else {
        lemma_copied_lines(lines, c.selection, at);
        assert(texts_to_copy(c, at) =~= copied_lines(lines, c.selection));
    }
}

/// Whatever key is pressed, every request that it adds is about what is shown
/// and selected, on the side that is shown.
pub proof fn law_keys_ask_about_the_selection(
    c: &mut DiffComponent,
    keys: DiffKeys,
    state: EventState,
    j: int,
)
    requires
        call_ensures(DiffComponent::event, (c, Some(&keys)), state),
        old(c).wf(),
        old(c).requests@.len() <= j < final(c).requests@.len(),
    ensures
        is_about_the_selection(*old(c), final(c).requests@[j]),
{
    let before = *old(c);
    let after = *final(c);
    let n = before.requests@.len() as int;
    assert(request_views(after.requests@).len() == after.requests@.len());
    assert(request_views(before.requests@).len() == n);
    assert(request_views(after.requests@)[j] == after.requests@[j]@);
    if before.diff is Some {
        lemma_changes(before);
        lemma_copied(before);
    }
}

/// Whether a request is what one of the keys is there for.
pub open spec fn is_meant_by(keys: DiffKeys, request: DiffRequest) -> bool {
    match request {
        DiffRequest::OpenExternalEditor(_) => keys.edit_file,
        DiffRequest::StageHunk { .. } => keys.stage_unstage_item,
        DiffRequest::UnstageHunk { .. } => keys.stage_unstage_item,
        DiffRequest::StageFile { .. } => keys.stage_unstage_item,
        DiffRequest::ConfirmResetHunk { .. } => keys.status_reset_item,
        DiffRequest::ConfirmReset { .. } => keys.status_reset_item,
        DiffRequest::StageLines { .. } => keys.diff_stage_lines,
        DiffRequest::ConfirmResetLines { .. } => keys.diff_reset_lines,
        DiffRequest::CopyToClipboard(_) => keys.copy,
        DiffRequest::ScrollRight => keys.move_right,
        DiffRequest::ScrollLeft => keys.move_left,
        DiffRequest::MoveAreaToVisible { .. } => keys.diff_hunk_next || keys.diff_hunk_prev,
        DiffRequest::CycleHighlightStyle => keys.diff_toggle_syntax,
        _ => false,
    }
}

/// A key asks for one thing at most, and for nothing but what it is there for.
/// Unless it moves, jumps or switches the view, it changes nothing but the
/// requests.
pub proof fn law_a_key_asks_for_nothing_else(
    c: &mut DiffComponent,
    keys: DiffKeys,
    state: EventState,
)
    requires
        call_ensures(DiffComponent::event, (c, Some(&keys)), state),
        old(c).wf(),
    ensures
        old(c).requests@.len() <= final(c).requests@.len() <= old(c).requests@.len() + 1,
        final(c).requests@.len() > old(c).requests@.len() ==> is_meant_by(
            keys,
            final(c).requests@.last(),
        ),
        request_views(final(c).requests@).take(old(c).requests@.len() as int) == request_views(
            old(c).requests@,
        ),
        !(keys.move_down || keys.move_up || keys.home || keys.end || keys.page_up || keys.page_down
            || keys.shift_down || keys.shift_up || keys.diff_hunk_next || keys.diff_hunk_prev
            || keys.diff_toggle_split) ==> *final(c) == (DiffComponent {
            requests: final(c).requests,
            ..*old(c)
        }),
        final(c).diff == old(c).diff && final(c).current == old(c).current && final(c).syntax_highlight == old(c).syntax_highlight,
{
    let n = old(c).requests@.len() as int;
    let views = request_views(final(c).requests@);
    assert(views.len() == final(c).requests@.len());
    assert(request_views(old(c).requests@).len() == n);
    assert(views.take(n) =~= request_views(old(c).requests@));
    if final(c).requests@.len() > n {
        assert(views[n] == final(c).requests@[n]@);
    }
}

/// The key among those that an event matches that is in effect: the first in the
/// order in which they are listed, as far as it can be used.
pub open spec fn key_in_effect(c: DiffComponent, keys: DiffKeys) -> DiffKeys {
    let unified = !c.settings.split;
    let reverts = is_changeable(c) && !c.current.is_stage;
    if keys.move_down {
        DiffKeys { move_down: true, ..no_key() }
    } else if keys.shift_down {
        DiffKeys { shift_down: true, ..no_key() }
    } else if keys.shift_up {
        DiffKeys { shift_up: true, ..no_key() }
    } else if keys.end {
        DiffKeys { end: true, ..no_key() }
    } else if keys.home {
        DiffKeys { home: true, ..no_key() }
    } else if keys.move_up {
        DiffKeys { move_up: true, ..no_key() }
    } else if keys.page_up {
        DiffKeys { page_up: true, ..no_key() }
    } else if keys.page_down {
        DiffKeys { page_down: true, ..no_key() }
    } else if keys.move_right {
        DiffKeys { move_right: true, ..no_key() }
    } else if keys.move_left {
        DiffKeys { move_left: true, ..no_key() }
    } else if keys.diff_hunk_next && unified {
        DiffKeys { diff_hunk_next: true, ..no_key() }
    } else if keys.diff_hunk_prev && unified {
        DiffKeys { diff_hunk_prev: true, ..no_key() }
    } else if keys.edit_file && !c.is_immutable && c.current.path@.len() > 0 {
        DiffKeys { edit_file: true, ..no_key() }
    } else if keys.stage_unstage_item && is_changeable(c) {
        DiffKeys { stage_unstage_item: true, ..no_key() }
    } else if keys.status_reset_item && reverts {
        DiffKeys { status_reset_item: true, ..no_key() }
    } else if keys.diff_stage_lines && is_changeable(c) {
        DiffKeys { diff_stage_lines: true, ..no_key() }
    } else if keys.diff_reset_lines && reverts {
        DiffKeys { diff_reset_lines: true, ..no_key() }
    } else if keys.copy {
        DiffKeys { copy: true, ..no_key() }
    } else if keys.diff_toggle_syntax {
        DiffKeys { diff_toggle_syntax: true, ..no_key() }
    } else if keys.diff_toggle_split {
        DiffKeys { diff_toggle_split: true, ..no_key() }
    } else {
        no_key()
    }
}

/// An event that matches several keys does what the one that is in effect does
/// alone.
pub proof fn law_one_key_is_in_effect(
    c: &mut DiffComponent,
    keys: DiffKeys,
    state: EventState,
    d: &mut DiffComponent,
    alone: DiffKeys,
    other: EventState,
)
    requires
        *old(c) == *old(d),
        old(c).wf(),
        alone == key_in_effect(*old(c), keys),
        call_ensures(DiffComponent::event, (c, Some(&keys)), state),
        call_ensures(DiffComponent::event, (d, Some(&alone)), other),
    ensures
        state == other,
        *final(c) == (DiffComponent { requests: final(c).requests, ..*final(d) }),
        request_views(final(c).requests@) == request_views(final(d).requests@),
{
}

/// Whether a key was used up and asked for one thing more, and changed nothing
/// else.
pub open spec fn asked_once(before: DiffComponent, after: DiffComponent) -> bool {
    &&& after.requests@.len() == before.requests@.len() + 1
    &&& after == DiffComponent { requests: after.requests, ..before }
}

/// Every key that asks for something asks for its own kind of thing, once, where
/// that can be done: staging and unstaging follow the side that is shown, and
/// an untracked file is staged or reverted as a whole.
pub proof fn law_each_key_asks_for_its_own(c: &mut DiffComponent, keys: DiffKeys, state: EventState)
    requires
        call_ensures(DiffComponent::event, (c, Some(&keys)), state),
        old(c).wf(),
        old(c).focused,
    ensures
        ({
            let last = final(c).requests@.last();
            let once = asked_once(*old(c), *final(c));
            let can = is_changeable(*old(c)) && old(c).diff is Some;
            let untracked = old(c).diff->0.untracked;
            let staged = old(c).current.is_stage;
            let hunk = old(c).selected_hunk is Some;
            &&& keys == (DiffKeys { move_right: true, ..no_key() }) ==> once && last is ScrollRight
            &&& keys == (DiffKeys { move_left: true, ..no_key() }) ==> once && last is ScrollLeft
            &&& keys == (DiffKeys { edit_file: true, ..no_key() }) && !old(c).is_immutable && old(c).current.path@.len() > 0 ==> once && last is OpenExternalEditor
            &&& keys == (DiffKeys { stage_unstage_item: true, ..no_key() }) && can && hunk
                && staged ==> once && last is UnstageHunk
            &&& keys == (DiffKeys { stage_unstage_item: true, ..no_key() }) && can && hunk
                && !staged && untracked ==> once && last is StageFile
            &&& keys == (DiffKeys { stage_unstage_item: true, ..no_key() }) && can && hunk
                && !staged && !untracked ==> once && last is StageHunk
            &&& keys == (DiffKeys { status_reset_item: true, ..no_key() }) && can && !staged
                && untracked ==> once && last is ConfirmReset
            &&& keys == (DiffKeys { status_reset_item: true, ..no_key() }) && can && hunk
                && !staged && !untracked ==> once && last is ConfirmResetHunk
            &&& keys == (DiffKeys { diff_stage_lines: true, ..no_key() }) && can && !untracked
                ==> once && last is StageLines
            &&& keys == (DiffKeys { diff_reset_lines: true, ..no_key() }) && can && !staged
                && !untracked ==> once && last is ConfirmResetLines
            &&& keys == (DiffKeys { copy: true, ..no_key() }) && old(c).diff is Some ==> once
                && last is CopyToClipboard
            &&& keys == (DiffKeys { diff_toggle_syntax: true, ..no_key() }) ==> once
                && last is CycleHighlightStyle
        }),
        state == EventState::Consumed <==> {
            ||| keys.move_down || keys.shift_down || keys.shift_up || keys.end || keys.home
                || keys.move_up || keys.page_up || keys.page_down || keys.move_right
                || keys.move_left || keys.copy || keys.diff_toggle_syntax || keys.diff_toggle_split
            ||| (keys.diff_hunk_next || keys.diff_hunk_prev) && !old(c).settings.split
            ||| keys.edit_file && !old(c).is_immutable && old(c).current.path@.len() > 0
            ||| (keys.stage_unstage_item || keys.diff_stage_lines) && is_changeable(*old(c))
            ||| (keys.status_reset_item || keys.diff_reset_lines) && is_changeable(*old(c))
                && !old(c).current.is_stage
        },
        state == EventState::NotConsumed ==> *final(c) == *old(c),
{
    let before = *old(c);
    let after = *final(c);
    let n = before.requests@.len() as int;
    assert(request_views(after.requests@).len() == after.requests@.len());
    assert(request_views(before.requests@).len() == n);
    if after.requests@.len() > n {
        assert(request_views(after.requests@)[n] == after.requests@[n]@);
    }
}

/// An event that is no key, and any event without the focus, is left to others
/// and changes nothing.
pub proof fn law_other_events_are_left_alone(
    c: &mut DiffComponent,
    ev: Option<&DiffKeys>,
    state: EventState,
)
    requires
        call_ensures(DiffComponent::event, (c, ev), state),
        old(c).wf(),
        ev is None || !old(c).focused,
    ensures
        state == EventState::NotConsumed,
        *final(c) == *old(c),
{
}

/// A copy that failed is reported, with the reason.
pub proof fn law_a_failed_copy_is_reported(c: &mut DiffComponent, err: &str)
    requires
        call_ensures(DiffComponent::copy_failed, (c, err), ()),
    ensures
        asked_once(*old(c), *final(c)),
        final(c).requests@.last() matches DiffRequest::ShowErrorMsg(msg) && msg@
            == "copy to clipboard error:"@ + seq!['\n'] + err@,
{
    let n = old(c).requests@.len() as int;
    assert(request_views(final(c).requests@).len() == final(c).requests@.len());
    assert(request_views(final(c).requests@)[n] == final(c).requests@[n]@);
    assert("copy to clipboard error:"@.push('\n') + err@ =~= "copy to clipboard error:"@ + seq![
        '\n',
    ] + err@);
}

/// What was asked for is handed out once, all of it and in its order.
pub proof fn law_requests_are_handed_out_once(c: &mut DiffComponent, requests: Vec<DiffRequest>)
    requires
        call_ensures(DiffComponent::take_requests, (c,), requests),
    ensures
        requests@ == old(c).requests@,
        final(c).requests@.len() == 0,
        *final(c) == (DiffComponent { requests: final(c).requests, ..*old(c) }),
{
}

/// What came of staging a hunk: a refresh, or the reason why not, and only one
/// of the two.
pub proof fn law_the_outcome_of_a_hunk_is_reported(
    c: &mut DiffComponent,
    outcome: Result<(), String>,
)
    requires
        call_ensures(DiffComponent::hunk_staged, (c, outcome), ()),
    ensures
        asked_once(*old(c), *final(c)),
        outcome is Ok ==> final(c).requests@.last() is UpdateAll,
        outcome matches Err(err) ==> (final(c).requests@.last() matches DiffRequest::ShowErrorMsg(
            msg,
        ) && msg@ == "hunk error:"@ + seq!['\n'] + err@),
{
    let n = old(c).requests@.len() as int;
    assert(request_views(final(c).requests@).len() == final(c).requests@.len());
    assert(request_views(final(c).requests@)[n] == final(c).requests@[n]@);
    if let Err(err) = outcome {
        assert("hunk error:"@.push('\n') + err@ =~= "hunk error:"@ + seq!['\n'] + err@);
    }
}

/// What came of staging lines: the reason why not, if it failed, and a refresh
/// either way.
pub proof fn law_the_outcome_of_lines_is_reported(
    c: &mut DiffComponent,
    outcome: Result<(), String>,
)
    requires
        call_ensures(DiffComponent::lines_staged, (c, outcome), ()),
    ensures
        *final(c) == (DiffComponent { requests: final(c).requests, ..*old(c) }),
        final(c).requests@.len() == old(c).requests@.len() + (if outcome is Ok {
            1int
        } else {
            2int
        }),
        final(c).requests@.last() is UpdateAll,
        outcome matches Err(err) ==> (final(c).requests@[old(c).requests@.len() as int] matches DiffRequest::ShowErrorMsg(
            msg,
        ) && msg@ == "(un)stage lines:"@ + seq!['\n'] + err@),
{
    let n = old(c).requests@.len() as int;
    assert(request_views(final(c).requests@).len() == final(c).requests@.len());
    assert(request_views(final(c).requests@)[n] == final(c).requests@[n]@);
    if let Err(err) = outcome {
        assert(request_views(final(c).requests@)[n + 1] == final(c).requests@[n + 1]@);
        assert("(un)stage lines:"@.push('\n') + err@ =~= "(un)stage lines:"@ + seq!['\n'] + err@);
    }
}

} // verus!
