//! What the diff view does on a key: copying, staging, reverting, jumping
//! between hunks, and the commands that it offers.
use vstd::prelude::*;

use crate::diff::{flat_diff_lines, DiffLinePosition, DiffLineType};
#[allow(unused_imports)]
use crate::diff::{hunk_start, lemma_flat_hunk, DiffLine, Hunk};
use crate::diff_component::{DiffComponent, DiffRequest};
#[allow(unused_imports)]
use crate::diff_component::{
    hunk_of_line, lemma_hunk_of_line, request_views, DiffRequestView, DiffSettings,
};
use crate::error::error_message;
#[allow(unused_imports)]
use crate::error::error_text;
use crate::event::{CommandBlocking, EventState};
use crate::selection::{smaller, Direction, ScrollType, Selection};
#[allow(unused_imports)]
use crate::selection::{min, minus};
use crate::split::SplitRow;
#[allow(unused_imports)]
use crate::split::{law_rows_are_in_order, preferred};
use crate::text::trim_line_ends;
#[allow(unused_imports)]
use crate::text::without_line_ends;

verus! {

/// The given texts with a line feed between each two.
pub open spec fn joined_lines(texts: Seq<Seq<char>>) -> Seq<char>
    decreases texts.len(),
{
    if texts.len() == 0 {
        Seq::empty()
    } else if texts.len() == 1 {
        texts[0]
    } else {
        joined_lines(texts.drop_last()).push('\n') + texts.last()
    }
}

/// What is copied of the selected lines among `lines`.
pub open spec fn copied_lines(lines: Seq<DiffLine>, selection: Selection) -> Seq<Seq<char>>
    decreases lines.len(),
{
    if lines.len() == 0 {
        Seq::empty()
    } else {
        let before = copied_lines(lines.drop_last(), selection);
        if selection.covers(lines.len() - 1) {
            before.push(without_line_ends(lines.last().content@))
        } else {
            before
        }
    }
}

/// What is copied of the selected rows among `rows`: of each row the new
/// side, or the old side of a pure deletion.
pub open spec fn copied_rows(
    rows: Seq<SplitRow>,
    lines: Seq<DiffLine>,
    selection: Selection,
) -> Seq<Seq<char>>
    decreases rows.len(),
{
    if rows.len() == 0 {
        Seq::empty()
    } else {
        let before = copied_rows(rows.drop_last(), lines, selection);
        match preferred(rows.last()) {
            Some(i) => if selection.covers(rows.len() - 1) && i < lines.len() {
                before.push(without_line_ends(lines[i as int].content@))
            } else {
                before
            },
            None => before,
        }
    }
}

/// Whether a line of type `t` is an addition or a deletion.
pub open spec fn is_change(t: DiffLineType) -> bool {
    t == DiffLineType::Add || t == DiffLineType::Delete
}

/// The positions of the selected changes among `lines`.
pub open spec fn selected_changes(
    lines: Seq<DiffLine>,
    selection: Selection,
) -> Seq<DiffLinePosition>
    decreases lines.len(),
{
    if lines.len() == 0 {
        Seq::empty()
    } else {
        let before = selected_changes(lines.drop_last(), selection);
        if selection.covers(lines.len() - 1) && is_change(lines.last().line_type) {
            before.push(lines.last().position)
        } else {
            before
        }
    }
}

/// The keys of the diff view: which of its bindings a key event matches.
#[derive(Clone, Copy, PartialEq, Eq, Debug, Structural)]
pub struct DiffKeys {
    pub move_down: bool,
    pub shift_down: bool,
    pub shift_up: bool,
    pub end: bool,
    pub home: bool,
    pub move_up: bool,
    pub page_up: bool,
    pub page_down: bool,
    pub move_right: bool,
    pub move_left: bool,
    pub diff_hunk_next: bool,
    pub diff_hunk_prev: bool,
    pub edit_file: bool,
    pub stage_unstage_item: bool,
    pub status_reset_item: bool,
    pub diff_stage_lines: bool,
    pub diff_reset_lines: bool,
    pub copy: bool,
    pub diff_toggle_syntax: bool,
    pub diff_toggle_split: bool,
}

/// What a key makes the diff view do.
#[derive(Clone, Copy, PartialEq, Eq, Debug, Structural)]
pub enum DiffAction {
    Move(ScrollType),
    Extend(Direction),
    ScrollRight,
    ScrollLeft,
    NextHunk,
    PrevHunk,
    EditFile,
    StageUnstageHunk,
    ResetItem,
    StageLines,
    ResetLines,
    Copy,
    CycleSyntax,
    ToggleSplit,
}

/// What a command of the diff view does.
#[derive(Clone, Copy, PartialEq, Eq, Debug, Structural)]
pub enum DiffCommand {
    Scroll,
    HunkNext,
    HunkPrev,
    HomeEnd,
    EditItem,
    HunkRemove,
    HunkAdd,
    HunkRevert,
    LinesRevert,
    LinesStage,
    LinesUnstage,
    Copy,
    ToggleSyntax,
    /// Switches to the other view; whether the split view is active.
    ToggleSplit(bool),
}

/// A command in the command bar.
#[derive(Clone, Copy, PartialEq, Eq, Debug, Structural)]
pub struct DiffCommandInfo {
    pub command: DiffCommand,
    /// Whether the command can be run.
    pub enabled: bool,
    /// Whether the command is offered.
    pub available: bool,
    /// Whether the command is left out of the quick bar.
    pub hidden: bool,
}

/// A command that shows in the quick bar.
pub open spec fn shown(command: DiffCommand, enabled: bool, available: bool) -> DiffCommandInfo {
    DiffCommandInfo { command, enabled, available, hidden: false }
}

fn command_info(command: DiffCommand, enabled: bool, available: bool) -> (info: DiffCommandInfo)
    ensures
        info == shown(command, enabled, available),
{
    DiffCommandInfo { command, enabled, available, hidden: false }
}

impl DiffComponent {
    /// What copying the selection puts on the clipboard.
    pub open spec fn copied_text(&self) -> Seq<char> {
        match self.diff {
            Some(diff) => joined_lines(
                if self.settings.split {
                    copied_rows(self.split_rows@, diff.flat(), self.selection)
                } else {
                    copied_lines(diff.flat(), self.selection)
                },
            ),
            None => Seq::empty(),
        }
    }

    /// The positions of the selected changes.
    pub open spec fn changes(&self) -> Seq<DiffLinePosition> {
        match self.diff {
            Some(diff) => selected_changes(diff.flat(), self.selection),
            None => Seq::empty(),
        }
    }

    /// What copying asks for.
    pub open spec fn copy_requests(&self) -> Seq<DiffRequestView> {
        if self.diff is Some {
            seq![DiffRequestView::CopyToClipboard(self.copied_text())]
        } else {
            Seq::empty()
        }
    }

    /// What unstaging the selected hunk asks for.
    pub open spec fn unstage_requests(&self) -> Seq<DiffRequestView> {
        match (self.diff, self.selected_hunk) {
            (Some(diff), Some(hunk)) => seq![
                DiffRequestView::UnstageHunk {
                    path: self.current.path@,
                    hash: diff.hunks@[hunk as int].header_hash,
                },
            ],
            _ => Seq::empty(),
        }
    }

    /// What staging the selected hunk asks for: the whole file where it is
    /// untracked.
    pub open spec fn stage_requests(&self) -> Seq<DiffRequestView> {
        match (self.diff, self.selected_hunk) {
            (Some(diff), Some(hunk)) => if diff.untracked {
                seq![DiffRequestView::StageFile { path: self.current.path@ }]
            } else {
                seq![
                    DiffRequestView::StageHunk {
                        path: self.current.path@,
                        hash: diff.hunks@[hunk as int].header_hash,
                    },
                ]
            },
            _ => Seq::empty(),
        }
    }

    /// What staging or unstaging the selected hunk asks for.
    pub open spec fn stage_unstage_requests(&self) -> Seq<DiffRequestView> {
        if self.current.is_stage {
            self.unstage_requests()
        } else {
            self.stage_requests()
        }
    }

    /// What reverting the selected hunk asks for.
    pub open spec fn reset_hunk_requests(&self) -> Seq<DiffRequestView> {
        match (self.diff, self.selected_hunk) {
            (Some(diff), Some(hunk)) => seq![
                DiffRequestView::ConfirmResetHunk {
                    path: self.current.path@,
                    hash: diff.hunks@[hunk as int].header_hash,
                },
            ],
            _ => Seq::empty(),
        }
    }

    /// What reverting asks for: the whole file where it is untracked.
    pub open spec fn reset_requests(&self) -> Seq<DiffRequestView> {
        match self.diff {
            Some(diff) => if diff.untracked {
                seq![DiffRequestView::ConfirmReset { path: self.current.path@ }]
            } else {
                self.reset_hunk_requests()
            },
            None => Seq::empty(),
        }
    }

    /// What staging or unstaging the selected lines asks for: nothing where
    /// the file is untracked.
    pub open spec fn stage_lines_requests(&self) -> Seq<DiffRequestView> {
        match self.diff {
            Some(diff) => if diff.untracked {
                Seq::empty()
            } else {
                seq![
                    DiffRequestView::StageLines {
                        path: self.current.path@,
                        is_stage: self.current.is_stage,
                        lines: self.changes(),
                    },
                ]
            },
            None => Seq::empty(),
        }
    }

    /// What reverting the selected lines asks for: nothing where the file is
    /// untracked.
    pub open spec fn reset_lines_requests(&self) -> Seq<DiffRequestView> {
        match self.diff {
            Some(diff) => if diff.untracked {
                Seq::empty()
            } else {
                seq![
                    DiffRequestView::ConfirmResetLines {
                        path: self.current.path@,
                        lines: self.changes(),
                    },
                ]
            },
            None => Seq::empty(),
        }
    }

    /// The hunk that lies `direction` hunks behind the selected one, kept
    /// within the diff; the first one where none is selected.
    pub open spec fn hunk_target(&self, direction: int) -> Option<usize> {
        match self.diff {
            Some(diff) => if diff.hunks@.len() == 0 {
                None
            } else {
                match self.selected_hunk {
                    Some(hunk) => Some(
                        min(diff.hunks@.len() - 1, minus(hunk + direction, 0)) as usize,
                    ),
                    None => Some(0),
                }
            },
            None => None,
        }
    }

    /// Whether `after` is what jumping by `direction` hunks makes of `self`:
    /// the first line of the target hunk is selected, and the hunk is asked to
    /// be made visible. Nothing changes where the target is selected already.
    pub open spec fn jumped(self, direction: int, after: DiffComponent) -> bool {
        match (self.diff, self.hunk_target(direction)) {
            (Some(diff), Some(target)) => if self.selected_hunk == Some(target) {
                after == self
            } else {
                let line = hunk_start(diff.hunks@, target as int);
                self.asks(
                    DiffComponent {
                        selection: Selection::Single(line as usize),
                        selected_hunk: Some(target),
                        ..self
                    },
                    seq![
                        DiffRequestView::MoveAreaToVisible {
                            height: self.current_size.1 as usize,
                            start: line as usize,
                            end: hunk_start(diff.hunks@, target + 1) as usize,
                        },
                    ],
                    after,
                )
            },
            _ => after == self,
        }
    }

    /// The state after the other view was chosen.
    pub open spec fn toggled(self) -> DiffComponent {
        DiffComponent {
            settings: DiffSettings { split: !self.settings.split, ..self.settings },
            ..self
        }.clamped()
    }

    /// Whether the file may be changed from this view: staging and reverting
    /// work in the unified view only.
    pub open spec fn can_change(&self) -> bool {
        !self.is_immutable && !self.settings.split
    }

    /// What a key event does: the first binding that it matches and that is
    /// in effect.
    pub open spec fn action_for(&self, keys: DiffKeys) -> Option<DiffAction> {
        if keys.move_down {
            Some(DiffAction::Move(ScrollType::Down))
        } else if keys.shift_down {
            Some(DiffAction::Extend(Direction::Down))
        } else if keys.shift_up {
            Some(DiffAction::Extend(Direction::Up))
        } else if keys.end {
            Some(DiffAction::Move(ScrollType::End))
        } else if keys.home {
            Some(DiffAction::Move(ScrollType::Home))
        } else if keys.move_up {
            Some(DiffAction::Move(ScrollType::Up))
        } else if keys.page_up {
            Some(DiffAction::Move(ScrollType::PageUp))
        } else if keys.page_down {
            Some(DiffAction::Move(ScrollType::PageDown))
        } else if keys.move_right {
            Some(DiffAction::ScrollRight)
        } else if keys.move_left {
            Some(DiffAction::ScrollLeft)
        } else if keys.diff_hunk_next && !self.settings.split {
            Some(DiffAction::NextHunk)
        } else if keys.diff_hunk_prev && !self.settings.split {
            Some(DiffAction::PrevHunk)
        } else if keys.edit_file && !self.is_immutable && self.current.path@.len() > 0 {
            Some(DiffAction::EditFile)
        } else if keys.stage_unstage_item && self.can_change() {
            Some(DiffAction::StageUnstageHunk)
        } else if keys.status_reset_item && self.can_change() && !self.current.is_stage {
            Some(DiffAction::ResetItem)
        } else if keys.diff_stage_lines && self.can_change() {
            Some(DiffAction::StageLines)
        } else if keys.diff_reset_lines && self.can_change() && !self.current.is_stage {
            Some(DiffAction::ResetLines)
        } else if keys.copy {
            Some(DiffAction::Copy)
        } else if keys.diff_toggle_syntax {
            Some(DiffAction::CycleSyntax)
        } else if keys.diff_toggle_split {
            Some(DiffAction::ToggleSplit)
        } else {
            None
        }
    }

    /// What an event does: nothing without the focus or a key.
    pub open spec fn handled(&self, ev: Option<&DiffKeys>) -> Option<DiffAction> {
        match ev {
            Some(keys) => if self.focused {
                self.action_for(*keys)
            } else {
                None
            },
            None => None,
        }
    }

    /// Whether `after` is what an action makes of `self`.
    pub open spec fn performs(self, action: DiffAction, after: DiffComponent) -> bool {
        match action {
            DiffAction::Move(move_type) => after == self.selecting(self.move_target(move_type)),
            DiffAction::Extend(direction) => after == self.extended(direction),
            DiffAction::ScrollRight => self.asks(self, seq![DiffRequestView::ScrollRight], after),
            DiffAction::ScrollLeft => self.asks(self, seq![DiffRequestView::ScrollLeft], after),
            DiffAction::NextHunk => self.jumped(1, after),
            DiffAction::PrevHunk => self.jumped(-1, after),
            DiffAction::EditFile => self.asks(
                self,
                seq![DiffRequestView::OpenExternalEditor(self.current.path@)],
                after,
            ),
            DiffAction::StageUnstageHunk => self.asks(self, self.stage_unstage_requests(), after),
            DiffAction::ResetItem => self.asks(self, self.reset_requests(), after),
            DiffAction::StageLines => self.asks(self, self.stage_lines_requests(), after),
            DiffAction::ResetLines => self.asks(self, self.reset_lines_requests(), after),
            DiffAction::Copy => self.asks(self, self.copy_requests(), after),
            DiffAction::CycleSyntax => self.asks(
                self,
                seq![DiffRequestView::CycleHighlightStyle],
                after,
            ),
            DiffAction::ToggleSplit => after == self.toggled(),
        }
    }

    /// The commands that the view offers.
    pub open spec fn command_list(&self) -> Seq<DiffCommandInfo> {
        let focused = self.focused;
        let unified = !self.settings.split;
        let staged = self.current.is_stage;
        let scrolls = self.diff matches Some(diff) && diff.lines > 1;
        let edits = !self.is_immutable && self.current.path@.len() > 0;
        let hunk = self.selected_hunk is Some;
        let moving = seq![
            shown(DiffCommand::Scroll, scrolls, focused),
            shown(
                DiffCommand::HunkNext,
                self.hunk_target(1) != self.selected_hunk,
                focused && unified,
            ),
            shown(
                DiffCommand::HunkPrev,
                self.hunk_target(-1) != self.selected_hunk,
                focused && unified,
            ),
            DiffCommandInfo {
                command: DiffCommand::HomeEnd,
                enabled: scrolls,
                available: focused,
                hidden: true,
            },
        ];
        let editing = if self.is_immutable {
            Seq::empty()
        } else {
            seq![shown(DiffCommand::EditItem, edits, focused && edits)]
        };
        let staging = if !self.can_change() {
            Seq::empty()
        } else {
            seq![
                shown(DiffCommand::HunkRemove, hunk, focused && staged),
                shown(DiffCommand::HunkAdd, hunk, focused && !staged),
                shown(DiffCommand::HunkRevert, hunk, focused && !staged),
                shown(DiffCommand::LinesRevert, true, focused && !staged),
                shown(DiffCommand::LinesStage, true, focused && !staged),
                shown(DiffCommand::LinesUnstage, true, focused && staged),
            ]
        };
        let viewing = seq![
            shown(DiffCommand::Copy, true, focused),
            shown(DiffCommand::ToggleSyntax, true, focused),
            shown(DiffCommand::ToggleSplit(self.settings.split), true, focused),
        ];
        moving + editing + staging + viewing
    }
}

/// Joins texts with a line feed between each two.
fn join_lines(texts: &Vec<String>) -> (text: String)
    ensures
        text@ == joined_lines(crate::columns::texts(texts@)),
{
    let ghost all = crate::columns::texts(texts@);
    let mut text = String::new();
    let mut i: usize = 0;
    assert(all.take(0) =~= Seq::<Seq<char>>::empty());
    while i < texts.len()
        invariant
            i <= texts@.len(),
            all == crate::columns::texts(texts@),
            text@ == joined_lines(all.take(i as int)),
        decreases texts@.len() - i,
    {
        assert(all.take(i + 1).drop_last() =~= all.take(i as int));
        if i > 0 {
            text.push('\n');
        }
        text.append(texts[i].as_str());
        assert(all.take(i + 1).last() == texts@[i as int]@);
        assert(text@ =~= joined_lines(all.take(i + 1)));
        i += 1;
    }
    assert(all.take(i as int) =~= all);
    text
}

/// The absolute value of a number.
fn magnitude(n: isize) -> (m: usize)
    ensures
        n >= 0 ==> m == n,
        n < 0 ==> m == -n,
{
    if n >= 0 {
        n as usize
    } else {
        let below: isize = -(n + 1);
        below as usize + 1
    }
}

impl DiffComponent {
    /// The selected lines of the unified view, or the preferred sides of the
    /// selected rows of the split view, without line ends.
    fn lines_to_copy(&self) -> (texts: Vec<String>)
        requires
            self.wf(),
            self.diff is Some,
        ensures
            crate::columns::texts(texts@) == (if self.settings.split {
                copied_rows(self.split_rows@, self.diff->0.flat(), self.selection)
            } else {
                copied_lines(self.diff->0.flat(), self.selection)
            }),
    {
        let mut texts: Vec<String> = Vec::new();
        if let Some(diff) = &self.diff {
            let flat = flat_diff_lines(diff);
            let mut i: usize = 0;
            if self.is_split() {
                assert(self.split_rows@.take(0) =~= Seq::<SplitRow>::empty());
                while i < self.split_rows.len()
                    invariant
                        i <= self.split_rows@.len(),
                        flat@.len() == diff.flat().len(),
                        forall|k: int|
                            0 <= k < flat@.len() ==> *#[trigger] flat@[k] == diff.flat()[k],
                        crate::columns::texts(texts@) == copied_rows(
                            self.split_rows@.take(i as int),
                            diff.flat(),
                            self.selection,
                        ),
                    decreases self.split_rows@.len() - i,
                {
                    let ghost before = crate::columns::texts(texts@);
                    let row = self.split_rows[i];
                    assert(self.split_rows@.take(i + 1).drop_last() =~= self.split_rows@.take(
                        i as int,
                    ));
                    if self.selection.contains(i) {
                        let idx = if row.right.is_some() {
                            row.right
                        } else {
                            row.left
                        };
                        if let Some(idx) = idx {
                            if idx < flat.len() {
                                assert(*flat@[idx as int] == diff.flat()[idx as int]);
                                let text = trim_line_ends(flat[idx].content.as_str());
                                texts.push(text);
                                assert(crate::columns::texts(texts@) =~= before.push(text@));
                            }
                        }
                    }
                    i += 1;
                }
                assert(self.split_rows@.take(i as int) =~= self.split_rows@);
            } else {
                assert(diff.flat().take(0) =~= Seq::<DiffLine>::empty());
                while i < flat.len()
                    invariant
                        i <= flat@.len(),
                        flat@.len() == diff.flat().len(),
                        forall|k: int|
                            0 <= k < flat@.len() ==> *#[trigger] flat@[k] == diff.flat()[k],
                        crate::columns::texts(texts@) == copied_lines(
                            diff.flat().take(i as int),
                            self.selection,
                        ),
                    decreases flat@.len() - i,
                {
                    let ghost before = crate::columns::texts(texts@);
                    assert(diff.flat().take(i + 1).drop_last() =~= diff.flat().take(i as int));
                    assert(*flat@[i as int] == diff.flat()[i as int]);
                    if self.selection.contains(i) {
                        let text = trim_line_ends(flat[i].content.as_str());
                        texts.push(text);
                        assert(crate::columns::texts(texts@) =~= before.push(text@));
                    }
                    i += 1;
                }
                assert(diff.flat().take(i as int) =~= diff.flat());
            }
        }
        texts
    }

    /// Asks to copy the selection to the clipboard.
    pub fn copy_selection(&mut self)
        requires
            old(self).wf(),
        ensures
            old(self).asks(*old(self), old(self).copy_requests(), *final(self)),
    {
        if self.diff.is_none() {
            assert(request_views(self.requests@) + Seq::<DiffRequestView>::empty()
                =~= request_views(self.requests@));
            return ;
        }
        let texts = self.lines_to_copy();
        let text = join_lines(&texts);
        self.ask(DiffRequest::CopyToClipboard(text));
    }

    /// Reports that copying failed.
    pub fn copy_failed(&mut self, err: &str)
        ensures
            old(self).asks(
                *old(self),
                seq![
                    DiffRequestView::ShowErrorMsg(
                        error_text("copy to clipboard error:"@, err@),
                    ),
                ],
                *final(self),
            ),
    {
        self.ask(DiffRequest::ShowErrorMsg(error_message("copy to clipboard error:", err)));
    }

    /// Asks for a refresh of everything.
    pub fn queue_update(&mut self)
        ensures
            old(self).asks(*old(self), seq![DiffRequestView::UpdateAll], *final(self)),
    {
        self.ask(DiffRequest::UpdateAll);
    }

    /// Takes the outcome of staging or unstaging a hunk or a file.
    pub fn hunk_staged(&mut self, outcome: Result<(), String>)
        ensures
            old(self).asks(
                *old(self),
                seq![
                    match outcome {
                        Ok(_) => DiffRequestView::UpdateAll,
                        Err(err) => DiffRequestView::ShowErrorMsg(
                            error_text("hunk error:"@, err@),
                        ),
                    },
                ],
                *final(self),
            ),
    {
        match outcome {
            Ok(_) => self.queue_update(),
            Err(err) => {
                self.ask(DiffRequest::ShowErrorMsg(error_message("hunk error:", err.as_str())));
            },
        }
    }

    /// Takes the outcome of staging or unstaging lines.
    pub fn lines_staged(&mut self, outcome: Result<(), String>)
        ensures
            old(self).asks(
                *old(self),
                match outcome {
                    Ok(_) => seq![DiffRequestView::UpdateAll],
                    Err(err) => seq![
                        DiffRequestView::ShowErrorMsg(error_text("(un)stage lines:"@, err@)),
                        DiffRequestView::UpdateAll,
                    ],
                },
                *final(self),
            ),
    {
        if let Err(err) = outcome {
            self.ask(
                DiffRequest::ShowErrorMsg(error_message("(un)stage lines:", err.as_str())),
            );
            self.queue_update();
            assert(request_views(self.requests@) =~= request_views(old(self).requests@) + seq![
                DiffRequestView::ShowErrorMsg(error_text("(un)stage lines:"@, err@)),
                DiffRequestView::UpdateAll,
            ]);
        } else {
            self.queue_update();
        }
    }

    /// Whether a hunk at lines `hunk_min..hunk_max` shows in `min..max`.
    pub fn hunk_visible(hunk_min: usize, hunk_max: usize, min: usize, max: usize) -> (yes: bool)
        ensures
            yes == ({
                ||| hunk_min <= min && max <= hunk_max
                ||| min <= hunk_min <= max
                ||| min <= hunk_max <= max
            }),
    {
        // full overlap
        if hunk_min <= min && hunk_max >= max {
            return true;
        }
        // partly overlap
        if (hunk_min >= min && hunk_min <= max) || (hunk_max >= min && hunk_max <= max) {
            return true;
        }
        false
    }

    /// Asks to unstage the selected hunk.
    pub fn unstage_hunk(&mut self)
        requires
            old(self).wf(),
        ensures
            old(self).asks(*old(self), old(self).unstage_requests(), *final(self)),
    {
        assert(request_views(self.requests@) + Seq::<DiffRequestView>::empty() =~= request_views(
            self.requests@,
        ));
        let request = match (&self.diff, self.selected_hunk) {
            (Some(diff), Some(hunk)) => DiffRequest::UnstageHunk {
                path: self.current.path.clone(),
                hash: diff.hunks[hunk].header_hash,
            },
            _ => {
                return ;
            },
        };
        self.ask(request);
    }

    /// Asks to stage the selected hunk, or the file where it is untracked.
    pub fn stage_hunk(&mut self)
        requires
            old(self).wf(),
        ensures
            old(self).asks(*old(self), old(self).stage_requests(), *final(self)),
    {
        assert(request_views(self.requests@) + Seq::<DiffRequestView>::empty() =~= request_views(
            self.requests@,
        ));
        let request = match (&self.diff, self.selected_hunk) {
            (Some(diff), Some(hunk)) => if diff.untracked {
                DiffRequest::StageFile { path: self.current.path.clone() }
            } else {
                DiffRequest::StageHunk {
                    path: self.current.path.clone(),
                    hash: diff.hunks[hunk].header_hash,
                }
            },
            _ => {
                return ;
            },
        };
        self.ask(request);
    }

    /// Asks to unstage the selected hunk of the stage, or to stage it.
    pub fn stage_unstage_hunk(&mut self)
        requires
            old(self).wf(),
        ensures
            old(self).asks(*old(self), old(self).stage_unstage_requests(), *final(self)),
    {
        if self.current.is_stage {
            self.unstage_hunk();
        } else {
            self.stage_hunk();
        }
    }

    /// Asks to revert the selected hunk.
    pub fn reset_hunk(&mut self)
        requires
            old(self).wf(),
        ensures
            old(self).asks(*old(self), old(self).reset_hunk_requests(), *final(self)),
    {
        assert(request_views(self.requests@) + Seq::<DiffRequestView>::empty() =~= request_views(
            self.requests@,
        ));
        let request = match (&self.diff, self.selected_hunk) {
            (Some(diff), Some(hunk)) => DiffRequest::ConfirmResetHunk {
                path: self.current.path.clone(),
                hash: diff.hunks[hunk].header_hash,
            },
            _ => {
                return ;
            },
        };
        self.ask(request);
    }

    /// Asks to revert the untracked file.
    pub fn reset_untracked(&mut self)
        ensures
            old(self).asks(
                *old(self),
                seq![DiffRequestView::ConfirmReset { path: old(self).current.path@ }],
                *final(self),
            ),
    {
        let request = DiffRequest::ConfirmReset { path: self.current.path.clone() };
        self.ask(request);
    }

    /// The positions of the selected additions and deletions.
    pub fn selected_lines(&self) -> (positions: Vec<DiffLinePosition>)
        ensures
            positions@ == self.changes(),
    {
        let mut positions: Vec<DiffLinePosition> = Vec::new();
        if let Some(diff) = &self.diff {
            let flat = flat_diff_lines(diff);
            let mut i: usize = 0;
            assert(diff.flat().take(0) =~= Seq::<DiffLine>::empty());
            while i < flat.len()
                invariant
                    i <= flat@.len(),
                    flat@.len() == diff.flat().len(),
                    forall|k: int| 0 <= k < flat@.len() ==> *#[trigger] flat@[k] == diff.flat()[k],
                    positions@ == selected_changes(diff.flat().take(i as int), self.selection),
                decreases flat@.len() - i,
            {
                assert(diff.flat().take(i + 1).drop_last() =~= diff.flat().take(i as int));
                assert(*flat@[i as int] == diff.flat()[i as int]);
                let line = flat[i];
                let is_add_or_delete = line.line_type == DiffLineType::Add || line.line_type
                    == DiffLineType::Delete;
                if self.selection.contains(i) && is_add_or_delete {
                    positions.push(line.position);
                }
                i += 1;
            }
            assert(diff.flat().take(i as int) =~= diff.flat());
        }
        positions
    }

    /// Asks to revert the selected lines.
    pub fn reset_lines(&mut self)
        ensures
            old(self).asks(
                *old(self),
                seq![
                    DiffRequestView::ConfirmResetLines {
                        path: old(self).current.path@,
                        lines: old(self).changes(),
                    },
                ],
                *final(self),
            ),
    {
        let request = DiffRequest::ConfirmResetLines {
            path: self.current.path.clone(),
            lines: self.selected_lines(),
        };
        self.ask(request);
    }

    /// Asks to stage or unstage the selected lines of a tracked file.
    pub fn stage_lines(&mut self)
        ensures
            old(self).asks(*old(self), old(self).stage_lines_requests(), *final(self)),
    {
        assert(request_views(self.requests@) + Seq::<DiffRequestView>::empty() =~= request_views(
            self.requests@,
        ));
        let untracked = match &self.diff {
            Some(diff) => diff.untracked,
            None => {
                return ;
            },
        };
        if !untracked {
            let request = DiffRequest::StageLines {
                path: self.current.path.clone(),
                is_stage: self.is_stage(),
                lines: self.selected_lines(),
            };
            self.ask(request);
        }
    }

    /// The hunk that a jump by `direction` hunks leads to.
    pub fn calc_hunk_move_target(&self, direction: isize) -> (target: Option<usize>)
        requires
            self.wf(),
        ensures
            target == self.hunk_target(direction as int),
    {
        let diff = match &self.diff {
            Some(diff) => diff,
            None => {
                return None;
            },
        };
        if diff.hunks.len() == 0 {
            return None;
        }
        let max: usize = diff.hunks.len() - 1;
        match self.selected_hunk {
            Some(i) => {
                let target = if direction >= 0 {
                    i.saturating_add(magnitude(direction))
                } else {
                    i.saturating_sub(magnitude(direction))
                };
                Some(smaller(max, target))
            },
            None => Some(0),
        }
    }

    /// The flat line at which hunk `index` starts.
    fn start_of_hunk(diff: &crate::diff::FileDiff, index: usize) -> (line: usize)
        requires
            index < diff.hunks@.len(),
            diff.flat().len() <= usize::MAX,
        ensures
            line == hunk_start(diff.hunks@, index as int),
    {
        let mut line: usize = 0;
        let mut i: usize = 0;
        assert(diff.hunks@.take(0) =~= Seq::<Hunk>::empty());
        while i < index
            invariant
                i <= index < diff.hunks@.len(),
                diff.flat().len() <= usize::MAX,
                line == hunk_start(diff.hunks@, i as int),
            decreases index - i,
        {
            proof {
                lemma_flat_hunk(diff.hunks@, i as int);
            }
            line = line + diff.hunks[i].lines.len();
            i += 1;
        }
        line
    }

    /// Jumps by `direction` hunks.
    pub fn diff_hunk_move_up_down(&mut self, direction: isize)
        requires
            old(self).wf(),
        ensures
            final(self).wf(),
            old(self).jumped(direction as int, *final(self)),
    {
        let hunk_index = match self.calc_hunk_move_target(direction) {
            Some(index) => index,
            None => {
                return ;
            },
        };
        // return if selected_hunk not change
        if let Some(selected) = self.selected_hunk {
            if selected == hunk_index {
                return ;
            }
        }
        let height: usize = self.current_size.1 as usize;
        if let Some(diff) = &self.diff {
            let line_index = Self::start_of_hunk(diff, hunk_index);
            proof {
                lemma_flat_hunk(diff.hunks@, hunk_index as int);
            }
            let end = line_index.saturating_add(diff.hunks[hunk_index].lines.len());
            self.selection = Selection::Single(line_index);
            self.selected_hunk = Some(hunk_index);
            self.ask(DiffRequest::MoveAreaToVisible { height, start: line_index, end });
        }
    }

    /// Whether the staged changes of the file are shown.
    pub fn is_stage(&self) -> (yes: bool)
        ensures
            yes == self.current.is_stage,
    {
        self.current.is_stage
    }
}

impl Default for DiffKeys {
    /// No binding matches.
    fn default() -> (keys: Self)
        ensures
            keys == (DiffKeys {
                move_down: false,
                shift_down: false,
                shift_up: false,
                end: false,
                home: false,
                move_up: false,
                page_up: false,
                page_down: false,
                move_right: false,
                move_left: false,
                diff_hunk_next: false,
                diff_hunk_prev: false,
                edit_file: false,
                stage_unstage_item: false,
                status_reset_item: false,
                diff_stage_lines: false,
                diff_reset_lines: false,
                copy: false,
                diff_toggle_syntax: false,
                diff_toggle_split: false,
            }),
    {
        DiffKeys {
            move_down: false,
            shift_down: false,
            shift_up: false,
            end: false,
            home: false,
            move_up: false,
            page_up: false,
            page_down: false,
            move_right: false,
            move_left: false,
            diff_hunk_next: false,
            diff_hunk_prev: false,
            edit_file: false,
            stage_unstage_item: false,
            status_reset_item: false,
            diff_stage_lines: false,
            diff_reset_lines: false,
            copy: false,
            diff_toggle_syntax: false,
            diff_toggle_split: false,
        }
    }
}

impl DiffComponent {
    /// What a key event does.
    pub fn action_of(&self, keys: &DiffKeys) -> (action: Option<DiffAction>)
        ensures
            action == self.action_for(*keys),
    {
        if keys.move_down {
            Some(DiffAction::Move(ScrollType::Down))
        } else if keys.shift_down {
            Some(DiffAction::Extend(Direction::Down))
        } else if keys.shift_up {
            Some(DiffAction::Extend(Direction::Up))
        } else if keys.end {
            Some(DiffAction::Move(ScrollType::End))
        } else if keys.home {
            Some(DiffAction::Move(ScrollType::Home))
        } else if keys.move_up {
            Some(DiffAction::Move(ScrollType::Up))
        } else if keys.page_up {
            Some(DiffAction::Move(ScrollType::PageUp))
        } else if keys.page_down {
            Some(DiffAction::Move(ScrollType::PageDown))
        } else if keys.move_right {
            Some(DiffAction::ScrollRight)
        } else if keys.move_left {
            Some(DiffAction::ScrollLeft)
        } else if keys.diff_hunk_next && self.is_unified() {
            Some(DiffAction::NextHunk)
        } else if keys.diff_hunk_prev && self.is_unified() {
            Some(DiffAction::PrevHunk)
        } else if keys.edit_file && self.can_edit_file() {
            Some(DiffAction::EditFile)
        } else if keys.stage_unstage_item && !self.is_immutable && self.is_unified() {
            Some(DiffAction::StageUnstageHunk)
        } else if keys.status_reset_item && !self.is_immutable && !self.is_stage()
            && self.is_unified() {
            Some(DiffAction::ResetItem)
        } else if keys.diff_stage_lines && !self.is_immutable && self.is_unified() {
            Some(DiffAction::StageLines)
        } else if keys.diff_reset_lines && !self.is_immutable && !self.is_stage()
            && self.is_unified() {
            Some(DiffAction::ResetLines)
        } else if keys.copy {
            Some(DiffAction::Copy)
        } else if keys.diff_toggle_syntax {
            Some(DiffAction::CycleSyntax)
        } else if keys.diff_toggle_split {
            Some(DiffAction::ToggleSplit)
        } else {
            None
        }
    }

    /// Performs an action.
    fn perform(&mut self, action: DiffAction)
        requires
            old(self).wf(),
        ensures
            final(self).wf(),
            old(self).performs(action, *final(self)),
    {
        assert(request_views(self.requests@) + Seq::<DiffRequestView>::empty() =~= request_views(
            self.requests@,
        ));
        match action {
            DiffAction::Move(move_type) => self.move_selection(move_type),
            DiffAction::Extend(direction) => self.modify_selection(direction),
            DiffAction::ScrollRight => self.ask(DiffRequest::ScrollRight),
            DiffAction::ScrollLeft => self.ask(DiffRequest::ScrollLeft),
            DiffAction::NextHunk => self.diff_hunk_move_up_down(1),
            DiffAction::PrevHunk => self.diff_hunk_move_up_down(-1),
            DiffAction::EditFile => {
                let path = self.current.path.clone();
                self.ask(DiffRequest::OpenExternalEditor(path));
            },
            DiffAction::StageUnstageHunk => self.stage_unstage_hunk(),
            DiffAction::ResetItem => {
                let untracked = match &self.diff {
                    Some(diff) => Some(diff.untracked),
                    None => None,
                };
                if let Some(untracked) = untracked {
                    if untracked {
                        self.reset_untracked();
                    } else {
                        self.reset_hunk();
                    }
                }
            },
            DiffAction::StageLines => self.stage_lines(),
            DiffAction::ResetLines => {
                let untracked = match &self.diff {
                    Some(diff) => diff.untracked,
                    None => true,
                };
                if !untracked {
                    self.reset_lines();
                }
            },
            DiffAction::Copy => self.copy_selection(),
            DiffAction::CycleSyntax => self.ask(DiffRequest::CycleHighlightStyle),
            DiffAction::ToggleSplit => {
                self.settings.split = !self.settings.split;
                self.clamp_selection_to_mode();
            },
        }
    }

    /// Handles an event: the bindings that it matches if it is a key event,
    /// or else nothing. Without the focus nothing is handled.
    pub fn event(&mut self, ev: Option<&DiffKeys>) -> (state: EventState)
        requires
            old(self).wf(),
        ensures
            final(self).wf(),
            match old(self).handled(ev) {
                Some(action) => state == EventState::Consumed && old(self).performs(
                    action,
                    *final(self),
                ),
                None => state == EventState::NotConsumed && *final(self) == *old(self),
            },
    {
        if self.focused() {
            if let Some(keys) = ev {
                if let Some(action) = self.action_of(keys) {
                    self.perform(action);
                    return EventState::Consumed;
                }
            }
        }
        EventState::NotConsumed
    }

    /// The commands that the view offers, appended to `out`.
    /// They are the same whether all commands are asked for or not, and never
    /// hide those of what lies below.
    pub fn commands(&self, out: &mut Vec<DiffCommandInfo>, force_all: bool) -> (blocking:
        CommandBlocking)
        requires
            self.wf(),
        ensures
            final(out)@ == old(out)@ + self.command_list(),
            blocking == CommandBlocking::PassingOn,
    {
        let focused = self.focused();
        let staged = self.is_stage();
        out.push(command_info(DiffCommand::Scroll, self.can_scroll(), focused));
        out.push(
            command_info(
                DiffCommand::HunkNext,
                self.calc_hunk_move_target(1) != self.selected_hunk,
                focused && self.is_unified(),
            ),
        );
        out.push(
            command_info(
                DiffCommand::HunkPrev,
                self.calc_hunk_move_target(-1) != self.selected_hunk,
                focused && self.is_unified(),
            ),
        );
        out.push(
            DiffCommandInfo {
                command: DiffCommand::HomeEnd,
                enabled: self.can_scroll(),
                available: focused,
                hidden: true,
            },
        );
        // editing is orthogonal to the view mode, so it stays available in
        // the split view; only staging is unified-only
        if !self.is_immutable {
            out.push(
                command_info(
                    DiffCommand::EditItem,
                    self.can_edit_file(),
                    focused && self.can_edit_file(),
                ),
            );
        }
        if !self.is_immutable && self.is_unified() {
            let hunk = self.selected_hunk.is_some();
            out.push(command_info(DiffCommand::HunkRemove, hunk, focused && staged));
            out.push(command_info(DiffCommand::HunkAdd, hunk, focused && !staged));
            out.push(command_info(DiffCommand::HunkRevert, hunk, focused && !staged));
            out.push(command_info(DiffCommand::LinesRevert, true, focused && !staged));
            out.push(command_info(DiffCommand::LinesStage, true, focused && !staged));
            out.push(command_info(DiffCommand::LinesUnstage, true, focused && staged));
        }
        out.push(command_info(DiffCommand::Copy, true, focused));
        out.push(command_info(DiffCommand::ToggleSyntax, true, focused));
        out.push(command_info(DiffCommand::ToggleSplit(self.is_split()), true, focused));
        assert(out@ =~= old(out)@ + self.command_list());
        CommandBlocking::PassingOn
    }

    pub fn focused(&self) -> (yes: bool)
        ensures
            yes == self.focused,
    {
        self.focused
    }

    pub fn focus(&mut self, focus: bool)
        ensures
            *final(self) == (DiffComponent { focused: focus, ..*old(self) }),
    {
        self.focused = focus;
    }
}

/// The split view changes nothing: it never stages, reverts or jumps between
/// hunks.
pub proof fn law_split_view_is_view_only(component: DiffComponent, keys: DiffKeys)
    requires
        component.settings.split,
    ensures
        component.action_for(keys) matches Some(action) ==> !(action is NextHunk
            || action is PrevHunk || action is StageUnstageHunk || action is ResetItem
            || action is StageLines || action is ResetLines),
{
}

/// An immutable diff is never edited, staged or reverted.
pub proof fn law_immutable_diff_is_not_changed(component: DiffComponent, keys: DiffKeys)
    requires
        component.is_immutable,
    ensures
        component.action_for(keys) matches Some(action) ==> !(action is EditFile
            || action is StageUnstageHunk || action is ResetItem || action is StageLines
            || action is ResetLines),
{
}

/// Staged changes are never reverted.
pub proof fn law_stage_is_not_reverted(component: DiffComponent, keys: DiffKeys)
    requires
        component.current.is_stage,
    ensures
        component.action_for(keys) matches Some(action) ==> !(action is ResetItem
            || action is ResetLines),
{
}

/// A jump selects the first line of the hunk that it selects, so that the hunk
/// of the selected line is the selected hunk, unless the hunk is empty.
pub proof fn law_jump_selects_a_line_of_the_hunk(
    before: DiffComponent,
    direction: int,
    after: DiffComponent,
)
    requires
        before.wf(),
        before.jumped(direction, after),
        after.selected_hunk != before.selected_hunk,
        after.diff->0.hunks@[after.selected_hunk->0 as int].lines@.len() > 0,
    ensures
        hunk_of_line(after.diff->0.hunks@, after.selection.end() as int) == after.selected_hunk,
{
    let hunks = after.diff->0.hunks@;
    let target = after.selected_hunk->0 as int;
    lemma_flat_hunk(hunks, target);
    lemma_hunk_of_line(hunks, target, hunk_start(hunks, target) as int);
}

/// Jumping to the next hunk and back selects the hunk that was selected,
/// unless the last hunk was.
pub proof fn law_jumping_back_undoes_a_jump(
    before: DiffComponent,
    jumped: DiffComponent,
    after: DiffComponent,
)
    requires
        before.wf(),
        before.selected_hunk is Some,
        before.selected_hunk->0 + 1 < before.diff->0.hunks@.len(),
        before.jumped(1, jumped),
        jumped.jumped(-1, after),
    ensures
        jumped.selected_hunk == Some((before.selected_hunk->0 + 1) as usize),
        after.selected_hunk == before.selected_hunk,
{
    assert(before.diff->0.hunks.len() <= usize::MAX);
}

/// Switching to the other view leaves the selection within the rows of that
/// view, and keeps it as it is where it fits both views.
pub proof fn law_toggling_keeps_the_selection_in_view(component: DiffComponent)
    requires
        component.wf(),
        component.diff is Some,
    ensures
        component.toggled().selection.bottom() <= component.toggled().last_row(),
        component.selection.bottom() <= component.toggled().last_row() ==> {
            &&& component.toggled().selection.start() == component.selection.start()
            &&& component.toggled().selection.end() == component.selection.end()
        },
{
}

/// Wherever a move leads, the selected row is one that the view has (or the
/// first one of an empty view), and in the unified view the selected hunk is
/// the one that holds it.
pub proof fn law_moving_stays_in_view(component: DiffComponent, move_type: ScrollType)
    requires
        component.wf(),
        component.diff is Some,
    ensures
        ({
            let after = component.selecting(component.move_target(move_type));
            &&& 0 <= after.selection.end() <= component.last_row()
            &&& !component.settings.split ==> after.selected_hunk == hunk_of_line(
                component.diff->0.hunks@,
                after.selection.end() as int,
            )
        }),
{
    crate::split::law_row_count(component.diff->0.types());
}

proof fn lemma_copied_row(rows: Seq<SplitRow>, lines: Seq<DiffLine>, r: usize)
    ensures
        copied_rows(rows, lines, Selection::Single(r)) == (if r < rows.len() && (preferred(
            rows[r as int],
        ) matches Some(i) && i < lines.len()) {
            seq![without_line_ends(lines[preferred(rows[r as int])->0 as int].content@)]
        } else {
            Seq::empty()
        }),
    decreases rows.len(),
{
    if rows.len() > 0 {
        lemma_copied_row(rows.drop_last(), lines, r);
        assert(copied_rows(rows, lines, Selection::Single(r)) =~= (if r < rows.len() && (preferred(
            rows[r as int],
        ) matches Some(i) && i < lines.len()) {
            seq![without_line_ends(lines[preferred(rows[r as int])->0 as int].content@)]
        } else {
            Seq::empty()
        }));
    }
}

proof fn lemma_copied_line(lines: Seq<DiffLine>, i: usize)
    ensures
        copied_lines(lines, Selection::Single(i)) == (if i < lines.len() {
            seq![without_line_ends(lines[i as int].content@)]
        } else {
            Seq::empty()
        }),
    decreases lines.len(),
{
    if lines.len() > 0 {
        lemma_copied_line(lines.drop_last(), i);
        assert(copied_lines(lines, Selection::Single(i)) =~= (if i < lines.len() {
            seq![without_line_ends(lines[i as int].content@)]
        } else {
            Seq::empty()
        }));
    }
}

/// Copying a row of the split view copies the line on its new side, or the one
/// on its old side where there is no new one.
pub proof fn law_copy_prefers_the_new_side(component: DiffComponent, row: usize)
    requires
        component.wf(),
        component.diff is Some,
        component.settings.split,
        component.selection == Selection::Single(row),
        row < component.split_rows@.len(),
    ensures
        preferred(component.split_rows@[row as int]) matches Some(i) && i < component.diff->0.flat()
            .len() && component.copied_text() == without_line_ends(
            component.diff->0.flat()[i as int].content@,
        ),
{
    let diff = component.diff->0;
    law_rows_are_in_order(diff.types());
    let rows = component.split_rows@;
    assert(rows[row as int].left is Some || rows[row as int].right is Some);
    lemma_copied_row(rows, diff.flat(), row);
}

/// Copying a line of the unified view copies that line, without its line end.
pub proof fn law_copy_takes_the_selected_line(component: DiffComponent, line: usize)
    requires
        component.diff is Some,
        !component.settings.split,
        component.selection == Selection::Single(line),
        line < component.diff->0.flat().len(),
    ensures
        component.copied_text() == without_line_ends(
            component.diff->0.flat()[line as int].content@,
        ),
{
    lemma_copied_line(component.diff->0.flat(), line);
}

} // verus!
