//! The state of the diff view: what is shown, what is selected, and what it
//! asks of the application around it.
use vstd::prelude::*;

use crate::diff::{DiffLinePosition, DiffLineType, FileDiff};
#[allow(unused_imports)]
use crate::diff::{
    flat_lines, hunk_start, lemma_flat_hunk, lemma_hunk_start_monotonic, DiffLine, FileDiffView,
    Hunk,
};
use crate::render::LineHighlight;
use crate::selection::{greater, smaller, Direction, ScrollType, Selection};
#[allow(unused_imports)]
use crate::selection::{max, min, minus};
use crate::split::{build_split_rows, SplitRow};
#[allow(unused_imports)]
use crate::split::{law_row_count, split_rows};
use crate::text::{len_in_bytes, tabs_to_spaces};
#[allow(unused_imports)]
use crate::text::{byte_len, expand_tabs};

verus! {

/// What the syntax highlighting of a diff shows.
#[derive(Clone, Copy, PartialEq, Eq, Debug, Structural)]
pub struct HighlightStyle {
    /// Whether lines are highlighted at all.
    pub on: bool,
    /// Whether the gutter takes the colour of the line type.
    pub color_gutter: bool,
    /// Whether a sign stands before each line.
    pub shows_sign: bool,
    /// Whether changed lines are tinted.
    pub shows_tint: bool,
}

/// What the diff view takes from the application's options and theme.
#[derive(Debug)]
pub struct DiffSettings {
    /// Whether the split (side-by-side) view is active.
    pub split: bool,
    pub style: HighlightStyle,
    /// What stands for an empty changed line.
    pub line_break: String,
}

/// The file that is shown.
#[derive(Debug)]
pub struct Current {
    pub path: String,
    pub is_stage: bool,
    pub hash: u64,
}

/// What the diff view asks of the application.
#[derive(Debug)]
pub enum DiffRequest {
    /// Open the file in an external editor.
    OpenExternalEditor(String),
    /// Refresh everything.
    UpdateAll,
    ShowErrorMsg(String),
    /// Ask for confirmation, then revert a hunk.
    ConfirmResetHunk { path: String, hash: u64 },
    /// Ask for confirmation, then revert lines.
    ConfirmResetLines { path: String, lines: Vec<DiffLinePosition> },
    /// Ask for confirmation, then revert a file.
    ConfirmReset { path: String },
    StageHunk { path: String, hash: u64 },
    UnstageHunk { path: String, hash: u64 },
    StageFile { path: String },
    /// Stage lines, or unstage them where the diff is that of the stage.
    StageLines { path: String, is_stage: bool, lines: Vec<DiffLinePosition> },
    CopyToClipboard(String),
    ResetVerticalScroll,
    ResetHorizontalScroll,
    ScrollRight,
    ScrollLeft,
    /// Scroll vertically so that rows `start..end` show in `height` rows.
    MoveAreaToVisible { height: usize, start: usize, end: usize },
    /// Highlight the lines of the diff with the given hash.
    SpawnHighlight { hash: u64, input: Vec<(String, DiffLineType)>, path: String },
    CancelHighlight,
    /// Switch the shared option to the next highlight style.
    CycleHighlightStyle,
}

/// What a request says.
pub enum DiffRequestView {
    OpenExternalEditor(Seq<char>),
    UpdateAll,
    ShowErrorMsg(Seq<char>),
    ConfirmResetHunk { path: Seq<char>, hash: u64 },
    ConfirmResetLines { path: Seq<char>, lines: Seq<DiffLinePosition> },
    ConfirmReset { path: Seq<char> },
    StageHunk { path: Seq<char>, hash: u64 },
    UnstageHunk { path: Seq<char>, hash: u64 },
    StageFile { path: Seq<char> },
    StageLines { path: Seq<char>, is_stage: bool, lines: Seq<DiffLinePosition> },
    CopyToClipboard(Seq<char>),
    ResetVerticalScroll,
    ResetHorizontalScroll,
    ScrollRight,
    ScrollLeft,
    MoveAreaToVisible { height: usize, start: usize, end: usize },
    SpawnHighlight { hash: u64, input: Seq<(Seq<char>, DiffLineType)>, path: Seq<char> },
    CancelHighlight,
    CycleHighlightStyle,
}

/// What highlight lines say.
pub open spec fn typed_lines(
    lines: Seq<(String, DiffLineType)>,
) -> Seq<(Seq<char>, DiffLineType)> {
    Seq::new(lines.len(), |i: int| (lines[i].0@, lines[i].1))
}

impl View for DiffRequest {
    type V = DiffRequestView;

    open spec fn view(&self) -> DiffRequestView {
        match *self {
            DiffRequest::OpenExternalEditor(path) => DiffRequestView::OpenExternalEditor(path@),
            DiffRequest::UpdateAll => DiffRequestView::UpdateAll,
            DiffRequest::ShowErrorMsg(msg) => DiffRequestView::ShowErrorMsg(msg@),
            DiffRequest::ConfirmResetHunk { path, hash } => DiffRequestView::ConfirmResetHunk {
                path: path@,
                hash,
            },
            DiffRequest::ConfirmResetLines { path, lines } => DiffRequestView::ConfirmResetLines {
                path: path@,
                lines: lines@,
            },
            DiffRequest::ConfirmReset { path } => DiffRequestView::ConfirmReset { path: path@ },
            DiffRequest::StageHunk { path, hash } => DiffRequestView::StageHunk {
                path: path@,
                hash,
            },
            DiffRequest::UnstageHunk { path, hash } => DiffRequestView::UnstageHunk {
                path: path@,
                hash,
            },
            DiffRequest::StageFile { path } => DiffRequestView::StageFile { path: path@ },
            DiffRequest::StageLines { path, is_stage, lines } => DiffRequestView::StageLines {
                path: path@,
                is_stage,
                lines: lines@,
            },
            DiffRequest::CopyToClipboard(text) => DiffRequestView::CopyToClipboard(text@),
            DiffRequest::ResetVerticalScroll => DiffRequestView::ResetVerticalScroll,
            DiffRequest::ResetHorizontalScroll => DiffRequestView::ResetHorizontalScroll,
            DiffRequest::ScrollRight => DiffRequestView::ScrollRight,
            DiffRequest::ScrollLeft => DiffRequestView::ScrollLeft,
            DiffRequest::MoveAreaToVisible { height, start, end } => {
                DiffRequestView::MoveAreaToVisible { height, start, end }
            },
            DiffRequest::SpawnHighlight { hash, input, path } => DiffRequestView::SpawnHighlight {
                hash,
                input: typed_lines(input@),
                path: path@,
            },
            DiffRequest::CancelHighlight => DiffRequestView::CancelHighlight,
            DiffRequest::CycleHighlightStyle => DiffRequestView::CycleHighlightStyle,
        }
    }
}

/// What a list of requests says.
pub open spec fn request_views(requests: Seq<DiffRequest>) -> Seq<DiffRequestView> {
    Seq::new(requests.len(), |i: int| requests[i]@)
}

/// The diff view.
#[derive(Debug)]
pub struct DiffComponent {
    pub diff: Option<FileDiff>,
    pub longest_line: usize,
    pub longest_split_line: usize,
    pub split_rows: Vec<SplitRow>,
    pub pending: bool,
    pub selection: Selection,
    pub selected_hunk: Option<usize>,
    /// Inner width and height at the last draw.
    pub current_size: (u16, u16),
    pub focused: bool,
    pub current: Current,
    pub is_immutable: bool,
    pub settings: DiffSettings,
    pub syntax_highlight: Vec<Option<LineHighlight>>,
    /// What was asked of the application and not taken yet, oldest first.
    pub requests: Vec<DiffRequest>,
}

/// The longest of `lines` in bytes with its tabs expanded, and one more for
/// the bar that stands to the left of each hunk; zero without lines.
pub open spec fn longest_of(lines: Seq<DiffLine>) -> nat
    decreases lines.len(),
{
    if lines.len() == 0 {
        0
    } else {
        max(
            longest_of(lines.drop_last()) as int,
            byte_len(expand_tabs(lines.last().content@)) as int + 1,
        ) as nat
    }
}

impl FileDiff {
    /// Whether line numbers and line lengths of the diff fit the machine.
    pub open spec fn fits(&self) -> bool {
        &&& self.flat().len() < usize::MAX
        &&& self.lines < usize::MAX
        &&& forall|i: int|
            0 <= i < self.flat().len() ==> byte_len(
                expand_tabs((#[trigger] self.flat()[i]).content@),
            ) < usize::MAX
    }
}

/// Whether flat line `line` belongs to hunk `i`.
pub open spec fn line_in_hunk(hunks: Seq<Hunk>, i: int, line: int) -> bool {
    0 <= i < hunks.len() && hunk_start(hunks, i) <= line < hunk_start(hunks, i + 1)
}

/// The hunk that holds flat line `line`.
pub open spec fn hunk_of_line(hunks: Seq<Hunk>, line: int) -> Option<usize> {
    if exists|i: int| #[trigger] line_in_hunk(hunks, i, line) {
        Some((choose|i: int| #[trigger] line_in_hunk(hunks, i, line)) as usize)
    } else {
        None
    }
}

/// A line belongs to one hunk only.
pub proof fn lemma_hunk_of_line(hunks: Seq<Hunk>, i: int, line: int)
    requires
        line_in_hunk(hunks, i, line),
    ensures
        hunk_of_line(hunks, line) == Some(i as usize),
{
    let j = choose|j: int| #[trigger] line_in_hunk(hunks, j, line);
    if i < j {
        lemma_hunk_start_monotonic(hunks, i + 1, j);
    } else if j < i {
        lemma_hunk_start_monotonic(hunks, j + 1, i);
    }
}

/// Lines beyond the end of the diff belong to no hunk; all others do.
pub proof fn law_every_line_has_a_hunk(hunks: Seq<Hunk>, line: int)
    requires
        0 <= line,
        hunks.len() <= usize::MAX,
    ensures
        hunk_of_line(hunks, line) is Some <==> line < flat_lines(hunks).len(),
        hunk_of_line(hunks, line) matches Some(i) ==> line_in_hunk(hunks, i as int, line),
{
    assert(hunks.take(hunks.len() as int) =~= hunks);
    assert(hunks.take(0) =~= Seq::<Hunk>::empty());
    if line < flat_lines(hunks).len() {
        let i = lemma_hunk_exists(hunks, line, hunks.len() as int);
        lemma_hunk_of_line(hunks, i, line);
    }
    if exists|i: int| #[trigger] line_in_hunk(hunks, i, line) {
        let i = choose|i: int| #[trigger] line_in_hunk(hunks, i, line);
        lemma_hunk_start_monotonic(hunks, i + 1, hunks.len() as int);
    }
}

proof fn lemma_hunk_exists(hunks: Seq<Hunk>, line: int, n: int) -> (i: int)
    requires
        0 <= n <= hunks.len(),
        0 <= line < hunk_start(hunks, n),
    ensures
        line_in_hunk(hunks, i, line),
    decreases n,
{
    if n == 0 {
        assert(hunks.take(0) =~= Seq::<Hunk>::empty());
        0
    } else if line >= hunk_start(hunks, n - 1) {
        n - 1
    } else {
        lemma_hunk_exists(hunks, line, n - 1)
    }
}

/// The hash of a diff, by `BuildHasher::hash_one` with the default hasher in
/// its initial state, as the build at hand computes it.
pub uninterp spec fn hash_of_diff(diff: FileDiffView) -> u64;

/// The hash of a diff, by `BuildHasher::hash_one` with the default hasher in
/// its initial state, which no process seeds. It depends on what the diff says
/// alone; the algorithm and the width of a pointer are those of the build.
#[verifier::external_body]
fn diff_hash(diff: &FileDiff) -> (hash: u64)
    ensures
        hash == hash_of_diff(diff@),
{
    std::hash::BuildHasher::hash_one(
        &std::hash::BuildHasherDefault::<std::collections::hash_map::DefaultHasher>::default(),
        diff,
    )
}

/// The length of the longest line, counted as [`longest_of`] says.
fn measure_longest_line(diff: &FileDiff) -> (longest: usize)
    requires
        diff.fits(),
    ensures
        longest == longest_of(diff.flat()),
{
    let lines = crate::diff::flat_diff_lines(diff);
    let mut longest: usize = 0;
    let mut i: usize = 0;
    assert(diff.flat().take(0) =~= Seq::<DiffLine>::empty());
    while i < lines.len()
        invariant
            i <= lines@.len(),
            diff.fits(),
            lines@.len() == diff.flat().len(),
            forall|k: int| 0 <= k < lines@.len() ==> *#[trigger] lines@[k] == diff.flat()[k],
            longest == longest_of(diff.flat().take(i as int)),
        decreases lines@.len() - i,
    {
        let expanded = tabs_to_spaces(lines[i].content.as_str());
        assert(*lines@[i as int] == diff.flat()[i as int]);
        longest = greater(longest, len_in_bytes(expanded.as_str()) + 1);
        assert(diff.flat().take(i + 1).drop_last() =~= diff.flat().take(i as int));
        i += 1;
    }
    assert(diff.flat().take(diff.flat().len() as int) =~= diff.flat());
    longest
}

/// The lines that a highlighter gets for a diff.
pub open spec fn highlight_input(lines: Seq<DiffLine>) -> Seq<(Seq<char>, DiffLineType)> {
    Seq::new(lines.len(), |i: int| (lines[i].content@, lines[i].line_type))
}

/// Up to how many lines a diff is highlighted.
pub const MAX_HIGHLIGHT_LINES: usize = 10_000;

impl DiffComponent {
    /// What holds of the state between calls.
    pub open spec fn wf(&self) -> bool {
        &&& match self.diff {
            Some(diff) => {
                &&& diff.fits()
                &&& self.split_rows@ == split_rows(diff.types())
                &&& self.longest_line == longest_of(diff.flat())
                &&& self.selected_hunk matches Some(h) ==> h < diff.hunks@.len()
            },
            None => {
                &&& self.split_rows@.len() == 0
                &&& self.longest_line == 0
                &&& self.selected_hunk is None
            },
        }
        &&& self.longest_split_line == minus(self.longest_line as int, 1)
        &&& self.selection.start() < usize::MAX
        &&& self.selection.end() < usize::MAX
    }

    /// How many rows can be selected: visual rows in the split view, lines in
    /// the unified view.
    pub open spec fn rows(&self) -> nat {
        if self.settings.split {
            self.split_rows@.len()
        } else {
            match self.diff {
                Some(diff) => diff.lines as nat,
                None => 0,
            }
        }
    }

    /// The last row that can be selected.
    pub open spec fn last_row(&self) -> int {
        minus(self.rows() as int, 1)
    }

    /// The hunk that goes with a selection that ends at `line`; the split
    /// view keeps no selected hunk.
    pub open spec fn hunk_for(&self, line: int) -> Option<usize> {
        match self.diff {
            Some(diff) => if self.settings.split {
                None
            } else {
                hunk_of_line(diff.hunks@, line)
            },
            None => None,
        }
    }

    /// The state with row `line`, or else the last row, selected.
    pub open spec fn selecting(self, line: int) -> DiffComponent {
        match self.diff {
            Some(_) => {
                let row = min(self.last_row(), line);
                DiffComponent {
                    selection: Selection::Single(row as usize),
                    selected_hunk: self.hunk_for(row),
                    ..self
                }
            },
            None => self,
        }
    }

    /// The state with the selection cut down to the rows of the active view.
    pub open spec fn clamped(self) -> DiffComponent {
        match self.diff {
            Some(_) => DiffComponent {
                selection: self.selection.clamped(self.last_row()),
                selected_hunk: self.hunk_for(min(self.selection.end() as int, self.last_row())),
                ..self
            },
            None => self,
        }
    }

    /// The state with the selection extended by one row.
    pub open spec fn extended(self, direction: Direction) -> DiffComponent {
        match self.diff {
            Some(_) => DiffComponent {
                selection: self.selection.extended(direction, self.rows() as int),
                ..self
            },
            None => self,
        }
    }

    /// The row that a move leads to.
    pub open spec fn move_target(&self, move_type: ScrollType) -> int {
        let page = minus(self.current_size.1 as int, 1);
        match move_type {
            ScrollType::Down => min(self.selection.bottom() + 1, usize::MAX as int),
            ScrollType::Up => minus(self.selection.top(), 1),
            ScrollType::Home => 0,
            ScrollType::End => self.last_row(),
            ScrollType::PageDown => min(self.selection.bottom() + page, usize::MAX as int),
            ScrollType::PageUp => minus(self.selection.top(), page),
        }
    }

    /// Whether `after` is `state`, with `new` requests behind those of `self`.
    pub open spec fn asks(
        self,
        state: DiffComponent,
        new: Seq<DiffRequestView>,
        after: DiffComponent,
    ) -> bool {
        &&& after == DiffComponent { requests: after.requests, ..state }
        &&& request_views(after.requests@) == request_views(self.requests@) + new
    }

    /// What starting the highlighting asks for: to cancel it where it is off,
    /// nothing for a missing, binary or overlong diff, else to highlight.
    pub open spec fn highlight_requests(&self) -> Seq<DiffRequestView> {
        if !self.settings.style.on {
            seq![DiffRequestView::CancelHighlight]
        } else {
            match self.diff {
                Some(diff) => if diff.hunks@.len() == 0 || diff.lines > MAX_HIGHLIGHT_LINES {
                    Seq::empty()
                } else {
                    seq![
                        DiffRequestView::SpawnHighlight {
                            hash: self.current.hash,
                            input: highlight_input(diff.flat()),
                            path: self.current.path@,
                        },
                    ]
                },
                None => Seq::empty(),
            }
        }
    }

    /// An empty view.
    pub fn new(settings: DiffSettings, is_immutable: bool) -> (component: Self)
        ensures
            component.wf(),
            component.diff is None,
            !component.pending,
            component.selection == Selection::Single(0),
            component.current_size == (0u16, 0u16),
            !component.focused,
            component.current.path@ == Seq::<char>::empty(),
            !component.current.is_stage,
            component.current.hash == 0,
            component.is_immutable == is_immutable,
            component.settings == settings,
            component.syntax_highlight@.len() == 0,
            component.requests@.len() == 0,
    {
        DiffComponent {
            diff: None,
            longest_line: 0,
            longest_split_line: 0,
            split_rows: Vec::new(),
            pending: false,
            selection: Selection::Single(0),
            selected_hunk: None,
            current_size: (0, 0),
            focused: false,
            current: Current { path: String::new(), is_stage: false, hash: 0 },
            is_immutable,
            settings,
            syntax_highlight: Vec::new(),
            requests: Vec::new(),
        }
    }

    /// Asks something of the application.
    pub(crate) fn ask(&mut self, request: DiffRequest)
        ensures
            old(self).asks(*old(self), seq![request@], *final(self)),
    {
        self.requests.push(request);
        assert(request_views(self.requests@) =~= request_views(old(self).requests@)
            + seq![request@]);
    }

    /// Takes what was asked of the application.
    pub fn take_requests(&mut self) -> (requests: Vec<DiffRequest>)
        ensures
            requests@ == old(self).requests@,
            final(self).requests@.len() == 0,
            *final(self) == (DiffComponent { requests: final(self).requests, ..*old(self) }),
    {
        let mut requests: Vec<DiffRequest> = Vec::new();
        requests.append(&mut self.requests);
        assert(requests@ =~= old(self).requests@);
        requests
    }

    /// Whether there is more than one line to scroll through.
    pub fn can_scroll(&self) -> (yes: bool)
        ensures
            yes == (self.diff matches Some(diff) && diff.lines > 1),
    {
        match &self.diff {
            Some(diff) => diff.lines > 1,
            None => false,
        }
    }

    /// The shown file, and whether its staged changes are shown.
    pub fn current(&self) -> (current: (String, bool))
        ensures
            current.0@ == self.current.path@,
            current.1 == self.current.is_stage,
    {
        (self.current.path.clone(), self.current.is_stage)
    }

    /// Whether the file can be opened in an editor.
    pub fn can_edit_file(&self) -> (yes: bool)
        ensures
            yes == (!self.is_immutable && self.current.path@.len() > 0),
    {
        !self.is_immutable && !self.current.path.as_str().is_empty()
    }

    /// Forgets the diff.
    pub fn clear(&mut self, pending: bool)
        ensures
            final(self).wf(),
            final(self).current.path@ == Seq::<char>::empty(),
            !final(self).current.is_stage,
            final(self).current.hash == 0,
            final(self).syntax_highlight@.len() == 0,
            old(self).asks(
                (DiffComponent {
                    current: final(self).current,
                    diff: None,
                    longest_line: 0,
                    longest_split_line: 0,
                    split_rows: final(self).split_rows,
                    selection: Selection::Single(0),
                    selected_hunk: None,
                    pending,
                    syntax_highlight: final(self).syntax_highlight,
                    ..*old(self)
                }),
                seq![
                    DiffRequestView::ResetVerticalScroll,
                    DiffRequestView::ResetHorizontalScroll,
                    DiffRequestView::CancelHighlight,
                ],
                *final(self),
            ),
    {
        self.current = Current { path: String::new(), is_stage: false, hash: 0 };
        self.diff = None;
        self.longest_line = 0;
        self.longest_split_line = 0;
        self.split_rows.clear();
        self.ask(DiffRequest::ResetVerticalScroll);
        self.ask(DiffRequest::ResetHorizontalScroll);
        self.selection = Selection::Single(0);
        self.selected_hunk = None;
        self.pending = pending;
        self.syntax_highlight.clear();
        self.ask(DiffRequest::CancelHighlight);
        assert(request_views(self.requests@) =~= request_views(old(self).requests@) + seq![
            DiffRequestView::ResetVerticalScroll,
            DiffRequestView::ResetHorizontalScroll,
            DiffRequestView::CancelHighlight,
        ]);
    }

    /// Whether the split (side-by-side) diff view is active.
    pub fn is_split(&self) -> (yes: bool)
        ensures
            yes == self.settings.split,
    {
        self.settings.split
    }

    /// Whether the unified diff view is active (the default). Staging and
    /// hunk-jumping only operate in this mode.
    pub fn is_unified(&self) -> (yes: bool)
        ensures
            yes == !self.settings.split,
    {
        !self.is_split()
    }

    pub fn lines_count(&self) -> (n: usize)
        ensures
            n == (match self.diff {
                Some(diff) => diff.lines,
                None => 0,
            }),
    {
        match &self.diff {
            Some(diff) => diff.lines,
            None => 0,
        }
    }

    /// Number of selectable rows in the active view: visual split rows in
    /// split mode, flat diff lines in unified mode.
    pub fn row_count(&self) -> (n: usize)
        ensures
            n == self.rows(),
    {
        if self.is_split() {
            self.split_rows.len()
        } else {
            self.lines_count()
        }
    }

    /// The hunk that holds the line `line_selected`.
    pub fn find_selected_hunk(diff: &FileDiff, line_selected: usize) -> (hunk: Option<usize>)
        requires
            diff.flat().len() <= usize::MAX,
        ensures
            hunk == hunk_of_line(diff.hunks@, line_selected as int),
            hunk matches Some(i) ==> i < diff.hunks@.len(),
    {
        let mut line_cursor: usize = 0;
        let mut i: usize = 0;
        assert(diff.hunks@.take(0) =~= Seq::<Hunk>::empty());
        while i < diff.hunks.len()
            invariant
                i <= diff.hunks@.len(),
                diff.flat().len() <= usize::MAX,
                line_cursor == hunk_start(diff.hunks@, i as int),
                line_cursor <= line_selected || i == 0,
            decreases diff.hunks@.len() - i,
        {
            let hunk_len = diff.hunks[i].lines.len();
            proof {
                lemma_flat_hunk(diff.hunks@, i as int);
            }
            let hunk_min = line_cursor;
            let hunk_max = line_cursor + hunk_len;
            let hunk_selected = hunk_min <= line_selected && hunk_max > line_selected;
            if hunk_selected {
                proof {
                    lemma_hunk_of_line(diff.hunks@, i as int, line_selected as int);
                }
                return Some(i);
            }
            line_cursor = line_cursor + hunk_len;
            i += 1;
        }
        proof {
            assert(diff.hunks@.take(diff.hunks@.len() as int) =~= diff.hunks@);
            law_every_line_has_a_hunk(diff.hunks@, line_selected as int);
        }
        None
    }

    /// Selects row `new_start`, or the last row where there are fewer.
    pub fn update_selection(&mut self, new_start: usize)
        requires
            old(self).wf(),
        ensures
            final(self).wf(),
            *final(self) == old(self).selecting(new_start as int),
    {
        let hunk = match &self.diff {
            None => {
                return ;
            },
            Some(diff) => {
                let max = self.row_count().saturating_sub(1);
                let new_start = smaller(max, new_start);
                if self.is_split() {
                    None
                } else {
                    Self::find_selected_hunk(diff, new_start)
                }
            },
        };
        let max = self.row_count().saturating_sub(1);
        proof {
            law_row_count(self.diff->0.types());
        }
        self.selection = Selection::Single(smaller(max, new_start));
        self.selected_hunk = hunk;
    }

    /// Moves the selection.
    pub fn move_selection(&mut self, move_type: ScrollType)
        requires
            old(self).wf(),
        ensures
            final(self).wf(),
            *final(self) == old(self).selecting(old(self).move_target(move_type)),
    {
        if self.diff.is_some() {
            let max = self.row_count().saturating_sub(1);
            let page: usize = self.current_size.1.saturating_sub(1) as usize;
            let new_start = match move_type {
                ScrollType::Down => self.selection.get_bottom().saturating_add(1),
                ScrollType::Up => self.selection.get_top().saturating_sub(1),
                ScrollType::Home => 0,
                ScrollType::End => max,
                ScrollType::PageDown => self.selection.get_bottom().saturating_add(page),
                ScrollType::PageUp => self.selection.get_top().saturating_sub(page),
            };
            self.update_selection(new_start);
        }
    }

    /// Clamps the selection to the active view's row count (rows differ
    /// between unified and split) and refreshes the selected hunk. Both ends
    /// are clamped, so that a shift-selection survives a change of view.
    pub fn clamp_selection_to_mode(&mut self)
        requires
            old(self).wf(),
        ensures
            final(self).wf(),
            *final(self) == old(self).clamped(),
    {
        let max = self.row_count().saturating_sub(1);
        let end = smaller(self.selection.get_end(), max);
        let hunk = match &self.diff {
            None => {
                return ;
            },
            Some(diff) => {
                if self.is_split() {
                    None
                } else {
                    Self::find_selected_hunk(diff, end)
                }
            },
        };
        self.selection = self.selection.clamp_to(max);
        self.selected_hunk = hunk;
    }

    /// Extends the selection by one row.
    pub fn modify_selection(&mut self, direction: Direction)
        requires
            old(self).wf(),
        ensures
            final(self).wf(),
            *final(self) == old(self).extended(direction),
    {
        if self.diff.is_some() {
            let rows = self.row_count();
            proof {
                law_row_count(self.diff->0.types());
            }
            self.selection.modify(direction, rows);
        }
    }

    /// How far the unified view can be scrolled to the right.
    pub fn max_scroll_right(&self) -> (n: usize)
        ensures
            n == minus(self.longest_line as int, self.current_size.0 as int),
    {
        self.longest_line.saturating_sub(self.current_size.0 as usize)
    }

    /// How far a split column of the given width can be scrolled to the right
    /// (split cells carry no gutter).
    pub fn max_scroll_right_split(&self, col_w: u16) -> (n: usize)
        ensures
            n == minus(self.longest_split_line as int, col_w as int),
    {
        self.longest_split_line.saturating_sub(col_w as usize)
    }

    /// Starts the highlighting of the current diff anew.
    pub fn spawn_highlight(&mut self)
        ensures
            final(self).syntax_highlight@.len() == 0,
            old(self).asks(
                (DiffComponent { syntax_highlight: final(self).syntax_highlight, ..*old(self) }),
                old(self).highlight_requests(),
                *final(self),
            ),
    {
        self.syntax_highlight.clear();
        let ghost cleared = *self;
        assert(request_views(self.requests@) + Seq::<DiffRequestView>::empty() =~= request_views(
            self.requests@,
        ));
        if !self.settings.style.on {
            self.ask(DiffRequest::CancelHighlight);
            return ;
        }
        let input = match &self.diff {
            None => {
                return ;
            },
            Some(diff) => {
                if diff.hunks.len() == 0 || diff.lines > MAX_HIGHLIGHT_LINES {
                    return ;
                }
                highlight_lines(diff)
            },
        };
        let request = DiffRequest::SpawnHighlight {
            hash: self.current.hash,
            input,
            path: self.current.path.clone(),
        };
        self.ask(request);
    }

    /// Applies a finished highlight if it belongs to the diff that is shown;
    /// stale results are discarded.
    pub fn poll_highlight(&mut self, finished: Option<(u64, Vec<Option<LineHighlight>>)>)
        ensures
            *final(self) == (match finished {
                Some((hash, result)) => if hash == old(self).current.hash {
                    DiffComponent { syntax_highlight: result, ..*old(self) }
                } else {
                    *old(self)
                },
                None => *old(self),
            }),
    {
        if let Some((hash, result)) = finished {
            if hash == self.current.hash {
                self.syntax_highlight = result;
            }
        }
    }

    /// Whether `after` is what showing a diff with the given hash makes of
    /// `self`: nothing but the end of the wait where that diff is shown
    /// already; else the diff is taken over, the selection starts anew for
    /// another file and keeps its first row for the same one, and the
    /// highlighting starts anew.
    pub open spec fn updated(
        self,
        path: String,
        is_stage: bool,
        diff: FileDiff,
        hash: u64,
        after: DiffComponent,
    ) -> bool {
        if self.current.hash == hash {
            after == (DiffComponent { pending: false, ..self })
        } else {
            let same_file = self.current.path@ == path@;
            let shown = DiffComponent {
                pending: false,
                current: Current { path, is_stage, hash },
                diff: Some(diff),
                longest_line: after.longest_line,
                longest_split_line: after.longest_split_line,
                split_rows: after.split_rows,
                syntax_highlight: after.syntax_highlight,
                ..self
            };
            let selected = shown.selecting(
                if same_file {
                    self.selection.start() as int
                } else {
                    0
                },
            );
            let reset = if same_file {
                Seq::empty()
            } else {
                seq![DiffRequestView::ResetVerticalScroll]
            };
            &&& after.wf()
            &&& after.syntax_highlight@.len() == 0
            &&& self.asks(selected, reset + selected.highlight_requests(), after)
        }
    }

    /// Takes over a diff and what is measured of it.
    fn show(&mut self, path: String, is_stage: bool, diff: FileDiff, hash: u64)
        requires
            old(self).wf(),
            diff.fits(),
        ensures
            final(self).wf(),
            *final(self) == (DiffComponent {
                current: Current { path, is_stage, hash },
                diff: Some(diff),
                longest_line: final(self).longest_line,
                longest_split_line: final(self).longest_split_line,
                split_rows: final(self).split_rows,
                selected_hunk: None,
                ..*old(self)
            }),
    {
        self.current = Current { path, is_stage, hash };
        self.longest_line = measure_longest_line(&diff);
        self.split_rows = build_split_rows(&diff);
        // split cells have no per-line gutter, so they are one column
        // narrower than unified lines
        self.longest_split_line = self.longest_line.saturating_sub(1);
        self.diff = Some(diff);
        self.selected_hunk = None;
    }

    /// Selects the first row anew, or the row where the selection started.
    fn reselect(&mut self, reset_selection: bool)
        requires
            old(self).wf(),
            old(self).diff is Some,
        ensures
            final(self).wf(),
            old(self).asks(
                old(self).selecting(
                    if reset_selection {
                        0
                    } else {
                        old(self).selection.start() as int
                    },
                ),
                if reset_selection {
                    seq![DiffRequestView::ResetVerticalScroll]
                } else {
                    Seq::empty()
                },
                *final(self),
            ),
    {
        if reset_selection {
            self.ask(DiffRequest::ResetVerticalScroll);
            self.selection = Selection::Single(0);
            self.update_selection(0);
        } else {
            assert(request_views(self.requests@) + Seq::<DiffRequestView>::empty()
                =~= request_views(self.requests@));
            let old_selection = self.selection.get_start();
            self.update_selection(old_selection);
        }
        let ghost selected = *self;
        self.clamp_selection_to_mode();
        assert(*self == selected);
    }

    /// Shows a diff, given its hash.
    pub fn update_hashed(&mut self, path: String, is_stage: bool, diff: FileDiff, hash: u64)
        requires
            old(self).wf(),
            diff.fits(),
        ensures
            final(self).wf(),
            old(self).updated(path, is_stage, diff, hash, *final(self)),
    {
        self.pending = false;
        if self.current.hash != hash {
            let reset_selection = !(self.current.path == path);
            self.show(path, is_stage, diff, hash);
            self.reselect(reset_selection);
            let ghost selected = *self;
            self.spawn_highlight();
            proof {
                let reset = if reset_selection {
                    seq![DiffRequestView::ResetVerticalScroll]
                } else {
                    Seq::empty()
                };
                assert(request_views(self.requests@) =~= request_views(old(self).requests@) + (
                reset + selected.highlight_requests()));
            }
        }
    }

    /// Shows a diff.
    pub fn update(&mut self, path: String, is_stage: bool, diff: FileDiff)
        requires
            old(self).wf(),
            diff.fits(),
        ensures
            final(self).wf(),
            old(self).updated(path, is_stage, diff, hash_of_diff(diff@), *final(self)),
    {
        let hash = diff_hash(&diff);
        self.update_hashed(path, is_stage, diff, hash);
    }

    /// Takes over another highlight style, after the user has switched to it.
    pub fn set_highlight_style(&mut self, style: HighlightStyle)
        requires
            old(self).wf(),
        ensures
            final(self).wf(),
            ({
                let styled = DiffComponent {
                    settings: DiffSettings { style, ..old(self).settings },
                    syntax_highlight: final(self).syntax_highlight,
                    ..*old(self)
                };
                if !style.on {
                    &&& final(self).syntax_highlight@.len() == 0
                    &&& old(self).asks(
                        styled,
                        seq![DiffRequestView::CancelHighlight],
                        *final(self),
                    )
                } else if old(self).syntax_highlight@.len() == 0 {
                    &&& final(self).syntax_highlight@.len() == 0
                    &&& old(self).asks(styled, styled.highlight_requests(), *final(self))
                } else {
                    *final(self) == (DiffComponent {
                        settings: DiffSettings { style, ..old(self).settings },
                        ..*old(self)
                    })
                }
            }),
    {
        self.settings.style = style;
        if !style.on {
            self.syntax_highlight.clear();
            self.ask(DiffRequest::CancelHighlight);
        } else if self.syntax_highlight.len() == 0 {
            self.spawn_highlight();
        }
    }
}

/// The lines of `diff` as a highlighter gets them.
fn highlight_lines(diff: &FileDiff) -> (list: Vec<(String, DiffLineType)>)
    ensures
        typed_lines(list@) == highlight_input(diff.flat()),
{
    let lines = crate::diff::flat_diff_lines(diff);
    let mut list: Vec<(String, DiffLineType)> = Vec::new();
    let mut i: usize = 0;
    while i < lines.len()
        invariant
            i <= lines@.len(),
            lines@.len() == diff.flat().len(),
            forall|k: int| 0 <= k < lines@.len() ==> *#[trigger] lines@[k] == diff.flat()[k],
            typed_lines(list@) == highlight_input(diff.flat()).take(i as int),
        decreases lines@.len() - i,
    {
        let ghost before = typed_lines(list@);
        assert(*lines@[i as int] == diff.flat()[i as int]);
        list.push((lines[i].content.clone(), lines[i].line_type));
        i += 1;
        assert(typed_lines(list@) =~= before.push(highlight_input(diff.flat())[i - 1]));
        assert(typed_lines(list@) =~= highlight_input(diff.flat()).take(i as int));
    }
    assert(highlight_input(diff.flat()).take(i as int) =~= highlight_input(diff.flat()));
    list
}

/// A request changes nothing that the invariant speaks of.
pub proof fn law_asking_keeps_the_invariant(
    before: DiffComponent,
    new: Seq<DiffRequestView>,
    after: DiffComponent,
)
    requires
        before.wf(),
        before.asks(before, new, after),
    ensures
        after.wf(),
{
}

/// Showing a diff a second time changes nothing, whatever path and diff come
/// with its hash.
pub proof fn law_showing_a_diff_twice_is_showing_it_once(
    before: DiffComponent,
    path: String,
    is_stage: bool,
    diff: FileDiff,
    hash: u64,
    once: DiffComponent,
    path_again: String,
    is_stage_again: bool,
    diff_again: FileDiff,
    twice: DiffComponent,
)
    requires
        before.updated(path, is_stage, diff, hash, once),
        once.updated(path_again, is_stage_again, diff_again, hash, twice),
    ensures
        twice == once,
{
}

/// Showing a diff that says the same as the one shown last changes nothing.
pub proof fn law_an_equal_diff_changes_nothing(
    before: DiffComponent,
    path: String,
    is_stage: bool,
    diff: FileDiff,
    once: DiffComponent,
    path_again: String,
    is_stage_again: bool,
    diff_again: FileDiff,
    twice: DiffComponent,
)
    requires
        diff_again@ == diff@,
        before.updated(path, is_stage, diff, hash_of_diff(diff@), once),
        once.updated(path_again, is_stage_again, diff_again, hash_of_diff(diff_again@), twice),
    ensures
        twice == once,
{
}

/// A diff that is shown anew for another file starts at its first row; for the
/// same file it stays at the row where the selection started, as far as the
/// diff has that row.
pub proof fn law_update_keeps_the_row_of_the_same_file(
    before: DiffComponent,
    path: String,
    is_stage: bool,
    diff: FileDiff,
    hash: u64,
    after: DiffComponent,
)
    requires
        before.wf(),
        before.current.hash != hash,
        before.updated(path, is_stage, diff, hash, after),
    ensures
        before.current.path@ != path@ ==> after.selection == Selection::Single(0),
        before.current.path@ == path@ && before.selection.start() < after.rows()
            ==> after.selection == Selection::Single(before.selection.start()),
{
}

} // verus!
