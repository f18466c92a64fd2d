//! The diff of one file: hunks, their lines, and flat line indices.
use vstd::prelude::*;

verus! {

/// The kind of a line inside a hunk.
#[derive(Clone, Copy, PartialEq, Eq, Debug, Hash, Structural)]
pub enum DiffLineType {
    /// An unchanged line.
    Context,
    /// A hunk header.
    Header,
    /// A line that exists on the new side only.
    Add,
    /// A line that exists on the old side only.
    Delete,
}

/// Where a line stands in the old and in the new file.
#[derive(Clone, Copy, PartialEq, Eq, Debug, Hash, Structural)]
pub struct DiffLinePosition {
    pub old_lineno: Option<u32>,
    pub new_lineno: Option<u32>,
}

/// One line of a hunk.
#[derive(Debug, Hash)]
pub struct DiffLine {
    pub content: String,
    pub line_type: DiffLineType,
    pub position: DiffLinePosition,
}

/// A run of neighbouring lines, with the hash of its header.
#[derive(Debug, Hash)]
pub struct Hunk {
    pub header_hash: u64,
    pub lines: Vec<DiffLine>,
}

/// The diff of one file.
#[derive(Debug, Hash)]
pub struct FileDiff {
    pub hunks: Vec<Hunk>,
    /// Number of lines, as reported by the producer of the diff.
    pub lines: usize,
    pub untracked: bool,
    /// Old and new size in bytes.
    pub sizes: (u64, u64),
    pub size_delta: i64,
}

/// What a line says.
pub struct DiffLineView {
    pub content: Seq<char>,
    pub line_type: DiffLineType,
    pub position: DiffLinePosition,
}

/// What a hunk says.
pub struct HunkView {
    pub header_hash: u64,
    pub lines: Seq<DiffLineView>,
}

/// What a diff says.
pub struct FileDiffView {
    pub hunks: Seq<HunkView>,
    pub lines: usize,
    pub untracked: bool,
    pub sizes: (u64, u64),
    pub size_delta: i64,
}

impl View for DiffLine {
    type V = DiffLineView;

    open spec fn view(&self) -> DiffLineView {
        DiffLineView {
            content: self.content@,
            line_type: self.line_type,
            position: self.position,
        }
    }
}

impl View for Hunk {
    type V = HunkView;

    open spec fn view(&self) -> HunkView {
        HunkView {
            header_hash: self.header_hash,
            lines: Seq::new(self.lines@.len(), |i: int| self.lines@[i]@),
        }
    }
}

impl View for FileDiff {
    type V = FileDiffView;

    open spec fn view(&self) -> FileDiffView {
        FileDiffView {
            hunks: Seq::new(self.hunks@.len(), |i: int| self.hunks@[i]@),
            lines: self.lines,
            untracked: self.untracked,
            sizes: self.sizes,
            size_delta: self.size_delta,
        }
    }
}

/// The lines of `hunks`, in order.
pub open spec fn flat_lines(hunks: Seq<Hunk>) -> Seq<DiffLine>
    decreases hunks.len(),
{
    if hunks.len() == 0 {
        Seq::empty()
    } else {
        flat_lines(hunks.drop_last()) + hunks.last().lines@
    }
}

/// The flat index of the first line of hunk `i`.
pub open spec fn hunk_start(hunks: Seq<Hunk>, i: int) -> nat {
    flat_lines(hunks.take(i)).len()
}

/// The line types of `lines`.
pub open spec fn line_types(lines: Seq<DiffLine>) -> Seq<DiffLineType> {
    Seq::new(lines.len(), |i: int| lines[i].line_type)
}

impl FileDiff {
    /// All lines of the diff, in order: what a flat index points into.
    pub open spec fn flat(&self) -> Seq<DiffLine> {
        flat_lines(self.hunks@)
    }

    /// The types of all lines of the diff.
    pub open spec fn types(&self) -> Seq<DiffLineType> {
        line_types(self.flat())
    }
}

/// Lines of earlier hunks keep their place when more hunks follow.
pub proof fn lemma_flat_prefix(hunks: Seq<Hunk>, i: int)
    requires
        0 <= i <= hunks.len(),
    ensures
        hunk_start(hunks, i) <= flat_lines(hunks).len(),
        flat_lines(hunks).take(hunk_start(hunks, i) as int) == flat_lines(hunks.take(i)),
    decreases hunks.len(),
{
    if i == hunks.len() {
        assert(hunks.take(i) =~= hunks);
        assert(flat_lines(hunks).take(flat_lines(hunks).len() as int) =~= flat_lines(hunks));
    } else {
        let front = hunks.drop_last();
        lemma_flat_prefix(front, i);
        assert(front.take(i) =~= hunks.take(i));
        let n = hunk_start(hunks, i) as int;
        assert(flat_lines(hunks).take(n) =~= flat_lines(front).take(n));
    }
}

/// The lines of hunk `i` are the flat lines from its start on.
pub proof fn lemma_flat_hunk(hunks: Seq<Hunk>, i: int)
    requires
        0 <= i < hunks.len(),
    ensures
        hunk_start(hunks, i + 1) == hunk_start(hunks, i) + hunks[i].lines@.len(),
        hunk_start(hunks, i + 1) <= flat_lines(hunks).len(),
        flat_lines(hunks.take(i + 1)) == flat_lines(hunks.take(i)) + hunks[i].lines@,
        forall|k: int|
            0 <= k < hunks[i].lines@.len() ==> flat_lines(hunks)[#[trigger] (hunk_start(hunks, i)
                + k)] == hunks[i].lines@[k],
{
    let next = hunks.take(i + 1);
    assert(next.drop_last() =~= hunks.take(i));
    assert(next.last() == hunks[i]);
    lemma_flat_prefix(hunks, i + 1);
    let end = hunk_start(hunks, i + 1) as int;
    assert forall|k: int| 0 <= k < hunks[i].lines@.len() implies flat_lines(
        hunks,
    )[#[trigger] (hunk_start(hunks, i) + k)] == hunks[i].lines@[k] by {
        let at = hunk_start(hunks, i) + k;
        assert(flat_lines(hunks).take(end)[at] == flat_lines(next)[at]);
    }
}

/// Hunks start in order.
pub proof fn lemma_hunk_start_monotonic(hunks: Seq<Hunk>, i: int, j: int)
    requires
        0 <= i <= j <= hunks.len(),
    ensures
        hunk_start(hunks, i) <= hunk_start(hunks, j),
    decreases j - i,
{
    if i < j {
        lemma_hunk_start_monotonic(hunks, i, j - 1);
        lemma_flat_hunk(hunks, j - 1);
    }
}

/// Flattens all hunk lines of `diff` into one in-order list, so that a flat
/// line index can be resolved at once.
pub fn flat_diff_lines(diff: &FileDiff) -> (lines: Vec<&DiffLine>)
    ensures
        lines@.len() == diff.flat().len(),
        forall|i: int| 0 <= i < lines@.len() ==> *#[trigger] lines@[i] == diff.flat()[i],
{
    let mut lines: Vec<&DiffLine> = Vec::new();
    let mut h: usize = 0;
    assert(diff.hunks@.take(0) =~= Seq::<Hunk>::empty());
    while h < diff.hunks.len()
        invariant
            h <= diff.hunks@.len(),
            lines@.len() == flat_lines(diff.hunks@.take(h as int)).len(),
            forall|i: int|
                0 <= i < lines@.len() ==> *#[trigger] lines@[i] == flat_lines(
                    diff.hunks@.take(h as int),
                )[i],
        decreases diff.hunks@.len() - h,
    {
        let hunk = &diff.hunks[h];
        let ghost before = lines@;
        let mut k: usize = 0;
        while k < hunk.lines.len()
            invariant
                k <= hunk.lines@.len(),
                lines@.len() == before.len() + k,
                forall|i: int| 0 <= i < before.len() ==> #[trigger] lines@[i] == before[i],
                forall|i: int|
                    0 <= i < k ==> *#[trigger] lines@[before.len() + i] == hunk.lines@[i],
            decreases hunk.lines@.len() - k,
        {
            lines.push(&hunk.lines[k]);
            k += 1;
        }
        proof {
            lemma_flat_hunk(diff.hunks@, h as int);
            let done = flat_lines(diff.hunks@.take(h as int));
            assert forall|i: int| 0 <= i < lines@.len() implies *#[trigger] lines@[i]
                == flat_lines(diff.hunks@.take(h + 1))[i] by {
                if i < before.len() {
                    assert(lines@[i] == before[i]);
                } else {
                    let j = i - before.len();
                    assert(lines@[before.len() + j] == lines@[i]);
                }
            }
        }
        h += 1;
    }
    assert(diff.hunks@.take(diff.hunks@.len() as int) =~= diff.hunks@);
    lines
}

} // verus!
