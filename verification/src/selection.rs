//! The selected lines of a list.
use vstd::prelude::*;

verus! {

/// The way a selection is extended.
#[derive(Clone, Copy, PartialEq, Eq, Debug, Structural)]
pub enum Direction {
    Up,
    Down,
}

/// The ways to move through a list.
#[derive(Clone, Copy, PartialEq, Eq, Debug, Structural)]
pub enum ScrollType {
    Up,
    Down,
    Home,
    End,
    PageUp,
    PageDown,
}

/// One selected line, or the lines between the one where the selection
/// started and the one where it was extended to.
#[derive(Clone, Copy, PartialEq, Eq, Debug, Structural)]
pub enum Selection {
    Single(usize),
    Multiple(usize, usize),
}

/// The smaller of two numbers.
pub open spec fn min(a: int, b: int) -> int {
    if a <= b {
        a
    } else {
        b
    }
}

/// The greater of two numbers.
pub open spec fn max(a: int, b: int) -> int {
    if a <= b {
        b
    } else {
        a
    }
}

/// `a - b`, or zero where `b` is greater.
pub open spec fn minus(a: int, b: int) -> int {
    max(a - b, 0)
}

/// The smaller of two numbers.
pub fn smaller(a: usize, b: usize) -> (r: usize)
    ensures
        r == min(a as int, b as int),
{
    if a <= b {
        a
    } else {
        b
    }
}

/// The greater of two numbers.
pub fn greater(a: usize, b: usize) -> (r: usize)
    ensures
        r == max(a as int, b as int),
{
    if a <= b {
        b
    } else {
        a
    }
}

impl Selection {
    /// Where the selection started.
    pub open spec fn start(self) -> usize {
        match self {
            Selection::Single(line) => line,
            Selection::Multiple(start, _) => start,
        }
    }

    /// Where the selection was extended to.
    pub open spec fn end(self) -> usize {
        match self {
            Selection::Single(line) => line,
            Selection::Multiple(_, end) => end,
        }
    }

    /// The first selected line.
    pub open spec fn top(self) -> int {
        min(self.start() as int, self.end() as int)
    }

    /// The last selected line.
    pub open spec fn bottom(self) -> int {
        max(self.start() as int, self.end() as int)
    }

    /// Whether `index` lies among the selected lines.
    pub open spec fn covers(self, index: int) -> bool {
        self.top() <= index <= self.bottom()
    }

    /// The selection after it was extended by one line, which stays within
    /// `0..=limit` at that end.
    pub open spec fn extended(self, direction: Direction, limit: int) -> Selection {
        let end = match direction {
            Direction::Up => minus(self.end() as int, 1),
            Direction::Down => min(self.end() + 1, limit),
        };
        Selection::Multiple(self.start(), end as usize)
    }

    /// The selection with both ends moved to at most `limit`.
    pub open spec fn clamped(self, limit: int) -> Selection {
        let start = min(self.start() as int, limit) as usize;
        let end = min(self.end() as int, limit) as usize;
        if start == end {
            Selection::Single(start)
        } else {
            Selection::Multiple(start, end)
        }
    }

    pub fn get_start(&self) -> (line: usize)
        ensures
            line == self.start(),
    {
        match self {
            Selection::Single(start) => *start,
            Selection::Multiple(start, _) => *start,
        }
    }

    pub fn get_end(&self) -> (line: usize)
        ensures
            line == self.end(),
    {
        match self {
            Selection::Single(end) => *end,
            Selection::Multiple(_, end) => *end,
        }
    }

    pub fn get_top(&self) -> (line: usize)
        ensures
            line == self.top(),
    {
        match self {
            Selection::Single(start) => *start,
            Selection::Multiple(start, end) => smaller(*start, *end),
        }
    }

    pub fn get_bottom(&self) -> (line: usize)
        ensures
            line == self.bottom(),
    {
        match self {
            Selection::Single(start) => *start,
            Selection::Multiple(start, end) => greater(*start, *end),
        }
    }

    /// Extends the selection by one line. At its lower end the selection may
    /// reach `max`.
    pub fn modify(&mut self, direction: Direction, max: usize)
        requires
            direction == Direction::Down ==> old(self).end() < usize::MAX,
        ensures
            *final(self) == old(self).extended(direction, max as int),
    {
        let start = self.get_start();
        let old_end = self.get_end();
        *self = match direction {
            Direction::Up => Selection::Multiple(start, old_end.saturating_sub(1)),
            Direction::Down => Selection::Multiple(start, smaller(old_end + 1, max)),
        };
    }

    pub fn contains(&self, index: usize) -> (inside: bool)
        ensures
            inside == self.covers(index as int),
    {
        match self {
            Selection::Single(start) => index == *start,
            Selection::Multiple(start, end) => {
                if *start <= *end {
                    *start <= index && index <= *end
                } else {
                    *end <= index && index <= *start
                }
            },
        }
    }

    /// Moves both ends to at most `limit`.
    pub fn clamp_to(&self, limit: usize) -> (selection: Selection)
        ensures
            selection == self.clamped(limit as int),
    {
        let start = smaller(self.get_start(), limit);
        let end = smaller(self.get_end(), limit);
        if start == end {
            Selection::Single(start)
        } else {
            Selection::Multiple(start, end)
        }
    }
}

/// Extending a selection moves one end by at most a line and keeps the other.
pub proof fn law_extending_keeps_the_start(s: Selection, direction: Direction, limit: usize)
    requires
        s.end() < usize::MAX,
    ensures
        s.extended(direction, limit as int).start() == s.start(),
        direction == Direction::Up ==> s.extended(direction, limit as int).end() == minus(
            s.end() as int,
            1,
        ),
        direction == Direction::Down ==> s.extended(direction, limit as int).end() == min(
            s.end() + 1,
            limit as int,
        ),
{
}

/// Extending up takes back an extension downwards that had room.
pub proof fn law_up_undoes_down(s: Selection, limit: usize)
    requires
        s.end() < limit,
    ensures
        s.extended(Direction::Down, limit as int).extended(Direction::Up, limit as int)
            == Selection::Multiple(s.start(), s.end()),
{
}

/// Extending down takes back an extension upwards that had room.
pub proof fn law_down_undoes_up(s: Selection, limit: usize)
    requires
        0 < s.end() <= limit,
    ensures
        s.extended(Direction::Up, limit as int).extended(Direction::Down, limit as int)
            == Selection::Multiple(s.start(), s.end()),
{
}

/// Clamping a second time changes nothing, leaves no end beyond the limit,
/// and leaves a selection that fits already with the lines it had.
pub proof fn law_clamping(s: Selection, limit: usize)
    ensures
        s.clamped(limit as int).clamped(limit as int) == s.clamped(limit as int),
        s.clamped(limit as int).bottom() <= limit,
        s.bottom() <= limit ==> forall|i: int|
            s.clamped(limit as int).covers(i) == #[trigger] s.covers(i),
{
}

} // verus!
