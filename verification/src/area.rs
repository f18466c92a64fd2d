//! Areas of the terminal.
use vstd::prelude::*;

#[allow(unused_imports)]
use crate::selection::{max, min, minus};

verus! {

/// A rectangle of terminal cells.
#[derive(Clone, Copy, PartialEq, Eq, Debug, Structural)]
pub struct Area {
    pub x: u16,
    pub y: u16,
    pub width: u16,
    pub height: u16,
}

/// A coordinate, cut off at the greatest that a terminal can have.
pub open spec fn coordinate(n: int) -> int {
    min(n, u16::MAX as int)
}

impl Area {
    /// The first column to the right of the area.
    pub open spec fn right(self) -> int {
        coordinate(self.x + self.width)
    }

    /// The first row below the area.
    pub open spec fn bottom(self) -> int {
        coordinate(self.y + self.height)
    }

    /// Whether the area has the rows of `other` and lies within its columns.
    pub open spec fn lies_across(self, other: Area) -> bool {
        &&& self.y == other.y && self.height == other.height
        &&& other.x <= self.x && self.x + self.width <= other.right()
    }

    /// What a border on all four sides leaves of the area.
    pub open spec fn inside(self) -> Area {
        Area {
            x: min(self.x + 1, self.right()) as u16,
            y: min(self.y + 1, self.bottom()) as u16,
            width: minus(self.width as int, 2) as u16,
            height: minus(self.height as int, 2) as u16,
        }
    }

    /// What lies both in the area and in `other`.
    pub open spec fn common(self, other: Area) -> Area {
        let x = max(self.x as int, other.x as int);
        let y = max(self.y as int, other.y as int);
        Area {
            x: x as u16,
            y: y as u16,
            width: minus(min(self.right(), other.right()), x) as u16,
            height: minus(min(self.bottom(), other.bottom()), y) as u16,
        }
    }

    /// What a margin of one cell on all sides leaves of the area: the empty
    /// area at the origin where it does not fit.
    pub open spec fn within_margin(self) -> Area {
        if self.width < 2 || self.height < 2 {
            Area { x: 0, y: 0, width: 0, height: 0 }
        } else {
            Area {
                x: coordinate(self.x + 1) as u16,
                y: coordinate(self.y + 1) as u16,
                width: (self.width - 2) as u16,
                height: (self.height - 2) as u16,
            }
        }
    }
}

/// What is left of an area inside a bordered block, by `ratatui`'s
/// `Block::inner` with all borders and without padding: one row or column less
/// at each side, with a corner that stays within the area.
#[verifier::external_body]
pub(crate) fn inside_borders(area: Area) -> (inner: Area)
    ensures
        inner == area.inside(),
{
    let rect = ratatui::layout::Rect { x: area.x, y: area.y, width: area.width, height: area.height };
    let inner = ratatui::widgets::Block::bordered().inner(rect);
    Area { x: inner.x, y: inner.y, width: inner.width, height: inner.height }
}

/// The cells that two areas share, by `ratatui`'s `Rect::intersection`: from
/// the greater of the corners to the smaller of the ends, empty where the ends
/// come first.
#[verifier::external_body]
pub(crate) fn intersection(area: Area, other: Area) -> (common: Area)
    ensures
        common == area.common(other),
{
    let a = ratatui::layout::Rect { x: area.x, y: area.y, width: area.width, height: area.height };
    let b = ratatui::layout::Rect { x: other.x, y: other.y, width: other.width, height: other.height };
    let common = a.intersection(b);
    Area { x: common.x, y: common.y, width: common.width, height: common.height }
}

/// What a margin of one cell leaves of an area, by `ratatui`'s `Rect::inner`:
/// a cell less on each side, or the empty area at the origin where the margins
/// do not fit.
#[verifier::external_body]
pub(crate) fn inner_margin(area: Area) -> (inner: Area)
    ensures
        inner == area.within_margin(),
{
    let rect = ratatui::layout::Rect { x: area.x, y: area.y, width: area.width, height: area.height };
    let inner = rect.inner(ratatui::layout::Margin { vertical: 1, horizontal: 1 });
    Area { x: inner.x, y: inner.y, width: inner.width, height: inner.height }
}

/// Two columns and the divider between them.
#[derive(Clone, Copy, PartialEq, Eq, Debug, Structural)]
pub struct Columns {
    pub left: Area,
    pub divider: Area,
    pub right: Area,
}

impl Columns {
    /// Whether the two columns fill `area` on both sides of the divider: one
    /// beside the other, the divider one cell wide where there is any room, and
    /// the left column half of the room, rounded down.
    pub open spec fn fill(self, area: Area) -> bool {
        let room = area.right() - area.x;
        &&& self.left.lies_across(area)
        &&& self.divider.lies_across(area)
        &&& self.right.lies_across(area)
        &&& self.left.x == area.x && self.left.width == room / 2
        &&& self.divider.x == self.left.x + self.left.width
        &&& self.divider.width == min(room, 1)
        &&& self.right.x == self.divider.x + self.divider.width
        &&& self.right.x + self.right.width == area.right()
    }
}

/// Two columns that fill an area beside a divider of one cell, by `ratatui`'s
/// `Layout::horizontal` and `Layout::areas`: all three have the rows of the
/// area, and stand side by side from its left to its right. The divider is as
/// wide as asked for where there is any room, and the rest is shared out evenly;
/// where that leaves half a cell, the layout rounds it up on the left.
#[verifier::external_body]
pub(crate) fn two_columns(area: Area) -> (columns: Columns)
    ensures
        columns.fill(area),
{
    let rect = ratatui::layout::Rect { x: area.x, y: area.y, width: area.width, height: area.height };
    let fill = ratatui::layout::Constraint::Fill(1);
    let line = ratatui::layout::Constraint::Length(1);
    let [l, d, r] = ratatui::layout::Layout::horizontal([fill, line, fill]).areas(rect);
    Columns {
        left: Area { x: l.x, y: l.y, width: l.width, height: l.height },
        divider: Area { x: d.x, y: d.y, width: d.width, height: d.height },
        right: Area { x: r.x, y: r.y, width: r.width, height: r.height },
    }
}

} // verus!
