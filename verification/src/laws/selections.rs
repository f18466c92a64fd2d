//! Selections: their ends, extending and clamping.
#![allow(unused_imports)]
use vstd::prelude::*;

use crate::laws::moving::{first_selected, last_selected};
use crate::selection::{Direction, Selection};

verus! {

/// A selection starts where it was started, ends where it was extended to, and
/// reaches from the smaller of the two to the greater.
pub proof fn law_a_selection_has_two_ends(
    s: Selection,
    start: usize,
    end: usize,
    top: usize,
    bottom: usize,
)
    requires
        call_ensures(Selection::get_start, (&s,), start),
        call_ensures(Selection::get_end, (&s,), end),
        call_ensures(Selection::get_top, (&s,), top),
        call_ensures(Selection::get_bottom, (&s,), bottom),
    ensures
        s matches Selection::Single(row) ==> start == row && end == row,
        s matches Selection::Multiple(a, b) ==> start == a && end == b,
        top == first_selected(s) && bottom == last_selected(s),
        top <= bottom,
{
}

/// Extending keeps the start and moves the end by one line, but not above the
/// first line nor below the limit.
pub proof fn law_extending_moves_the_end_by_a_line(
    s: &mut Selection,
    direction: Direction,
    limit: usize,
    start: usize,
    end: usize,
)
    requires
        call_ensures(Selection::get_start, (&*old(s),), start),
        call_ensures(Selection::get_end, (&*old(s),), end),
        direction == Direction::Down ==> end < usize::MAX,
        call_ensures(Selection::modify, (s, direction, limit), ()),
    ensures
        *final(s) matches Selection::Multiple(a, b) && a == start && {
            &&& direction == Direction::Up && end > 0 ==> b == end - 1
            &&& direction == Direction::Up && end == 0 ==> b == 0
            &&& direction == Direction::Down && end < limit ==> b == end + 1
            &&& direction == Direction::Down && end >= limit ==> b == limit
        },
{
}

/// Clamping moves an end beyond the limit to the limit and leaves any other; two
/// ends that meet become one line.
pub proof fn law_clamping_moves_ends_to_the_limit(
    s: Selection,
    limit: usize,
    clamped: Selection,
    start: usize,
    end: usize,
    new_start: usize,
    new_end: usize,
)
    requires
        call_ensures(Selection::get_start, (&s,), start),
        call_ensures(Selection::get_end, (&s,), end),
        call_ensures(Selection::clamp_to, (&s, limit), clamped),
        call_ensures(Selection::get_start, (&clamped,), new_start),
        call_ensures(Selection::get_end, (&clamped,), new_end),
    ensures
        start <= limit ==> new_start == start,
        start > limit ==> new_start == limit,
        end <= limit ==> new_end == end,
        end > limit ==> new_end == limit,
        clamped is Single <==> new_start == new_end,
{
}

} // verus!
