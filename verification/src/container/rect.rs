//! Rectangles on the terminal grid, the lines that separate them, and the choice of the
//! neighbouring rectangle to move to.
use crate::base::basic_types::{AxisIndex, ColIndex, Height, PositiveAxisDiff, RowIndex, Width};
use crate::container::boxdrawing::LineSegment;
use std::ops::Range;
use vstd::prelude::*;

verus! {

/// A rectangle with integer coordinates: the columns `x_range` and the rows `y_range` (both
/// half open).
#[derive(Debug)]
pub struct Rectangle {
    pub x_range: Range<ColIndex>,
    pub y_range: Range<RowIndex>,
}

impl Clone for Rectangle {
    fn clone(&self) -> (r: Self)
        ensures
            r == *self,
    {
        Rectangle {
            x_range: Range { start: self.x_range.start, end: self.x_range.end },
            y_range: Range { start: self.y_range.start, end: self.y_range.end },
        }
    }
}

/// A single vertical line of cells in column `x`, spanning the rows `y_range`.
pub struct HorizontalLine {
    pub x: ColIndex,
    pub y_range: Range<RowIndex>,
}

/// A single horizontal line of cells in row `y`, spanning the columns `x_range`.
pub struct VerticalLine {
    pub x_range: Range<ColIndex>,
    pub y: RowIndex,
}

/// An axis aligned line, either vertical or horizontal.
pub enum Line {
    Horizontal(HorizontalLine),
    Vertical(VerticalLine),
}

impl Rectangle {
    /// The rectangle spanning the given columns and rows.
    pub fn new(x_range: Range<ColIndex>, y_range: Range<RowIndex>) -> (r: Self)
        ensures
            r.x_range == x_range,
            r.y_range == y_range,
    {
        Rectangle { x_range, y_range }
    }

    /// The number of columns of the rectangle; its range must not be reversed.
    pub fn width(&self) -> (r: Width)
        requires
            self.x_range.start@ <= self.x_range.end@,
            self.x_range.end@ - self.x_range.start@ <= i32::MAX,
        ensures
            r@ == self.x_range.end@ - self.x_range.start@,
    {
        PositiveAxisDiff::new_unchecked(self.x_range.end.raw_value() - self.x_range.start.raw_value())
    }

    /// The number of rows of the rectangle; its range must not be reversed.
    pub fn height(&self) -> (r: Height)
        requires
            self.y_range.start@ <= self.y_range.end@,
            self.y_range.end@ - self.y_range.start@ <= i32::MAX,
        ensures
            r@ == self.y_range.end@ - self.y_range.start@,
    {
        PositiveAxisDiff::new_unchecked(self.y_range.end.raw_value() - self.y_range.start.raw_value())
    }

    /// The part of the rectangle in the given columns, which must lie within its columns.
    pub fn slice_range_x(&self, range: Range<ColIndex>) -> (r: Rectangle)
        requires
            self.x_range.start@ <= range.start@,
            range.end@ <= self.x_range.end@,
        ensures
            r.x_range == range,
            r.y_range == self.y_range,
    {
        Rectangle { x_range: range, y_range: Range { start: self.y_range.start, end: self.y_range.end } }
    }

    /// The part of the rectangle in the given rows, which must lie within its rows.
    pub fn slice_range_y(&self, range: Range<RowIndex>) -> (r: Rectangle)
        requires
            self.y_range.start@ <= range.start@,
            range.end@ <= self.y_range.end@,
        ensures
            r.x_range == self.x_range,
            r.y_range == range,
    {
        Rectangle { x_range: Range { start: self.x_range.start, end: self.x_range.end }, y_range: range }
    }

    /// The vertical line at column `x` (within or at the end of the columns) over all rows.
    pub fn slice_line_x(&self, x: ColIndex) -> (r: HorizontalLine)
        requires
            self.x_range.start@ <= x@ <= self.x_range.end@,
        ensures
            r.x == x,
            r.y_range == self.y_range,
    {
        HorizontalLine { x: x, y_range: Range { start: self.y_range.start, end: self.y_range.end } }
    }

    /// The horizontal line at row `y` (within or at the end of the rows) over all columns.
    pub fn slice_line_y(&self, y: RowIndex) -> (r: VerticalLine)
        requires
            self.y_range.start@ <= y@ <= self.y_range.end@,
        ensures
            r.x_range == self.x_range,
            r.y == y,
    {
        VerticalLine { x_range: Range { start: self.x_range.start, end: self.x_range.end }, y: y }
    }

    /// Whether the cell segment `dir` at `(x, y)` is part of the border around the rectangle:
    /// the cell lies on the ring of cells just outside the rectangle, and the segment does not
    /// point away from the rectangle.
    pub open spec fn spec_is_near_border(&self, x: int, y: int, dir: LineSegment) -> bool {
        let x_l = self.x_range.start@ - 1;
        let x_r = self.x_range.end@;
        let y_l = self.y_range.start@ - 1;
        let y_r = self.y_range.end@;
        let left = x_l == x;
        let right = x_r == x;
        let up = y_l == y;
        let down = y_r == y;
        if right && dir == LineSegment::Right || left && dir == LineSegment::Left || up && dir
            == LineSegment::Up || down && dir == LineSegment::Down {
            false
        } else {
            (right || left) && (y_l <= y && y <= y_r) || (up || down) && (x_l <= x && x <= x_r)
        }
    }

    /// Whether the cell segment `dir` at `(x, y)` is part of the border around the rectangle.
    pub fn is_near_border(&self, x: ColIndex, y: RowIndex, dir: LineSegment) -> (r: bool)
        requires
            self.x_range.start@ > i32::MIN,
            self.y_range.start@ > i32::MIN,
        ensures
            r == self.spec_is_near_border(x@, y@, dir),
    {
        let x_l = self.x_range.start.raw_value() - 1;
        let x_r = self.x_range.end.raw_value();
        let y_l = self.y_range.start.raw_value() - 1;
        let y_r = self.y_range.end.raw_value();
        let xv = x.raw_value();
        let yv = y.raw_value();
        let left = x_l == xv;
        let right = x_r == xv;
        let up = y_l == yv;
        let down = y_r == yv;
        if right && dir == LineSegment::Right || left && dir == LineSegment::Left || up && dir
            == LineSegment::Up || down && dir == LineSegment::Down {
            false
        } else {
            (right || left) && (y_l <= yv && yv <= y_r) || (up || down) && (x_l <= xv && xv <= x_r)
        }
    }
}

/// The border is the ring of cells just outside a rectangle, the same on all four sides: on the
/// row just above the rectangle, the row just below it, the column just left of it and the column
/// just right of it, a cell is near the border for every segment except the one pointing away
/// from the rectangle (at a corner, except the two pointing away); every other cell, inside the
/// rectangle or further out, is not near the border.
pub proof fn law_border_ring(r: Rectangle, x: int, y: int, s: LineSegment)
    requires
        r.x_range.start@ <= r.x_range.end@,
        r.y_range.start@ <= r.y_range.end@,
    ensures
        ({
            let top = y == r.y_range.start@ - 1;
            let bottom = y == r.y_range.end@;
            let left = x == r.x_range.start@ - 1;
            let right = x == r.x_range.end@;
            let on_ring_x = r.x_range.start@ - 1 <= x <= r.x_range.end@;
            let on_ring_y = r.y_range.start@ - 1 <= y <= r.y_range.end@;
            &&& (top && on_ring_x && !left && !right) ==> (r.spec_is_near_border(x, y, s) <==> s != LineSegment::Up)
            &&& (bottom && on_ring_x && !left && !right) ==> (r.spec_is_near_border(x, y, s) <==> s != LineSegment::Down)
            &&& (left && on_ring_y && !top && !bottom) ==> (r.spec_is_near_border(x, y, s) <==> s != LineSegment::Left)
            &&& (right && on_ring_y && !top && !bottom) ==> (r.spec_is_near_border(x, y, s) <==> s != LineSegment::Right)
            &&& (top && left) ==> (r.spec_is_near_border(x, y, s) <==> (s == LineSegment::Down || s == LineSegment::Right))
            &&& (top && right) ==> (r.spec_is_near_border(x, y, s) <==> (s == LineSegment::Down || s == LineSegment::Left))
            &&& (bottom && left) ==> (r.spec_is_near_border(x, y, s) <==> (s == LineSegment::Up || s == LineSegment::Right))
            &&& (bottom && right) ==> (r.spec_is_near_border(x, y, s) <==> (s == LineSegment::Up || s == LineSegment::Left))
            &&& !(on_ring_x && on_ring_y && (top || bottom || left || right)) ==> !r.spec_is_near_border(x, y, s)
        }),
{
}

/// A direction to move in from one rectangle to a neighbouring one.
#[derive(Copy, Clone, Debug, PartialEq, Eq, Structural)]
pub enum MovementDirection {
    Up,
    Down,
    Left,
    Right,
}

/// The two coordinates that must be adjacent (the smaller one then the greater one) when moving
/// from `a` to `c` in direction `d`.
pub open spec fn spec_adjacent_pair(d: MovementDirection, a: Rectangle, c: Rectangle) -> (int, int) {
    match d {
        MovementDirection::Up => (c.y_range.end@, a.y_range.start@),
        MovementDirection::Down => (a.y_range.end@, c.y_range.start@),
        MovementDirection::Left => (c.x_range.end@, a.x_range.start@),
        MovementDirection::Right => (a.x_range.end@, c.x_range.start@),
    }
}

/// The ranges across the direction of movement of `a` and of `c`, whose overlap is measured.
pub open spec fn spec_cross_ranges(d: MovementDirection, a: Rectangle, c: Rectangle) -> (int, int, int, int) {
    match d {
        MovementDirection::Up | MovementDirection::Down => (
            a.x_range.start@,
            a.x_range.end@,
            c.x_range.start@,
            c.x_range.end@,
        ),
        MovementDirection::Left | MovementDirection::Right => (
            a.y_range.start@,
            a.y_range.end@,
            c.y_range.start@,
            c.y_range.end@,
        ),
    }
}

/// Whether `c` lies directly next to `a` in direction `d`.
pub open spec fn spec_adjacent(d: MovementDirection, a: Rectangle, c: Rectangle) -> bool {
    let (s, g) = spec_adjacent_pair(d, a, c);
    s < g && g - s == 1
}

/// The overlap of the cross ranges of `a` and `c` (negative where they are apart; 0 where the
/// difference does not fit into an i32).
pub open spec fn spec_overlap(d: MovementDirection, a: Rectangle, c: Rectangle) -> int {
    let (a_s, a_e, c_s, c_e) = spec_cross_ranges(d, a, c);
    let diff = (if a_e <= c_e { a_e } else { c_e }) - (if a_s >= c_s { a_s } else { c_s });
    if i32::MIN <= diff <= i32::MAX {
        diff
    } else {
        0
    }
}

/// Whether `a` and `c` both cover row `y`.
pub open spec fn spec_shares_row(a: Rectangle, c: Rectangle, y: int) -> bool {
    a.y_range.start@ <= y < a.y_range.end@ && c.y_range.start@ <= y < c.y_range.end@
}

/// Whether `a` and `c` both cover column `x`.
pub open spec fn spec_shares_column(a: Rectangle, c: Rectangle, x: int) -> bool {
    a.x_range.start@ <= x < a.x_range.end@ && c.x_range.start@ <= x < c.x_range.end@
}

/// Moving left or right, the overlap that decides between neighbours is the number of rows that
/// the active rectangle and the candidate share; moving up or down, the number of columns. So
/// it does not depend on the other axis at all; where no row (column) is shared it is not
/// positive; where one is shared (and the active rectangle spans at most `i32::MAX` of them) it
/// is positive, and the shared rows (columns) are exactly that many consecutive ones.
pub proof fn law_overlap_counts_shared_lines(d: MovementDirection, a: Rectangle, c: Rectangle, a2: Rectangle, c2: Rectangle)
    ensures
        (d == MovementDirection::Left || d == MovementDirection::Right) ==> {
            &&& (a2.y_range == a.y_range && c2.y_range == c.y_range) ==> spec_overlap(d, a2, c2) == spec_overlap(d, a, c)
            &&& (forall|y: int| !#[trigger] spec_shares_row(a, c, y)) ==> spec_overlap(d, a, c) <= 0
            &&& ((exists|y: int| #[trigger] spec_shares_row(a, c, y)) && a.y_range.end@ - a.y_range.start@ <= i32::MAX)
                ==> spec_overlap(d, a, c) > 0
            &&& spec_overlap(d, a, c) > 0 ==> exists|lo: int|
                #[trigger] spec_shares_row(a, c, lo) && forall|y: int| #[trigger]
                    spec_shares_row(a, c, y) <==> lo <= y < lo + spec_overlap(d, a, c)
        },
        (d == MovementDirection::Up || d == MovementDirection::Down) ==> {
            &&& (a2.x_range == a.x_range && c2.x_range == c.x_range) ==> spec_overlap(d, a2, c2) == spec_overlap(d, a, c)
            &&& (forall|x: int| !#[trigger] spec_shares_column(a, c, x)) ==> spec_overlap(d, a, c) <= 0
            &&& ((exists|x: int| #[trigger] spec_shares_column(a, c, x)) && a.x_range.end@ - a.x_range.start@ <= i32::MAX)
                ==> spec_overlap(d, a, c) > 0
            &&& spec_overlap(d, a, c) > 0 ==> exists|lo: int|
                #[trigger] spec_shares_column(a, c, lo) && forall|x: int| #[trigger]
                    spec_shares_column(a, c, x) <==> lo <= x < lo + spec_overlap(d, a, c)
        },
{
    let (a_s, a_e, c_s, c_e) = spec_cross_ranges(d, a, c);
    let lo = if a_s >= c_s { a_s } else { c_s };
    let hi = if a_e <= c_e { a_e } else { c_e };
    if d == MovementDirection::Left || d == MovementDirection::Right {
        if hi - lo > 0 {
            assert(spec_shares_row(a, c, lo));
        }
        if exists|y: int| #[trigger] spec_shares_row(a, c, y) {
            let y = choose|y: int| #[trigger] spec_shares_row(a, c, y);
            assert(lo <= y < hi);
        }
        if spec_overlap(d, a, c) > 0 {
            assert forall|y: int| #[trigger] spec_shares_row(a, c, y) <==> lo <= y < lo + spec_overlap(d, a, c) by {}
            assert(spec_shares_row(a, c, lo));
        }
    } else {
        if hi - lo > 0 {
            assert(spec_shares_column(a, c, lo));
        }
        if exists|x: int| #[trigger] spec_shares_column(a, c, x) {
            let x = choose|x: int| #[trigger] spec_shares_column(a, c, x);
            assert(lo <= x < hi);
        }
        if spec_overlap(d, a, c) > 0 {
            assert forall|x: int| #[trigger] spec_shares_column(a, c, x) <==> lo <= x < lo + spec_overlap(d, a, c) by {}
            assert(spec_shares_column(a, c, lo));
        }
    }
}

/// Whether candidate `i` can be moved to from `active`: it is not the active one itself and lies
/// directly next to it.
pub open spec fn spec_eligible(
    d: MovementDirection,
    active: Rectangle,
    candidates: Seq<Rectangle>,
    is_active: Seq<bool>,
    i: int,
) -> bool {
    !is_active[i] && spec_adjacent(d, active, candidates[i])
}

/// Choose the rectangle to move to from `active` in direction `d`: among the candidates that are
/// not active and lie directly next to it, one with the largest overlap (the last such one where
/// several share the largest overlap). `None` where no candidate lies next to it.
pub fn best_adjacent(
    active: &Rectangle,
    candidates: &Vec<Rectangle>,
    is_active: &Vec<bool>,
    d: MovementDirection,
) -> (r: Option<usize>)
    requires
        candidates@.len() == is_active@.len(),
    ensures
        r is None <==> forall|j: int|
            0 <= j < candidates@.len() ==> !#[trigger] spec_eligible(d, *active, candidates@, is_active@, j),
        r matches Some(i) ==> {
            &&& i < candidates@.len()
            &&& spec_eligible(d, *active, candidates@, is_active@, i as int)
            &&& forall|j: int|
                0 <= j < candidates@.len() && #[trigger] spec_eligible(d, *active, candidates@, is_active@, j)
                    ==> spec_overlap(d, *active, candidates@[j]) <= spec_overlap(d, *active, candidates@[i as int])
            &&& forall|j: int|
                i < j < candidates@.len() && #[trigger] spec_eligible(d, *active, candidates@, is_active@, j)
                    ==> spec_overlap(d, *active, candidates@[j]) < spec_overlap(d, *active, candidates@[i as int])
        },
{
    let mut best: Option<usize> = None;
    let mut best_overlap: i64 = 0;
    let mut i: usize = 0;
    while i < candidates.len()
        invariant
            candidates@.len() == is_active@.len(),
            i <= candidates@.len(),
            best is None <==> forall|j: int| 0 <= j < i ==> !#[trigger] spec_eligible(d, *active, candidates@, is_active@, j),
            best matches Some(b) ==> {
                &&& b < i
                &&& spec_eligible(d, *active, candidates@, is_active@, b as int)
                &&& best_overlap == spec_overlap(d, *active, candidates@[b as int])
                &&& forall|j: int|
                    0 <= j < i && #[trigger] spec_eligible(d, *active, candidates@, is_active@, j)
                        ==> spec_overlap(d, *active, candidates@[j]) <= best_overlap
                &&& forall|j: int|
                    b < j < i && #[trigger] spec_eligible(d, *active, candidates@, is_active@, j)
                        ==> spec_overlap(d, *active, candidates@[j]) < best_overlap
            },
        decreases candidates@.len() - i,
    {
        let c = &candidates[i];
        let (s, g, a_s, a_e, c_s, c_e): (i64, i64, i64, i64, i64, i64) = match d {
            MovementDirection::Up => (
                c.y_range.end.raw_value() as i64,
                active.y_range.start.raw_value() as i64,
                active.x_range.start.raw_value() as i64,
                active.x_range.end.raw_value() as i64,
                c.x_range.start.raw_value() as i64,
                c.x_range.end.raw_value() as i64,
            ),
            MovementDirection::Down => (
                active.y_range.end.raw_value() as i64,
                c.y_range.start.raw_value() as i64,
                active.x_range.start.raw_value() as i64,
                active.x_range.end.raw_value() as i64,
                c.x_range.start.raw_value() as i64,
                c.x_range.end.raw_value() as i64,
            ),
            MovementDirection::Left => (
                c.x_range.end.raw_value() as i64,
                active.x_range.start.raw_value() as i64,
                active.y_range.start.raw_value() as i64,
                active.y_range.end.raw_value() as i64,
                c.y_range.start.raw_value() as i64,
                c.y_range.end.raw_value() as i64,
            ),
            MovementDirection::Right => (
                active.x_range.end.raw_value() as i64,
                c.x_range.start.raw_value() as i64,
                active.y_range.start.raw_value() as i64,
                active.y_range.end.raw_value() as i64,
                c.y_range.start.raw_value() as i64,
                c.y_range.end.raw_value() as i64,
            ),
        };
        proof {
            assert(spec_adjacent_pair(d, *active, candidates@[i as int]) == (s as int, g as int));
            assert(spec_cross_ranges(d, *active, candidates@[i as int]) == (a_s as int, a_e as int, c_s as int, c_e as int));
            assert(spec_eligible(d, *active, candidates@, is_active@, i as int) == (!is_active@[i as int] && s < g && g - s == 1));
        }
        if !is_active[i] && s < g && g - s == 1 {
            let end = if a_e <= c_e { a_e } else { c_e };
            let start = if a_s >= c_s { a_s } else { c_s };
            let diff = end - start;
            let overlap: i64 = if -2147483648 <= diff && diff <= 2147483647 { diff } else { 0 };
            let take = match best {
                None => true,
                Some(_) => overlap >= best_overlap,
            };
            if take {
                best = Some(i);
                best_overlap = overlap;
            }
        }
        i = i + 1;
    }
    best
}

} // verus!
