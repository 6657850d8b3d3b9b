//! The box drawing cells that make up the separating lines between containers.
use crate::base::basic_types::{ColIndex, RowIndex};
use crate::container::boxdrawing::{spec_field, LineCell, LineSegment, LineType};
use crate::container::rect::{Line, Rectangle};
use std::collections::BTreeMap;
use vstd::prelude::*;

verus! {

broadcast use {vstd::laws_cmp::group_laws_cmp, vstd::std_specs::btree::group_btree_axioms};

/// Whether the separating line `l` has segment `s` in the cell `(x, y)`.
///
/// A horizontal line (vertical strokes) at column `x` spanning rows `[y0, y1)` reaches down out of
/// the cell above its first row, runs up and down through all its rows, and reaches up into the
/// cell below its last row; a vertical line (horizontal strokes) likewise from left to right.
pub open spec fn spec_in_line(l: Line, x: int, y: int, s: LineSegment) -> bool {
    match l {
        Line::Horizontal(h) => {
            let y0 = h.y_range.start@;
            let y1 = h.y_range.end@;
            &&& x == h.x@
            &&& {
                ||| y == y0 - 1 && s == LineSegment::Down
                ||| y0 <= y < y1 && (s == LineSegment::Up || s == LineSegment::Down)
                ||| y == y1 && s == LineSegment::Up
            }
        },
        Line::Vertical(v) => {
            let x0 = v.x_range.start@;
            let x1 = v.x_range.end@;
            &&& y == v.y@
            &&& {
                ||| x == x0 - 1 && s == LineSegment::Right
                ||| x0 <= x < x1 && (s == LineSegment::Right || s == LineSegment::Left)
                ||| x == x1 && s == LineSegment::Left
            }
        },
    }
}

/// Whether any of the separating lines has segment `s` in the cell `(x, y)`.
pub open spec fn spec_on_separators(lines: Seq<Line>, x: int, y: int, s: LineSegment) -> bool {
    exists|j: int| 0 <= j < lines.len() && #[trigger] spec_in_line(lines[j], x, y, s)
}

/// The type of the segment `s` in cell `(x, y)`: thick where it borders the active rectangle,
/// thin elsewhere.
pub open spec fn spec_line_type(active: Option<Rectangle>, x: int, y: int, s: LineSegment) -> LineType {
    match active {
        Some(r) => if r.spec_is_near_border(x, y, s) {
            LineType::Thick
        } else {
            LineType::Thin
        },
        None => LineType::Thin,
    }
}

/// Whether `drawn` has any segment in cell `(x, y)`.
pub open spec fn spec_drawn_at(drawn: spec_fn(int, int, LineSegment) -> bool, x: int, y: int) -> bool {
    exists|s: LineSegment| #[trigger] drawn(x, y, s)
}

/// `cells` holds a cell exactly at the positions where `drawn` has a segment (all of them lie
/// within the `i32` coordinates), and each cell has every drawn segment in its type and no other
/// segment.
pub open spec fn spec_canvas(
    cells: Map<(i32, i32), LineCell>,
    drawn: spec_fn(int, int, LineSegment) -> bool,
    active: Option<Rectangle>,
) -> bool {
    &&& forall|x: int, y: int, s: LineSegment|
        #[trigger] drawn(x, y, s) ==> i32::MIN <= x <= i32::MAX && i32::MIN <= y <= i32::MAX
            && cells.contains_key((x as i32, y as i32))
    &&& forall|k: (i32, i32)| #[trigger] cells.contains_key(k) ==> spec_drawn_at(drawn, k.0 as int, k.1 as int)
    &&& forall|k: (i32, i32), s: LineSegment|
        cells.contains_key(k) ==> #[trigger] spec_field(cells[k].spec_components(), s.spec_shift()) == if drawn(
            k.0 as int,
            k.1 as int,
            s,
        ) {
            spec_line_type(active, k.0 as int, k.1 as int, s).spec_code()
        } else {
            0
        }
}

/// The segments of `drawn` together with segment `s` in cell `(x, y)`.
pub open spec fn spec_with_segment(
    drawn: spec_fn(int, int, LineSegment) -> bool,
    x: int,
    y: int,
    s: LineSegment,
) -> spec_fn(int, int, LineSegment) -> bool {
    |a: int, b: int, t: LineSegment| drawn(a, b, t) || (a == x && b == y && t == s)
}

/// The type of the segment `s` in cell `(x, y)`.
fn line_type(active: &Option<Rectangle>, x: ColIndex, y: RowIndex, s: LineSegment) -> (r: LineType)
    requires
        active matches Some(a) ==> a.x_range.start@ > i32::MIN && a.y_range.start@ > i32::MIN,
    ensures
        r == spec_line_type(*active, x@, y@, s),
{
    match active {
        Some(a) => if a.is_near_border(x, y, s) {
            LineType::Thick
        } else {
            LineType::Thin
        },
        None => LineType::Thin,
    }
}

/// Draw segment `s` into cell `(x, y)` of the canvas, starting from an empty cell where the
/// canvas has none there yet.
fn draw_segment(
    cells: &mut BTreeMap<(i32, i32), LineCell>,
    active: &Option<Rectangle>,
    x: ColIndex,
    y: RowIndex,
    s: LineSegment,
    Ghost(drawn): Ghost<spec_fn(int, int, LineSegment) -> bool>,
)
    requires
        spec_canvas(old(cells)@, drawn, *active),
        active matches Some(a) ==> a.x_range.start@ > i32::MIN && a.y_range.start@ > i32::MIN,
    ensures
        spec_canvas(final(cells)@, spec_with_segment(drawn, x@, y@, s), *active),
{
    let lt = line_type(active, x, y, s);
    let key = (x.raw_value(), y.raw_value());
    let ghost old_map = cells@;
    let mut cell = match cells.get(&key) {
        Some(c) => *c,
        None => LineCell::empty(),
    };
    let ghost old_cell = cell;
    proof {
        if !old_map.contains_key(key) {
            assert forall|t: LineSegment| !#[trigger] drawn(x@, y@, t) by {}
            assert forall|t: LineSegment| #[trigger] spec_field(old_cell.spec_components(), t.spec_shift()) == 0 by {
                let sh = t.spec_shift();
                assert(spec_field(0u8, sh) == 0) by (bit_vector);
            }
        }
    }
    cell.set(s, lt);
    cells.insert(key, cell);
    proof {
        let drawn2 = spec_with_segment(drawn, x@, y@, s);
        let m = cells@;
        assert(m == old_map.insert(key, cell));
        assert forall|k: (i32, i32), t: LineSegment| m.contains_key(k) implies #[trigger] spec_field(
            m[k].spec_components(),
            t.spec_shift(),
        ) == if drawn2(k.0 as int, k.1 as int, t) {
            spec_line_type(*active, k.0 as int, k.1 as int, t).spec_code()
        } else {
            0
        } by {
            if k == key {
                if t != s {
                    assert(spec_field(cell.spec_components(), t.spec_shift()) == spec_field(
                        old_cell.spec_components(),
                        t.spec_shift(),
                    ));
                }
            } else {
                assert(old_map.contains_key(k));
            }
        }
        assert forall|k: (i32, i32)| #[trigger] m.contains_key(k) implies spec_drawn_at(drawn2, k.0 as int, k.1 as int) by {
            if k == key {
                assert(drawn2(x@, y@, s));
            } else {
                let t0 = choose|t: LineSegment| #[trigger] drawn(k.0 as int, k.1 as int, t);
                assert(drawn2(k.0 as int, k.1 as int, t0));
            }
        }
    }
}

/// The segments of `drawn` together with those of line `l`.
pub open spec fn spec_with_line(drawn: spec_fn(int, int, LineSegment) -> bool, l: Line) -> spec_fn(
    int,
    int,
    LineSegment,
) -> bool {
    |a: int, b: int, t: LineSegment| drawn(a, b, t) || spec_in_line(l, a, b, t)
}

/// The segments of `drawn` together with the first part of line `l`: the cell before its range,
/// and the cells of its range before coordinate `upto`.
spec fn spec_with_line_before(drawn: spec_fn(int, int, LineSegment) -> bool, l: Line, upto: int) -> spec_fn(
    int,
    int,
    LineSegment,
) -> bool {
    |a: int, b: int, t: LineSegment|
        drawn(a, b, t) || match l {
            Line::Horizontal(h) => {
                let y0 = h.y_range.start@;
                &&& a == h.x@
                &&& {
                    ||| b == y0 - 1 && t == LineSegment::Down
                    ||| y0 <= b < upto && (t == LineSegment::Up || t == LineSegment::Down)
                }
            },
            Line::Vertical(v) => {
                let x0 = v.x_range.start@;
                &&& b == v.y@
                &&& {
                    ||| a == x0 - 1 && t == LineSegment::Right
                    ||| x0 <= a < upto && (t == LineSegment::Right || t == LineSegment::Left)
                }
            },
        }
}

/// Whether the cell before the line's range has a coordinate: the range does not start at the
/// smallest index.
pub open spec fn spec_line_startable(l: Line) -> bool {
    match l {
        Line::Horizontal(h) => h.y_range.start@ > i32::MIN,
        Line::Vertical(v) => v.x_range.start@ > i32::MIN,
    }
}

/// Draw the separating line `l` onto the canvas.
fn draw_line(
    cells: &mut BTreeMap<(i32, i32), LineCell>,
    active: &Option<Rectangle>,
    l: &Line,
    Ghost(drawn): Ghost<spec_fn(int, int, LineSegment) -> bool>,
)
    requires
        spec_canvas(old(cells)@, drawn, *active),
        active matches Some(a) ==> a.x_range.start@ > i32::MIN && a.y_range.start@ > i32::MIN,
        spec_line_startable(*l),
    ensures
        spec_canvas(final(cells)@, spec_with_line(drawn, *l), *active),
{
    match l {
        Line::Horizontal(h) => {
            let x = h.x;
            let y0 = h.y_range.start.raw_value();
            let y1 = h.y_range.end.raw_value();
            draw_segment(cells, active, x, RowIndex::new(y0 - 1), LineSegment::Down, Ghost(drawn));
            proof {
                assert(spec_with_segment(drawn, x@, y0 - 1, LineSegment::Down) =~= spec_with_line_before(drawn, *l, y0 as int));
            }
            let mut y: i32 = y0;
            while y < y1
                invariant
                    y0 <= y,
                    y0 < y1 ==> y <= y1,
                    y0 >= y1 ==> y == y0,
                    x == h.x,
                    *l == Line::Horizontal(*h),
                    y0 == h.y_range.start@,
                    y1 == h.y_range.end@,
                    spec_canvas(cells@, spec_with_line_before(drawn, *l, y as int), *active),
                    active matches Some(a) ==> a.x_range.start@ > i32::MIN && a.y_range.start@ > i32::MIN,
                decreases y1 - y,
            {
                let ghost before = spec_with_line_before(drawn, *l, y as int);
                let row = RowIndex::new(y);
                draw_segment(cells, active, x, row, LineSegment::Up, Ghost(before));
                let ghost with_up = spec_with_segment(before, x@, y as int, LineSegment::Up);
                draw_segment(cells, active, x, row, LineSegment::Down, Ghost(with_up));
                proof {
                    assert(spec_with_segment(with_up, x@, y as int, LineSegment::Down) =~= spec_with_line_before(drawn, *l, y + 1));
                }
                y = y + 1;
            }
            let ghost before = spec_with_line_before(drawn, *l, y as int);
            draw_segment(cells, active, x, h.y_range.end, LineSegment::Up, Ghost(before));
            proof {
                assert(spec_with_segment(before, x@, y1 as int, LineSegment::Up) =~= spec_with_line(drawn, *l));
            }
        },
        Line::Vertical(v) => {
            let y = v.y;
            let x0 = v.x_range.start.raw_value();
            let x1 = v.x_range.end.raw_value();
            draw_segment(cells, active, ColIndex::new(x0 - 1), y, LineSegment::Right, Ghost(drawn));
            proof {
                assert(spec_with_segment(drawn, x0 - 1, y@, LineSegment::Right) =~= spec_with_line_before(drawn, *l, x0 as int));
            }
            let mut x: i32 = x0;
            while x < x1
                invariant
                    x0 <= x,
                    x0 < x1 ==> x <= x1,
                    x0 >= x1 ==> x == x0,
                    y == v.y,
                    *l == Line::Vertical(*v),
                    x0 == v.x_range.start@,
                    x1 == v.x_range.end@,
                    spec_canvas(cells@, spec_with_line_before(drawn, *l, x as int), *active),
                    active matches Some(a) ==> a.x_range.start@ > i32::MIN && a.y_range.start@ > i32::MIN,
                decreases x1 - x,
            {
                let ghost before = spec_with_line_before(drawn, *l, x as int);
                let col = ColIndex::new(x);
                draw_segment(cells, active, col, y, LineSegment::Right, Ghost(before));
                let ghost with_right = spec_with_segment(before, x as int, y@, LineSegment::Right);
                draw_segment(cells, active, col, y, LineSegment::Left, Ghost(with_right));
                proof {
                    assert(spec_with_segment(with_right, x as int, y@, LineSegment::Left) =~= spec_with_line_before(drawn, *l, x + 1));
                }
                x = x + 1;
            }
            let ghost before = spec_with_line_before(drawn, *l, x as int);
            draw_segment(cells, active, v.x_range.end, y, LineSegment::Left, Ghost(before));
            proof {
                assert(spec_with_segment(before, x1 as int, y@, LineSegment::Left) =~= spec_with_line(drawn, *l));
            }
        },
    }
}

/// The segments of all the separating lines `lines`.
pub open spec fn spec_separators(lines: Seq<Line>) -> spec_fn(int, int, LineSegment) -> bool {
    |a: int, b: int, t: LineSegment| spec_on_separators(lines, a, b, t)
}

/// The box drawing cells of the separating lines `lines`, by position `(x, y)`: one cell for each
/// position that a line passes through or ends next to, with the segments of all lines there,
/// drawn thick where they border the `active` rectangle and thin elsewhere.
pub fn draw_separators(lines: &Vec<Line>, active: &Option<Rectangle>) -> (cells: BTreeMap<(i32, i32), LineCell>)
    requires
        forall|j: int| 0 <= j < lines.len() ==> spec_line_startable(#[trigger] lines@[j]),
        active matches Some(a) ==> a.x_range.start@ > i32::MIN && a.y_range.start@ > i32::MIN,
    ensures
        spec_canvas(cells@, spec_separators(lines@), *active),
{
    let mut cells: BTreeMap<(i32, i32), LineCell> = BTreeMap::new();
    proof {
        assert(spec_canvas(cells@, spec_separators(lines@.take(0)), *active));
    }
    let mut j: usize = 0;
    while j < lines.len()
        invariant
            j <= lines.len(),
            forall|k: int| 0 <= k < lines.len() ==> spec_line_startable(#[trigger] lines@[k]),
            active matches Some(a) ==> a.x_range.start@ > i32::MIN && a.y_range.start@ > i32::MIN,
            spec_canvas(cells@, spec_separators(lines@.take(j as int)), *active),
        decreases lines.len() - j,
    {
        let ghost drawn = spec_separators(lines@.take(j as int));
        draw_line(&mut cells, active, &lines[j], Ghost(drawn));
        proof {
            let next = spec_separators(lines@.take(j + 1));
            assert forall|a: int, b: int, t: LineSegment| #[trigger] spec_with_line(drawn, lines@[j as int])(a, b, t) == next(a, b, t) by {
                let prefix = lines@.take(j as int);
                let longer = lines@.take(j + 1);
                if spec_in_line(lines@[j as int], a, b, t) {
                    assert(longer[j as int] == lines@[j as int]);
                    assert(spec_in_line(longer[j as int], a, b, t));
                }
                if drawn(a, b, t) {
                    let k = choose|k: int| 0 <= k < prefix.len() && #[trigger] spec_in_line(prefix[k], a, b, t);
                    assert(longer[k] == prefix[k]);
                    assert(spec_in_line(longer[k], a, b, t));
                }
                if next(a, b, t) {
                    let k = choose|k: int| 0 <= k < longer.len() && #[trigger] spec_in_line(longer[k], a, b, t);
                    if k < j {
                        assert(prefix[k] == longer[k]);
                        assert(spec_in_line(prefix[k], a, b, t));
                    }
                }
            }
            assert(spec_with_line(drawn, lines@[j as int]) =~= next);
        }
        j = j + 1;
    }
    proof {
        assert(lines@.take(lines.len() as int) =~= lines@);
    }
    cells
}

} // verus!
