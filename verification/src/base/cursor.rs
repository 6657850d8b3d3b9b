//! The state of a cursor that writes text into a grid of cells.
use crate::base::basic_types::{AxisDiff, AxisIndex, ColDiff, ColIndex, PositiveAxisDiff, RowDiff, RowIndex, Width};
use crate::base::grapheme_cluster::{spec_cluster_width, GraphemeCluster};
use crate::base::style::{Style, StyleModifier};
use crate::base::window::{spec_same_frame, CursorTarget, StyledGraphemeCluster};
use crate::widget::linestorage::{append_text, spec_append_text};
use crate::widget::text::spec_graphemes;
use vstd::string::StrSliceExecFns;
use vstd::prelude::*;

verus! {

/// How a cursor behaves when it arrives at the right-hand border of its target.
#[derive(Debug, Clone, Copy, PartialEq, Eq, Structural)]
pub enum WrappingMode {
    Wrap,
    NoWrap,
}

/// A symbolic value that stands for a target without a maximum width.
pub const UNBOUNDED_WIDTH: i32 = 2147483647;

/// A symbolic value that stands for a target without a maximum height.
pub const UNBOUNDED_HEIGHT: i32 = 2147483647;

/// The state of a cursor: position, wrapping mode, style, the column it returns to on a new line,
/// and the width of tab stops.
#[derive(Clone, Copy, Debug)]
pub struct CursorState {
    pub wrapping_mode: WrappingMode,
    pub style_modifier: StyleModifier,
    pub x: ColIndex,
    pub y: RowIndex,
    pub line_start_column: ColIndex,
    pub tab_column_width: Width,
}

impl CursorState {
    /// The state of a new cursor: at (0, 0), not wrapping, no style modification, lines start at
    /// column 0, tabs are 4 wide.
    pub open spec fn spec_default() -> CursorState {
        CursorState {
            wrapping_mode: WrappingMode::NoWrap,
            style_modifier: StyleModifier::spec_new(),
            x: AxisIndex::spec_new(0),
            y: AxisIndex::spec_new(0),
            line_start_column: AxisIndex::spec_new(0),
            tab_column_width: PositiveAxisDiff::spec_new(4),
        }
    }
}

impl Default for CursorState {
    /// At (0, 0), not wrapping, no style modification, lines start at column 0, tabs are 4 wide.
    fn default() -> (r: Self)
        ensures
            r == CursorState::spec_default(),
            r.wrapping_mode == WrappingMode::NoWrap,
            r.style_modifier == StyleModifier::spec_new(),
            r.x@ == 0,
            r.y@ == 0,
            r.line_start_column@ == 0,
            r.tab_column_width@ == 4,
    {
        let r = CursorState {
            wrapping_mode: WrappingMode::NoWrap,
            style_modifier: StyleModifier::new(),
            x: AxisIndex::new(0),
            y: AxisIndex::new(0),
            line_start_column: AxisIndex::new(0),
            tab_column_width: PositiveAxisDiff::new_unchecked(4),
        };
        proof {
            AxisIndex::lemma_spec_new_of_view(r.x);
            AxisIndex::lemma_spec_new_of_view(r.y);
            AxisIndex::lemma_spec_new_of_view(r.line_start_column);
        }
        r
    }
}

/// The width of the cluster in cell `(x, y)` of the target.
pub open spec fn spec_cell_width<T: CursorTarget>(t: T, x: int, y: int) -> int {
    spec_cluster_width(t.spec_cell(x, y).0) as int
}

/// The nearest column at or left of `x` (and not left of 0) whose cell in row `y` holds a
/// cluster of non-zero width, scanning left over zero-width cells; -1 where the scan meets a
/// position without a cell first.
pub open spec fn spec_cluster_start<T: CursorTarget>(t: T, x: int, y: int) -> int
    decreases x + 1,
{
    if x < 0 || !t.spec_has_cell(x, y) {
        -1
    } else if spec_cell_width(t, x, y) != 0 {
        x
    } else {
        spec_cluster_start(t, x - 1, y)
    }
}

/// The cell `(a, b)` after a cluster `new` was placed into cell `(x, y)` of `t`: the cell itself
/// holds `new`, and where the old content of the cell was part of a cluster that is not exactly
/// one cell wide, the other cells of that cluster are cleared to spaces (keeping their style).
pub open spec fn spec_placed_cell<T: CursorTarget>(
    t: T,
    x: int,
    y: int,
    new: (Seq<char>, Style),
    a: int,
    b: int,
) -> (Seq<char>, Style) {
    let old_w = spec_cell_width(t, x, y);
    let s = if old_w == 0 {
        spec_cluster_start(t, x - 1, y)
    } else {
        x
    };
    let ws = if old_w == 0 {
        spec_cell_width(t, s, y)
    } else {
        old_w
    };
    if !t.spec_has_cell(x, y) {
        t.spec_cell(a, b)
    } else if a == x && b == y {
        new
    } else if b == y && old_w != 1 && (old_w != 0 || s >= 0) && s <= a < s + ws && a <= i32::MAX
        && t.spec_has_cell(a, b) {
        (seq![' '], t.spec_cell(a, b).1)
    } else {
        t.spec_cell(a, b)
    }
}

/// The cells of a target, as a function of column and row.
pub open spec fn spec_cells_of<T: CursorTarget>(t: T) -> spec_fn(int, int) -> (Seq<char>, Style) {
    |a: int, b: int| t.spec_cell(a, b)
}

/// The positions of a target that hold a cell.
pub open spec fn spec_has_of<T: CursorTarget>(t: T) -> spec_fn(int, int) -> bool {
    |a: int, b: int| t.spec_has_cell(a, b)
}

/// `spec_cluster_start` over cells `c` at the positions `present`.
pub open spec fn spec_start_in(
    c: spec_fn(int, int) -> (Seq<char>, Style),
    present: spec_fn(int, int) -> bool,
    x: int,
    y: int,
) -> int
    decreases x + 1,
{
    if x < 0 || !present(x, y) {
        -1
    } else if spec_cluster_width(c(x, y).0) != 0 {
        x
    } else {
        spec_start_in(c, present, x - 1, y)
    }
}

/// `spec_placed_cell` over cells `c` at the positions `present`: cell `(a, b)` after `new` was
/// placed into cell `(x, y)`.
pub open spec fn spec_placed_at(
    c: spec_fn(int, int) -> (Seq<char>, Style),
    present: spec_fn(int, int) -> bool,
    x: int,
    y: int,
    new: (Seq<char>, Style),
    a: int,
    b: int,
) -> (Seq<char>, Style) {
    let old_w = spec_cluster_width(c(x, y).0) as int;
    let s = if old_w == 0 {
        spec_start_in(c, present, x - 1, y)
    } else {
        x
    };
    let ws = if old_w == 0 {
        spec_cluster_width(c(s, y).0) as int
    } else {
        old_w
    };
    if !present(x, y) {
        c(a, b)
    } else if a == x && b == y {
        new
    } else if b == y && old_w != 1 && (old_w != 0 || s >= 0) && s <= a < s + ws && a <= i32::MAX && present(a, b) {
        (seq![' '], c(a, b).1)
    } else {
        c(a, b)
    }
}

/// The cells `c` after `new` was placed into cell `(x, y)`.
pub open spec fn spec_placed_in(
    c: spec_fn(int, int) -> (Seq<char>, Style),
    present: spec_fn(int, int) -> bool,
    x: int,
    y: int,
    new: (Seq<char>, Style),
) -> spec_fn(int, int) -> (Seq<char>, Style) {
    |a: int, b: int| spec_placed_at(c, present, x, y, new, a, b)
}

proof fn lemma_start_in<T: CursorTarget>(t: T, x: int, y: int)
    ensures
        spec_cluster_start(t, x, y) == spec_start_in(spec_cells_of(t), spec_has_of(t), x, y),
    decreases x + 1,
{
    if x >= 0 && t.spec_has_cell(x, y) && spec_cell_width(t, x, y) == 0 {
        lemma_start_in(t, x - 1, y);
    }
}

/// Placing a cell into a target, told of its cells and positions.
proof fn lemma_placed_in<T: CursorTarget>(t: T, x: int, y: int, new: (Seq<char>, Style))
    ensures
        forall|a: int, b: int| #[trigger] spec_placed_cell(t, x, y, new, a, b) == spec_placed_in(
            spec_cells_of(t),
            spec_has_of(t),
            x,
            y,
            new,
        )(a, b),
{
    lemma_start_in(t, x - 1, y);
}

/// Placing a cell into a target changes its cells as `spec_placed_in` says.
proof fn lemma_after_place<T: CursorTarget>(t: T, t1: T, x: int, y: int, new: (Seq<char>, Style))
    requires
        forall|a: int, b: int| #[trigger] t1.spec_cell(a, b) == spec_placed_cell(t, x, y, new, a, b),
    ensures
        spec_cells_of(t1) == spec_placed_in(spec_cells_of(t), spec_has_of(t), x, y, new),
{
    lemma_placed_in(t, x, y, new);
    assert(spec_cells_of(t1) =~= spec_placed_in(spec_cells_of(t), spec_has_of(t), x, y, new));
}

/// Targets of the same frame have their cells at the same positions.
proof fn lemma_same_frame_has<T: CursorTarget>(t: T, u: T)
    requires
        spec_same_frame(t, u),
    ensures
        spec_has_of(t) == spec_has_of(u),
{
    assert(spec_has_of(t) =~= spec_has_of(u));
}

/// The cells `c` after spaces in `style` were placed into the `n` cells from `(x, y)` on, one
/// after the other.
pub open spec fn spec_place_spaces(
    c: spec_fn(int, int) -> (Seq<char>, Style),
    present: spec_fn(int, int) -> bool,
    x: int,
    y: int,
    n: nat,
    style: Style,
) -> spec_fn(int, int) -> (Seq<char>, Style)
    decreases n,
{
    if n == 0 {
        c
    } else {
        spec_placed_in(spec_place_spaces(c, present, x, y, (n - 1) as nat, style), present, x + n - 1, y, (seq![' '], style))
    }
}

/// The cells `c` after `new` was placed into those of the `k` cells from `(x, y)` on in the row
/// that lie in the columns `0..w`, one after the other.
pub open spec fn spec_place_in_row(
    c: spec_fn(int, int) -> (Seq<char>, Style),
    present: spec_fn(int, int) -> bool,
    x: int,
    y: int,
    k: nat,
    w: int,
    new: (Seq<char>, Style),
) -> spec_fn(int, int) -> (Seq<char>, Style)
    decreases k,
{
    if k == 0 {
        c
    } else {
        let c1 = spec_place_in_row(c, present, x, y, (k - 1) as nat, w, new);
        let p = x + k - 1;
        if 0 <= p < w {
            spec_placed_in(c1, present, p, y, new)
        } else {
            c1
        }
    }
}

/// The cells `c` after spaces in `style` were written into the columns `start..end` (those of
/// them in `0..w`) of row `y`.
pub open spec fn spec_cleared_in_row(
    c: spec_fn(int, int) -> (Seq<char>, Style),
    present: spec_fn(int, int) -> bool,
    start: int,
    end: int,
    y: int,
    w: int,
    style: Style,
) -> spec_fn(int, int) -> (Seq<char>, Style) {
    let k: nat = if start < end {
        (end - start) as nat
    } else {
        0
    };
    spec_place_in_row(c, present, start, y, k, w, (seq![' '], style))
}

/// The cells `c` after the cluster `g` was appended to the cluster of cell `(x, y)` (where there
/// is one).
pub open spec fn spec_merged_in(
    c: spec_fn(int, int) -> (Seq<char>, Style),
    present: spec_fn(int, int) -> bool,
    x: int,
    y: int,
    g: Seq<char>,
) -> spec_fn(int, int) -> (Seq<char>, Style) {
    |a: int, b: int|
        if present(x, y) && a == x && b == y {
            (c(x, y).0 + g, c(x, y).1)
        } else {
            c(a, b)
        }
}

/// The cells `c` after the cluster `g` in `style` was put at `(x, y)` of a grid `w` by `h`: a
/// zero-width cluster inside the grid joins the cluster of its cell; another one inside the grid
/// is placed there; a wider one is followed (inside the grid's rows) by empty clusters in the
/// cells it covers.
pub open spec fn spec_put_cluster(
    c: spec_fn(int, int) -> (Seq<char>, Style),
    present: spec_fn(int, int) -> bool,
    x: int,
    y: int,
    g: Seq<char>,
    style: Style,
    w: int,
    h: int,
) -> spec_fn(int, int) -> (Seq<char>, Style) {
    let cw = spec_cluster_width(g) as int;
    let inside = 0 <= x < w && 0 <= y < h;
    if inside && cw == 0 {
        spec_merged_in(c, present, x, y, g)
    } else {
        let c1 = if inside {
            spec_placed_in(c, present, x, y, (g, style))
        } else {
            c
        };
        if cw > 1 && 0 <= y < h {
            spec_place_in_row(c1, present, x + 1, y, (cw - 1) as nat, w, (Seq::<char>::empty(), style))
        } else {
            c1
        }
    }
}

/// The cells `c` after writing the cluster `g` in `style` with the cursor at `(x, y)` in a grid
/// `w` by `h` (see `spec_write_cluster_pos`): where it does not fit into the rest of the row,
/// that rest is filled with spaces and, when wrapping, the cluster is put at the line start
/// column `lsc` of the next row if it fits there.
pub open spec fn spec_write_cluster_cells(
    c: spec_fn(int, int) -> (Seq<char>, Style),
    present: spec_fn(int, int) -> bool,
    x: int,
    y: int,
    g: Seq<char>,
    style: Style,
    wrap: bool,
    lsc: int,
    w: int,
    h: int,
) -> spec_fn(int, int) -> (Seq<char>, Style) {
    let cw = spec_cluster_width(g) as int;
    if !(0 <= y < h) {
        c
    } else if spec_remaining(x, w) < cw {
        let c1 = spec_place_spaces(c, present, x, y, spec_remaining(x, w) as nat, style);
        if wrap && spec_remaining(lsc, w) >= cw {
            spec_put_cluster(c1, present, lsc, y + 1, g, style, w, h)
        } else {
            c1
        }
    } else {
        spec_put_cluster(c, present, x, y, g, style, w, h)
    }
}

/// The number of cells from column `x` to the right border `w` (none where `x` lies beyond it).
pub open spec fn spec_remaining(x: int, w: int) -> int {
    if w < x {
        0
    } else {
        w - x
    }
}

/// The column after a cluster of width `cw` was put at `(x, y)`, where the row has room for it:
/// a zero-width cluster inside the grid joins the cell it lands on; otherwise the cursor moves
/// past the cluster (past a single cell where the row lies outside the grid).
pub open spec fn spec_advance(x: int, y: int, cw: int, w: int, h: int) -> int {
    if 0 <= x < w && 0 <= y < h && cw == 0 {
        x
    } else if cw > 1 && 0 <= y < h {
        x + cw
    } else {
        x + 1
    }
}

/// Writing a cluster of width `cw` with the cursor at `(x, y)` into a grid `w` by `h`: the
/// position afterwards and whether the cluster was written. A cluster that does not fit into the
/// rest of the row is not written; the rest of the row is filled with spaces and, when
/// wrapping, the cursor moves to `line_start` in the next row and tries again there.
pub open spec fn spec_write_cluster_pos(
    x: int,
    y: int,
    cw: int,
    wrap: bool,
    line_start: int,
    w: int,
    h: int,
) -> (int, int, bool) {
    if !(0 <= y < h) {
        (x, y, false)
    } else if spec_remaining(x, w) < cw {
        if wrap {
            if spec_remaining(line_start, w) < cw {
                (line_start, y + 1, false)
            } else {
                (spec_advance(line_start, y + 1, cw, w, h), y + 1, true)
            }
        } else {
            (x + spec_remaining(x, w), y, false)
        }
    } else {
        (spec_advance(x, y, cw, w, h), y, true)
    }
}

/// The lines of a text: the text split at its newlines.
pub open spec fn spec_lines(text: Seq<char>) -> Seq<Seq<char>> {
    spec_append_text(seq![Seq::<char>::empty()], text)
}

/// What writing a sequence of lines goes through: the grapheme clusters of each line (`Some`),
/// and a line break (`None`) between two lines.
pub open spec fn spec_steps(lines: Seq<Seq<char>>) -> Seq<Option<Seq<char>>>
    decreases lines.len(),
{
    if lines.len() == 0 {
        Seq::empty()
    } else {
        let brk: Seq<Option<Seq<char>>> = if lines.len() > 1 {
            seq![None]
        } else {
            Seq::empty()
        };
        spec_steps(lines.drop_last()) + brk + spec_graphemes(lines.last()).map_values(
            |c: Seq<char>| Some(c),
        )
    }
}

/// The remainder of `x` divided by `m`, with the sign of `x` (as Rust's `%` computes it).
pub open spec fn spec_trunc_rem(x: int, m: int) -> int {
    if x >= 0 {
        x % m
    } else {
        -((-x) % m)
    }
}

/// The width of a tab written at column `x`: up to the next multiple of `tw`.
pub open spec fn spec_tab_width(x: int, tw: int) -> int {
    tw - spec_trunc_rem(x, tw)
}

/// One step of writing text with a cursor in state `st` into a grid `w` by `h`, from position
/// `(p.0, p.1)`; `p.2` tells whether the rest of the current line is skipped because a cluster
/// did not fit. A line break wraps to the next row; a carriage return goes back to the line start
/// column; a tab is written as spaces up to the next tab stop; other clusters are written as they
/// are.
pub open spec fn spec_step(
    st: CursorState,
    w: int,
    h: int,
    p: (int, int, bool),
    step: Option<Seq<char>>,
) -> (int, int, bool) {
    match step {
        None => (st.line_start_column@, p.1 + 1, false),
        Some(c) => if p.2 {
            p
        } else if c == seq!['\r'] {
            (st.line_start_column@, p.1, false)
        } else {
            let cw = if c == seq!['\t'] {
                spec_tab_width(p.0, st.tab_column_width@ as int)
            } else {
                spec_cluster_width(c) as int
            };
            let (x, y, ok) = spec_write_cluster_pos(
                p.0,
                p.1,
                cw,
                st.wrapping_mode == WrappingMode::Wrap,
                st.line_start_column@,
                w,
                h,
            );
            (x, y, !ok)
        },
    }
}

/// The cluster that a step with the cluster `c` at column `x` writes: a tab becomes as many
/// spaces as there are columns to the next tab stop (`tw` columns apart).
pub open spec fn spec_written_cluster(c: Seq<char>, x: int, tw: int) -> Seq<char> {
    if c == seq!['\t'] {
        Seq::new(spec_tab_width(x, tw) as nat, |i: int| ' ')
    } else {
        c
    }
}

/// The cells `c` after one step of writing text in `style` from position `p` (see `spec_step`):
/// line breaks, carriage returns and skipped clusters leave them as they are.
pub open spec fn spec_step_cells(
    st: CursorState,
    w: int,
    h: int,
    p: (int, int, bool),
    step: Option<Seq<char>>,
    c: spec_fn(int, int) -> (Seq<char>, Style),
    present: spec_fn(int, int) -> bool,
    style: Style,
) -> spec_fn(int, int) -> (Seq<char>, Style) {
    match step {
        None => c,
        Some(g) => if p.2 || g == seq!['\r'] {
            c
        } else {
            spec_write_cluster_cells(
                c,
                present,
                p.0,
                p.1,
                spec_written_cluster(g, p.0, st.tab_column_width@ as int),
                style,
                st.wrapping_mode == WrappingMode::Wrap,
                st.line_start_column@,
                w,
                h,
            )
        },
    }
}

/// The cells `c` after all the steps, starting from position `p`.
pub open spec fn spec_run_cells(
    st: CursorState,
    w: int,
    h: int,
    p: (int, int, bool),
    steps: Seq<Option<Seq<char>>>,
    c: spec_fn(int, int) -> (Seq<char>, Style),
    present: spec_fn(int, int) -> bool,
    style: Style,
) -> spec_fn(int, int) -> (Seq<char>, Style)
    decreases steps.len(),
{
    if steps.len() == 0 {
        c
    } else {
        spec_step_cells(
            st,
            w,
            h,
            spec_run(st, w, h, p, steps.drop_last()),
            steps.last(),
            spec_run_cells(st, w, h, p, steps.drop_last(), c, present, style),
            present,
            style,
        )
    }
}

/// The cells of a target `t` after a cursor in state `st` wrote `text` to it: in the style of the
/// cursor's style modifier applied to the target's default style (nothing changes in a target
/// without cells).
pub open spec fn spec_write_cells<T: CursorTarget>(st: CursorState, t: T, text: Seq<char>) -> spec_fn(int, int) -> (
    Seq<char>,
    Style,
) {
    spec_write_cells_in(
        st,
        t.spec_width() as int,
        t.spec_height() as int,
        spec_cells_of(t),
        spec_has_of(t),
        t.spec_default_style(),
        text,
    )
}

/// The cells of a `w` by `h` target that holds the cells `c` at the positions `present` and
/// draws in the default style `d`, after a cursor in state `st` wrote `text`.
pub open spec fn spec_write_cells_in(
    st: CursorState,
    w: int,
    h: int,
    c: spec_fn(int, int) -> (Seq<char>, Style),
    present: spec_fn(int, int) -> bool,
    d: Style,
    text: Seq<char>,
) -> spec_fn(int, int) -> (Seq<char>, Style) {
    if w == 0 || h == 0 {
        c
    } else {
        spec_run_cells(
            st,
            w,
            h,
            (st.x@, st.y@, false),
            spec_steps(spec_lines(text)),
            c,
            present,
            st.style_modifier.spec_apply(d),
        )
    }
}

/// The state `st`, moved to `(x, y)`.
pub open spec fn spec_with_pos(st: CursorState, x: int, y: int) -> CursorState {
    CursorState { x: AxisIndex::spec_new(x), y: AxisIndex::spec_new(y), ..st }
}

/// What `checked_write` does on a `w` by `h` target that holds the cells `c` at the positions
/// `present` and draws in the default style `d`: the cells and the cursor state after writing
/// `text` where `spec_write_fits` allows it, and both unchanged where it does not.
pub open spec fn spec_checked_write(
    st: CursorState,
    w: int,
    h: int,
    c: spec_fn(int, int) -> (Seq<char>, Style),
    present: spec_fn(int, int) -> bool,
    d: Style,
    text: Seq<char>,
) -> (spec_fn(int, int) -> (Seq<char>, Style), CursorState) {
    if spec_write_fits(st, w, text) {
        let p = spec_write_pos(st, w, h, text);
        (spec_write_cells_in(st, w, h, c, present, d, text), spec_with_pos(st, p.0, p.1))
    } else {
        (c, st)
    }
}

/// `checked_write`s of each of `lines` in turn, starting in state `st`: the `i`th from column `x`
/// of row `y + i`.
pub open spec fn spec_write_rows(
    st: CursorState,
    w: int,
    h: int,
    c: spec_fn(int, int) -> (Seq<char>, Style),
    present: spec_fn(int, int) -> bool,
    d: Style,
    x: int,
    y: int,
    lines: Seq<Seq<char>>,
) -> (spec_fn(int, int) -> (Seq<char>, Style), CursorState)
    decreases lines.len(),
{
    if lines.len() == 0 {
        (c, st)
    } else {
        let r = spec_checked_write(spec_with_pos(st, x, y), w, h, c, present, d, lines[0]);
        spec_write_rows(r.1, w, h, r.0, present, d, x, y + 1, lines.drop_first())
    }
}

/// Three `checked_write`s one after the other, starting in state `st`: `a` and `e` in the style
/// modifier of `st`, and `b` with `style` applied on top of it.
pub open spec fn spec_write_styled_parts(
    st: CursorState,
    w: int,
    h: int,
    c: spec_fn(int, int) -> (Seq<char>, Style),
    present: spec_fn(int, int) -> bool,
    d: Style,
    style: StyleModifier,
    a: Seq<char>,
    b: Seq<char>,
    e: Seq<char>,
) -> (spec_fn(int, int) -> (Seq<char>, Style), CursorState) {
    let r1 = spec_checked_write(st, w, h, c, present, d, a);
    let s1 = r1.1;
    let r2 = spec_checked_write(
        CursorState { style_modifier: style.spec_on_top_of(s1.style_modifier), ..s1 },
        w,
        h,
        r1.0,
        present,
        d,
        b,
    );
    spec_checked_write(CursorState { style_modifier: s1.style_modifier, ..r2.1 }, w, h, r2.0, present, d, e)
}

/// The position after all the steps, starting from `p`.
pub open spec fn spec_run(
    st: CursorState,
    w: int,
    h: int,
    p: (int, int, bool),
    steps: Seq<Option<Seq<char>>>,
) -> (int, int, bool)
    decreases steps.len(),
{
    if steps.len() == 0 {
        p
    } else {
        spec_step(st, w, h, spec_run(st, w, h, p, steps.drop_last()), steps.last())
    }
}

/// The position of a cursor in state `st` after writing `text` into a grid `w` by `h` (nothing
/// happens in a grid without cells).
pub open spec fn spec_write_pos(st: CursorState, w: int, h: int, text: Seq<char>) -> (int, int) {
    if w == 0 || h == 0 {
        (st.x@, st.y@)
    } else {
        let p = spec_run(st, w, h, (st.x@, st.y@, false), spec_steps(spec_lines(text)));
        (p.0, p.1)
    }
}

/// An upper bound of how far one step moves the cursor to the right (plus one).
pub open spec fn spec_step_cost(step: Option<Seq<char>>, tw: int) -> int {
    match step {
        None => 1,
        Some(c) => if c == seq!['\t'] {
            2 * tw + 1
        } else if c == seq!['\r'] {
            1
        } else {
            spec_cluster_width(c) as int + 1
        },
    }
}

/// The sum of the step costs.
pub open spec fn spec_total_cost(steps: Seq<Option<Seq<char>>>, tw: int) -> int
    decreases steps.len(),
{
    if steps.len() == 0 {
        0
    } else {
        spec_total_cost(steps.drop_last(), tw) + spec_step_cost(steps.last(), tw)
    }
}

/// The limits under which writing `text` keeps all positions within `i32` (as the cursor's
/// arithmetic requires): the cursor and the line start column lie no further left of the right
/// border than `i32::MAX`, the rightmost of the cursor, the line start column and the border
/// plus the cost of all steps stays below `i32::MAX`, the row plus the number of steps too, and
/// tab stops have a non-zero width where the text has tabs.
pub open spec fn spec_write_fits(st: CursorState, w: int, text: Seq<char>) -> bool {
    let steps = spec_steps(spec_lines(text));
    let tw = st.tab_column_width@ as int;
    let m = if st.x@ >= st.line_start_column@ && st.x@ >= w {
        st.x@
    } else if st.line_start_column@ >= w {
        st.line_start_column@
    } else {
        w
    };
    &&& st.x@ >= w - i32::MAX
    &&& st.line_start_column@ >= w - i32::MAX
    &&& m + spec_total_cost(steps, tw) + 1 <= i32::MAX
    &&& st.y@ + steps.len() + 1 < i32::MAX
    &&& (tw == 0 ==> !steps.contains(Some(seq!['\t'])))
}

/// Each step costs at least one.
proof fn lemma_step_cost_positive(step: Option<Seq<char>>, tw: int)
    requires
        tw >= 0,
    ensures
        spec_step_cost(step, tw) >= 1,
{
}

/// The cost of a prefix is at most the cost of the whole.
proof fn lemma_cost_prefix(s: Seq<Option<Seq<char>>>, t: Seq<Option<Seq<char>>>, tw: int)
    requires
        tw >= 0,
        s.len() <= t.len(),
        t.take(s.len() as int) == s,
    ensures
        spec_total_cost(s, tw) <= spec_total_cost(t, tw),
    decreases t.len(),
{
    if t.len() == s.len() {
        assert(t =~= s);
    } else {
        assert(t.drop_last().take(s.len() as int) =~= s);
        lemma_cost_prefix(s, t.drop_last(), tw);
        lemma_step_cost_positive(t.last(), tw);
    }
}

/// The steps of the first `i + 1` lines extend those of the first `i` lines by the line break
/// (unless `i` is 0) and the clusters of line `i`.
proof fn lemma_steps_take(lines: Seq<Seq<char>>, i: int)
    requires
        0 <= i < lines.len(),
    ensures
        spec_steps(lines.take(i + 1)) == spec_steps(lines.take(i)) + (if i > 0 {
            seq![None]
        } else {
            Seq::<Option<Seq<char>>>::empty()
        }) + spec_graphemes(lines[i]).map_values(|c: Seq<char>| Some(c)),
{
    assert(lines.take(i + 1).drop_last() =~= lines.take(i));
    assert(lines.take(i + 1).last() == lines[i]);
}

/// The steps of the first `i` lines are a prefix of the steps of all lines.
proof fn lemma_steps_prefix(lines: Seq<Seq<char>>, i: int)
    requires
        0 <= i <= lines.len(),
    ensures
        spec_steps(lines.take(i)).len() <= spec_steps(lines).len(),
        spec_steps(lines).take(spec_steps(lines.take(i)).len() as int) == spec_steps(lines.take(i)),
    decreases lines.len(),
{
    if i == lines.len() {
        assert(lines.take(i) =~= lines);
    } else {
        let d = lines.drop_last();
        assert(d.take(i) =~= lines.take(i));
        lemma_steps_prefix(d, i);
        let a = spec_steps(d);
        let full = spec_steps(lines);
        assert(full.take(a.len() as int) =~= a);
        let p = spec_steps(lines.take(i));
        assert(full.take(p.len() as int) =~= a.take(p.len() as int));
    }
}

/// How far one step moves the cursor: never left of both the cursor and the line start column,
/// never further right than the cost of the step past the rightmost of the cursor, the line start
/// column and the border; and at most one row down.
proof fn lemma_step_bounds(st: CursorState, w: int, h: int, p: (int, int, bool), step: Option<Seq<char>>)
    requires
        w >= 0,
        st.tab_column_width@ == 0 ==> step != Some(seq!['\t']),
    ensures
        ({
            let r = spec_step(st, w, h, p, step);
            let ls = st.line_start_column@;
            let m = if p.0 >= ls && p.0 >= w {
                p.0
            } else if ls >= w {
                ls
            } else {
                w
            };
            &&& r.0 >= p.0 || r.0 >= ls
            &&& r.0 <= m + spec_step_cost(step, st.tab_column_width@ as int)
            &&& p.1 <= r.1 <= p.1 + 1
        }),
{
    let tw = st.tab_column_width@ as int;
    match step {
        None => {},
        Some(c) => {
            if !p.2 && c != seq!['\r'] && c == seq!['\t'] {
                let x = p.0;
                if x >= 0 {
                    assert(0 <= x % tw < tw) by (nonlinear_arith)
                        requires
                            tw > 0,
                    ;
                } else {
                    assert(0 <= (-x) % tw < tw) by (nonlinear_arith)
                        requires
                            tw > 0,
                    ;
                }
            }
        },
    }
}

/// Whether cell `(x, y)` of the target exists and holds a cluster of non-zero width, i.e.,
/// whether a cursor moving over the grid stops there.
pub open spec fn spec_visible_cell<T: CursorTarget>(t: T, x: int, y: int) -> bool {
    x >= 0 && y >= 0 && t.spec_has_cell(x, y) && spec_cell_width(t, x, y) > 0
}

/// One step to the left from `(x, y)`: one column, or, when wrapping and at (or left of) the
/// line start column `lsc`, to the last column before the soft width `sw` in the row above.
pub open spec fn spec_left_step(x: int, y: int, wrap: bool, lsc: int, sw: int) -> (int, int) {
    if wrap && x <= lsc {
        (sw - 1, y - 1)
    } else {
        (x - 1, y)
    }
}

/// The position after `k` steps to the left from `(x, y)`.
pub open spec fn spec_left_iter(x: int, y: int, wrap: bool, lsc: int, sw: int, k: nat) -> (int, int)
    decreases k,
{
    if k == 0 {
        (x, y)
    } else {
        let p = spec_left_iter(x, y, wrap, lsc, sw, (k - 1) as nat);
        spec_left_step(p.0, p.1, wrap, lsc, sw)
    }
}

/// Whether moving left stops at `p`: above the grid, or on a cluster of non-zero width.
pub open spec fn spec_left_stop<T: CursorTarget>(t: T, p: (int, int)) -> bool {
    p.1 < 0 || spec_visible_cell(t, p.0, p.1)
}

/// Whether `k` is the number of steps after which moving left from `(x, y)` first stops.
pub open spec fn spec_left_first_stop<T: CursorTarget>(
    t: T,
    x: int,
    y: int,
    wrap: bool,
    lsc: int,
    k: nat,
) -> bool {
    let sw = t.spec_soft_width() as int;
    &&& k >= 1
    &&& spec_left_stop(t, spec_left_iter(x, y, wrap, lsc, sw, k))
    &&& forall|j: nat| 1 <= j < k ==> !#[trigger] spec_left_stop(t, spec_left_iter(x, y, wrap, lsc, sw, j))
}

/// Where moving left from `(x, y)` ends: the first position on the way that is above the grid
/// or holds a cluster of non-zero width.
pub open spec fn spec_left_end<T: CursorTarget>(t: T, x: int, y: int, wrap: bool, lsc: int) -> (int, int) {
    let k = choose|k: nat| spec_left_first_stop(t, x, y, wrap, lsc, k);
    spec_left_iter(x, y, wrap, lsc, t.spec_soft_width() as int, k)
}

/// Whether moving left from `(x, y)` comes to an end within the `i32` range: when wrapping,
/// the row can move up from where the cursor stands; otherwise the cursor is above the grid (and
/// can move one column), or a cluster of non-zero width lies left of it in its row.
pub open spec fn spec_can_move_left<T: CursorTarget>(t: T, x: int, y: int, wrap: bool, lsc: int) -> bool {
    if wrap {
        x <= lsc ==> y > i32::MIN
    } else {
        (y < 0 && x > i32::MIN) || exists|x2: int| x2 < x && #[trigger] spec_visible_cell(t, x2, y)
    }
}

/// One step to the right from `(x, y)`: one column, or, when wrapping and beyond the width
/// `w`, to the line start column `lsc` of the row below.
pub open spec fn spec_right_step(x: int, y: int, wrap: bool, lsc: int, w: int) -> (int, int) {
    if wrap && x > w {
        (lsc, y + 1)
    } else {
        (x + 1, y)
    }
}

/// The position after `k` steps to the right from `(x, y)`.
pub open spec fn spec_right_iter(x: int, y: int, wrap: bool, lsc: int, w: int, k: nat) -> (int, int)
    decreases k,
{
    if k == 0 {
        (x, y)
    } else {
        let p = spec_right_iter(x, y, wrap, lsc, w, (k - 1) as nat);
        spec_right_step(p.0, p.1, wrap, lsc, w)
    }
}

/// Whether moving right stops at `p`: below the grid, or on a cluster of non-zero width.
pub open spec fn spec_right_stop<T: CursorTarget>(t: T, p: (int, int)) -> bool {
    p.1 >= t.spec_height() || spec_visible_cell(t, p.0, p.1)
}

/// Whether `k` is the number of steps after which moving right from `(x, y)` first stops.
pub open spec fn spec_right_first_stop<T: CursorTarget>(
    t: T,
    x: int,
    y: int,
    wrap: bool,
    lsc: int,
    k: nat,
) -> bool {
    let w = t.spec_width() as int;
    &&& k >= 1
    &&& spec_right_stop(t, spec_right_iter(x, y, wrap, lsc, w, k))
    &&& forall|j: nat| 1 <= j < k ==> !#[trigger] spec_right_stop(t, spec_right_iter(x, y, wrap, lsc, w, j))
}

/// Where moving right from `(x, y)` ends: the first position on the way that is below the grid
/// or holds a cluster of non-zero width.
pub open spec fn spec_right_end<T: CursorTarget>(t: T, x: int, y: int, wrap: bool, lsc: int) -> (int, int) {
    let k = choose|k: nat| spec_right_first_stop(t, x, y, wrap, lsc, k);
    spec_right_iter(x, y, wrap, lsc, t.spec_width() as int, k)
}

/// Whether moving right from `(x, y)` comes to an end within the `i32` range: when wrapping
/// (in a grid narrower than `i32::MAX`), the row can move down from where the cursor stands;
/// otherwise the cursor is below the grid (and can move one column), or a cluster of non-zero
/// width lies right of it in its row, within the `i32` range.
pub open spec fn spec_can_move_right<T: CursorTarget>(t: T, x: int, y: int, wrap: bool, lsc: int) -> bool {
    let w = t.spec_width() as int;
    if wrap && w < i32::MAX {
        x > w ==> y < i32::MAX
    } else {
        (y >= t.spec_height() && x < i32::MAX) || exists|x2: int| x < x2 <= i32::MAX && #[trigger] spec_visible_cell(t, x2, y)
    }
}

/// Whether erasing left of the cursor at `(x, y)` in the cursor's modes stays within the `i32`
/// range and finds a cell to erase: moving left comes to an end, a single-cell cluster can be
/// written where it ends, and that position lies within the limits of writing a cluster.
pub open spec fn spec_can_backspace<T: CursorTarget>(t: T, x: int, y: int, wrap: bool, lsc: int) -> bool {
    let w = t.spec_width() as int;
    let h = t.spec_height() as int;
    let p = spec_left_end(t, x, y, wrap, lsc);
    &&& spec_can_move_left(t, x, y, wrap, lsc)
    &&& spec_fits_at(p.0, p.1, 1, wrap, lsc, w)
    &&& spec_write_cluster_pos(p.0, p.1, 1, wrap, lsc, w, h).2
}

/// The widths of the clusters of styled cells.
pub open spec fn spec_cell_widths(cells: Seq<StyledGraphemeCluster>) -> Seq<int> {
    cells.map_values(|c: StyledGraphemeCluster| spec_cluster_width(c.grapheme_cluster@) as int)
}

/// The sum of a sequence of integers.
pub open spec fn spec_sum(ws: Seq<int>) -> int
    decreases ws.len(),
{
    if ws.len() == 0 {
        0
    } else {
        spec_sum(ws.drop_last()) + ws.last()
    }
}

/// Writing clusters of the widths `ws` one after the other from `(x, y)`, as long as each is
/// written: the position afterwards, and whether all were written.
pub open spec fn spec_cells_run(x: int, y: int, wrap: bool, lsc: int, w: int, h: int, ws: Seq<int>) -> (int, int, bool)
    decreases ws.len(),
{
    if ws.len() == 0 {
        (x, y, true)
    } else {
        let q = spec_write_cluster_pos(x, y, ws[0], wrap, lsc, w, h);
        if !q.2 {
            q
        } else {
            spec_cells_run(q.0, q.1, wrap, lsc, w, h, ws.drop_first())
        }
    }
}

/// The cells `c` after writing the styled clusters `cs` one after the other from `(x, y)`, as
/// long as each is written (the one that is not written still fills the rest of its row).
pub open spec fn spec_cells_run_cells(
    c: spec_fn(int, int) -> (Seq<char>, Style),
    present: spec_fn(int, int) -> bool,
    x: int,
    y: int,
    wrap: bool,
    lsc: int,
    w: int,
    h: int,
    cs: Seq<(Seq<char>, Style)>,
) -> spec_fn(int, int) -> (Seq<char>, Style)
    decreases cs.len(),
{
    if cs.len() == 0 {
        c
    } else {
        let q = spec_write_cluster_pos(x, y, spec_cluster_width(cs[0].0) as int, wrap, lsc, w, h);
        let c1 = spec_write_cluster_cells(c, present, x, y, cs[0].0, cs[0].1, wrap, lsc, w, h);
        if !q.2 {
            c1
        } else {
            spec_cells_run_cells(c1, present, q.0, q.1, wrap, lsc, w, h, cs.drop_first())
        }
    }
}

/// The views of styled clusters.
pub open spec fn spec_cell_views(cells: Seq<StyledGraphemeCluster>) -> Seq<(Seq<char>, Style)> {
    cells.map_values(|c: StyledGraphemeCluster| c@)
}

/// The limits under which writing a cluster of width `cw` at `(x, y)` in a grid `w` columns
/// wide keeps all positions within `i32`: the cursor lies no further left of the border than
/// `i32::MAX` and short of `i32::MAX`, and where the cluster does not fit and the cursor wraps,
/// the same holds of the line start column `lsc` and the row is short of `i32::MAX`.
pub open spec fn spec_fits_at(x: int, y: int, cw: int, wrap: bool, lsc: int, w: int) -> bool {
    &&& cw <= i32::MAX
    &&& x >= w - i32::MAX
    &&& x < i32::MAX
    &&& (spec_remaining(x, w) < cw && wrap) ==> {
        &&& lsc >= w - i32::MAX
        &&& lsc < i32::MAX
        &&& y < i32::MAX
    }
}

/// Whether each cluster of `spec_cells_run` is written within the limits of `spec_fits_at`.
pub open spec fn spec_cells_fit(x: int, y: int, wrap: bool, lsc: int, w: int, h: int, ws: Seq<int>) -> bool
    decreases ws.len(),
{
    if ws.len() == 0 {
        true
    } else {
        let q = spec_write_cluster_pos(x, y, ws[0], wrap, lsc, w, h);
        &&& spec_fits_at(x, y, ws[0], wrap, lsc, w)
        &&& q.2 ==> spec_cells_fit(q.0, q.1, wrap, lsc, w, h, ws.drop_first())
    }
}

/// The limits of `spec_fits_at` for a cursor in state `s`.
pub open spec fn spec_cursor_fits(s: CursorState, cw: int, w: int) -> bool {
    spec_fits_at(s.x@, s.y@, cw, s.wrapping_mode == WrappingMode::Wrap, s.line_start_column@, w)
}

/// Something that writes text to a cursor target (such as a window), keeping track of its
/// position, style and wrapping behaviour.
pub struct Cursor<'c, T: CursorTarget> {
    pub window: &'c mut T,
    pub state: CursorState,
}

impl<'c, T: CursorTarget> Cursor<'c, T> {
    /// A cursor at (0, 0) with the default state, writing to `target`.
    pub fn new(target: &'c mut T) -> (r: Self)
        ensures
            *r.window == *old(target),
            *final(target) == *final(r.window),
            r.state == CursorState::spec_default(),
            r.state.wrapping_mode == WrappingMode::NoWrap,
            r.state.style_modifier == StyleModifier::spec_new(),
            r.state.x@ == 0,
            r.state.y@ == 0,
            r.state.line_start_column@ == 0,
            r.state.tab_column_width@ == 4,
    {
        Cursor { window: target, state: CursorState::default() }
    }

    /// A cursor in the given state, writing to `target`.
    pub fn from_state(target: &'c mut T, state: CursorState) -> (r: Self)
        ensures
            *r.window == *old(target),
            *final(target) == *final(r.window),
            r.state == state,
    {
        Cursor { window: target, state }
    }

    /// Give up the cursor and keep its state (to continue in a later drawing pass).
    pub fn into_state(self) -> (r: CursorState)
        ensures
            r == self.state,
    {
        self.state
    }

    /// The cursor, moved to `(x, y)`.
    pub fn position(self, x: ColIndex, y: RowIndex) -> (r: Self)
        ensures
            r.window == self.window,
            r.state == (CursorState { x, y, ..self.state }),
    {
        let mut c = self;
        c.state.x = x;
        c.state.y = y;
        c
    }

    /// The current column and row.
    pub fn get_position(&self) -> (r: (ColIndex, RowIndex))
        ensures
            r == (self.state.x, self.state.y),
    {
        (self.state.x, self.state.y)
    }

    /// The current column.
    pub fn get_col(&self) -> (r: ColIndex)
        ensures
            r == self.state.x,
    {
        self.state.x
    }

    /// The current row.
    pub fn get_row(&self) -> (r: RowIndex)
        ensures
            r == self.state.y,
    {
        self.state.y
    }

    /// Move by `x` columns and `y` rows.
    pub fn move_by(&mut self, x: ColDiff, y: RowDiff)
        requires
            i32::MIN <= old(self).state.x@ + x@ <= i32::MAX,
            i32::MIN <= old(self).state.y@ + y@ <= i32::MAX,
        ensures
            final(self).state == (CursorState {
                x: final(self).state.x,
                y: final(self).state.y,
                ..old(self).state
            }),
            final(self).state.x@ == old(self).state.x@ + x@,
            final(self).state.y@ == old(self).state.y@ + y@,
            *final(self).window == *old(self).window,
            *final(final(self).window) == *final(old(self).window),
    {
        self.state.x = AxisIndex::new(self.state.x.raw_value() + x.raw_value());
        self.state.y = AxisIndex::new(self.state.y.raw_value() + y.raw_value());
    }

    /// Move to column `x` and row `y`.
    pub fn move_to(&mut self, x: ColIndex, y: RowIndex)
        ensures
            final(self).state == (CursorState { x, y, ..old(self).state }),
            *final(self).window == *old(self).window,
            *final(final(self).window) == *final(old(self).window),
    {
        self.state.x = x;
        self.state.y = y;
    }

    /// Move to column `x`, staying in the row.
    pub fn move_to_x(&mut self, x: ColIndex)
        ensures
            final(self).state == (CursorState { x, ..old(self).state }),
            *final(self).window == *old(self).window,
            *final(final(self).window) == *final(old(self).window),
    {
        self.state.x = x;
    }

    /// Move to row `y`, staying in the column.
    pub fn move_to_y(&mut self, y: RowIndex)
        ensures
            final(self).state == (CursorState { y, ..old(self).state }),
            *final(self).window == *old(self).window,
            *final(final(self).window) == *final(old(self).window),
    {
        self.state.y = y;
    }

    /// Set how the cursor behaves at the right border.
    pub fn set_wrapping_mode(&mut self, wm: WrappingMode)
        ensures
            final(self).state == (CursorState { wrapping_mode: wm, ..old(self).state }),
            *final(self).window == *old(self).window,
            *final(final(self).window) == *final(old(self).window),
    {
        self.state.wrapping_mode = wm;
    }

    /// The cursor, with the given wrapping mode.
    pub fn wrapping_mode(self, wm: WrappingMode) -> (r: Self)
        ensures
            r.window == self.window,
            r.state == (CursorState { wrapping_mode: wm, ..self.state }),
    {
        let mut c = self;
        c.state.wrapping_mode = wm;
        c
    }

    /// The cursor, with lines starting at `column`: wrapping returns there, and moving left
    /// across it wraps to the row above.
    pub fn line_start_column(self, column: ColIndex) -> (r: Self)
        ensures
            r.window == self.window,
            r.state == (CursorState { line_start_column: column, ..self.state }),
    {
        let mut c = self;
        c.state.line_start_column = column;
        c
    }

    /// Let lines start at `column`.
    pub fn set_line_start_column(&mut self, column: ColIndex)
        ensures
            final(self).state == (CursorState { line_start_column: column, ..old(self).state }),
            *final(self).window == *old(self).window,
            *final(final(self).window) == *final(old(self).window),
    {
        self.state.line_start_column = column;
    }

    /// Move the line start column by `d`.
    pub fn move_line_start_column(&mut self, d: ColDiff)
        requires
            i32::MIN <= old(self).state.line_start_column@ + d@ <= i32::MAX,
        ensures
            final(self).state == (CursorState {
                line_start_column: final(self).state.line_start_column,
                ..old(self).state
            }),
            final(self).state.line_start_column@ == old(self).state.line_start_column@ + d@,
            *final(self).window == *old(self).window,
            *final(final(self).window) == *final(old(self).window),
    {
        self.state.line_start_column = AxisIndex::new(
            self.state.line_start_column.raw_value() + d.raw_value(),
        );
    }

    /// The cursor, with the given style modifier.
    pub fn style_modifier(self, style_modifier: StyleModifier) -> (r: Self)
        ensures
            r.window == self.window,
            r.state == (CursorState { style_modifier, ..self.state }),
    {
        let mut c = self;
        c.state.style_modifier = style_modifier;
        c
    }

    /// Use `style_modifier` (on top of the target's default style) for what is written next.
    pub fn set_style_modifier(&mut self, style_modifier: StyleModifier)
        ensures
            final(self).state == (CursorState { style_modifier, ..old(self).state }),
            *final(self).window == *old(self).window,
            *final(final(self).window) == *final(old(self).window),
    {
        self.state.style_modifier = style_modifier;
    }

    /// The current style modifier.
    pub fn get_style_modifier(&self) -> (r: StyleModifier)
        ensures
            r == self.state.style_modifier,
    {
        self.state.style_modifier
    }

    /// Apply `style_modifier` on top of the current one.
    pub fn apply_style_modifier(&mut self, style_modifier: StyleModifier)
        ensures
            final(self).state == (CursorState {
                style_modifier: style_modifier.spec_on_top_of(old(self).state.style_modifier),
                ..old(self).state
            }),
            *final(self).window == *old(self).window,
            *final(final(self).window) == *final(old(self).window),
    {
        self.state.style_modifier = style_modifier.on_top_of(self.state.style_modifier);
    }

    /// Set how far a tab character moves the cursor: to the next multiple of `width`.
    pub fn set_tab_column_width(&mut self, width: Width)
        ensures
            final(self).state == (CursorState { tab_column_width: width, ..old(self).state }),
            *final(self).window == *old(self).window,
            *final(final(self).window) == *final(old(self).window),
    {
        self.state.tab_column_width = width;
    }

    /// Move to the line start column of the next row.
    pub fn wrap_line(&mut self)
        requires
            old(self).state.y@ < i32::MAX,
        ensures
            final(self).state == (CursorState {
                x: old(self).state.line_start_column,
                y: final(self).state.y,
                ..old(self).state
            }),
            final(self).state.y@ == old(self).state.y@ + 1,
            *final(self).window == *old(self).window,
            *final(final(self).window) == *final(old(self).window),
    {
        self.state.y = AxisIndex::new(self.state.y.raw_value() + 1);
        self.carriage_return();
    }

    /// Move to the line start column, staying in the row.
    pub fn carriage_return(&mut self)
        ensures
            final(self).state == (CursorState { x: old(self).state.line_start_column, ..old(self).state }),
            *final(self).window == *old(self).window,
            *final(final(self).window) == *final(old(self).window),
    {
        self.state.x = self.state.line_start_column;
    }

    /// The style of what is written next: the style modifier applied to the target's default.
    fn active_style(&self) -> (r: Style)
        ensures
            r == self.state.style_modifier.spec_apply(old(self.window).spec_default_style()),
    {
        self.state.style_modifier.apply(self.window.get_default_style())
    }

    /// Put a cluster into the cell under the cursor (where there is one), without moving. Where
    /// the old content of the cell belonged to a wide cluster (or was itself wider than one
    /// cell), the remaining cells of that cluster are cleared to spaces.
    fn write_grapheme_cluster_unchecked(&mut self, cluster: GraphemeCluster, style: Style)
        ensures
            final(self).state == old(self).state,
            spec_same_frame(*final(self).window, *old(self).window),
            forall|a: int, b: int| #[trigger] final(self).window.spec_cell(a, b) == spec_placed_cell(
                *old(self).window,
                old(self).state.x@,
                old(self).state.y@,
                (cluster@, style),
                a,
                b,
            ),
            *final(final(self).window) == *final(old(self).window),
    {
        let ghost t0 = *self.window;
        let x = self.state.x;
        let y = self.state.y;
        let old_w: usize = match self.window.get_cell(x, y) {
            Some(c) => c.grapheme_cluster.width(),
            None => {
                return ;
            },
        };
        let new_cell = StyledGraphemeCluster::new(cluster, style);
        let ghost new_view = new_cell@;
        self.window.set_cell(x, y, new_cell);
        let ghost t1 = *self.window;
        if old_w != 1 {
            let mut cx: i32 = x.raw_value();
            let mut cw: usize = old_w;
            while cw == 0
                invariant
                    *self.window == t1,
                    self.state == old(self).state,
                    x == old(self).state.x,
                    y == old(self).state.y,
                    t0 == *old(self).window,
                    spec_same_frame(t1, t0),
                    cx == x@ || 0 <= cx < x@,
                    old_w == spec_cell_width(t0, x@, y@),
                    cx == x@ ==> cw == old_w,
                    cx < x@ ==> t0.spec_has_cell(cx as int, y@) && cw == spec_cell_width(t0, cx as int, y@),
                    old_w == 0 || (cx == x@ && cw == old_w),
                    old_w == 0 ==> spec_cluster_start(t0, x@ - 1, y@) == if cx < x@ && cw != 0 {
                        cx as int
                    } else {
                        spec_cluster_start(t0, cx - 1, y@)
                    },
                    forall|a: int, b: int| #[trigger] t1.spec_has_cell(a, b) == t0.spec_has_cell(a, b),
                    forall|a: int, b: int| #[trigger] t1.spec_cell(a, b) == if a == x@ && b == y@ {
                        new_view
                    } else {
                        t0.spec_cell(a, b)
                    },
                    t0.spec_has_cell(x@, y@),
                    new_view == (cluster@, style),
                    *final(self.window) == *final(old(self).window),
                decreases cx + 2147483648,
            {
                if cx <= 0 {
                    proof {
                        assert(spec_cluster_start(t0, cx - 1, y@) == -1);
                        assert forall|a: int, b: int| #[trigger] self.window.spec_cell(a, b) == spec_placed_cell(t0, x@, y@, new_view, a, b) by {}
                    }
                    return ;
                }
                cx = cx - 1;
                match self.window.get_cell(AxisIndex::new(cx), y) {
                    Some(c) => {
                        cw = c.grapheme_cluster.width();
                    },
                    None => {
                        proof {
                            assert(spec_cluster_start(t0, cx as int, y@) == -1);
                            assert forall|a: int, b: int| #[trigger] self.window.spec_cell(a, b) == spec_placed_cell(t0, x@, y@, new_view, a, b) by {}
                        }
                        return ;
                    },
                }
            }
            proof {
                if old_w == 0 {
                    assert(spec_cluster_start(t0, x@ - 1, y@) == cx);
                }
            }
            let ghost s = cx as int;
            proof {
                assert(spec_cell_width(t0, cx as int, y@) == cw);
            }
            let end: i64 = if cw as u64 >= 4294967296u64 {
                2147483648
            } else if (cx as i64) + (cw as i64) <= 2147483648 {
                (cx as i64) + (cw as i64)
            } else {
                2147483648
            };
            let mut xc: i64 = cx as i64;
            while xc < end
                invariant
                    self.state == old(self).state,
                    x == old(self).state.x,
                    y == old(self).state.y,
                    t0 == *old(self).window,
                    i32::MIN <= s,
                    new_view == (cluster@, style),
                    t0.spec_has_cell(x@, y@),
                    old_w == spec_cell_width(t0, x@, y@),
                    old_w != 1,
                    s == if old_w == 0 { spec_cluster_start(t0, x@ - 1, y@) } else { x@ },
                    end == if s + (if old_w == 0 { spec_cell_width(t0, s, y@) } else { old_w as int }) <= 2147483648 {
                        s + (if old_w == 0 { spec_cell_width(t0, s, y@) } else { old_w as int })
                    } else {
                        2147483648
                    },
                    s <= xc,
                    end <= 2147483648,
                    xc <= end || xc == s,
                    spec_same_frame(*self.window, t0),
                    forall|a: int, b: int| #[trigger] self.window.spec_cell(a, b) == if a == x@ && b == y@ {
                        new_view
                    } else if b == y@ && s <= a < xc && t0.spec_has_cell(a, b) {
                        (seq![' '], t0.spec_cell(a, b).1)
                    } else {
                        t0.spec_cell(a, b)
                    },
                    *final(self.window) == *final(old(self).window),
                decreases end - xc,
            {
                if xc != x.raw_value() as i64 {
                    assert(i32::MIN <= xc <= i32::MAX);
                    let col: ColIndex = AxisIndex::new(xc as i32);
                    let st = match self.window.get_cell(col, y) {
                        Some(c) => Some(c.style),
                        None => None,
                    };
                    match st {
                        Some(st) => {
                            self.window.set_cell(col, y, StyledGraphemeCluster::new(GraphemeCluster::space(), st));
                        },
                        None => {},
                    }
                }
                xc = xc + 1;
            }
            proof {
                assert forall|a: int, b: int| #[trigger] self.window.spec_cell(a, b) == spec_placed_cell(t0, x@, y@, new_view, a, b) by {}
            }
        } else {
            proof {
                assert forall|a: int, b: int| #[trigger] self.window.spec_cell(a, b) == spec_placed_cell(t0, x@, y@, new_view, a, b) by {}
            }
        }
    }

    /// Write a cluster at the cursor and move past it; handles the right border (filling the
    /// rest of the row with spaces where the cluster does not fit, and wrapping if the cursor
    /// does) and the bottom border. Fails where the cluster could not be written.
    fn write_cluster(&mut self, grapheme_cluster: GraphemeCluster, style: &Style) -> (r: Result<(), ()>)
        requires
            spec_cursor_fits(old(self).state, spec_cluster_width(grapheme_cluster@) as int, old(self).window.spec_width() as int),
        ensures
            ({
                let (x, y, ok) = spec_write_cluster_pos(
                    old(self).state.x@,
                    old(self).state.y@,
                    spec_cluster_width(grapheme_cluster@) as int,
                    old(self).state.wrapping_mode == WrappingMode::Wrap,
                    old(self).state.line_start_column@,
                    old(self).window.spec_width() as int,
                    old(self).window.spec_height() as int,
                );
                &&& final(self).state == (CursorState { x: final(self).state.x, y: final(self).state.y, ..old(self).state })
                &&& final(self).state.x@ == x
                &&& final(self).state.y@ == y
                &&& r is Ok <==> ok
            }),
            spec_same_frame(*final(self).window, *old(self).window),
            spec_cells_of(*final(self).window) == spec_write_cluster_cells(
                spec_cells_of(*old(self).window),
                spec_has_of(*old(self).window),
                old(self).state.x@,
                old(self).state.y@,
                grapheme_cluster@,
                *style,
                old(self).state.wrapping_mode == WrappingMode::Wrap,
                old(self).state.line_start_column@,
                old(self).window.spec_width() as int,
                old(self).window.spec_height() as int,
            ),
            *final(final(self).window) == *final(old(self).window),
    {
        let ghost st0 = self.state;
        let ghost g0 = grapheme_cluster@;
        let h = self.window.get_height();
        let w = self.window.get_width();
        if !h.origin_range_contains(self.state.y) {
            proof {
                assert(spec_cells_of(*self.window) =~= spec_cells_of(*old(self).window));
            }
            return Err(());
        }
        let cw: usize = grapheme_cluster.width();
        let cwi: i32 = cw as i32;
        let wr = w.raw_value();
        let space = self.remaining_space_in_line();
        let ghost t0 = *self.window;
        let ghost has0 = spec_has_of(t0);
        let ghost c0 = spec_cells_of(t0);
        if space.raw_value() < cwi {
            let mut i: i32 = 0;
            let n = space.raw_value();
            while i < n
                invariant
                    0 <= i <= n,
                    n == spec_remaining(st0.x@, w@ as int),
                    self.state == (CursorState { x: self.state.x, ..st0 }),
                    self.state.x@ == st0.x@ + i,
                    n > 0 ==> st0.x@ + n == w@,
                    w@ == wr,
                    spec_same_frame(*self.window, t0),
                    w@ == t0.spec_width(),
                    has0 == spec_has_of(t0),
                    c0 == spec_cells_of(t0),
                    spec_cells_of(*self.window) == spec_place_spaces(c0, has0, st0.x@, st0.y@, i as nat, *style),
                    *final(self.window) == *final(old(self).window),
                decreases n - i,
            {
                let ghost ti = *self.window;
                let sp = GraphemeCluster::space();
                self.write_grapheme_cluster_unchecked(sp, *style);
                proof {
                    lemma_after_place(ti, *self.window, st0.x@ + i, st0.y@, (seq![' '], *style));
                    lemma_same_frame_has(ti, t0);
                }
                self.state.x = AxisIndex::new(self.state.x.raw_value() + 1);
                i = i + 1;
            }
            if self.state.wrapping_mode == WrappingMode::Wrap {
                self.wrap_line();
                if self.remaining_space_in_line().raw_value() < cwi {
                    return Err(());
                }
            } else {
                return Err(());
            }
        }
        let ghost st1 = self.state;
        let ghost c1 = spec_cells_of(*self.window);
        let ghost t1 = *self.window;
        proof {
            lemma_same_frame_has(t1, t0);
        }
        let x = self.state.x;
        let y = self.state.y;
        if w.origin_range_contains(x) && h.origin_range_contains(y) {
            if cw == 0 {
                let merged = match self.window.get_cell(x, y) {
                    Some(c) => {
                        let mut m = c.clone();
                        m.grapheme_cluster.merge_zero_width(grapheme_cluster);
                        Some(m)
                    },
                    None => None,
                };
                match merged {
                    Some(m) => {
                        self.window.set_cell(x, y, m);
                    },
                    None => {},
                }
                proof {
                    assert(spec_cells_of(*self.window) =~= spec_merged_in(c1, has0, x@, y@, g0));
                }
                return Ok(());
            }
            self.write_grapheme_cluster_unchecked(grapheme_cluster, *style);
            proof {
                lemma_after_place(t1, *self.window, x@, y@, (g0, *style));
            }
        }
        let ghost c2 = spec_cells_of(*self.window);
        self.state.x = AxisIndex::new(self.state.x.raw_value() + 1);
        if cw > 1 && h.origin_range_contains(self.state.y) {
            let mut k: i32 = 1;
            while k < cwi
                invariant
                    1 <= k <= cwi,
                    cwi == cw,
                    cw > 1,
                    self.state == (CursorState { x: self.state.x, ..st1 }),
                    self.state.x@ == st1.x@ + k,
                    st1.x@ + cw <= i32::MAX,
                    spec_same_frame(*self.window, t0),
                    w@ == t0.spec_width(),
                    h@ == t0.spec_height(),
                    has0 == spec_has_of(t0),
                    spec_cells_of(*self.window) == spec_place_in_row(
                        c2,
                        has0,
                        st1.x@ + 1,
                        st1.y@,
                        (k - 1) as nat,
                        w@ as int,
                        (Seq::<char>::empty(), *style),
                    ),
                    *final(self.window) == *final(old(self).window),
                decreases cwi - k,
            {
                let ghost tk = *self.window;
                if w.origin_range_contains(self.state.x) {
                    self.write_grapheme_cluster_unchecked(GraphemeCluster::empty(), *style);
                    proof {
                        lemma_after_place(tk, *self.window, st1.x@ + k, st1.y@, (Seq::<char>::empty(), *style));
                        lemma_same_frame_has(tk, t0);
                    }
                }
                self.state.x = AxisIndex::new(self.state.x.raw_value() + 1);
                k = k + 1;
            }
        }
        Ok(())
    }

    /// One step of writing text: unless the rest of the line is skipped, a carriage return goes
    /// back to the line start column, a tab is written as spaces up to the next tab stop, and
    /// any other cluster is written as it is. Tells whether the rest of the line is skipped.
    fn write_step(&mut self, c: &GraphemeCluster, skip: bool, style: &Style) -> (r: bool)
        requires
            old(self).state.x@ >= old(self).window.spec_width() - i32::MAX,
            old(self).state.line_start_column@ >= old(self).window.spec_width() - i32::MAX,
            old(self).state.x@ + spec_step_cost(Some(c@), old(self).state.tab_column_width@ as int) < i32::MAX,
            old(self).state.line_start_column@ + spec_step_cost(Some(c@), old(self).state.tab_column_width@ as int)
                < i32::MAX,
            old(self).state.y@ < i32::MAX,
            spec_step_cost(Some(c@), old(self).state.tab_column_width@ as int) <= i32::MAX,
            old(self).state.tab_column_width@ == 0 ==> c@ != seq!['\t'],
        ensures
            final(self).state == (CursorState { x: final(self).state.x, y: final(self).state.y, ..old(self).state }),
            (final(self).state.x@, final(self).state.y@, r) == spec_step(
                old(self).state,
                old(self).window.spec_width() as int,
                old(self).window.spec_height() as int,
                (old(self).state.x@, old(self).state.y@, skip),
                Some(c@),
            ),
            spec_same_frame(*final(self).window, *old(self).window),
            spec_cells_of(*final(self).window) == spec_step_cells(
                old(self).state,
                old(self).window.spec_width() as int,
                old(self).window.spec_height() as int,
                (old(self).state.x@, old(self).state.y@, skip),
                Some(c@),
                spec_cells_of(*old(self).window),
                spec_has_of(*old(self).window),
                *style,
            ),
            *final(final(self).window) == *final(old(self).window),
    {
        if skip {
            return true;
        }
        let cs = c.as_str();
        let n = cs.unicode_len();
        let first: char = if n == 1 {
            cs.get_char(0)
        } else {
            ' '
        };
        proof {
            if n == 1 {
                assert(c@ =~= seq![first]);
                if first != '\r' {
                    assert(seq![first][0] != seq!['\r'][0]);
                }
                if first != '\t' {
                    assert(seq![first][0] != seq!['\t'][0]);
                }
            } else {
                assert(c@.len() != seq!['\r'].len());
                assert(c@.len() != seq!['\t'].len());
            }
        }
        if n == 1 && first == '\r' {
            self.carriage_return();
            return false;
        }
        let ghost tw = self.state.tab_column_width@ as int;
        let cluster = if n == 1 && first == '\t' {
            let twv: i64 = self.state.tab_column_width.raw_value() as i64;
            let xv: i64 = self.state.x.raw_value() as i64;
            let rem: i64 = if xv >= 0 {
                xv % twv
            } else {
                -((-xv) % twv)
            };
            proof {
                if xv >= 0 {
                    assert(0 <= xv % twv < twv) by (nonlinear_arith)
                        requires
                            twv > 0,
                            xv >= 0,
                    ;
                } else {
                    let nx: int = -xv;
                    assert(0 <= nx % (twv as int) < twv) by (nonlinear_arith)
                        requires
                            twv > 0,
                            nx > 0,
                    ;
                }
            }
            assert(twv == tw);
            assert(xv == self.state.x@);
            assert(rem == spec_trunc_rem(xv as int, twv as int));
            assert(twv - rem == spec_tab_width(self.state.x@, tw));
            let tab = GraphemeCluster::spaces((twv - rem) as usize);
            assert(tab@.len() == twv - rem);
            proof {
                assert(crate::widget::text::spec_printable_ascii(tab@));
            }
            let tab_width = tab.width();
            assert(spec_cluster_width(tab@) == spec_tab_width(self.state.x@, tw));
            assert(tab@ == spec_written_cluster(c@, self.state.x@, tw));
            tab
        } else {
            c.clone()
        };
        assert(spec_cluster_width(cluster@) + 1 <= spec_step_cost(Some(c@), tw));
        let res = self.write_cluster(cluster, style);
        res.is_err()
    }

    /// Write cells that were laid out beforehand, each taking one column in all (a wide cluster
    /// followed by as many empty ones), until one cannot be written. Nothing happens in a target
    /// without cells.
    pub fn write_preformatted(&mut self, clusters: &[StyledGraphemeCluster])
        requires
            old(self).window.spec_width() != 0 && old(self).window.spec_height() != 0 ==> {
                &&& spec_sum(spec_cell_widths(clusters@)) == clusters@.len()
                &&& spec_cells_fit(
                    old(self).state.x@,
                    old(self).state.y@,
                    old(self).state.wrapping_mode == WrappingMode::Wrap,
                    old(self).state.line_start_column@,
                    old(self).window.spec_width() as int,
                    old(self).window.spec_height() as int,
                    spec_cell_widths(clusters@),
                )
            },
        ensures
            final(self).state == (CursorState { x: final(self).state.x, y: final(self).state.y, ..old(self).state }),
            old(self).window.spec_width() == 0 || old(self).window.spec_height() == 0 ==> final(self).state == old(self).state,
            old(self).window.spec_width() != 0 && old(self).window.spec_height() != 0 ==> {
                let q = spec_cells_run(
                    old(self).state.x@,
                    old(self).state.y@,
                    old(self).state.wrapping_mode == WrappingMode::Wrap,
                    old(self).state.line_start_column@,
                    old(self).window.spec_width() as int,
                    old(self).window.spec_height() as int,
                    spec_cell_widths(clusters@),
                );
                final(self).state.x@ == q.0 && final(self).state.y@ == q.1
            },
            old(self).window.spec_width() == 0 || old(self).window.spec_height() == 0 ==> *final(self).window
                == *old(self).window,
            old(self).window.spec_width() != 0 && old(self).window.spec_height() != 0 ==> spec_cells_of(
                *final(self).window,
            ) == spec_cells_run_cells(
                spec_cells_of(*old(self).window),
                spec_has_of(*old(self).window),
                old(self).state.x@,
                old(self).state.y@,
                old(self).state.wrapping_mode == WrappingMode::Wrap,
                old(self).state.line_start_column@,
                old(self).window.spec_width() as int,
                old(self).window.spec_height() as int,
                spec_cell_views(clusters@),
            ),
            spec_same_frame(*final(self).window, *old(self).window),
            *final(final(self).window) == *final(old(self).window),
    {
        if self.window.get_width().raw_value() == 0 || self.window.get_height().raw_value() == 0 {
            return ;
        }
        let ghost t0 = *self.window;
        let ghost s0 = self.state;
        let ghost wrap = s0.wrapping_mode == WrappingMode::Wrap;
        let ghost lsc = s0.line_start_column@;
        let ghost w = t0.spec_width() as int;
        let ghost h = t0.spec_height() as int;
        let ghost ws = spec_cell_widths(clusters@);
        let ghost vs = spec_cell_views(clusters@);
        let ghost c0 = spec_cells_of(t0);
        let ghost has0 = spec_has_of(t0);
        proof {
            assert(ws.skip(0) =~= ws);
            assert(vs.skip(0) =~= vs);
        }
        let mut i: usize = 0;
        while i < clusters.len()
            invariant_except_break
                spec_cells_run(self.state.x@, self.state.y@, wrap, lsc, w, h, ws.skip(i as int))
                    == spec_cells_run(s0.x@, s0.y@, wrap, lsc, w, h, ws),
                spec_cells_fit(self.state.x@, self.state.y@, wrap, lsc, w, h, ws.skip(i as int)),
                spec_cells_run_cells(spec_cells_of(*self.window), has0, self.state.x@, self.state.y@, wrap, lsc, w, h, vs.skip(i as int))
                    == spec_cells_run_cells(c0, has0, s0.x@, s0.y@, wrap, lsc, w, h, vs),
            invariant
                0 <= i <= clusters.len(),
                ws == spec_cell_widths(clusters@),
                ws.len() == clusters@.len(),
                vs == spec_cell_views(clusters@),
                vs.len() == clusters@.len(),
                c0 == spec_cells_of(t0),
                has0 == spec_has_of(t0),
                s0 == old(self).state,
                t0 == *old(self).window,
                wrap == (s0.wrapping_mode == WrappingMode::Wrap),
                lsc == s0.line_start_column@,
                w == t0.spec_width(),
                h == t0.spec_height(),
                self.state == (CursorState { x: self.state.x, y: self.state.y, ..s0 }),
                spec_same_frame(*self.window, t0),
                *final(self.window) == *final(old(self).window),
            ensures
                self.state.x@ == spec_cells_run(s0.x@, s0.y@, wrap, lsc, w, h, ws).0,
                self.state.y@ == spec_cells_run(s0.x@, s0.y@, wrap, lsc, w, h, ws).1,
                spec_cells_of(*self.window) == spec_cells_run_cells(c0, has0, s0.x@, s0.y@, wrap, lsc, w, h, vs),
            decreases clusters.len() - i,
        {
            let ghost rest = ws.skip(i as int);
            proof {
                assert(rest[0] == ws[i as int]);
                assert(rest.drop_first() =~= ws.skip(i + 1));
                assert(vs.skip(i as int)[0] == vs[i as int]);
                assert(vs.skip(i as int).drop_first() =~= vs.skip(i + 1));
                assert(vs[i as int] == clusters@[i as int]@);
            }
            let ghost ti = *self.window;
            proof {
                lemma_same_frame_has(ti, t0);
            }
            let cluster = &clusters[i];
            let ok = self.write_cluster(cluster.grapheme_cluster.clone(), &cluster.style);
            if ok.is_err() {
                break;
            }
            i = i + 1;
        }
    }

    /// Write `text` at the cursor: its lines one below the other (each following line starts at
    /// the line start column), a tab as spaces up to the next tab stop, a carriage return as a
    /// move back to the line start column. The rest of a line is dropped once one of its
    /// clusters does not fit.
    #[verifier::rlimit(100)]
    pub fn write(&mut self, text: &str)
        requires
            spec_write_fits(old(self).state, old(self).window.spec_width() as int, text@),
        ensures
            final(self).state == (CursorState { x: final(self).state.x, y: final(self).state.y, ..old(self).state }),
            (final(self).state.x@, final(self).state.y@) == spec_write_pos(
                old(self).state,
                old(self).window.spec_width() as int,
                old(self).window.spec_height() as int,
                text@,
            ),
            final(self).state.y@ <= old(self).state.y@ + spec_steps(spec_lines(text@)).len(),
            spec_same_frame(*final(self).window, *old(self).window),
            spec_cells_of(*final(self).window) == spec_write_cells(old(self).state, *old(self).window, text@),
            *final(final(self).window) == *final(old(self).window),
    {
        let w = self.window.get_width();
        let h = self.window.get_height();
        if w.raw_value() == 0 || h.raw_value() == 0 {
            return ;
        }
        let style = self.active_style();
        let mut lines: Vec<String> = Vec::new();
        lines.push(String::new());
        proof {
            assert(lines.deep_view() =~= seq![Seq::<char>::empty()]);
        }
        append_text(&mut lines, text);
        let ghost st0 = self.state;
        let ghost t0 = *self.window;
        let ghost ww = w@ as int;
        let ghost hh = h@ as int;
        let ghost tw = st0.tab_column_width@ as int;
        let ghost c0 = spec_cells_of(t0);
        let ghost has0 = spec_has_of(t0);
        let ghost all = spec_steps(spec_lines(text@));
        let ghost m = if st0.x@ >= st0.line_start_column@ && st0.x@ >= ww {
            st0.x@
        } else if st0.line_start_column@ >= ww {
            st0.line_start_column@
        } else {
            ww
        };
        let ghost lo = if st0.x@ <= st0.line_start_column@ { st0.x@ } else { st0.line_start_column@ };
        let mut skip = false;
        let mut i: usize = 0;
        while i < lines.len()
            invariant
                lines.deep_view() == spec_lines(text@),
                all == spec_steps(lines.deep_view()),
                0 <= i <= lines@.len(),
                ww == w@,
                hh == h@,
                ww == t0.spec_width(),
                hh == t0.spec_height(),
                ww > 0,
                hh > 0,
                style == st0.style_modifier.spec_apply(t0.spec_default_style()),
                spec_write_fits(st0, ww, text@),
                tw == st0.tab_column_width@,
                m == (if st0.x@ >= st0.line_start_column@ && st0.x@ >= ww {
                    st0.x@
                } else if st0.line_start_column@ >= ww {
                    st0.line_start_column@
                } else {
                    ww
                }),
                lo == (if st0.x@ <= st0.line_start_column@ { st0.x@ } else { st0.line_start_column@ }),
                self.state == (CursorState { x: self.state.x, y: self.state.y, ..st0 }),
                (self.state.x@, self.state.y@, skip) == spec_run(
                    st0,
                    ww,
                    hh,
                    (st0.x@, st0.y@, false),
                    spec_steps(lines.deep_view().take(i as int)),
                ),
                lo <= self.state.x@ <= m + spec_total_cost(spec_steps(lines.deep_view().take(i as int)), tw),
                st0.y@ <= self.state.y@ <= st0.y@ + spec_steps(lines.deep_view().take(i as int)).len(),
                spec_same_frame(*self.window, t0),
                c0 == spec_cells_of(t0),
                has0 == spec_has_of(t0),
                spec_cells_of(*self.window) == spec_run_cells(
                    st0,
                    ww,
                    hh,
                    (st0.x@, st0.y@, false),
                    spec_steps(lines.deep_view().take(i as int)),
                    c0,
                    has0,
                    style,
                ),
                t0 == *old(self).window,
                st0 == old(self).state,
                *final(self.window) == *final(old(self).window),
            decreases lines@.len() - i,
        {
            let ghost lv = lines.deep_view();
            proof {
                lemma_steps_take(lv, i as int);
                lemma_steps_prefix(lv, i as int + 1);
            }
            let ghost brk: Seq<Option<Seq<char>>> = if i > 0 { seq![None] } else { Seq::empty() };
            let ghost before = spec_steps(lv.take(i as int));
            let ghost next = spec_steps(lv.take(i as int + 1));
            if i > 0 {
                proof {
                    let q = (self.state.x@, self.state.y@, skip);
                    assert((before + brk).drop_last() =~= before);
                    assert((before + brk).last() == None::<Seq<char>>);
                    lemma_step_bounds(st0, ww, hh, q, None);
                    assert(next.take((before + brk).len() as int) =~= before + brk);
                    lemma_cost_prefix(before + brk, next, tw);
                    lemma_cost_prefix(next, all, tw);
                }
                self.wrap_line();
                skip = false;
            }
            proof {
                if i == 0 {
                    assert(before + brk =~= before);
                } else {
                    assert((before + brk).drop_last() =~= before);
                }
                assert((before + brk).take(0) =~= Seq::<Option<Seq<char>>>::empty());
                lemma_cost_prefix(Seq::empty(), before + brk, tw);
            }
            assert((before + brk).len() <= next.len());
            let clusters = GraphemeCluster::all_from_str(lines[i].as_str());
            proof {
                assert(lines@[i as int]@ == lv[i as int]);
            }
            let ghost g = spec_graphemes(lv[i as int]).map_values(|c: Seq<char>| Some(c));
            let mut j: usize = 0;
            proof {
                assert(g.take(0) =~= Seq::<Option<Seq<char>>>::empty());
                assert(before + brk + g.take(0) =~= before + brk);
            }
            while j < clusters.len()
                invariant
                    lines.deep_view() == lv,
                    lv == spec_lines(text@),
                    all == spec_steps(lv),
                    0 <= i < lv.len(),
                    0 <= j <= clusters@.len(),
                    clusters@.len() == g.len(),
                    g == spec_graphemes(lv[i as int]).map_values(|c: Seq<char>| Some(c)),
                    forall|k: int| 0 <= k < clusters@.len() ==> #[trigger] clusters@[k]@ == spec_graphemes(lv[i as int])[k],
                    next == before + brk + g,
                    before == spec_steps(lv.take(i as int)),
                    next == spec_steps(lv.take(i as int + 1)),
                    next.len() <= all.len(),
                    all.take(next.len() as int) == next,
                    ww == w@,
                    hh == h@,
                    ww == t0.spec_width(),
                    hh == t0.spec_height(),
                    ww > 0,
                    hh > 0,
                    style == st0.style_modifier.spec_apply(t0.spec_default_style()),
                    spec_write_fits(st0, ww, text@),
                    tw == st0.tab_column_width@,
                    m == (if st0.x@ >= st0.line_start_column@ && st0.x@ >= ww {
                        st0.x@
                    } else if st0.line_start_column@ >= ww {
                        st0.line_start_column@
                    } else {
                        ww
                    }),
                    lo == (if st0.x@ <= st0.line_start_column@ { st0.x@ } else { st0.line_start_column@ }),
                    self.state == (CursorState { x: self.state.x, y: self.state.y, ..st0 }),
                    (self.state.x@, self.state.y@, skip) == spec_run(
                        st0,
                        ww,
                        hh,
                        (st0.x@, st0.y@, false),
                        before + brk + g.take(j as int),
                    ),
                    lo <= self.state.x@ <= m + spec_total_cost(before + brk + g.take(j as int), tw),
                    st0.y@ <= self.state.y@ <= st0.y@ + (before + brk + g.take(j as int)).len(),
                    spec_same_frame(*self.window, t0),
                    c0 == spec_cells_of(t0),
                    has0 == spec_has_of(t0),
                    spec_cells_of(*self.window) == spec_run_cells(
                        st0,
                        ww,
                        hh,
                        (st0.x@, st0.y@, false),
                        before + brk + g.take(j as int),
                        c0,
                        has0,
                        style,
                    ),
                    t0 == *old(self).window,
                    st0 == old(self).state,
                    *final(self.window) == *final(old(self).window),
                decreases clusters@.len() - j,
            {
                let ghost pre = before + brk + g.take(j as int);
                let ghost q = (self.state.x@, self.state.y@, skip);
                let ghost stp = g[j as int];
                proof {
                    assert(pre.push(stp) =~= before + brk + g.take(j + 1));
                    assert(pre.push(stp).drop_last() =~= pre);
                    assert(next.take(pre.len() as int + 1) =~= pre.push(stp));
                    lemma_cost_prefix(pre.push(stp), next, tw);
                    lemma_cost_prefix(next, all, tw);
                    assert(all.take(pre.len() as int + 1) =~= pre.push(stp));
                    assert(all[pre.len() as int] == stp);
                    assert(stp == Some(clusters@[j as int]@));
                    lemma_step_bounds(st0, ww, hh, q, stp);
                    lemma_step_cost_positive(stp, tw);
                    assert(pre.take(0) =~= Seq::<Option<Seq<char>>>::empty());
                    lemma_cost_prefix(Seq::empty(), pre, tw);
                    assert(spec_total_cost(pre.push(stp), tw) == spec_total_cost(pre, tw) + spec_step_cost(stp, tw));
                    assert(spec_total_cost(pre.push(stp), tw) <= spec_total_cost(all, tw));
                    assert(pre.len() + 1 <= all.len());
                }
                let ghost tj = *self.window;
                proof {
                    lemma_same_frame_has(tj, t0);
                }
                skip = self.write_step(&clusters[j], skip, &style);
                j = j + 1;
            }
            proof {
                assert(g.take(g.len() as int) =~= g);
            }
            i = i + 1;
        }
        proof {
            assert(lines.deep_view().take(lines@.len() as int) =~= lines.deep_view());
        }
    }

    /// Whether writing `text` keeps the cursor's arithmetic within `i32` (see `spec_write_fits`).
    pub fn write_fits(&self, text: &str) -> (r: bool)
        ensures
            r == spec_write_fits(self.state, old(self.window).spec_width() as int, text@),
    {
        let cap: u64 = 1099511627776;
        let wv: i64 = self.window.get_width().raw_value() as i64;
        let xv: i64 = self.state.x.raw_value() as i64;
        let lsv: i64 = self.state.line_start_column.raw_value() as i64;
        let yv: i64 = self.state.y.raw_value() as i64;
        let twv: i64 = self.state.tab_column_width.raw_value() as i64;
        let ghost tw = twv as int;
        let mut lines: Vec<String> = Vec::new();
        lines.push(String::new());
        proof {
            assert(lines.deep_view() =~= seq![Seq::<char>::empty()]);
        }
        append_text(&mut lines, text);
        let ghost lv = lines.deep_view();
        let ghost all = spec_steps(lv);
        let mut acc: u64 = 0;
        let mut count: u64 = 0;
        let mut has_tab = false;
        let mut i: usize = 0;
        while i < lines.len()
            invariant
                lines.deep_view() == lv,
                lv == spec_lines(text@),
                all == spec_steps(lv),
                0 <= i <= lv.len(),
                tw >= 0,
                tw == twv,
                twv <= i32::MAX,
                cap == 1099511627776,
                acc as int == if spec_total_cost(spec_steps(lv.take(i as int)), tw) < cap {
                    spec_total_cost(spec_steps(lv.take(i as int)), tw)
                } else {
                    cap as int
                },
                count as int == if spec_steps(lv.take(i as int)).len() < cap {
                    spec_steps(lv.take(i as int)).len() as int
                } else {
                    cap as int
                },
                has_tab == spec_steps(lv.take(i as int)).contains(Some(seq!['\t'])),
            decreases lv.len() - i,
        {
            proof {
                lemma_steps_take(lv, i as int);
            }
            let ghost before = spec_steps(lv.take(i as int));
            let ghost brk: Seq<Option<Seq<char>>> = if i > 0 { seq![None] } else { Seq::empty() };
            if i > 0 {
                proof {
                    assert((before + brk).drop_last() =~= before);
                    assert((before + brk).last() == None::<Seq<char>>);
                    if (before + brk).contains(Some(seq!['\t'])) {
                        let k = choose|k: int| 0 <= k < (before + brk).len() && (before + brk)[k] == Some(seq!['\t']);
                        assert(before[k] == Some(seq!['\t']));
                    }
                    if before.contains(Some(seq!['\t'])) {
                        let k = choose|k: int| 0 <= k < before.len() && before[k] == Some(seq!['\t']);
                        assert((before + brk)[k] == Some(seq!['\t']));
                    }
                }
                acc = if acc + 1 < cap { acc + 1 } else { cap };
                count = if count + 1 < cap { count + 1 } else { cap };
            } else {
                proof {
                    assert(before + brk =~= before);
                }
            }
            let clusters = GraphemeCluster::all_from_str(lines[i].as_str());
            proof {
                assert(lines@[i as int]@ == lv[i as int]);
            }
            let ghost g = spec_graphemes(lv[i as int]).map_values(|c: Seq<char>| Some(c));
            proof {
                assert(before + brk + g.take(0) =~= before + brk);
            }
            let mut j: usize = 0;
            while j < clusters.len()
                invariant
                    0 <= j <= clusters@.len(),
                    clusters@.len() == g.len(),
                    g == spec_graphemes(lv[i as int]).map_values(|c: Seq<char>| Some(c)),
                    forall|k: int| 0 <= k < clusters@.len() ==> #[trigger] clusters@[k]@ == spec_graphemes(lv[i as int])[k],
                    tw >= 0,
                    tw == twv,
                    twv <= i32::MAX,
                    cap == 1099511627776,
                    acc as int == if spec_total_cost(before + brk + g.take(j as int), tw) < cap {
                        spec_total_cost(before + brk + g.take(j as int), tw)
                    } else {
                        cap as int
                    },
                    count as int == if (before + brk + g.take(j as int)).len() < cap {
                        (before + brk + g.take(j as int)).len() as int
                    } else {
                        cap as int
                    },
                    has_tab == (before + brk + g.take(j as int)).contains(Some(seq!['\t'])),
                decreases clusters@.len() - j,
            {
                let ghost pre = before + brk + g.take(j as int);
                let ghost stp = g[j as int];
                proof {
                    assert(pre.push(stp) =~= before + brk + g.take(j + 1));
                    assert(pre.push(stp).drop_last() =~= pre);
                    assert(stp == Some(clusters@[j as int]@));
                    lemma_step_cost_positive(stp, tw);
                }
                let c = &clusters[j];
                let cs = c.as_str();
                let n = cs.unicode_len();
                let first: char = if n == 1 { cs.get_char(0) } else { ' ' };
                proof {
                    if n == 1 {
                        assert(c@ =~= seq![first]);
                        if first != '\r' {
                            assert(seq![first][0] != seq!['\r'][0]);
                        }
                        if first != '\t' {
                            assert(seq![first][0] != seq!['\t'][0]);
                        }
                    } else {
                        assert(c@.len() != seq!['\r'].len());
                        assert(c@.len() != seq!['\t'].len());
                    }
                }
                let cost: u64 = if n == 1 && first == '\t' {
                    (2 * twv + 1) as u64
                } else if n == 1 && first == '\r' {
                    1
                } else {
                    let cw = c.width();
                    if (cw as u64) < cap {
                        cw as u64 + 1
                    } else {
                        cap
                    }
                };
                acc = if acc + cost < cap { acc + cost } else { cap };
                count = if count + 1 < cap { count + 1 } else { cap };
                if n == 1 && first == '\t' {
                    has_tab = true;
                }
                proof {
                    let t = Some(seq!['\t']);
                    if pre.push(stp).contains(t) && !pre.contains(t) {
                        let k = choose|k: int| 0 <= k < pre.push(stp).len() && pre.push(stp)[k] == t;
                        if k < pre.len() {
                            assert(pre[k] == t);
                        }
                    }
                    if pre.contains(t) {
                        let k = choose|k: int| 0 <= k < pre.len() && pre[k] == t;
                        assert(pre.push(stp)[k] == t);
                    }
                    if stp == t {
                        assert(pre.push(stp)[pre.len() as int] == t);
                    }
                }
                j = j + 1;
            }
            proof {
                assert(g.take(g.len() as int) =~= g);
            }
            i = i + 1;
        }
        proof {
            assert(lv.take(lv.len() as int) =~= lv);
        }
        let m: i64 = if xv >= lsv && xv >= wv {
            xv
        } else if lsv >= wv {
            lsv
        } else {
            wv
        };
        xv >= wv - 2147483647 && lsv >= wv - 2147483647 && m + (acc as i64) + 1 <= 2147483647 && yv
            + (count as i64) + 1 < 2147483647 && (twv != 0 || !has_tab)
    }

    /// Write `text` where `write_fits` says that its arithmetic stays within `i32`; tells whether
    /// it did (otherwise nothing changes).
    pub fn checked_write(&mut self, text: &str) -> (r: bool)
        ensures
            r == spec_write_fits(old(self).state, old(self).window.spec_width() as int, text@),
            !r ==> final(self).state == old(self).state,
            r ==> final(self).state == (CursorState { x: final(self).state.x, y: final(self).state.y, ..old(self).state }),
            r ==> (final(self).state.x@, final(self).state.y@) == spec_write_pos(
                old(self).state,
                old(self).window.spec_width() as int,
                old(self).window.spec_height() as int,
                text@,
            ),
            spec_same_frame(*final(self).window, *old(self).window),
            !r ==> *final(self).window == *old(self).window,
            r ==> spec_cells_of(*final(self).window) == spec_write_cells(old(self).state, *old(self).window, text@),
            (spec_cells_of(*final(self).window), final(self).state) == spec_checked_write(
                old(self).state,
                old(self).window.spec_width() as int,
                old(self).window.spec_height() as int,
                spec_cells_of(*old(self).window),
                spec_has_of(*old(self).window),
                old(self).window.spec_default_style(),
                text@,
            ),
            *final(final(self).window) == *final(old(self).window),
    {
        let ghost st = self.state;
        let ghost w = self.window.spec_width() as int;
        let ghost h = self.window.spec_height() as int;
        if self.write_fits(text) {
            self.write(text);
            proof {
                AxisIndex::lemma_spec_new_of_view(self.state.x);
                AxisIndex::lemma_spec_new_of_view(self.state.y);
            }
            true
        } else {
            false
        }
    }

    /// Write `text`, then wrap to the next row.
    pub fn writeln(&mut self, text: &str)
        requires
            spec_write_fits(old(self).state, old(self).window.spec_width() as int, text@),
        ensures
            final(self).state == (CursorState {
                x: old(self).state.line_start_column,
                y: final(self).state.y,
                ..old(self).state
            }),
            final(self).state.y@ == spec_write_pos(
                old(self).state,
                old(self).window.spec_width() as int,
                old(self).window.spec_height() as int,
                text@,
            ).1 + 1,
            spec_same_frame(*final(self).window, *old(self).window),
            spec_cells_of(*final(self).window) == spec_write_cells(old(self).state, *old(self).window, text@),
            *final(final(self).window) == *final(old(self).window),
    {
        self.write(text);
        self.wrap_line();
    }

    /// Clear the columns `range` of the current row: write a space in the active style into
    /// each of them. The position stays where it is.
    fn clear_line_in_range(&mut self, start: ColIndex, end: ColIndex)
        requires
            start@ < end@ ==> {
                &&& 0 <= old(self).state.y@ < old(self).window.spec_height()
                &&& end@ <= old(self).window.spec_width()
                &&& start@ >= old(self).window.spec_width() - i32::MAX
            },
        ensures
            final(self).state == old(self).state,
            spec_same_frame(*final(self).window, *old(self).window),
            spec_cells_of(*final(self).window) == spec_cleared_in_row(
                spec_cells_of(*old(self).window),
                spec_has_of(*old(self).window),
                start@,
                end@,
                old(self).state.y@,
                old(self).window.spec_width() as int,
                old(self).state.style_modifier.spec_apply(old(self).window.spec_default_style()),
            ),
            *final(final(self).window) == *final(old(self).window),
    {
        if start.raw_value() >= end.raw_value() {
            return ;
        }
        let style = self.active_style();
        let saved_x = self.state.x;
        let wr = self.window.get_width().raw_value();
        let ghost st0 = self.state;
        let ghost t0 = *self.window;
        let ghost c0 = spec_cells_of(t0);
        let ghost has0 = spec_has_of(t0);
        let mut x: i32 = start.raw_value();
        let e = end.raw_value();
        while x < e
            invariant
                c0 == spec_cells_of(t0),
                has0 == spec_has_of(t0),
                style == st0.style_modifier.spec_apply(t0.spec_default_style()),
                spec_cells_of(*self.window) == spec_place_in_row(
                    c0,
                    has0,
                    start@,
                    st0.y@,
                    (x - start@) as nat,
                    t0.spec_width() as int,
                    (seq![' '], style),
                ),
                x <= e || x == start@,
                start@ <= x,
                x < e ==> x < t0.spec_width(),
                e <= t0.spec_width(),
                t0.spec_width() <= i32::MAX,
                x >= t0.spec_width() - i32::MAX,
                self.state == (CursorState { x: self.state.x, ..st0 }),
                st0.line_start_column@ >= t0.spec_width() - i32::MAX || true,
                0 <= st0.y@ < t0.spec_height(),
                spec_same_frame(*self.window, t0),
                *final(self.window) == *final(old(self).window),
            decreases e - x,
        {
            self.state.x = AxisIndex::new(x);
            let sp = GraphemeCluster::space();
            let spw = sp.width();
            assert(spec_remaining(x as int, t0.spec_width() as int) >= 1);
            let ghost tx = *self.window;
            proof {
                lemma_same_frame_has(tx, t0);
            }
            let res = self.write_cluster(sp, &style);
            proof {
                AxisIndex::lemma_view_injective(self.state.y, st0.y);
            }
            x = x + 1;
        }
        self.state.x = saved_x;
    }

    /// Clear the current row from its start up to and including the cursor column.
    pub fn clear_line_left(&mut self)
        requires
            old(self).state.x@ >= 0 ==> {
                &&& 0 <= old(self).state.y@ < old(self).window.spec_height()
                &&& old(self).state.x@ < old(self).window.spec_width()
            },
        ensures
            final(self).state == old(self).state,
            spec_same_frame(*final(self).window, *old(self).window),
            spec_cells_of(*final(self).window) == spec_cleared_in_row(
                spec_cells_of(*old(self).window),
                spec_has_of(*old(self).window),
                0,
                old(self).state.x@ + 1,
                old(self).state.y@,
                old(self).window.spec_width() as int,
                old(self).state.style_modifier.spec_apply(old(self).window.spec_default_style()),
            ),
            *final(final(self).window) == *final(old(self).window),
    {
        let wr = self.window.get_width().raw_value();
        let end: ColIndex = AxisIndex::new(self.state.x.raw_value() + 1);
        self.clear_line_in_range(AxisIndex::new(0), end);
    }

    /// Clear the current row from the cursor column up to its (soft) end.
    pub fn clear_line_right(&mut self)
        requires
            old(self).state.x@ < old(self).window.spec_soft_width() ==> {
                &&& 0 <= old(self).state.y@ < old(self).window.spec_height()
                &&& old(self).window.spec_soft_width() <= old(self).window.spec_width()
                &&& old(self).state.x@ >= old(self).window.spec_width() - i32::MAX
            },
        ensures
            final(self).state == old(self).state,
            spec_same_frame(*final(self).window, *old(self).window),
            spec_cells_of(*final(self).window) == spec_cleared_in_row(
                spec_cells_of(*old(self).window),
                spec_has_of(*old(self).window),
                old(self).state.x@,
                old(self).window.spec_soft_width() as int,
                old(self).state.y@,
                old(self).window.spec_width() as int,
                old(self).state.style_modifier.spec_apply(old(self).window.spec_default_style()),
            ),
            *final(final(self).window) == *final(old(self).window),
    {
        let start = self.state.x;
        let end = self.window.get_soft_width().from_origin();
        self.clear_line_in_range(start, end);
    }

    /// Clear the whole current row (up to its soft end).
    pub fn clear_line(&mut self)
        requires
            old(self).window.spec_soft_width() > 0 ==> {
                &&& 0 <= old(self).state.y@ < old(self).window.spec_height()
                &&& old(self).window.spec_soft_width() <= old(self).window.spec_width()
            },
        ensures
            final(self).state == old(self).state,
            spec_same_frame(*final(self).window, *old(self).window),
            spec_cells_of(*final(self).window) == spec_cleared_in_row(
                spec_cells_of(*old(self).window),
                spec_has_of(*old(self).window),
                0,
                old(self).window.spec_soft_width() as int,
                old(self).state.y@,
                old(self).window.spec_width() as int,
                old(self).state.style_modifier.spec_apply(old(self).window.spec_default_style()),
            ),
            *final(final(self).window) == *final(old(self).window),
    {
        let wr = self.window.get_width().raw_value();
        let end = self.window.get_soft_width().from_origin();
        self.clear_line_in_range(AxisIndex::new(0), end);
    }

    /// Fill the rest of the row with spaces and wrap to the line start column of the next row.
    pub fn fill_and_wrap_line(&mut self)
        requires
            old(self).window.spec_height() > 0 ==> {
                &&& 0 <= old(self).state.y@ < old(self).window.spec_height()
                &&& 0 < old(self).window.spec_soft_width() <= old(self).window.spec_width()
                &&& old(self).state.x@ <= old(self).window.spec_soft_width()
                &&& old(self).state.x@ >= old(self).window.spec_width() - i32::MAX
                &&& old(self).state.line_start_column@ >= old(self).window.spec_width() - i32::MAX
                &&& old(self).state.line_start_column@ + 2 < i32::MAX
                &&& old(self).state.y@ + 1 < i32::MAX
            },
        ensures
            old(self).window.spec_height() == 0 ==> final(self).state == old(self).state,
            old(self).window.spec_height() > 0 ==> final(self).state == (CursorState {
                x: old(self).state.line_start_column,
                y: final(self).state.y,
                ..old(self).state
            }) && final(self).state.y@ == old(self).state.y@ + 1,
            spec_same_frame(*final(self).window, *old(self).window),
            old(self).window.spec_height() == 0 ==> *final(self).window == *old(self).window,
            old(self).window.spec_height() > 0 ==> spec_cells_of(*final(self).window) == spec_cleared_in_row(
                spec_cells_of(*old(self).window),
                spec_has_of(*old(self).window),
                old(self).state.x@,
                old(self).window.spec_soft_width() as int,
                old(self).state.y@,
                old(self).window.spec_width() as int,
                old(self).state.style_modifier.spec_apply(old(self).window.spec_default_style()),
            ),
            *final(final(self).window) == *final(old(self).window),
    {
        if self.window.get_height().raw_value() == 0 {
            return ;
        }
        let w = self.window.get_soft_width().raw_value();
        let ww = self.window.get_width().raw_value();
        let style = self.active_style();
        let ghost st0 = self.state;
        let ghost t0 = *self.window;
        let ghost c0 = spec_cells_of(t0);
        let ghost has0 = spec_has_of(t0);
        while self.state.x.raw_value() <= 0 || self.state.x.raw_value() % w != 0
            invariant
                self.state == (CursorState { x: self.state.x, ..st0 }),
                0 < w <= ww,
                w == t0.spec_soft_width(),
                ww == t0.spec_width(),
                ww <= i32::MAX,
                st0.x@ <= self.state.x@ <= w,
                self.state.x@ >= ww - i32::MAX,
                st0.line_start_column@ >= ww - i32::MAX,
                st0.line_start_column@ + 2 < i32::MAX,
                0 <= st0.y@ < t0.spec_height(),
                st0.y@ + 1 < i32::MAX,
                spec_same_frame(*self.window, t0),
                c0 == spec_cells_of(t0),
                has0 == spec_has_of(t0),
                style == st0.style_modifier.spec_apply(t0.spec_default_style()),
                spec_cells_of(*self.window) == spec_place_in_row(
                    c0,
                    has0,
                    st0.x@,
                    st0.y@,
                    (self.state.x@ - st0.x@) as nat,
                    ww as int,
                    (seq![' '], style),
                ),
                *final(self.window) == *final(old(self).window),
            decreases w - self.state.x@,
        {
            proof {
                if self.state.x@ == w {
                    assert(w % w == 0) by (nonlinear_arith)
                        requires
                            w > 0,
                    ;
                }
            }
            let sp = GraphemeCluster::space();
            let spw = sp.width();
            assert(spec_remaining(self.state.x@, ww as int) >= 1);
            let ghost tx = *self.window;
            proof {
                lemma_same_frame_has(tx, t0);
            }
            let res = self.write_cluster(sp, &style);
            proof {
                AxisIndex::lemma_view_injective(self.state.y, st0.y);
            }
        }
        proof {
            let x: int = self.state.x@;
            let wi: int = w as int;
            if 0 < x < wi {
                assert(x % wi == x) by (nonlinear_arith)
                    requires
                        0 < x < wi,
                ;
            }
        }
        self.wrap_line();
    }

    /// The number of times writing `line` would wrap: none when not wrapping, otherwise the
    /// number of full widths that the cursor column plus the number of the line's grapheme
    /// clusters spans.
    pub fn num_expected_wraps(&self, line: &str) -> (r: usize)
        requires
            self.state.wrapping_mode == WrappingMode::Wrap ==> {
                &&& old(self.window).spec_width() > 0
                &&& spec_graphemes(line@).len() <= i32::MAX
                &&& self.state.x@ + spec_graphemes(line@).len() <= i32::MAX
                &&& self.state.x@ + spec_graphemes(line@).len() > -(old(self.window).spec_width() as int)
            },
        ensures
            self.state.wrapping_mode == WrappingMode::NoWrap ==> r == 0,
            self.state.wrapping_mode == WrappingMode::Wrap ==> {
                let v = self.state.x@ + spec_graphemes(line@).len();
                r == if v >= 0 {
                    v / (old(self.window).spec_width() as int)
                } else {
                    0
                }
            },
    {
        if self.state.wrapping_mode == WrappingMode::Wrap {
            let n = crate::widget::text::count_grapheme_clusters(line);
            let v: i32 = self.state.x.raw_value() + n as i32;
            let w: i32 = self.window.get_width().raw_value();
            if v >= 0 {
                (v / w) as usize
            } else {
                0
            }
        } else {
            0
        }
    }

    /// `num_expected_wraps`, where its arithmetic stays within `i32` (and the target has columns,
    /// when wrapping); `None` where it does not.
    pub fn checked_num_expected_wraps(&self, line: &str) -> (r: Option<usize>)
        ensures
            self.state.wrapping_mode == WrappingMode::NoWrap ==> r == Some(0usize),
            self.state.wrapping_mode == WrappingMode::Wrap ==> {
                let n = spec_graphemes(line@).len();
                let v = self.state.x@ + n;
                let w = old(self.window).spec_width() as int;
                if w > 0 && n <= i32::MAX && v <= i32::MAX && v > -w {
                    r == Some((if v >= 0 { v / w } else { 0 }) as usize)
                } else {
                    r is None
                }
            },
    {
        if self.state.wrapping_mode == WrappingMode::NoWrap {
            return Some(0);
        }
        let n = crate::widget::text::count_grapheme_clusters(line);
        let w: i64 = self.window.get_width().raw_value() as i64;
        let x: i64 = self.state.x.raw_value() as i64;
        if w > 0 && n <= 2147483647 && x + (n as i64) <= 2147483647 && x + (n as i64) > -w {
            Some(self.num_expected_wraps(line))
        } else {
            None
        }
    }

    /// Move left, skipping cells that hold a cluster of zero width; when wrapping, moving across
    /// the line start column goes on at the end of the row above. Stops above the grid.
    pub fn move_left(&mut self)
        requires
            spec_can_move_left(
                *old(self).window,
                old(self).state.x@,
                old(self).state.y@,
                old(self).state.wrapping_mode == WrappingMode::Wrap,
                old(self).state.line_start_column@,
            ),
        ensures
            final(self).state == (CursorState { x: final(self).state.x, y: final(self).state.y, ..old(self).state }),
            (final(self).state.x@, final(self).state.y@) == spec_left_end(
                *old(self).window,
                old(self).state.x@,
                old(self).state.y@,
                old(self).state.wrapping_mode == WrappingMode::Wrap,
                old(self).state.line_start_column@,
            ),
            spec_left_stop(*old(self).window, (final(self).state.x@, final(self).state.y@)),
            *final(self).window == *old(self).window,
            *final(final(self).window) == *final(old(self).window),
    {
        let ghost t = *self.window;
        let ghost s0 = self.state;
        let ghost sw = t.spec_soft_width() as int;
        let wrap = self.state.wrapping_mode == WrappingMode::Wrap;
        let lsc = self.state.line_start_column.raw_value();
        let ghost wr: bool = wrap;
        let ghost l: int = lsc as int;
        let ghost wit: int = if !wrap && s0.y@ >= 0 {
            choose|x: int| x < s0.x@ && #[trigger] spec_visible_cell(t, x, s0.y@)
        } else {
            0
        };
        let ghost mut k: nat = 0;
        loop
            invariant_except_break
                k > 0 ==> self.state.y@ >= 0,
                forall|j: nat| 1 <= j <= k ==> !#[trigger] spec_left_stop(t, spec_left_iter(s0.x@, s0.y@, wr, l, sw, j)),
                !wrap && s0.y@ >= 0 ==> wit < self.state.x@ && spec_visible_cell(t, wit, s0.y@),
            invariant
                *self.window == t,
                t == *old(self).window,
                s0 == old(self).state,
                sw == t.spec_soft_width() as int,
                spec_can_move_left(t, s0.x@, s0.y@, wr, l),
                wrap == (s0.wrapping_mode == WrappingMode::Wrap),
                lsc == s0.line_start_column@,
                wr == wrap,
                l == lsc,
                self.state == (CursorState { x: self.state.x, y: self.state.y, ..s0 }),
                (self.state.x@, self.state.y@) == spec_left_iter(s0.x@, s0.y@, wr, l, sw, k),
                !wrap ==> self.state.y@ == s0.y@,
                !wrap && s0.y@ < 0 ==> s0.x@ > i32::MIN,
                *final(self.window) == *final(old(self).window),
            ensures
                spec_left_first_stop(t, s0.x@, s0.y@, wr, l, k),
            decreases
                (if wrap { self.state.y@ as int } else { 0int }),
                (if wrap { self.state.x@ - lsc } else { self.state.x@ - wit }),
        {
            if wrap && self.state.x.raw_value() <= lsc {
                let right_most = self.window.get_soft_width().raw_value() - 1;
                self.state.y = AxisIndex::new(self.state.y.raw_value() - 1);
                self.state.x = AxisIndex::new(right_most);
            } else {
                self.state.x = AxisIndex::new(self.state.x.raw_value() - 1);
            }
            proof {
                k = k + 1;
            }
            if self.state.y.raw_value() < 0 {
                break;
            }
            let stop = match self.get_current_cell() {
                Some(c) => c.grapheme_cluster.width() > 0,
                None => false,
            };
            if stop {
                break;
            }
        }
        proof {
            let k2 = choose|k2: nat| spec_left_first_stop(t, s0.x@, s0.y@, wr, l, k2);
            assert(spec_left_first_stop(t, s0.x@, s0.y@, wr, l, k2));
            if k2 < k {
                assert(spec_left_stop(t, spec_left_iter(s0.x@, s0.y@, wr, l, sw, k2)));
            }
            if k2 > k {
                assert(spec_left_stop(t, spec_left_iter(s0.x@, s0.y@, wr, l, sw, k)));
            }
        }
    }

    /// Move right, skipping cells that hold a cluster of zero width; when wrapping, moving beyond
    /// the width goes on at the line start column of the row below. Stops below the grid.
    pub fn move_right(&mut self)
        requires
            spec_can_move_right(
                *old(self).window,
                old(self).state.x@,
                old(self).state.y@,
                old(self).state.wrapping_mode == WrappingMode::Wrap,
                old(self).state.line_start_column@,
            ),
        ensures
            final(self).state == (CursorState { x: final(self).state.x, y: final(self).state.y, ..old(self).state }),
            (final(self).state.x@, final(self).state.y@) == spec_right_end(
                *old(self).window,
                old(self).state.x@,
                old(self).state.y@,
                old(self).state.wrapping_mode == WrappingMode::Wrap,
                old(self).state.line_start_column@,
            ),
            spec_right_stop(*old(self).window, (final(self).state.x@, final(self).state.y@)),
            *final(self).window == *old(self).window,
            *final(final(self).window) == *final(old(self).window),
    {
        let ghost t = *self.window;
        let ghost s0 = self.state;
        let w = self.window.get_width().raw_value();
        let h = self.window.get_height().raw_value();
        let wraps = self.state.wrapping_mode == WrappingMode::Wrap && w < 2147483647;
        let ghost wr: bool = s0.wrapping_mode == WrappingMode::Wrap;
        let ghost l: int = s0.line_start_column@;
        let ghost wit: int = if !wraps && s0.y@ < h {
            choose|x: int| s0.x@ < x <= i32::MAX && #[trigger] spec_visible_cell(t, x, s0.y@)
        } else {
            0
        };
        let ghost mut k: nat = 0;
        loop
            invariant_except_break
                k > 0 ==> self.state.y@ < h,
                forall|j: nat| 1 <= j <= k ==> !#[trigger] spec_right_stop(t, spec_right_iter(s0.x@, s0.y@, wr, l, w as int, j)),
                !wraps && s0.y@ < h ==> wit > self.state.x@ && wit <= i32::MAX && spec_visible_cell(t, wit, s0.y@),
            invariant
                *self.window == t,
                t == *old(self).window,
                s0 == old(self).state,
                w == t.spec_width(),
                h == t.spec_height(),
                spec_can_move_right(t, s0.x@, s0.y@, wr, l),
                wraps == (s0.wrapping_mode == WrappingMode::Wrap && w < i32::MAX),
                wr == (s0.wrapping_mode == WrappingMode::Wrap),
                l == s0.line_start_column@,
                self.state == (CursorState { x: self.state.x, y: self.state.y, ..s0 }),
                (self.state.x@, self.state.y@) == spec_right_iter(s0.x@, s0.y@, wr, l, w as int, k),
                !wraps ==> self.state.y@ == s0.y@,
                !wraps && s0.y@ >= h ==> s0.x@ < i32::MAX,
                *final(self.window) == *final(old(self).window),
            ensures
                spec_right_first_stop(t, s0.x@, s0.y@, wr, l, k),
            decreases
                (if wraps { h - self.state.y@ } else { 0int }),
                (if wraps { w + 1 - self.state.x@ } else { wit - self.state.x@ }),
        {
            if self.state.wrapping_mode == WrappingMode::Wrap && self.state.x.raw_value() > w {
                self.wrap_line();
            } else {
                self.state.x = AxisIndex::new(self.state.x.raw_value() + 1);
            }
            proof {
                k = k + 1;
            }
            if self.state.y.raw_value() >= h {
                break;
            }
            let stop = match self.get_current_cell() {
                Some(c) => c.grapheme_cluster.width() > 0,
                None => false,
            };
            if stop {
                break;
            }
        }
        proof {
            let k2 = choose|k2: nat| spec_right_first_stop(t, s0.x@, s0.y@, wr, l, k2);
            assert(spec_right_first_stop(t, s0.x@, s0.y@, wr, l, k2));
            if k2 < k {
                assert(spec_right_stop(t, spec_right_iter(s0.x@, s0.y@, wr, l, w as int, k2)));
            }
            if k2 > k {
                assert(spec_right_stop(t, spec_right_iter(s0.x@, s0.y@, wr, l, w as int, k)));
            }
        }
    }

    /// Erase the cluster left of the cursor, as the backspace key does: move left, write a space
    /// there (in the style of the cell), and move left again.
    pub fn backspace(&mut self)
        requires
            spec_can_backspace(
                *old(self).window,
                old(self).state.x@,
                old(self).state.y@,
                old(self).state.wrapping_mode == WrappingMode::Wrap,
                old(self).state.line_start_column@,
            ),
        ensures
            ({
                let t = *old(self).window;
                let wrap = old(self).state.wrapping_mode == WrappingMode::Wrap;
                let lsc = old(self).state.line_start_column@;
                let p = spec_left_end(t, old(self).state.x@, old(self).state.y@, wrap, lsc);
                let q = spec_write_cluster_pos(p.0, p.1, 1, wrap, lsc, t.spec_width() as int, t.spec_height() as int);
                &&& final(self).state == (CursorState { x: final(self).state.x, y: final(self).state.y, ..old(self).state })
                &&& (final(self).state.x@, final(self).state.y@) == spec_left_end(*final(self).window, q.0, q.1, wrap, lsc)
                &&& 0 <= p.0 < t.spec_width() ==> forall|a: int, b: int| #[trigger] final(self).window.spec_cell(a, b)
                    == spec_placed_cell(t, p.0, p.1, (seq![' '], t.spec_cell(p.0, p.1).1), a, b)
            }),
            spec_same_frame(*final(self).window, *old(self).window),
            *final(final(self).window) == *final(old(self).window),
    {
        let ghost t0 = *self.window;
        let ghost s0 = self.state;
        let ghost wrap = s0.wrapping_mode == WrappingMode::Wrap;
        let ghost lsc = s0.line_start_column@;
        self.move_left();
        let ghost p = (self.state.x@, self.state.y@);
        let style = match self.get_current_cell() {
            Some(c) => c.style,
            None => self.active_style(),
        };
        let space = GraphemeCluster::space();
        let space_width = space.width();
        assert(space_width == 1);
        let written = self.write_cluster(space, &style);
        let ghost t1 = *self.window;
        proof {
            assert(written is Ok);
            let ww = t0.spec_width() as int;
            if 0 <= p.0 < ww {
                let placed = spec_placed_in(spec_cells_of(t0), spec_has_of(t0), p.0, p.1, (seq![' '], style));
                assert(spec_cells_of(t1) == placed);
                lemma_placed_in(t0, p.0, p.1, (seq![' '], style));
                assert forall|a: int, b: int| #[trigger] t1.spec_cell(a, b) == spec_placed_cell(
                    t0,
                    p.0,
                    p.1,
                    (seq![' '], style),
                    a,
                    b,
                ) by {
                    assert(spec_cells_of(t1)(a, b) == placed(a, b));
                }
            }
            if !wrap {
                assert(t1.spec_cell(p.0, p.1) == (seq![' '], style));
                assert(spec_visible_cell(t1, p.0, p.1));
            }
        }
        self.move_left();
    }

    /// The cell under the cursor, if there is one.
    pub fn get_current_cell(&self) -> (r: Option<&StyledGraphemeCluster>)
        ensures
            r is Some <==> (self.state.x@ >= 0 && self.state.y@ >= 0 && old(self.window).spec_has_cell(
                self.state.x@,
                self.state.y@,
            )),
            r matches Some(c) ==> c@ == old(self.window).spec_cell(self.state.x@, self.state.y@),
    {
        if self.state.x.raw_value() < 0 || self.state.y.raw_value() < 0 {
            None
        } else {
            self.window.get_cell(self.state.x, self.state.y)
        }
    }

    /// A reference to the cell under the cursor, if the cursor lies on a cell of the target; what
    /// is written through it becomes that cell, and nothing else changes.
    pub fn get_current_cell_mut(&mut self) -> (r: Option<&mut StyledGraphemeCluster>)
        ensures
            r is Some <==> (old(self).state.x@ >= 0 && old(self).state.y@ >= 0 && old(self).window.spec_has_cell(
                old(self).state.x@,
                old(self).state.y@,
            )),
            final(self).state == old(self).state,
            spec_same_frame(*final(self).window, *old(self).window),
            r is None ==> spec_cells_of(*final(self).window) == spec_cells_of(*old(self).window),
            r matches Some(c) ==> {
                &&& (*c)@ == old(self).window.spec_cell(old(self).state.x@, old(self).state.y@)
                &&& forall|a: int, b: int| #[trigger]
                    final(self).window.spec_cell(a, b) == if a == old(self).state.x@ && b == old(self).state.y@ {
                        (*final(c))@
                    } else {
                        old(self).window.spec_cell(a, b)
                    }
            },
            *final(final(self).window) == *final(old(self).window),
    {
        if self.state.x.raw_value() < 0 || self.state.y.raw_value() < 0 {
            None
        } else {
            self.window.get_cell_mut(self.state.x, self.state.y)
        }
    }

    /// The number of cells from the cursor to the right border of the target.
    fn remaining_space_in_line(&self) -> (r: Width)
        requires
            self.state.x@ >= old(self.window).spec_width() - i32::MAX,
        ensures
            r@ == spec_remaining(self.state.x@, old(self.window).spec_width() as int),
    {
        let x = self.state.x.raw_value();
        let w = self.window.get_width().raw_value();
        if w < x {
            PositiveAxisDiff::new_unchecked(0)
        } else {
            PositiveAxisDiff::new_unchecked(w - x)
        }
    }
}

} // verus!
