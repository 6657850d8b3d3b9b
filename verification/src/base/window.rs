//! Grids of styled grapheme clusters that a cursor writes to.
use crate::base::basic_types::{AxisIndex, ColIndex, Height, PositiveAxisDiff, RowIndex, Width};
use crate::base::grapheme_cluster::{spec_cluster_width, GraphemeCluster};
use crate::base::style::Style;
use crate::base::terminal::{
    matrix_default, owned_matrix_cells, owned_matrix_shape, owned_matrix_view_mut, spec_nonzero,
    spec_owned_consistent, CellMatrix,
};
use crate::base::view::Window;
use crate::widget::text::string_push_str;
use vstd::prelude::*;
use vstd::string::StrSliceExecFns;

verus! {

/// A grapheme cluster together with the style it is drawn in.
#[derive(Debug)]
pub struct StyledGraphemeCluster {
    pub grapheme_cluster: GraphemeCluster,
    pub style: Style,
}

impl View for StyledGraphemeCluster {
    type V = (Seq<char>, Style);

    open spec fn view(&self) -> (Seq<char>, Style) {
        (self.grapheme_cluster@, self.style)
    }
}

impl Clone for StyledGraphemeCluster {
    fn clone(&self) -> (r: Self)
        ensures
            r@ == self@,
    {
        StyledGraphemeCluster { grapheme_cluster: self.grapheme_cluster.clone(), style: self.style }
    }
}

impl PartialEq for StyledGraphemeCluster {
    fn eq(&self, other: &Self) -> (r: bool) {
        self.grapheme_cluster == other.grapheme_cluster && self.style == other.style
    }
}

impl vstd::std_specs::cmp::PartialEqSpecImpl for StyledGraphemeCluster {
    open spec fn obeys_eq_spec() -> bool {
        true
    }

    open spec fn eq_spec(&self, other: &Self) -> bool {
        self@ == other@
    }
}

impl StyledGraphemeCluster {
    /// A styled cluster from its parts.
    pub fn new(grapheme_cluster: GraphemeCluster, style: Style) -> (r: Self)
        ensures
            r@ == (grapheme_cluster@, style),
    {
        StyledGraphemeCluster { grapheme_cluster, style }
    }
}

impl Default for StyledGraphemeCluster {
    /// A space in the plain style.
    fn default() -> (r: Self)
        ensures
            r@ == (seq![' '], Style::spec_plain()),
    {
        StyledGraphemeCluster::new(GraphemeCluster::space(), Style::plain())
    }
}

/// Something a cursor can write to: a grid of styled cells (a window, a buffer).
///
/// The grid is `spec_width` columns wide and `spec_height` rows high; `spec_has_cell` says which
/// positions hold a cell and `spec_cell` what they hold.
pub trait CursorTarget {
    /// The number of columns.
    spec fn spec_width(&self) -> nat;

    /// The "desired" number of columns, at which a cursor wraps; mostly the width itself.
    spec fn spec_soft_width(&self) -> nat;

    /// The number of rows.
    spec fn spec_height(&self) -> nat;

    /// Whether there is a cell at the position.
    spec fn spec_has_cell(&self, x: int, y: int) -> bool;

    /// The content of the cell at the position (meaningful where there is one).
    spec fn spec_cell(&self, x: int, y: int) -> (Seq<char>, Style);

    /// The style that text written to the target starts from.
    spec fn spec_default_style(&self) -> Style;

    fn get_width(&self) -> (r: Width)
        ensures
            r@ == self.spec_width(),
    ;

    fn get_soft_width(&self) -> (r: Width)
        ensures
            r@ == self.spec_soft_width(),
    ;

    fn get_height(&self) -> (r: Height)
        ensures
            r@ == self.spec_height(),
    ;

    /// The cell at the position, if there is one.
    fn get_cell(&self, x: ColIndex, y: RowIndex) -> (r: Option<&StyledGraphemeCluster>)
        ensures
            r is Some <==> self.spec_has_cell(x@, y@),
            r matches Some(c) ==> c@ == self.spec_cell(x@, y@),
    ;

    /// Replace the cell at the position, if there is one; tells whether there was.
    fn set_cell(&mut self, x: ColIndex, y: RowIndex, cell: StyledGraphemeCluster) -> (r: bool)
        ensures
            r == old(self).spec_has_cell(x@, y@),
            final(self).spec_width() == old(self).spec_width(),
            final(self).spec_soft_width() == old(self).spec_soft_width(),
            final(self).spec_height() == old(self).spec_height(),
            final(self).spec_default_style() == old(self).spec_default_style(),
            forall|a: int, b: int| #[trigger]
                final(self).spec_has_cell(a, b) == old(self).spec_has_cell(a, b),
            forall|a: int, b: int| #[trigger]
                final(self).spec_cell(a, b) == if r && a == x@ && b == y@ {
                    cell@
                } else {
                    old(self).spec_cell(a, b)
                },
    ;

    /// A reference to the cell at the position, if there is one; what is written through it
    /// becomes the cell there, and nothing else changes.
    fn get_cell_mut(&mut self, x: ColIndex, y: RowIndex) -> (r: Option<&mut StyledGraphemeCluster>)
        ensures
            r is Some <==> old(self).spec_has_cell(x@, y@),
            final(self).spec_width() == old(self).spec_width(),
            final(self).spec_soft_width() == old(self).spec_soft_width(),
            final(self).spec_height() == old(self).spec_height(),
            final(self).spec_default_style() == old(self).spec_default_style(),
            forall|a: int, b: int| #[trigger]
                final(self).spec_has_cell(a, b) == old(self).spec_has_cell(a, b),
            r is None ==> forall|a: int, b: int| #[trigger]
                final(self).spec_cell(a, b) == old(self).spec_cell(a, b),
            r matches Some(c) ==> {
                &&& (*c)@ == old(self).spec_cell(x@, y@)
                &&& forall|a: int, b: int| #[trigger]
                    final(self).spec_cell(a, b) == if a == x@ && b == y@ {
                        (*final(c))@
                    } else {
                        old(self).spec_cell(a, b)
                    }
            },
    ;

    fn get_default_style(&self) -> (r: Style)
        ensures
            r == self.spec_default_style(),
    ;
}

/// An owned grid of styled cells (an `ndarray` matrix, rows first), which windows can be
/// created over.
#[derive(PartialEq)]
pub struct WindowBuffer {
    pub(crate) storage: CellMatrix,
}

impl WindowBuffer {
    /// The cells, row by row.
    pub closed spec fn spec_cells(&self) -> Seq<Seq<(Seq<char>, Style)>> {
        owned_matrix_cells(self.storage)
    }

    /// The number of columns.
    pub closed spec fn spec_width(&self) -> nat {
        owned_matrix_shape(self.storage).1
    }

    /// The number of rows.
    pub closed spec fn spec_height(&self) -> nat {
        owned_matrix_shape(self.storage).0
    }

    /// The buffer is at most `i32::MAX` cells wide and high, and holds `spec_height` rows of
    /// `spec_width` cells each.
    pub closed spec fn wf(&self) -> bool {
        &&& owned_matrix_shape(self.storage).0 <= i32::MAX
        &&& owned_matrix_shape(self.storage).1 <= i32::MAX
        &&& spec_owned_consistent(self.storage)
    }

    /// A buffer of the given size, filled with spaces in the plain style.
    pub fn new(width: Width, height: Height) -> (r: Self)
        requires
            spec_nonzero(width@) * spec_nonzero(height@) <= isize::MAX,
        ensures
            r.wf(),
            r.spec_width() == width@,
            r.spec_height() == height@,
            r.spec_cells() == Seq::new(
                height@,
                |i: int| Seq::new(width@, |j: int| (seq![' '], Style::spec_plain())),
            ),
    {
        proof {
            assert(spec_nonzero(height@) * spec_nonzero(width@) == spec_nonzero(width@) * spec_nonzero(height@))
                by (nonlinear_arith);
        }
        WindowBuffer { storage: matrix_default(height.raw_value() as usize, width.raw_value() as usize) }
    }

    /// The buffer's cells and size are those of its matrix.
    pub(crate) proof fn lemma_storage(&self)
        ensures
            self.spec_cells() == owned_matrix_cells(self.storage),
            self.spec_width() == owned_matrix_shape(self.storage).1,
            self.spec_height() == owned_matrix_shape(self.storage).0,
    {
    }

    /// A buffer holding the matrix `storage`.
    pub(crate) fn from_storage(storage: CellMatrix) -> (r: Self)
        ensures
            r.storage == storage,
            r.spec_cells() == owned_matrix_cells(storage),
            r.spec_width() == owned_matrix_shape(storage).1,
            r.spec_height() == owned_matrix_shape(storage).0,
            r.wf() <==> (owned_matrix_shape(storage).0 <= i32::MAX && owned_matrix_shape(storage).1 <= i32::MAX
                && spec_owned_consistent(storage)),
    {
        WindowBuffer { storage }
    }

    /// A window covering the whole buffer, in the plain style; writing to it changes the buffer.
    pub fn as_window<'a>(&'a mut self) -> (r: Window<'a>)
        requires
            old(self).wf(),
        ensures
            r.wf(),
            r.spec_width() == old(self).spec_width(),
            r.spec_height() == old(self).spec_height(),
            r.spec_cells() == old(self).spec_cells(),
            r.spec_default_style() == Style::spec_plain(),
            final(self).wf(),
            final(self).spec_width() == old(self).spec_width(),
            final(self).spec_height() == old(self).spec_height(),
    {
        match Window::new(owned_matrix_view_mut(&mut self.storage)) {
            Some(w) => w,
            None => unreached(),
        }
    }
}

/// The content of column `x` of a grid `w` columns wide that is filled with cluster `c`.
pub open spec fn spec_fill_cell(c: Seq<char>, w: int, x: int, style: Style) -> (Seq<char>, Style) {
    let cw = spec_cluster_width(c) as int;
    if x >= w - (w % cw) {
        (seq![' '], style)
    } else if x % cw == 0 {
        (c, style)
    } else {
        (Seq::<char>::empty(), style)
    }
}

/// Whether a cluster is one of the control characters that must not reach the terminal as cell
/// content (tab, newline, carriage return, NUL).
pub open spec fn spec_is_control_cluster(g: Seq<char>) -> bool {
    g == seq!['\t'] || g == seq!['\n'] || g == seq!['\r'] || g == seq!['\0']
}

/// Splitting cells into runs of equal style, cell by cell: the finished runs, the style of the
/// current run and the text of the current run. A cell of another style than the current run
/// finishes it (even an empty one) and starts a new run.
pub open spec fn spec_runs_fold(cells: Seq<(Seq<char>, Style)>, start: Style) -> (Seq<(Style, Seq<char>)>, Style, Seq<char>)
    decreases cells.len(),
{
    if cells.len() == 0 {
        (Seq::empty(), start, Seq::empty())
    } else {
        let (done, cur, text) = spec_runs_fold(cells.drop_last(), start);
        let c = cells.last();
        if c.1 != cur {
            (done.push((cur, text)), c.1, c.0)
        } else {
            (done, cur, text + c.0)
        }
    }
}

/// The runs of a row of cells that starts out in style `start`: all runs, the last one included.
pub open spec fn spec_row_runs(cells: Seq<(Seq<char>, Style)>, start: Style) -> Seq<(Style, Seq<char>)> {
    let (done, cur, text) = spec_runs_fold(cells, start);
    done.push((cur, text))
}

/// The style in effect at the end of a row that starts out in style `start`.
pub open spec fn spec_row_end_style(cells: Seq<(Seq<char>, Style)>, start: Style) -> Style {
    spec_runs_fold(cells, start).1
}

/// The text of a sequence of runs.
pub open spec fn spec_runs_text(runs: Seq<(Style, Seq<char>)>) -> Seq<char> {
    runs.map_values(|p: (Style, Seq<char>)| p.1).flatten()
}

/// The text of a sequence of cells.
pub open spec fn spec_cells_text(cells: Seq<(Seq<char>, Style)>) -> Seq<char> {
    cells.map_values(|c: (Seq<char>, Style)| c.0).flatten()
}

/// Splitting a row into runs loses and adds no text: the runs' texts, one after the other, are
/// the cells' clusters, one after the other.
pub proof fn law_row_runs_keep_text(cells: Seq<(Seq<char>, Style)>, start: Style)
    ensures
        spec_runs_text(spec_row_runs(cells, start)) == spec_cells_text(cells),
    decreases cells.len(),
{
    lemma_runs_fold_text(cells, start);
    let (done, cur, text) = spec_runs_fold(cells, start);
    lemma_runs_text_push(done, (cur, text));
}

/// The text of the finished runs followed by the current run's text is the cells' text.
proof fn lemma_runs_fold_text(cells: Seq<(Seq<char>, Style)>, start: Style)
    ensures
        spec_runs_text(spec_runs_fold(cells, start).0) + spec_runs_fold(cells, start).2 == spec_cells_text(cells),
    decreases cells.len(),
{
    if cells.len() == 0 {
        assert(spec_runs_text(Seq::<(Style, Seq<char>)>::empty()) =~= Seq::<char>::empty());
        assert(spec_cells_text(cells) =~= Seq::<char>::empty());
        assert(Seq::<char>::empty() + Seq::<char>::empty() =~= Seq::<char>::empty());
    } else {
        let d = cells.drop_last();
        lemma_runs_fold_text(d, start);
        let (done, cur, text) = spec_runs_fold(d, start);
        let c = cells.last();
        lemma_cells_text_push(d, c);
        assert(cells =~= d.push(c));
        if c.1 != cur {
            lemma_runs_text_push(done, (cur, text));
            assert(spec_runs_text(done.push((cur, text))) + c.0 =~= spec_runs_text(done) + text + c.0);
        } else {
            assert(spec_runs_text(done) + (text + c.0) =~= spec_runs_text(done) + text + c.0);
        }
    }
}

/// The text of runs with one more run at the end.
proof fn lemma_runs_text_push(runs: Seq<(Style, Seq<char>)>, r: (Style, Seq<char>))
    ensures
        spec_runs_text(runs.push(r)) == spec_runs_text(runs) + r.1,
{
    let m = runs.map_values(|p: (Style, Seq<char>)| p.1);
    assert(runs.push(r).map_values(|p: (Style, Seq<char>)| p.1) =~= m.push(r.1));
    m.lemma_flatten_push(r.1);
}

/// The text of cells with one more cell at the end.
proof fn lemma_cells_text_push(cells: Seq<(Seq<char>, Style)>, c: (Seq<char>, Style))
    ensures
        spec_cells_text(cells.push(c)) == spec_cells_text(cells) + c.0,
{
    let m = cells.map_values(|p: (Seq<char>, Style)| p.0);
    assert(cells.push(c).map_values(|p: (Seq<char>, Style)| p.0) =~= m.push(c.0));
    m.lemma_flatten_push(c.0);
}

/// The cell `(x, y)` of a target `t` after filling it with cluster `c`: the positions of the
/// grid that hold a cell are filled as `spec_fill_cell` says (in the default style), all others
/// stay as they were.
pub open spec fn spec_filled<T: CursorTarget>(t: T, c: Seq<char>, x: int, y: int) -> (Seq<char>, Style) {
    if 0 <= x < t.spec_width() && 0 <= y < t.spec_height() && t.spec_has_cell(x, y) {
        spec_fill_cell(c, t.spec_width() as int, x, t.spec_default_style())
    } else {
        t.spec_cell(x, y)
    }
}

/// Fill every row of a target with copies of the cluster in the target's default style; where
/// the cluster is wider than one cell, the cells it covers hold the empty cluster, and the
/// columns at the right that are too few for another copy hold spaces.
pub fn fill<T: CursorTarget>(target: &mut T, c: GraphemeCluster)
    requires
        spec_cluster_width(c@) > 0,
    ensures
        spec_same_frame(*final(target), *old(target)),
        forall|x: int, y: int| #[trigger] final(target).spec_cell(x, y) == spec_filled(*old(target), c@, x, y),
{
    let ghost t0 = *target;
    let cw = c.width();
    let w = target.get_width().raw_value();
    let h = target.get_height().raw_value();
    let style = target.get_default_style();
    let wu: usize = w as usize;
    let right_border: usize = if cw <= wu {
        wu - (wu % cw)
    } else {
        0
    };
    proof {
        if cw > wu {
            assert(wu % cw == wu) by (nonlinear_arith)
                requires
                    cw > wu,
                    wu >= 0,
            ;
        }
    }
    let mut y: i32 = 0;
    while y < h
        invariant
            0 <= y <= h,
            w == t0.spec_width(),
            h == t0.spec_height(),
            wu == w,
            style == t0.spec_default_style(),
            cw == spec_cluster_width(c@),
            cw > 0,
            right_border == wu - (wu % cw),
            spec_same_frame(*target, t0),
            forall|a: int, b: int| #[trigger] target.spec_cell(a, b) == if b < y {
                spec_filled(t0, c@, a, b)
            } else {
                t0.spec_cell(a, b)
            },
        decreases h - y,
    {
        let mut x: i32 = 0;
        while x < w
            invariant
                0 <= y < h,
                0 <= x <= w,
                w == t0.spec_width(),
                h == t0.spec_height(),
                wu == w,
                style == t0.spec_default_style(),
                cw == spec_cluster_width(c@),
                cw > 0,
                right_border == wu - (wu % cw),
                spec_same_frame(*target, t0),
                forall|a: int, b: int| #[trigger] target.spec_cell(a, b) == if b < y || (b == y && a < x) {
                    spec_filled(t0, c@, a, b)
                } else {
                    t0.spec_cell(a, b)
                },
            decreases w - x,
        {
            let xu: usize = x as usize;
            let cell = if xu >= right_border {
                StyledGraphemeCluster::new(GraphemeCluster::space(), style)
            } else if xu % cw == 0 {
                StyledGraphemeCluster::new(c.clone(), style)
            } else {
                StyledGraphemeCluster::new(GraphemeCluster::empty(), style)
            };
            let ghost v = cell@;
            proof {
                assert(v == spec_fill_cell(c@, w as int, x as int, style));
            }
            target.set_cell(AxisIndex::new(x), AxisIndex::new(y), cell);
            x = x + 1;
        }
        y = y + 1;
    }
}

/// The cells of row `y` of a target.
pub open spec fn spec_row<T: CursorTarget>(t: T, y: int) -> Seq<(Seq<char>, Style)> {
    Seq::new(t.spec_width(), |x: int| t.spec_cell(x, y))
}

/// The style in effect after the first `k` rows of a target, starting out in style `start`.
pub open spec fn spec_rows_end_style<T: CursorTarget>(t: T, k: int, start: Style) -> Style
    decreases k,
{
    if k <= 0 {
        start
    } else {
        spec_row_end_style(spec_row(t, k - 1), spec_rows_end_style(t, k - 1, start))
    }
}

/// Whether every position of the target's grid holds a cell.
pub open spec fn spec_full_grid<T: CursorTarget>(t: T) -> bool {
    forall|x: int, y: int| 0 <= x < t.spec_width() && 0 <= y < t.spec_height() ==> #[trigger] t.spec_has_cell(x, y)
}

/// Whether some cell of the target's grid holds a control character.
pub open spec fn spec_has_control<T: CursorTarget>(t: T) -> bool {
    exists|x: int, y: int|
        0 <= x < t.spec_width() && 0 <= y < t.spec_height() && #[trigger] spec_is_control_cluster(
            t.spec_cell(x, y).0,
        )
}

/// The rows of a target as runs of equal style, as they are sent to a terminal: the style in
/// effect carries over from the end of one row to the start of the next, starting out as
/// `start`. Returns the runs of every row and the style in effect at the end, or `None` where a
/// cell holds a control character (which a terminal would not show as cell content) or a
/// position of the grid holds no cell.
pub fn style_runs<T: CursorTarget>(target: &T, start: Style) -> (r: Option<(Vec<Vec<(Style, String)>>, Style)>)
    ensures
        r is None <==> (spec_has_control(*target) || !spec_full_grid(*target)),
        r matches Some((rows, end)) ==> {
            &&& rows@.len() == target.spec_height()
            &&& end == spec_rows_end_style(*target, target.spec_height() as int, start)
            &&& forall|y: int| 0 <= y < rows@.len() ==> (#[trigger] rows@[y])@.map_values(
                |p: (Style, String)| (p.0, p.1@),
            ) == spec_row_runs(spec_row(*target, y), spec_rows_end_style(*target, y, start))
        },
{
    let w = target.get_width().raw_value();
    let h = target.get_height().raw_value();
    let mut rows: Vec<Vec<(Style, String)>> = Vec::new();
    let mut current = start;
    let mut y: i32 = 0;
    while y < h
        invariant
            w == target.spec_width(),
            h == target.spec_height(),
            0 <= y <= h,
            rows@.len() == y,
            current == spec_rows_end_style(*target, y as int, start),
            forall|k: int| 0 <= k < y ==> (#[trigger] rows@[k])@.map_values(
                |p: (Style, String)| (p.0, p.1@),
            ) == spec_row_runs(spec_row(*target, k), spec_rows_end_style(*target, k, start)),
            forall|a: int, b: int| 0 <= a < w && 0 <= b < y ==> #[trigger] target.spec_has_cell(a, b),
            forall|a: int, b: int|
                0 <= a < w && 0 <= b < y ==> !#[trigger] spec_is_control_cluster(target.spec_cell(a, b).0),
        decreases h - y,
    {
        let ghost row = spec_row(*target, y as int);
        let ghost row_start = current;
        let mut done: Vec<(Style, String)> = Vec::new();
        let mut text = String::new();
        let mut x: i32 = 0;
        proof {
            assert(row.take(0) =~= Seq::<(Seq<char>, Style)>::empty());
        }
        while x < w
            invariant
                w == target.spec_width(),
                h == target.spec_height(),
                0 <= y < h,
                0 <= x <= w,
                row == spec_row(*target, y as int),
                ({
                    let (d, cur, t) = spec_runs_fold(row.take(x as int), row_start);
                    &&& done@.map_values(|p: (Style, String)| (p.0, p.1@)) == d
                    &&& current == cur
                    &&& text@ == t
                }),
                forall|a: int, b: int| 0 <= a < w && 0 <= b < y ==> #[trigger] target.spec_has_cell(a, b),
                forall|a: int, b: int|
                    0 <= a < w && 0 <= b < y ==> !#[trigger] spec_is_control_cluster(target.spec_cell(a, b).0),
                forall|a: int| 0 <= a < x ==> #[trigger] target.spec_has_cell(a, y as int),
                forall|a: int| 0 <= a < x ==> !#[trigger] spec_is_control_cluster(target.spec_cell(a, y as int).0),
            decreases w - x,
        {
            let c = match target.get_cell(AxisIndex::new(x), AxisIndex::new(y)) {
                Some(c) => c,
                None => {
                    return None;
                },
            };
            proof {
                assert(row[x as int] == c@);
                assert(row.take(x + 1).drop_last() =~= row.take(x as int));
                assert(row.take(x + 1).last() == c@);
            }
            let g = c.grapheme_cluster.as_str();
            let n = g.unicode_len();
            if n == 1 {
                let ch = g.get_char(0);
                if ch == '\t' || ch == '\n' || ch == '\r' || ch == '\0' {
                    proof {
                        assert(c.grapheme_cluster@ =~= seq![ch]);
                        assert(spec_is_control_cluster(target.spec_cell(x as int, y as int).0));
                    }
                    return None;
                }
                proof {
                    assert(c.grapheme_cluster@ =~= seq![ch]);
                    assert(seq![ch][0] != seq!['\t'][0]);
                    assert(seq![ch][0] != seq!['\n'][0]);
                    assert(seq![ch][0] != seq!['\r'][0]);
                    assert(seq![ch][0] != seq!['\0'][0]);
                    assert(!spec_is_control_cluster(c.grapheme_cluster@));
                }
            } else {
                proof {
                    assert(c.grapheme_cluster@.len() != 1);
                    assert(!spec_is_control_cluster(c.grapheme_cluster@));
                }
            }
            proof {
                assert(target.spec_has_cell(x as int, y as int));
                assert(!spec_is_control_cluster(target.spec_cell(x as int, y as int).0));
            }
            if c.style != current {
                let ghost old_done = done@;
                let mut finished = String::new();
                std::mem::swap(&mut finished, &mut text);
                done.push((current, finished));
                current = c.style;
                string_push_str(&mut text, g);
                proof {
                    assert(done@.map_values(|p: (Style, String)| (p.0, p.1@)) =~= old_done.map_values(
                        |p: (Style, String)| (p.0, p.1@),
                    ).push((done@.last().0, done@.last().1@)));
                }
            } else {
                string_push_str(&mut text, g);
            }
            x = x + 1;
        }
        proof {
            assert(row.take(w as int) =~= row);
        }
        let ghost old_done = done@;
        done.push((current, text));
        proof {
            assert(done@.map_values(|p: (Style, String)| (p.0, p.1@)) =~= old_done.map_values(
                |p: (Style, String)| (p.0, p.1@),
            ).push((done@.last().0, done@.last().1@)));
        }
        rows.push(done);
        y = y + 1;
    }
    Some((rows, current))
}

/// One end of the range of columns or rows that a subwindow covers (as `std::ops::Bound`).
#[derive(Clone, Copy, Debug, PartialEq, Eq, Structural)]
pub enum WindowBound {
    Unbounded,
    Included(i32),
    Excluded(i32),
}

/// The first index that a range starting at `b` covers (an excluded start counts one less).
pub open spec fn spec_start_of(b: WindowBound) -> int {
    match b {
        WindowBound::Unbounded => 0,
        WindowBound::Included(i) => i as int,
        WindowBound::Excluded(i) => i - 1,
    }
}

/// The end that a range ending at `b` has in a window `extent` long (an included end counts one
/// less).
pub open spec fn spec_end_of(b: WindowBound, extent: int) -> int {
    match b {
        WindowBound::Unbounded => extent,
        WindowBound::Included(i) => i - 1,
        WindowBound::Excluded(i) => i as int,
    }
}

/// The start and end of the part of a window `extent` long that a subwindow from `start` to
/// `end` covers, or `None` where that is no valid range within the window: the start lies after
/// the end, before 0, or the end beyond the extent.
pub fn subwindow_range(start: WindowBound, end: WindowBound, extent: i32) -> (r: Option<(i32, i32)>)
    requires
        extent >= 0,
    ensures
        ({
            let s = spec_start_of(start);
            let e = spec_end_of(end, extent as int);
            if 0 <= s <= e <= extent {
                r == Some((s as i32, e as i32))
            } else {
                r is None
            }
        }),
{
    let s: i64 = match start {
        WindowBound::Unbounded => 0,
        WindowBound::Included(i) => i as i64,
        WindowBound::Excluded(i) => i as i64 - 1,
    };
    let e: i64 = match end {
        WindowBound::Unbounded => extent as i64,
        WindowBound::Included(i) => i as i64 - 1,
        WindowBound::Excluded(i) => i as i64,
    };
    if 0 <= s && s <= e && e <= extent as i64 {
        Some((s as i32, e as i32))
    } else {
        None
    }
}

/// Whether a window `extent` long can be split at `pos` into two windows: the position lies
/// between 0 and the extent (both included).
pub fn split_position_valid(extent: i32, pos: i32) -> (r: bool)
    ensures
        r == (0 <= pos <= extent),
{
    0 <= pos && pos <= extent
}

/// `t` and `u` have the same dimensions, default style and cell positions.
pub open spec fn spec_same_frame<T: CursorTarget>(t: T, u: T) -> bool {
    &&& t.spec_width() == u.spec_width()
    &&& t.spec_soft_width() == u.spec_soft_width()
    &&& t.spec_height() == u.spec_height()
    &&& t.spec_default_style() == u.spec_default_style()
    &&& forall|a: int, b: int| #[trigger] t.spec_has_cell(a, b) == u.spec_has_cell(a, b)
}

/// A window that keeps what is written to it only to report the extent of the written content:
/// it is `width` columns wide (or practically unbounded) and practically unbounded in height.
///
/// It is suitable for determining the space demand of content that is only known by how it is
/// drawn.
pub struct ExtentEstimationWindow {
    written: Vec<(i32, i32, StyledGraphemeCluster)>,
    blank: StyledGraphemeCluster,
    default_style: Style,
    width: Width,
    extent_x: Width,
    extent_y: Height,
}

/// The last of the `written` cells at `(x, y)`, or `blank` where none is.
pub open spec fn spec_last_written(
    written: Seq<(i32, i32, StyledGraphemeCluster)>,
    blank: (Seq<char>, Style),
    x: int,
    y: int,
) -> (Seq<char>, Style)
    decreases written.len(),
{
    if written.len() == 0 {
        blank
    } else if written.last().0 == x && written.last().1 == y {
        written.last().2@
    } else {
        spec_last_written(written.drop_last(), blank, x, y)
    }
}

/// After one more write, a cell reads what was written last there: the new entry where it is at
/// that position, the earlier entries elsewhere.
proof fn lemma_last_written_push(written: Seq<(i32, i32, StyledGraphemeCluster)>, blank: (Seq<char>, Style))
    ensures
        forall|e: (i32, i32, StyledGraphemeCluster), x: int, y: int| #[trigger]
            spec_last_written(written.push(e), blank, x, y) == if e.0 == x && e.1 == y {
                e.2@
            } else {
                spec_last_written(written, blank, x, y)
            },
        forall|e: (i32, i32, StyledGraphemeCluster), f: (i32, i32, StyledGraphemeCluster)| #[trigger]
            written.push(e).update(written.len() as int, f) == written.push(f),
{
    assert forall|e: (i32, i32, StyledGraphemeCluster), f: (i32, i32, StyledGraphemeCluster)| #[trigger]
        written.push(e).update(written.len() as int, f) == written.push(f) by {
        assert(written.push(e).update(written.len() as int, f) =~= written.push(f));
    }
    assert forall|e: (i32, i32, StyledGraphemeCluster), x: int, y: int| #[trigger]
        spec_last_written(written.push(e), blank, x, y) == if e.0 == x && e.1 == y {
            e.2@
        } else {
            spec_last_written(written, blank, x, y)
        } by {
        assert(written.push(e).drop_last() =~= written);
    }
}

impl ExtentEstimationWindow {
    /// An empty window `width` columns wide.
    pub fn with_width(width: Width) -> (r: Self)
        ensures
            r.spec_width() == width@,
            r.spec_height() == i32::MAX,
            r.spec_extent_x() == 0,
            r.spec_extent_y() == 0,
            forall|x: int, y: int| #[trigger] r.spec_cell(x, y) == (seq![' '], Style::spec_plain()),
    {
        ExtentEstimationWindow {
            written: Vec::new(),
            blank: StyledGraphemeCluster::default(),
            default_style: Style::plain(),
            width,
            extent_x: PositiveAxisDiff::new_unchecked(0),
            extent_y: PositiveAxisDiff::new_unchecked(0),
        }
    }

    /// An empty window of practically unbounded width.
    pub fn unbounded() -> (r: Self)
        ensures
            r.spec_width() == i32::MAX,
            r.spec_height() == i32::MAX,
            r.spec_extent_x() == 0,
            r.spec_extent_y() == 0,
            forall|x: int, y: int| #[trigger] r.spec_cell(x, y) == (seq![' '], Style::spec_plain()),
    {
        Self::with_width(PositiveAxisDiff::new_unchecked(2147483647))
    }

    /// The number of columns up to the rightmost one written to.
    pub closed spec fn spec_extent_x(&self) -> nat {
        self.extent_x@
    }

    /// The number of rows up to the lowest one written to.
    pub closed spec fn spec_extent_y(&self) -> nat {
        self.extent_y@
    }

    /// The width needed to show what was written to the window.
    pub fn extent_x(&self) -> (r: Width)
        ensures
            r@ == self.spec_extent_x(),
    {
        self.extent_x
    }

    /// The height needed to show what was written to the window.
    pub fn extent_y(&self) -> (r: Height)
        ensures
            r@ == self.spec_extent_y(),
    {
        self.extent_y
    }
}

/// The extent after position `v` was written to: at least `v + 1`, saturating at `i32::MAX`.
pub open spec fn spec_grow_extent(extent: nat, v: int) -> nat {
    let needed = if v >= i32::MAX {
        i32::MAX as int
    } else if v + 1 < 0 {
        0
    } else {
        v + 1
    };
    if extent >= needed {
        extent
    } else {
        needed as nat
    }
}

impl ExtentEstimationWindow {
    /// Grow the extents to cover position `(x, y)`.
    fn record(&mut self, x: ColIndex, y: RowIndex)
        ensures
            final(self).spec_extent_x() == spec_grow_extent(old(self).spec_extent_x(), x@),
            final(self).spec_extent_y() == spec_grow_extent(old(self).spec_extent_y(), y@),
            final(self).written == old(self).written,
            final(self).blank == old(self).blank,
            final(self).width == old(self).width,
            final(self).default_style == old(self).default_style,
    {
        let xv = x.raw_value();
        let yv = y.raw_value();
        let nx: i32 = if xv == 2147483647 { 2147483647 } else if xv + 1 < 0 { 0 } else { xv + 1 };
        let ny: i32 = if yv == 2147483647 { 2147483647 } else if yv + 1 < 0 { 0 } else { yv + 1 };
        self.extent_x = self.extent_x.max(PositiveAxisDiff::new_unchecked(nx));
        self.extent_y = self.extent_y.max(PositiveAxisDiff::new_unchecked(ny));
    }
}

impl CursorTarget for ExtentEstimationWindow {
    closed spec fn spec_width(&self) -> nat {
        self.width@
    }

    closed spec fn spec_soft_width(&self) -> nat {
        self.width@
    }

    closed spec fn spec_height(&self) -> nat {
        i32::MAX as nat
    }

    closed spec fn spec_has_cell(&self, x: int, y: int) -> bool {
        0 <= x < self.width@ && 0 <= y < i32::MAX
    }

    closed spec fn spec_cell(&self, x: int, y: int) -> (Seq<char>, Style) {
        spec_last_written(self.written@, self.blank@, x, y)
    }

    closed spec fn spec_default_style(&self) -> Style {
        self.default_style
    }

    fn get_width(&self) -> (r: Width) {
        self.width
    }

    fn get_soft_width(&self) -> (r: Width) {
        self.width
    }

    fn get_height(&self) -> (r: Height) {
        PositiveAxisDiff::new_unchecked(2147483647)
    }

    fn get_cell(&self, x: ColIndex, y: RowIndex) -> (r: Option<&StyledGraphemeCluster>) {
        let xv = x.raw_value();
        let yv = y.raw_value();
        if xv < 0 || yv < 0 || xv >= self.width.raw_value() || yv == 2147483647 {
            return None;
        }
        let mut i = self.written.len();
        proof {
            assert(self.written@.take(i as int) =~= self.written@);
        }
        while i > 0
            invariant
                i <= self.written@.len(),
                0 <= x@ < self.width@,
                0 <= y@ < i32::MAX,
                xv == x@,
                yv == y@,
                spec_last_written(self.written@, self.blank@, x@, y@) == spec_last_written(
                    self.written@.take(i as int),
                    self.blank@,
                    x@,
                    y@,
                ),
            decreases i,
        {
            let e = &self.written[i - 1];
            proof {
                assert(self.written@.take(i as int).drop_last() =~= self.written@.take(i - 1));
                assert(self.written@.take(i as int).last() == self.written@[i - 1]);
            }
            if e.0 == xv && e.1 == yv {
                return Some(&e.2);
            }
            i = i - 1;
        }
        proof {
            assert(self.written@.take(0) =~= Seq::<(i32, i32, StyledGraphemeCluster)>::empty());
        }
        Some(&self.blank)
    }

    fn set_cell(&mut self, x: ColIndex, y: RowIndex, cell: StyledGraphemeCluster) -> (r: bool) {
        self.record(x, y);
        let xv = x.raw_value();
        let yv = y.raw_value();
        if xv < 0 || yv < 0 || xv >= self.width.raw_value() || yv == 2147483647 {
            return false;
        }
        let ghost before = self.written@;
        self.written.push((xv, yv, cell));
        proof {
            assert(self.written@.drop_last() =~= before);
        }
        true
    }

    fn get_cell_mut(&mut self, x: ColIndex, y: RowIndex) -> (r: Option<&mut StyledGraphemeCluster>) {
        self.record(x, y);
        let xv = x.raw_value();
        let yv = y.raw_value();
        if xv < 0 || yv < 0 || xv >= self.width.raw_value() || yv == 2147483647 {
            return None;
        }
        let current = match self.get_cell(x, y) {
            Some(c) => c.clone(),
            None => self.blank.clone(),
        };
        let ghost before = self.written@;
        self.written.push((xv, yv, current));
        let n = self.written.len();
        proof {
            lemma_last_written_push(before, self.blank@);
        }
        Some(&mut self.written[n - 1].2)
    }

    fn get_default_style(&self) -> (r: Style) {
        self.default_style
    }
}

} // verus!
