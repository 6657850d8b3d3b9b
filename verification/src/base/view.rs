//! Windows: rectangular views, with a default style, into a matrix of styled cells.
use crate::base::basic_types::{AxisDimension, AxisIndex, ColIndex, Height, PositiveAxisDiff, RowIndex, Width};
use crate::base::grapheme_cluster::{spec_cluster_width, GraphemeCluster};
use crate::base::style::{Style, StyleModifier};
use crate::base::window::{
    fill, spec_end_of, spec_filled, spec_same_frame, spec_start_of, subwindow_range, split_position_valid,
    CursorTarget, StyledGraphemeCluster, WindowBound,
};
use ndarray::{ArrayViewMut2, Axis, Slice};
use vstd::prelude::*;

verus! {

/// A mutable view of a matrix of styled cells, stored rows first (an `ndarray` view); the
/// library learns its shape and cells only from the calls on it.
#[verifier::external_body]
#[derive(Debug)]
pub struct CellMatrixView<'w> {
    pub values: ArrayViewMut2<'w, StyledGraphemeCluster>,
}

/// The cells of the view, row by row, each cell by its view.
pub uninterp spec fn matrix_cells(m: CellMatrixView) -> Seq<Seq<(Seq<char>, Style)>>;

/// The number of rows and columns of the view.
pub uninterp spec fn matrix_shape(m: CellMatrixView) -> (nat, nat);

/// The view holds as many rows of cells as its shape says, each with as many cells as it has
/// columns (as every `ndarray` matrix does).
pub open spec fn spec_matrix_consistent(m: CellMatrixView) -> bool {
    &&& matrix_cells(m).len() == matrix_shape(m).0
    &&& forall|i: int| 0 <= i < matrix_shape(m).0 ==> (#[trigger] matrix_cells(m)[i]).len() == matrix_shape(m).1
}

/// `ArrayBase::dim` on the view.
///
/// Claimed: the result is the shape (rows, columns), and the cells agree with it.
#[verifier::external_body]
fn matrix_dim(m: &CellMatrixView) -> (r: (usize, usize))
    ensures
        r.0 == matrix_shape(*m).0,
        r.1 == matrix_shape(*m).1,
        matrix_cells(*m).len() == r.0,
        forall|i: int| 0 <= i < r.0 ==> (#[trigger] matrix_cells(*m)[i]).len() == r.1,
{
    m.values.dim()
}

/// `ArrayBase::get` with the index `(row, col)`.
///
/// Claimed: a cell exactly where the index lies within the shape, and that cell is the one in
/// the view's cells.
#[verifier::external_body]
fn matrix_get<'a>(m: &'a CellMatrixView, row: usize, col: usize) -> (r: Option<&'a StyledGraphemeCluster>)
    ensures
        r is Some <==> (row < matrix_shape(*m).0 && col < matrix_shape(*m).1),
        r matches Some(c) ==> c@ == matrix_cells(*m)[row as int][col as int],
{
    m.values.get((row, col))
}

/// `ArrayBase::get_mut` with the index `(row, col)`, and an assignment through it.
///
/// Claimed: the assignment happens exactly where the index lies within the shape; the shape stays,
/// the cells change only there, to `cell`, and agree with the shape before and after.
#[verifier::external_body]
fn matrix_set(m: &mut CellMatrixView, row: usize, col: usize, cell: StyledGraphemeCluster) -> (r: bool)
    ensures
        r == (row < matrix_shape(*old(m)).0 && col < matrix_shape(*old(m)).1),
        spec_matrix_consistent(*old(m)),
        spec_matrix_consistent(*final(m)),
        matrix_shape(*final(m)) == matrix_shape(*old(m)),
        matrix_cells(*final(m)) == if r {
            matrix_cells(*old(m)).update(
                row as int,
                matrix_cells(*old(m))[row as int].update(col as int, cell@),
            )
        } else {
            matrix_cells(*old(m))
        },
{
    match m.values.get_mut((row, col)) {
        Some(c) => {
            *c = cell;
            true
        },
        None => false,
    }
}

/// `ArrayBase::get_mut` with the index `(row, col)`.
///
/// Claimed: a cell exactly where the index lies within the shape, which is the one in the view's
/// cells; the shape stays, and the cells change only there, to what is written through the
/// reference.
#[verifier::external_body]
fn matrix_get_mut<'a, 'w>(m: &'a mut CellMatrixView<'w>, row: usize, col: usize) -> (r: Option<
    &'a mut StyledGraphemeCluster,
>)
    ensures
        r is Some <==> (row < matrix_shape(*old(m)).0 && col < matrix_shape(*old(m)).1),
        spec_matrix_consistent(*old(m)),
        spec_matrix_consistent(*final(m)),
        matrix_shape(*final(m)) == matrix_shape(*old(m)),
        r is None ==> matrix_cells(*final(m)) == matrix_cells(*old(m)),
        r matches Some(c) ==> {
            &&& (*c)@ == matrix_cells(*old(m))[row as int][col as int]
            &&& matrix_cells(*final(m)) == matrix_cells(*old(m)).update(
                row as int,
                matrix_cells(*old(m))[row as int].update(col as int, (*final(c))@),
            )
        },
{
    m.values.get_mut((row, col))
}

/// `ArrayBase::view_mut`: a view of the same cells, borrowing this one.
///
/// Claimed: the new view has the same shape and cells, which agree with the shape. Of the
/// borrowed view after the borrow nothing is claimed (writes through the new view change its
/// cells).
#[verifier::external_body]
fn matrix_reborrow<'a, 'w>(m: &'a mut CellMatrixView<'w>) -> (r: CellMatrixView<'a>)
    ensures
        matrix_shape(r) == matrix_shape(*old(m)),
        matrix_cells(r) == matrix_cells(*old(m)),
        spec_matrix_consistent(*old(m)),
        spec_matrix_consistent(r),
{
    CellMatrixView { values: m.values.view_mut() }
}

/// The cells of rows `y0..y1` and columns `x0..x1` of a matrix of cells.
pub open spec fn spec_sub_cells(cells: Seq<Seq<(Seq<char>, Style)>>, y0: int, y1: int, x0: int, x1: int) -> Seq<
    Seq<(Seq<char>, Style)>,
> {
    cells.subrange(y0, y1).map_values(|row: Seq<(Seq<char>, Style)>| row.subrange(x0, x1))
}

/// `ArrayBase::slice_axis_inplace` with `Slice::from(start..end)` on the axis `axis` (0: rows,
/// 1: columns).
///
/// Claimed: the view is narrowed to the indices `start..end` of that axis: the shape there becomes
/// `end - start`, and the cells are the ones in that range; they agree with the shape before and
/// after. The range must lie within the axis (`ndarray` panics otherwise).
#[verifier::external_body]
fn matrix_slice_axis(m: &mut CellMatrixView, axis: usize, start: usize, end: usize)
    requires
        axis < 2,
        start <= end,
        axis == 0 ==> end <= matrix_shape(*old(m)).0,
        axis == 1 ==> end <= matrix_shape(*old(m)).1,
    ensures
        spec_matrix_consistent(*old(m)),
        spec_matrix_consistent(*final(m)),
        axis == 0 ==> {
            &&& matrix_shape(*final(m)) == ((end - start) as nat, matrix_shape(*old(m)).1)
            &&& matrix_cells(*final(m)) == spec_sub_cells(
                matrix_cells(*old(m)),
                start as int,
                end as int,
                0,
                matrix_shape(*old(m)).1 as int,
            )
        },
        axis == 1 ==> {
            &&& matrix_shape(*final(m)) == (matrix_shape(*old(m)).0, (end - start) as nat)
            &&& matrix_cells(*final(m)) == spec_sub_cells(
                matrix_cells(*old(m)),
                0,
                matrix_shape(*old(m)).0 as int,
                start as int,
                end as int,
            )
        },
{
    m.values.slice_axis_inplace(Axis(axis), Slice::from(start..end));
}

/// `ArrayBase::split_at` on the axis `axis` (0: rows, 1: columns) at `index`.
///
/// Claimed: the first view holds the indices before `index` of that axis, the second the rest;
/// the other axis stays whole; the cells of both agree with their shapes. The index must lie
/// within the axis or at its end (`ndarray` panics otherwise).
#[verifier::external_body]
fn matrix_split_at<'w>(m: CellMatrixView<'w>, axis: usize, index: usize) -> (r: (CellMatrixView<'w>, CellMatrixView<'w>))
    requires
        axis < 2,
        axis == 0 ==> index <= matrix_shape(m).0,
        axis == 1 ==> index <= matrix_shape(m).1,
    ensures
        spec_matrix_consistent(r.0),
        spec_matrix_consistent(r.1),
        ({
            let (rows, cols) = matrix_shape(m);
            let cells = matrix_cells(m);
            if axis == 0 {
                &&& matrix_shape(r.0) == (index as nat, cols)
                &&& matrix_shape(r.1) == ((rows - index) as nat, cols)
                &&& matrix_cells(r.0) == spec_sub_cells(cells, 0, index as int, 0, cols as int)
                &&& matrix_cells(r.1) == spec_sub_cells(cells, index as int, rows as int, 0, cols as int)
            } else {
                &&& matrix_shape(r.0) == (rows, index as nat)
                &&& matrix_shape(r.1) == (rows, (cols - index) as nat)
                &&& matrix_cells(r.0) == spec_sub_cells(cells, 0, rows as int, 0, index as int)
                &&& matrix_cells(r.1) == spec_sub_cells(cells, 0, rows as int, index as int, cols as int)
            }
        }),
{
    let (a, b) = m.values.split_at(Axis(axis), index);
    (CellMatrixView { values: a }, CellMatrixView { values: b })
}

/// A rectangular view into a matrix of cells, with a default style for what is written to it.
///
/// A cluster wider than one cell occupies several cells of a row: the cluster itself, followed
/// by empty clusters. Where such a cell is overwritten, the rest of the old cluster is cleared.
#[derive(Debug)]
pub struct Window<'w> {
    values: CellMatrixView<'w>,
    width: Width,
    height: Height,
    default_style: Style,
}

impl<'w> Window<'w> {
    /// The window's width and height are those of its cells.
    pub closed spec fn wf(&self) -> bool {
        &&& self.width@ == matrix_shape(self.values).1
        &&& self.height@ == matrix_shape(self.values).0
        &&& spec_matrix_consistent(self.values)
    }

    /// The rows of cells of the window.
    pub closed spec fn spec_cells(&self) -> Seq<Seq<(Seq<char>, Style)>> {
        matrix_cells(self.values)
    }

    /// A window of all the cells of the view, in the plain style; `None` where the view has more
    /// rows or columns than an `i32` can count.
    pub fn new(values: CellMatrixView<'w>) -> (r: Option<Self>)
        ensures
            (matrix_shape(values).0 <= i32::MAX && matrix_shape(values).1 <= i32::MAX) <==> r is Some,
            r matches Some(w) ==> {
                &&& w.wf()
                &&& w.spec_width() == matrix_shape(values).1
                &&& w.spec_height() == matrix_shape(values).0
                &&& w.spec_cells() == matrix_cells(values)
                &&& w.spec_default_style() == Style::spec_plain()
            },
    {
        let (rows, cols) = matrix_dim(&values);
        if rows > 2147483647 || cols > 2147483647 {
            return None;
        }
        Some(
            Window {
                values,
                width: PositiveAxisDiff::new_unchecked(cols as i32),
                height: PositiveAxisDiff::new_unchecked(rows as i32),
                default_style: Style::plain(),
            },
        )
    }

    /// The number of columns.
    pub fn get_width(&self) -> (r: Width)
        ensures
            r@ == self.spec_width(),
    {
        self.width
    }

    /// The number of rows.
    pub fn get_height(&self) -> (r: Height)
        ensures
            r@ == self.spec_height(),
    {
        self.height
    }

    /// The extent of the window in dimension `D`: its height for rows, its width for columns.
    pub fn get_extent<D: AxisDimension>(&self) -> (r: PositiveAxisDiff<D>)
        ensures
            r@ == if D::spec_axis() == 0 {
                self.spec_height()
            } else {
                self.spec_width()
            },
    {
        if D::axis() == 0 {
            PositiveAxisDiff::new_unchecked(self.height.raw_value())
        } else {
            PositiveAxisDiff::new_unchecked(self.width.raw_value())
        }
    }

    /// The part of the window in the columns from `x_range.0` to `x_range.1` and the rows from
    /// `y_range.0` to `y_range.1` (an excluded start and an included end count one less); the
    /// ranges must lie within the window.
    pub fn create_subwindow<'a>(
        &'a mut self,
        x_range: (WindowBound, WindowBound),
        y_range: (WindowBound, WindowBound),
    ) -> (r: Window<'a>)
        requires
            old(self).wf(),
            0 <= spec_start_of(x_range.0) <= spec_end_of(x_range.1, old(self).spec_width() as int)
                <= old(self).spec_width(),
            0 <= spec_start_of(y_range.0) <= spec_end_of(y_range.1, old(self).spec_height() as int)
                <= old(self).spec_height(),
        ensures
            ({
                let x0 = spec_start_of(x_range.0);
                let x1 = spec_end_of(x_range.1, old(self).spec_width() as int);
                let y0 = spec_start_of(y_range.0);
                let y1 = spec_end_of(y_range.1, old(self).spec_height() as int);
                &&& r.wf()
                &&& r.spec_width() == x1 - x0
                &&& r.spec_height() == y1 - y0
                &&& r.spec_cells() == spec_sub_cells(old(self).spec_cells(), y0, y1, x0, x1)
                &&& r.spec_default_style() == old(self).spec_default_style()
            }),
    {
        let ghost cells0 = matrix_cells(self.values);
        let (x0, x1) = match subwindow_range(x_range.0, x_range.1, self.width.raw_value()) {
            Some(r) => r,
            None => {
                assert(false);
                (0, 0)
            },
        };
        let (y0, y1) = match subwindow_range(y_range.0, y_range.1, self.height.raw_value()) {
            Some(r) => r,
            None => {
                assert(false);
                (0, 0)
            },
        };
        let style = self.default_style;
        let mut sub = matrix_reborrow(&mut self.values);
        let ghost rows = matrix_shape(sub).0 as int;
        let ghost cols = matrix_shape(sub).1 as int;
        matrix_slice_axis(&mut sub, 0, y0 as usize, y1 as usize);
        let ghost after_rows = matrix_cells(sub);
        matrix_slice_axis(&mut sub, 1, x0 as usize, x1 as usize);
        proof {
            assert(matrix_cells(sub) =~= spec_sub_cells(cells0, y0 as int, y1 as int, x0 as int, x1 as int)) by {
                assert forall|i: int| 0 <= i < y1 - y0 implies #[trigger] matrix_cells(sub)[i] =~= spec_sub_cells(
                    cells0,
                    y0 as int,
                    y1 as int,
                    x0 as int,
                    x1 as int,
                )[i] by {
                    assert(after_rows[i] == cells0.subrange(y0 as int, y1 as int)[i].subrange(0, cols));
                }
            }
        }
        Window {
            values: sub,
            width: PositiveAxisDiff::new_unchecked(x1 - x0),
            height: PositiveAxisDiff::new_unchecked(y1 - y0),
            default_style: style,
        }
    }

    /// Split the window into two at `split_pos` (the first row or column of the second part),
    /// along the dimension `D`; a position beyond the window gives the window back unchanged.
    pub fn split<D: AxisDimension>(self, split_pos: AxisIndex<D>) -> (r: Result<(Self, Self), Self>)
        requires
            self.wf(),
        ensures
            ({
                let extent = if D::spec_axis() == 0 { self.spec_height() } else { self.spec_width() };
                let (rows, cols) = (self.spec_height() as int, self.spec_width() as int);
                let p = split_pos@;
                let cells = self.spec_cells();
                match r {
                    Ok((a, b)) => {
                        &&& 0 <= p <= extent
                        &&& a.wf() && b.wf()
                        &&& a.spec_default_style() == self.spec_default_style()
                        &&& b.spec_default_style() == self.spec_default_style()
                        &&& if D::spec_axis() == 0 {
                            &&& a.spec_height() == p && a.spec_width() == cols
                            &&& b.spec_height() == rows - p && b.spec_width() == cols
                            &&& a.spec_cells() == spec_sub_cells(cells, 0, p, 0, cols)
                            &&& b.spec_cells() == spec_sub_cells(cells, p, rows, 0, cols)
                        } else {
                            &&& a.spec_width() == p && a.spec_height() == rows
                            &&& b.spec_width() == cols - p && b.spec_height() == rows
                            &&& a.spec_cells() == spec_sub_cells(cells, 0, rows, 0, p)
                            &&& b.spec_cells() == spec_sub_cells(cells, 0, rows, p, cols)
                        }
                    },
                    Err(w) => !(0 <= p <= extent) && w == self,
                }
            }),
    {
        let axis = D::axis();
        let extent = if axis == 0 {
            self.height.raw_value()
        } else {
            self.width.raw_value()
        };
        let pos = split_pos.raw_value();
        if !split_position_valid(extent, pos) {
            return Err(self);
        }
        let style = self.default_style;
        let (w, h) = (self.width.raw_value(), self.height.raw_value());
        let (a, b) = matrix_split_at(self.values, axis, pos as usize);
        if axis == 0 {
            Ok(
                (
                    Window {
                        values: a,
                        width: PositiveAxisDiff::new_unchecked(w),
                        height: PositiveAxisDiff::new_unchecked(pos),
                        default_style: style,
                    },
                    Window {
                        values: b,
                        width: PositiveAxisDiff::new_unchecked(w),
                        height: PositiveAxisDiff::new_unchecked(h - pos),
                        default_style: style,
                    },
                ),
            )
        } else {
            Ok(
                (
                    Window {
                        values: a,
                        width: PositiveAxisDiff::new_unchecked(pos),
                        height: PositiveAxisDiff::new_unchecked(h),
                        default_style: style,
                    },
                    Window {
                        values: b,
                        width: PositiveAxisDiff::new_unchecked(w - pos),
                        height: PositiveAxisDiff::new_unchecked(h),
                        default_style: style,
                    },
                ),
            )
        }
    }

    /// Fill the window with `c` in the default style: where `c` is wider than one cell, the cells
    /// it covers hold the empty cluster, and the columns at the right that are too few for
    /// another copy hold spaces.
    pub fn fill(&mut self, c: GraphemeCluster)
        requires
            spec_cluster_width(c@) > 0,
        ensures
            spec_same_frame(*final(self), *old(self)),
            forall|x: int, y: int| #[trigger] final(self).spec_cell(x, y) == spec_filled(*old(self), c@, x, y),
    {
        fill(self, c);
    }

    /// Fill the window with spaces in the default style.
    pub fn clear(&mut self)
        ensures
            spec_same_frame(*final(self), *old(self)),
            forall|x: int, y: int| #[trigger] final(self).spec_cell(x, y) == spec_filled(*old(self), seq![' '], x, y),
    {
        let space = GraphemeCluster::space();
        let w = space.width();
        assert(w == 1);
        fill(self, space);
    }

    /// Set the style applied to everything written to the window.
    pub fn set_default_style(&mut self, style: Style)
        ensures
            final(self).spec_default_style() == style,
            final(self).spec_width() == old(self).spec_width(),
            final(self).spec_soft_width() == old(self).spec_soft_width(),
            final(self).spec_height() == old(self).spec_height(),
            final(self).spec_cells() == old(self).spec_cells(),
            final(self).wf() == old(self).wf(),
            forall|x: int, y: int| #[trigger] final(self).spec_has_cell(x, y) == old(self).spec_has_cell(x, y),
            forall|x: int, y: int| #[trigger] final(self).spec_cell(x, y) == old(self).spec_cell(x, y),
    {
        self.default_style = style;
    }

    /// Apply `modifier` to the default style.
    pub fn modify_default_style(&mut self, modifier: StyleModifier)
        ensures
            final(self).spec_default_style() == modifier.spec_apply(old(self).spec_default_style()),
            final(self).spec_width() == old(self).spec_width(),
            final(self).spec_soft_width() == old(self).spec_soft_width(),
            final(self).spec_height() == old(self).spec_height(),
            final(self).spec_cells() == old(self).spec_cells(),
            final(self).wf() == old(self).wf(),
            forall|x: int, y: int| #[trigger] final(self).spec_has_cell(x, y) == old(self).spec_has_cell(x, y),
            forall|x: int, y: int| #[trigger] final(self).spec_cell(x, y) == old(self).spec_cell(x, y),
    {
        self.default_style = modifier.apply(self.default_style);
    }

    /// The default style.
    pub fn default_style(&self) -> (r: Style)
        ensures
            r == self.spec_default_style(),
    {
        self.default_style
    }
}

impl<'w> CursorTarget for Window<'w> {
    closed spec fn spec_width(&self) -> nat {
        self.width@
    }

    closed spec fn spec_soft_width(&self) -> nat {
        self.width@
    }

    closed spec fn spec_height(&self) -> nat {
        self.height@
    }

    closed spec fn spec_has_cell(&self, x: int, y: int) -> bool {
        0 <= x && 0 <= y && y < matrix_shape(self.values).0 && x < matrix_shape(self.values).1
    }

    closed spec fn spec_cell(&self, x: int, y: int) -> (Seq<char>, Style) {
        if self.spec_has_cell(x, y) {
            matrix_cells(self.values)[y][x]
        } else {
            (seq![' '], Style::spec_plain())
        }
    }

    closed spec fn spec_default_style(&self) -> Style {
        self.default_style
    }

    fn get_width(&self) -> (r: Width) {
        self.width
    }

    fn get_soft_width(&self) -> (r: Width) {
        self.width
    }

    fn get_height(&self) -> (r: Height) {
        self.height
    }

    fn get_cell(&self, x: ColIndex, y: RowIndex) -> (r: Option<&StyledGraphemeCluster>) {
        if x.raw_value() < 0 || y.raw_value() < 0 {
            None
        } else {
            matrix_get(&self.values, y.raw_value() as usize, x.raw_value() as usize)
        }
    }

    fn set_cell(&mut self, x: ColIndex, y: RowIndex, cell: StyledGraphemeCluster) -> (r: bool) {
        if x.raw_value() < 0 || y.raw_value() < 0 {
            false
        } else {
            let r = matrix_set(&mut self.values, y.raw_value() as usize, x.raw_value() as usize, cell);
            r
        }
    }

    fn get_cell_mut(&mut self, x: ColIndex, y: RowIndex) -> (r: Option<&mut StyledGraphemeCluster>) {
        if x.raw_value() < 0 || y.raw_value() < 0 {
            None
        } else {
            matrix_get_mut(&mut self.values, y.raw_value() as usize, x.raw_value() as usize)
        }
    }

    fn get_default_style(&self) -> (r: Style) {
        self.default_style
    }
}

} // verus!
