//! Owned matrices of styled cells, and the fake terminal of the tests: a matrix of styled cells
//! that can be described by a string, drawn into through a window, and rendered back into a
//! string.
use crate::base::grapheme_cluster::GraphemeCluster;
use crate::base::style::{BoolModifyMode, Style, StyleModifier};
use crate::base::view::{matrix_cells, matrix_shape, spec_matrix_consistent, CellMatrixView, Window};
use crate::base::basic_types::{Height, Width};
use crate::base::window::{CursorTarget, StyledGraphemeCluster, WindowBuffer};
use crate::widget::text::{spec_graphemes, string_push, string_push_str};
use ndarray::{Array2, ShapeError};
use vstd::prelude::*;
use vstd::string::StrSliceExecFns;

verus! {

#[verifier::external_type_specification]
#[verifier::external_body]
pub struct ExShapeError(ShapeError);

/// An owned matrix of styled cells, stored rows first (an `ndarray` array); the library learns
/// its shape and cells only from the calls on it.
#[verifier::external_body]
#[derive(PartialEq)]
pub struct CellMatrix {
    values: Array2<StyledGraphemeCluster>,
}

/// The cells of the matrix, row by row, each cell by its view.
pub uninterp spec fn owned_matrix_cells(m: CellMatrix) -> Seq<Seq<(Seq<char>, Style)>>;

/// The number of rows and columns of the matrix.
pub uninterp spec fn owned_matrix_shape(m: CellMatrix) -> (nat, nat);

/// The matrix holds as many rows of cells as its shape says, each with as many cells as it has
/// columns.
pub open spec fn spec_owned_consistent(m: CellMatrix) -> bool {
    &&& owned_matrix_cells(m).len() == owned_matrix_shape(m).0
    &&& forall|i: int|
        0 <= i < owned_matrix_shape(m).0 ==> (#[trigger] owned_matrix_cells(m)[i]).len() == owned_matrix_shape(m).1
}

/// The length of an axis as it counts for the size limit of a matrix (an empty axis counts 1).
pub open spec fn spec_nonzero(n: nat) -> nat {
    if n == 0 {
        1
    } else {
        n
    }
}

/// The sequence `cells`, cut into `rows` rows of `cols` cells each.
pub open spec fn spec_rows_of<T>(cells: Seq<T>, rows: nat, cols: nat) -> Seq<Seq<T>> {
    Seq::new(rows, |i: int| cells.subrange(i * cols, i * cols + cols))
}

/// `Array2::from_shape_vec((rows, cols), cells)`.
///
/// Claimed: it succeeds exactly where the cells fill the shape and the product of the non-zero
/// axis lengths does not exceed `isize::MAX`; the matrix then has that shape and holds the cells
/// row by row (the default, row-major layout).
#[verifier::external_body]
fn matrix_from_shape_vec(rows: usize, cols: usize, cells: Vec<StyledGraphemeCluster>) -> (r: Result<
    CellMatrix,
    ShapeError,
>)
    ensures
        r is Ok <==> (rows * cols == cells@.len() && spec_nonzero(rows as nat) * spec_nonzero(cols as nat)
            <= isize::MAX),
        r matches Ok(m) ==> {
            &&& owned_matrix_shape(m) == (rows as nat, cols as nat)
            &&& owned_matrix_cells(m) == spec_rows_of(
                cells@.map_values(|c: StyledGraphemeCluster| c@),
                rows as nat,
                cols as nat,
            )
            &&& spec_owned_consistent(m)
        },
{
    match Array2::from_shape_vec((rows, cols), cells) {
        Ok(values) => Ok(CellMatrix { values }),
        Err(e) => Err(e),
    }
}

/// `Array2::default((rows, cols))`. Claimed: the matrix has that shape and every cell is the
/// default cell (a space in the plain style). The size must not exceed `isize::MAX` (`ndarray`
/// panics otherwise).
#[verifier::external_body]
pub(crate) fn matrix_default(rows: usize, cols: usize) -> (r: CellMatrix)
    requires
        spec_nonzero(rows as nat) * spec_nonzero(cols as nat) <= isize::MAX,
    ensures
        owned_matrix_shape(r) == (rows as nat, cols as nat),
        owned_matrix_cells(r) == Seq::new(
            rows as nat,
            |i: int| Seq::new(cols as nat, |j: int| (seq![' '], Style::spec_plain())),
        ),
{
    CellMatrix { values: Array2::default((rows, cols)) }
}

/// `ArrayBase::dim` on the matrix. Claimed: the shape (rows, columns), and the cells agree with it.
#[verifier::external_body]
fn owned_matrix_dim(m: &CellMatrix) -> (r: (usize, usize))
    ensures
        r.0 == owned_matrix_shape(*m).0,
        r.1 == owned_matrix_shape(*m).1,
        owned_matrix_cells(*m).len() == r.0,
        forall|i: int| 0 <= i < r.0 ==> (#[trigger] owned_matrix_cells(*m)[i]).len() == r.1,
{
    m.values.dim()
}

/// `ArrayBase::get` with the index `(row, col)`. Claimed: a cell exactly where the index lies
/// within the shape, and that cell is the one in the matrix's cells.
#[verifier::external_body]
fn owned_matrix_get<'a>(m: &'a CellMatrix, row: usize, col: usize) -> (r: Option<&'a StyledGraphemeCluster>)
    ensures
        r is Some <==> (row < owned_matrix_shape(*m).0 && col < owned_matrix_shape(*m).1),
        r matches Some(c) ==> c@ == owned_matrix_cells(*m)[row as int][col as int],
{
    m.values.get((row, col))
}

/// `ArrayBase::view_mut` on the matrix. Claimed: the view has the matrix's shape and cells, and
/// the matrix keeps its shape (a view cannot reshape the array it borrows); of its cells after the
/// borrow nothing is claimed.
#[verifier::external_body]
pub(crate) fn owned_matrix_view_mut<'a>(m: &'a mut CellMatrix) -> (r: CellMatrixView<'a>)
    ensures
        matrix_shape(r) == owned_matrix_shape(*old(m)),
        matrix_cells(r) == owned_matrix_cells(*old(m)),
        spec_matrix_consistent(r),
        owned_matrix_shape(*final(m)) == owned_matrix_shape(*old(m)),
        spec_owned_consistent(*old(m)) ==> spec_owned_consistent(*final(m)),
{
    CellMatrixView { values: m.values.view_mut() }
}

/// The cells that a description gives, starting in style `style`: `*` toggles bold, spaces and
/// newlines are skipped, and every other cluster becomes a cell in the current style.
pub open spec fn spec_description_cells(clusters: Seq<Seq<char>>, style: Style) -> Seq<(Seq<char>, Style)>
    decreases clusters.len(),
{
    if clusters.len() == 0 {
        Seq::empty()
    } else {
        let c = clusters[0];
        let rest = clusters.drop_first();
        if c == seq!['*'] {
            spec_description_cells(rest, style.spec_toggled_bold())
        } else if c == seq![' '] || c == seq!['\n'] {
            spec_description_cells(rest, style)
        } else {
            seq![(c, style)] + spec_description_cells(rest, style)
        }
    }
}

fn is_single(c: &GraphemeCluster, ch: char) -> (r: bool)
    ensures
        r == (c@ == seq![ch]),
{
    let s = c.as_str();
    if s.unicode_len() == 1 {
        let r = s.get_char(0) == ch;
        proof {
            if r {
                assert(c@ =~= seq![ch]);
            }
        }
        r
    } else {
        false
    }
}

/// The cells that a description gives (see `spec_description_cells`), starting in the plain
/// style.
pub fn description_cells(description: &str) -> (r: Vec<StyledGraphemeCluster>)
    ensures
        r@.map_values(|c: StyledGraphemeCluster| c@) == spec_description_cells(
            spec_graphemes(description@),
            Style::spec_plain(),
        ),
{
    let clusters = GraphemeCluster::all_from_str(description);
    let ghost gs = spec_graphemes(description@);
    let mut tiles: Vec<StyledGraphemeCluster> = Vec::new();
    let mut style = Style::plain();
    let mut i: usize = 0;
    proof {
        assert(gs.skip(0) =~= gs);
        assert(tiles@.map_values(|c: StyledGraphemeCluster| c@) =~= Seq::<(Seq<char>, Style)>::empty());
    }
    while i < clusters.len()
        invariant
            i <= clusters@.len(),
            clusters@.len() == gs.len(),
            forall|k: int| 0 <= k < clusters@.len() ==> #[trigger] clusters@[k]@ == gs[k],
            spec_description_cells(gs, Style::spec_plain()) == tiles@.map_values(
                |c: StyledGraphemeCluster| c@,
            ) + spec_description_cells(gs.skip(i as int), style),
        decreases clusters@.len() - i,
    {
        let ghost before = tiles@.map_values(|c: StyledGraphemeCluster| c@);
        proof {
            assert(gs.skip(i as int)[0] == gs[i as int]);
            assert(gs.skip(i as int).drop_first() =~= gs.skip(i + 1));
        }
        let c = &clusters[i];
        if is_single(c, '*') {
            let m = StyleModifier::new().bold(BoolModifyMode::Toggle);
            proof {
                Style::lemma_toggle_bold(m, style);
            }
            style = m.apply(style);
        } else if is_single(c, ' ') || is_single(c, '\n') {
        } else {
            tiles.push(StyledGraphemeCluster::new(c.clone(), style));
            proof {
                assert(tiles@.map_values(|c: StyledGraphemeCluster| c@) =~= before + seq![(gs[i as int], style)]);
                assert(before + seq![(gs[i as int], style)] + spec_description_cells(gs.skip(i + 1), style)
                    =~= before + (seq![(gs[i as int], style)] + spec_description_cells(gs.skip(i + 1), style)));
            }
        }
        i = i + 1;
    }
    proof {
        assert(gs.skip(i as int) =~= Seq::<Seq<char>>::empty());
        assert(tiles@.map_values(|c: StyledGraphemeCluster| c@) + Seq::<(Seq<char>, Style)>::empty()
            =~= tiles@.map_values(|c: StyledGraphemeCluster| c@));
    }
    tiles
}

/// A cell as it is rendered: its cluster, enclosed in `*` where it is bold.
pub open spec fn spec_render_cell(c: (Seq<char>, Style)) -> Seq<char> {
    if c.1.spec_format().bold {
        seq!['*'] + c.0 + seq!['*']
    } else {
        c.0
    }
}

/// A row of cells as it is rendered: its cells one after the other.
pub open spec fn spec_render_row(row: Seq<(Seq<char>, Style)>) -> Seq<char>
    decreases row.len(),
{
    if row.len() == 0 {
        Seq::empty()
    } else {
        spec_render_row(row.drop_last()) + spec_render_cell(row.last())
    }
}

/// Rows of cells as they are rendered: the rows, separated by `|`.
pub open spec fn spec_render(rows: Seq<Seq<(Seq<char>, Style)>>) -> Seq<char>
    decreases rows.len(),
{
    if rows.len() == 0 {
        Seq::empty()
    } else if rows.len() == 1 {
        spec_render_row(rows[0])
    } else {
        spec_render(rows.drop_last()) + seq!['|'] + spec_render_row(rows.last())
    }
}

/// A fake terminal for tests: windows can be created over it, and its contents compared to a
/// description.
#[derive(PartialEq)]
pub struct FakeTerminal {
    values: WindowBuffer,
}

impl FakeTerminal {
    /// The cells, row by row.
    pub closed spec fn spec_cells(&self) -> Seq<Seq<(Seq<char>, Style)>> {
        self.values.spec_cells()
    }

    /// The number of columns.
    pub closed spec fn spec_width(&self) -> nat {
        self.values.spec_width()
    }

    /// The number of rows.
    pub closed spec fn spec_height(&self) -> nat {
        self.values.spec_height()
    }

    /// The terminal is at most `i32::MAX` cells wide and high (so that a window can cover it).
    pub closed spec fn wf(&self) -> bool {
        self.values.wf()
    }

    /// A terminal `w` cells wide and `h` high, filled with spaces in the plain style.
    pub fn with_size(size: (u32, u32)) -> (r: Self)
        requires
            size.0 <= i32::MAX,
            size.1 <= i32::MAX,
            spec_nonzero(size.0 as nat) * spec_nonzero(size.1 as nat) <= isize::MAX,
        ensures
            r.wf(),
            r.spec_width() == size.0,
            r.spec_height() == size.1,
            r.spec_cells() == Seq::new(
                size.1 as nat,
                |i: int| Seq::new(size.0 as nat, |j: int| (seq![' '], Style::spec_plain())),
            ),
    {
        let (w, h) = size;
        FakeTerminal { values: WindowBuffer::new(Width::new_unchecked(w as i32), Height::new_unchecked(h as i32)) }
    }

    /// A terminal `w` cells wide and `h` high described by `description` (see
    /// `spec_description_cells`): the cells fill the rows one after the other. Fails where they
    /// do not fill the terminal exactly (or it would be too large).
    pub fn from_str(size: (u32, u32), description: &str) -> (r: Result<Self, ShapeError>)
        ensures
            ({
                let cells = spec_description_cells(spec_graphemes(description@), Style::spec_plain());
                let (w, h) = (size.0 as nat, size.1 as nat);
                &&& r is Ok <==> (h * w == cells.len() && spec_nonzero(h) * spec_nonzero(w) <= isize::MAX)
                &&& r matches Ok(t) ==> {
                    &&& t.spec_width() == w
                    &&& t.spec_height() == h
                    &&& t.spec_cells() == spec_rows_of(cells, h, w)
                    &&& (t.wf() <==> (w <= i32::MAX && h <= i32::MAX))
                }
            }),
    {
        let tiles = description_cells(description);
        let (w, h) = size;
        match matrix_from_shape_vec(h as usize, w as usize, tiles) {
            Ok(m) => Ok(FakeTerminal { values: WindowBuffer::from_storage(m) }),
            Err(e) => Err(e),
        }
    }

    /// The contents rendered as a string: rows separated by `|`, bold cells enclosed in `*`.
    pub fn looks_like(&self) -> (r: String)
        ensures
            r@ == spec_render(self.spec_cells()),
    {
        let m = &self.values.storage;
        proof {
            self.values.lemma_storage();
        }
        let (h, w) = owned_matrix_dim(m);
        let ghost rows = owned_matrix_cells(*m);
        let mut s = String::new();
        let mut r: usize = 0;
        proof {
            assert(rows.take(0) =~= Seq::<Seq<(Seq<char>, Style)>>::empty());
        }
        while r < h
            invariant
                r <= h,
                h == rows.len(),
                rows == owned_matrix_cells(*m),
                h == owned_matrix_shape(*m).0,
                w == owned_matrix_shape(*m).1,
                forall|i: int| 0 <= i < h ==> (#[trigger] rows[i]).len() == w,
                s@ == spec_render(rows.take(r as int)),
            decreases h - r,
        {
            let ghost row = rows[r as int];
            if r > 0 {
                string_push(&mut s, '|');
            }
            let ghost sep_done = s@;
            let mut c: usize = 0;
            proof {
                assert(row.take(0) =~= Seq::<(Seq<char>, Style)>::empty());
                assert(s@ =~= sep_done + spec_render_row(row.take(0)));
            }
            while c < w
                invariant
                    c <= w,
                    r < h,
                    row == rows[r as int],
                    row.len() == w,
                    rows == owned_matrix_cells(*m),
                    h == owned_matrix_shape(*m).0,
                    w == owned_matrix_shape(*m).1,
                    s@ == sep_done + spec_render_row(row.take(c as int)),
                decreases w - c,
            {
                let cell = owned_matrix_get(m, r, c);
                match cell {
                    Some(cl) => {
                        proof {
                            assert(row.take(c + 1).drop_last() =~= row.take(c as int));
                            assert(row.take(c + 1).last() == row[c as int]);
                        }
                        if cl.style.format().bold {
                            string_push(&mut s, '*');
                            string_push_str(&mut s, cl.grapheme_cluster.as_str());
                            string_push(&mut s, '*');
                            proof {
                                assert(s@ =~= sep_done + spec_render_row(row.take(c + 1)));
                            }
                        } else {
                            string_push_str(&mut s, cl.grapheme_cluster.as_str());
                            proof {
                                assert(s@ =~= sep_done + spec_render_row(row.take(c + 1)));
                            }
                        }
                    },
                    None => {},
                }
                c = c + 1;
            }
            proof {
                assert(row.take(w as int) =~= row);
                assert(rows.take(r + 1).drop_last() =~= rows.take(r as int));
                assert(rows.take(r + 1).last() == row);
                if r == 0 {
                    assert(rows.take(1) =~= seq![row]);
                    assert(s@ =~= spec_render(rows.take(1)));
                } else {
                    assert(s@ =~= spec_render(rows.take(r + 1)));
                }
            }
            r = r + 1;
        }
        proof {
            assert(rows.take(h as int) =~= rows);
        }
        s
    }

    /// A window covering the whole terminal, in the plain style; the terminal keeps its size.
    pub fn create_root_window(&mut self) -> (r: Window<'_>)
        requires
            old(self).wf(),
        ensures
            r.wf(),
            r.spec_width() == old(self).spec_width(),
            r.spec_height() == old(self).spec_height(),
            r.spec_cells() == old(self).spec_cells(),
            r.spec_default_style() == Style::spec_plain(),
            final(self).wf(),
            final(self).spec_width() == old(self).spec_width(),
            final(self).spec_height() == old(self).spec_height(),
    {
        self.values.as_window()
    }
}

} // verus!
