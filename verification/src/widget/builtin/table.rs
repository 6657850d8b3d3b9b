//! The integer logic of a table of widgets with a static number of columns: which cell is the
//! active one, how navigation moves it, and in which row of the window the active row is drawn.
use crate::input::OperationResult;
use vstd::prelude::*;

verus! {

/// The highest valid position among `n` places (0 where there are none).
pub open spec fn spec_last_pos(n: nat) -> int {
    if n == 0 {
        0
    } else {
        n - 1
    }
}

/// The active cell of a table: its row and its column.
#[derive(Copy, Clone, Debug, PartialEq, Eq, Structural)]
pub struct TableCursor {
    pub row_pos: u32,
    pub col_pos: u32,
}

impl TableCursor {
    /// The first cell.
    pub fn new() -> (r: Self)
        ensures
            r.row_pos == 0,
            r.col_pos == 0,
    {
        TableCursor { row_pos: 0, col_pos: 0 }
    }

    /// Move the row back into a table of `num_rows` rows: to the last row where it lies behind
    /// it (an error), unchanged otherwise.
    pub fn validate_row_pos(&mut self, num_rows: usize) -> (r: OperationResult)
        requires
            num_rows <= u32::MAX,
        ensures
            final(self).col_pos == old(self).col_pos,
            old(self).row_pos > spec_last_pos(num_rows as nat) ==> r is Err && final(self).row_pos
                == spec_last_pos(num_rows as nat),
            old(self).row_pos <= spec_last_pos(num_rows as nat) ==> r is Ok && final(self).row_pos
                == old(self).row_pos,
    {
        let max_pos: u32 = if num_rows == 0 {
            0
        } else {
            (num_rows - 1) as u32
        };
        if self.row_pos > max_pos {
            self.row_pos = max_pos;
            Err(())
        } else {
            Ok(())
        }
    }

    /// Move the column back into a table of `num_columns` columns: to the last column where it
    /// lies behind it (an error), unchanged otherwise. A table has at least one column.
    pub fn validate_col_pos(&mut self, num_columns: usize) -> (r: OperationResult)
        requires
            1 <= num_columns <= u32::MAX,
        ensures
            final(self).row_pos == old(self).row_pos,
            old(self).col_pos > num_columns - 1 ==> r is Err && final(self).col_pos == num_columns - 1,
            old(self).col_pos <= num_columns - 1 ==> r is Ok && final(self).col_pos == old(self).col_pos,
    {
        let max_pos: u32 = (num_columns - 1) as u32;
        if self.col_pos > max_pos {
            self.col_pos = max_pos;
            Err(())
        } else {
            Ok(())
        }
    }

    /// Move to the row above; fails (nothing changes) in the first row.
    pub fn move_up(&mut self) -> (r: OperationResult)
        ensures
            final(self).col_pos == old(self).col_pos,
            old(self).row_pos > 0 ==> r is Ok && final(self).row_pos == old(self).row_pos - 1,
            old(self).row_pos == 0 ==> r is Err && final(self).row_pos == 0,
    {
        if self.row_pos > 0 {
            self.row_pos = self.row_pos - 1;
            Ok(())
        } else {
            Err(())
        }
    }

    /// Move to the row below in a table of `num_rows` rows, but not past the last row; fails
    /// where that limit applies.
    pub fn move_down(&mut self, num_rows: usize) -> (r: OperationResult)
        requires
            num_rows <= u32::MAX,
            old(self).row_pos < u32::MAX,
        ensures
            final(self).col_pos == old(self).col_pos,
            final(self).row_pos == if old(self).row_pos + 1 <= spec_last_pos(num_rows as nat) {
                old(self).row_pos + 1
            } else {
                spec_last_pos(num_rows as nat)
            },
            r is Ok <==> old(self).row_pos + 1 <= spec_last_pos(num_rows as nat),
    {
        self.row_pos = self.row_pos + 1;
        self.validate_row_pos(num_rows)
    }

    /// Move to the column on the left; fails (nothing changes) in the first column.
    pub fn move_left(&mut self) -> (r: OperationResult)
        ensures
            final(self).row_pos == old(self).row_pos,
            old(self).col_pos > 0 ==> r is Ok && final(self).col_pos == old(self).col_pos - 1,
            old(self).col_pos == 0 ==> r is Err && final(self).col_pos == 0,
    {
        if self.col_pos != 0 {
            self.col_pos = self.col_pos - 1;
            Ok(())
        } else {
            Err(())
        }
    }

    /// Move to the column on the right in a table of `num_columns` columns, but not past the
    /// last column; fails where that limit applies.
    pub fn move_right(&mut self, num_columns: usize) -> (r: OperationResult)
        requires
            1 <= num_columns <= u32::MAX,
            old(self).col_pos < u32::MAX,
        ensures
            final(self).row_pos == old(self).row_pos,
            final(self).col_pos == if old(self).col_pos + 1 <= num_columns - 1 {
                old(self).col_pos + 1
            } else {
                num_columns - 1
            },
            r is Ok <==> old(self).col_pos + 1 <= num_columns - 1,
    {
        self.col_pos = self.col_pos + 1;
        self.validate_col_pos(num_columns)
    }

    /// Move to the first row; fails (nothing changes) where the cursor is there already.
    pub fn scroll_to_beginning(&mut self) -> (r: OperationResult)
        ensures
            final(self).col_pos == old(self).col_pos,
            final(self).row_pos == 0,
            r is Ok <==> old(self).row_pos != 0,
    {
        if self.row_pos != 0 {
            self.row_pos = 0;
            Ok(())
        } else {
            Err(())
        }
    }

    /// Move to the last row of a table of `num_rows` rows (the first where there is none); fails
    /// (nothing changes) where the cursor is there already.
    pub fn scroll_to_end(&mut self, num_rows: usize) -> (r: OperationResult)
        requires
            num_rows <= u32::MAX,
        ensures
            final(self).col_pos == old(self).col_pos,
            final(self).row_pos == spec_last_pos(num_rows as nat),
            r is Ok <==> old(self).row_pos != spec_last_pos(num_rows as nat),
    {
        let end: u32 = if num_rows == 0 {
            0
        } else {
            (num_rows - 1) as u32
        };
        if self.row_pos != end {
            self.row_pos = end;
            Ok(())
        } else {
            Err(())
        }
    }
}

/// The height a row demands at most (0 where it is unbounded; see `spec_bounded`).
pub open spec fn spec_height_of(h: Option<u32>) -> int {
    match h {
        Some(v) => v as int,
        None => 0,
    }
}

/// The sum of the bounded maximal heights of the rows `a..b`.
pub open spec fn spec_height_sum(hs: Seq<Option<u32>>, a: int, b: int) -> int
    decreases b - a,
{
    if b <= a {
        0
    } else {
        spec_height_sum(hs, a, b - 1) + spec_height_of(hs[b - 1])
    }
}

/// Whether each of the rows `a..b` demands a bounded height.
pub open spec fn spec_bounded(hs: Seq<Option<u32>>, a: int, b: int) -> bool {
    forall|i: int| a <= i < b ==> (#[trigger] hs[i]) is Some
}

/// The height that the rows `a..b` demand at most, with a separator of height `sep` between
/// each two of them; the window height `wh` where one of them demands an unbounded height.
pub open spec fn spec_rows_height(hs: Seq<Option<u32>>, a: int, b: int, sep: int, wh: int) -> int {
    if spec_bounded(hs, a, b) {
        spec_height_sum(hs, a, b) + if b > a {
            sep * (b - a - 1)
        } else {
            0
        }
    } else {
        wh
    }
}

/// The row of the window in which the active row (at `cur`, `cur_h` high) starts, for rows whose
/// maximal height demands are `hs`, separators `sep` high (0 or 1), a window `wh` high and at
/// least `min_ctx` rows of context kept around the active row. The start follows from where
/// the row at `old_pos` was drawn last (at `old_row`), moved by the height of the rows in
/// between; it is then kept `min_ctx` rows from the borders of the window, and finally so that
/// no empty space is left below the last row or above the first.
pub open spec fn spec_table_row_begin(
    old_pos: int,
    old_row: int,
    cur: int,
    hs: Seq<Option<u32>>,
    cur_h: int,
    sep: int,
    wh: int,
    min_ctx: int,
) -> int {
    let n = hs.len() as int;
    let b0 = if old_pos < cur {
        old_row + spec_rows_height(hs, old_pos, cur, sep, wh) + sep
    } else if old_pos == cur {
        old_row
    } else {
        old_row - spec_rows_height(hs, cur, if old_pos < n { old_pos } else { n }, sep, wh) - sep
    };
    let lim = wh - cur_h - min_ctx;
    let b1a = if b0 < lim { b0 } else { lim };
    let b1 = if b1a > min_ctx { b1a } else { min_ctx };
    let above = spec_rows_height(hs, 0, cur, sep, wh) + if cur == 0 { 0 } else { sep };
    let below = spec_rows_height(hs, cur + 1, n, sep, wh) + if cur + 1 >= n { 0 } else { sep };
    let lo = wh - below - cur_h;
    let b2a = if b1 > lo { b1 } else { lo };
    if b2a < above {
        b2a
    } else {
        above
    }
}

/// The sum over `a..c` splits at any `b` in between.
proof fn lemma_height_sum_split(hs: Seq<Option<u32>>, a: int, b: int, c: int)
    requires
        a <= b <= c,
    ensures
        spec_height_sum(hs, a, c) == spec_height_sum(hs, a, b) + spec_height_sum(hs, b, c),
    decreases c - b,
{
    if b < c {
        lemma_height_sum_split(hs, a, b, c - 1);
    }
}

/// Sums are never negative.
proof fn lemma_height_sum_nonneg(hs: Seq<Option<u32>>, a: int, b: int)
    ensures
        spec_height_sum(hs, a, b) >= 0,
    decreases b - a,
{
    if b > a {
        lemma_height_sum_nonneg(hs, a, b - 1);
    }
}

/// A sum over part of `0..n` is at most the sum over all of it.
proof fn lemma_height_sum_le(hs: Seq<Option<u32>>, a: int, b: int, n: int)
    requires
        0 <= a <= b <= n,
    ensures
        spec_height_sum(hs, a, b) <= spec_height_sum(hs, 0, n),
{
    lemma_height_sum_split(hs, 0, a, n);
    lemma_height_sum_split(hs, a, b, n);
    lemma_height_sum_nonneg(hs, 0, a);
    lemma_height_sum_nonneg(hs, b, n);
}

fn rows_height(hs: &Vec<Option<u32>>, a: usize, b: usize, sep: u32, wh: u32) -> (r: i64)
    requires
        a <= b <= hs@.len(),
        sep <= 1,
        wh <= i32::MAX,
        spec_height_sum(hs@, 0, hs@.len() as int) + hs@.len() <= i32::MAX,
    ensures
        r == spec_rows_height(hs@, a as int, b as int, sep as int, wh as int),
        0 <= r <= i32::MAX,
{
    let mut acc: i64 = 0;
    let mut bounded = true;
    let mut i = a;
    while i < b
        invariant
            a <= i <= b <= hs@.len(),
            spec_height_sum(hs@, 0, hs@.len() as int) + hs@.len() <= i32::MAX,
            acc == spec_height_sum(hs@, a as int, i as int),
            bounded == spec_bounded(hs@, a as int, i as int),
        decreases b - i,
    {
        proof {
            lemma_height_sum_le(hs@, a as int, i + 1, hs@.len() as int);
            lemma_height_sum_nonneg(hs@, a as int, i + 1);
        }
        match hs[i] {
            Some(h) => {
                acc = acc + h as i64;
            },
            None => {
                bounded = false;
            },
        }
        i = i + 1;
    }
    proof {
        lemma_height_sum_le(hs@, a as int, b as int, hs@.len() as int);
        lemma_height_sum_nonneg(hs@, a as int, b as int);
    }
    if bounded {
        if b > a {
            if sep == 1 {
                assert(sep * (b - a - 1) == b - a - 1);
                acc + (b - a - 1) as i64
            } else {
                assert(sep * (b - a - 1) == 0);
                acc
            }
        } else {
            acc
        }
    } else {
        wh as i64
    }
}

/// The row of the window in which the active row starts (see `spec_table_row_begin`): the rows
/// demand at most `heights` (`None`: unbounded), the active row at `current_pos` is
/// `current_height` high, separators are one row high where `separated`, and the row at
/// `old_pos` was last drawn starting at `old_row`.
pub fn table_row_begin(
    old_pos: u32,
    old_row: i32,
    current_pos: u32,
    heights: &Vec<Option<u32>>,
    current_height: u32,
    separated: bool,
    window_height: u32,
    min_context: u32,
) -> (r: i32)
    requires
        current_pos < heights@.len(),
        window_height < i32::MAX,
        min_context <= i32::MAX,
        spec_height_sum(heights@, 0, heights@.len() as int) + heights@.len() + current_height <= i32::MAX,
    ensures
        r == spec_table_row_begin(
            old_pos as int,
            old_row as int,
            current_pos as int,
            heights@,
            current_height as int,
            if separated { 1 } else { 0 },
            window_height as int,
            min_context as int,
        ),
{
    let ghost hs = heights@;
    proof {
        lemma_height_sum_nonneg(hs, 0, hs.len() as int);
    }
    let n = heights.len();
    let sep: u32 = if separated {
        1
    } else {
        0
    };
    let cur = current_pos as usize;
    let old = old_pos as usize;
    let b0: i64 = if old < cur {
        old_row as i64 + rows_height(heights, old, cur, sep, window_height) + sep as i64
    } else if old == cur {
        old_row as i64
    } else {
        let end = if old < n {
            old
        } else {
            n
        };
        old_row as i64 - rows_height(heights, cur, end, sep, window_height) - sep as i64
    };
    let wh = window_height as i64;
    let ch = current_height as i64;
    let mc = min_context as i64;
    let lim = wh - ch - mc;
    let b1a = if b0 < lim {
        b0
    } else {
        lim
    };
    let b1 = if b1a > mc {
        b1a
    } else {
        mc
    };
    let above = rows_height(heights, 0, cur, sep, window_height) + if cur == 0 {
        0
    } else {
        sep as i64
    };
    let below_rows = rows_height(heights, cur + 1, n, sep, window_height);
    proof {
        if spec_bounded(hs, cur + 1, n as int) {
            lemma_height_sum_le(hs, cur + 1, n as int, n as int);
        }
    }
    let below = below_rows + if cur + 1 >= n {
        0
    } else {
        sep as i64
    };
    let lo = wh - below - ch;
    let b2a = if b1 > lo {
        b1
    } else {
        lo
    };
    let b2 = if b2a < above {
        b2a
    } else {
        above
    };
    b2 as i32
}

} // verus!
