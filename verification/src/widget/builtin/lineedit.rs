//! A user-editable line of text.
use crate::base::basic_types::{AxisIndex, ColIndex, PositiveAxisDiff, Width};
use crate::base::cursor::{
    spec_cells_of, spec_has_of, spec_with_pos, spec_write_styled_parts, Cursor, CursorState,
};
use crate::base::window::spec_same_frame;
use crate::base::window::CursorTarget;
use crate::base::style::{BoolModifyMode, StyleModifier, TextFormatModifier};
use crate::input::{Editable, Navigatable, OperationResult, Writable};
use crate::widget::text::{spec_str_width, str_width};
use crate::widget::widget::{Blink, Demand, Demand2D, RenderingHints};
use crate::widget::text::{
    byte_len, cluster_offset, graphemes, lemma_cluster_offset_bounded, lemma_cluster_offset_next,
    lemma_cluster_offset_strict, lemma_flatten_split, lemma_flatten_subrange_next,
    lemma_flatten_take_next, spec_graphemes, str_byte_len, string_push, string_push_str,
};
use vstd::prelude::*;

verus! {

/// The clusters of `c` up to position `k` (clamped to the number of clusters), then `t`, then the
/// rest of the clusters.
pub open spec fn spec_insert_at(c: Seq<Seq<char>>, k: int, t: Seq<char>) -> Seq<char> {
    let k = if k < c.len() { k } else { c.len() as int };
    c.take(k).flatten() + t + c.skip(k).flatten()
}

/// The clusters of `c` without the one at position `k`.
pub open spec fn spec_erase_at(c: Seq<Seq<char>>, k: int) -> Seq<char> {
    c.take(k).flatten() + c.skip(k + 1).flatten()
}

/// A user-editable line of text.
///
/// Besides the text, a `LineEdit` has a cursor, a position counted in grapheme clusters.
pub struct LineEdit {
    text: String,
    cursor_pos: usize,
}

impl LineEdit {
    /// The current text.
    pub closed spec fn spec_text(&self) -> Seq<char> {
        self.text@
    }

    /// The cursor position, counted in grapheme clusters.
    pub closed spec fn spec_cursor(&self) -> nat {
        self.cursor_pos as nat
    }

    /// The grapheme clusters of the current text.
    pub open spec fn spec_clusters(&self) -> Seq<Seq<char>> {
        spec_graphemes(self.spec_text())
    }

    /// Create an empty line; the cursor is at 0.
    pub fn new() -> (r: Self)
        ensures
            r.spec_text() == Seq::<char>::empty(),
            r.spec_cursor() == 0,
    {
        LineEdit { text: String::new(), cursor_pos: 0 }
    }

    /// The current content.
    pub fn get(&self) -> (r: &str)
        ensures
            r@ == self.spec_text(),
    {
        self.text.as_str()
    }

    /// Set the content; the cursor is placed at the very end of the line.
    pub fn set(&mut self, text: &str)
        ensures
            final(self).spec_text() == text@,
            final(self).spec_cursor() == spec_graphemes(text@).len(),
    {
        self.text = text.to_owned();
        self.move_cursor_to_end_of_line();
    }

    /// Move the cursor to the end, i.e., behind the last grapheme cluster.
    pub fn move_cursor_to_end_of_line(&mut self)
        ensures
            final(self).spec_text() == old(self).spec_text(),
            final(self).spec_cursor() == old(self).spec_clusters().len(),
    {
        let g = graphemes(self.text.as_str());
        self.cursor_pos = g.len();
    }

    /// Move the cursor to the beginning, i.e., onto the first grapheme cluster.
    pub fn move_cursor_to_beginning_of_line(&mut self)
        ensures
            final(self).spec_text() == old(self).spec_text(),
            final(self).spec_cursor() == 0,
    {
        self.cursor_pos = 0;
    }

    /// Move the cursor one grapheme cluster to the right if it does not pass the end.
    pub fn move_cursor_right(&mut self) -> (r: Result<(), ()>)
        ensures
            final(self).spec_text() == old(self).spec_text(),
            old(self).spec_cursor() + 1 <= old(self).spec_clusters().len() ==> r is Ok
                && final(self).spec_cursor() == old(self).spec_cursor() + 1,
            old(self).spec_cursor() + 1 > old(self).spec_clusters().len() ==> r is Err
                && final(self).spec_cursor() == old(self).spec_cursor(),
    {
        let g = graphemes(self.text.as_str());
        if self.cursor_pos < g.len() {
            self.cursor_pos = self.cursor_pos + 1;
            Ok(())
        } else {
            Err(())
        }
    }

    /// Move the cursor one grapheme cluster to the left if possible.
    pub fn move_cursor_left(&mut self) -> (r: Result<(), ()>)
        ensures
            final(self).spec_text() == old(self).spec_text(),
            old(self).spec_cursor() > 0 ==> r is Ok && final(self).spec_cursor() == old(self).spec_cursor() - 1,
            old(self).spec_cursor() == 0 ==> r is Err && final(self).spec_cursor() == 0,
    {
        if self.cursor_pos > 0 {
            self.cursor_pos = self.cursor_pos - 1;
            Ok(())
        } else {
            Err(())
        }
    }

    /// Insert text directly before the current cursor position; the cursor stays where it is.
    pub fn insert(&mut self, text: &str)
        ensures
            final(self).spec_text() == spec_insert_at(old(self).spec_clusters(), old(self).spec_cursor() as int, text@),
            final(self).spec_cursor() == old(self).spec_cursor(),
    {
        let g = graphemes(self.text.as_str());
        let ghost c = g.deep_view();
        let n = g.len();
        let k = if self.cursor_pos < n { self.cursor_pos } else { n };
        let mut res = String::new();
        let mut i: usize = 0;
        while i < k
            invariant
                0 <= i <= k <= n,
                n == g@.len(),
                c == g.deep_view(),
                res@ == c.take(i as int).flatten(),
            decreases k - i,
        {
            proof {
                lemma_flatten_take_next(c, i as int);
            }
            string_push_str(&mut res, g[i].as_str());
            i = i + 1;
        }
        string_push_str(&mut res, text);
        let ghost prefix = res@;
        proof {
            assert(c.subrange(k as int, k as int) =~= Seq::<Seq<char>>::empty());
            assert(prefix =~= prefix + c.subrange(k as int, k as int).flatten());
        }
        while i < n
            invariant
                k <= i <= n,
                n == g@.len(),
                c == g.deep_view(),
                res@ == prefix + c.subrange(k as int, i as int).flatten(),
            decreases n - i,
        {
            proof {
                lemma_flatten_subrange_next(c, k as int, i as int);
            }
            string_push_str(&mut res, g[i].as_str());
            proof {
                assert(res@ =~= prefix + c.subrange(k as int, i + 1).flatten());
            }
            i = i + 1;
        }
        proof {
            assert(c.subrange(k as int, n as int) =~= c.skip(k as int));
        }
        self.text = res;
    }

    /// The byte position of the cursor in the current text.
    pub fn cursor_pos(&self) -> (r: usize)
        ensures
            r == if self.spec_cursor() < self.spec_clusters().len() {
                cluster_offset(self.spec_clusters(), self.spec_cursor() as int)
            } else {
                byte_len(self.spec_text())
            },
    {
        let g = graphemes(self.text.as_str());
        let ghost c = g.deep_view();
        let n = g.len();
        let total = str_byte_len(self.text.as_str());
        if self.cursor_pos < n {
            let mut sum: usize = 0;
            let mut i: usize = 0;
            while i < self.cursor_pos
                invariant
                    0 <= i <= self.cursor_pos < n,
                    n == g@.len(),
                    c == g.deep_view(),
                    c.flatten() == self.text@,
                    sum == cluster_offset(c, i as int),
                    total == byte_len(c.flatten()),
                decreases self.cursor_pos - i,
            {
                proof {
                    lemma_cluster_offset_next(c, i as int);
                    lemma_cluster_offset_bounded(c, i + 1);
                    assert(g@[i as int]@ == c[i as int]);
                }
                sum = sum + str_byte_len(g[i].as_str());
                i = i + 1;
            }
            sum
        } else {
            total
        }
    }

    /// Set the cursor by its byte position in the text.
    ///
    /// If the byte position is neither the start of a grapheme cluster nor the end of the text,
    /// an error is returned and the cursor is left unchanged.
    pub fn set_cursor_pos(&mut self, pos: usize) -> (r: Result<(), ()>)
        ensures
            final(self).spec_text() == old(self).spec_text(),
            r is Ok <==> exists|k: int|
                0 <= k <= old(self).spec_clusters().len() && #[trigger] cluster_offset(
                    old(self).spec_clusters(),
                    k,
                ) == pos,
            r is Ok ==> final(self).spec_cursor() <= old(self).spec_clusters().len() && cluster_offset(
                old(self).spec_clusters(),
                final(self).spec_cursor() as int,
            ) == pos,
            r is Ok ==> forall|j: int|
                0 <= j < final(self).spec_cursor() ==> #[trigger] cluster_offset(
                    old(self).spec_clusters(),
                    j,
                ) != pos,
            r is Err ==> final(self).spec_cursor() == old(self).spec_cursor(),
    {
        let g = graphemes(self.text.as_str());
        let ghost c = g.deep_view();
        let n = g.len();
        let total = str_byte_len(self.text.as_str());
        let mut off: usize = 0;
        let mut i: usize = 0;
        proof {
            assert(c.take(0) =~= Seq::<Seq<char>>::empty());
            lemma_cluster_offset_bounded(c, 0);
        }
        while i < n
            invariant
                0 <= i <= n,
                n == g@.len(),
                c == g.deep_view(),
                c.flatten() == self.text@,
                off == cluster_offset(c, i as int),
                total == byte_len(c.flatten()),
                c == spec_graphemes(old(self).text@),
                forall|j: int| 0 <= j < i ==> #[trigger] cluster_offset(c, j) != pos,
                forall|j: int| 0 <= j < c.len() ==> #[trigger] c[j].len() > 0,
                self.text@ == old(self).text@,
                self.cursor_pos == old(self).cursor_pos,
            decreases n - i,
        {
            if off == pos {
                proof {
                    assert(cluster_offset(c, i as int) == pos);
                    assert(cluster_offset(old(self).spec_clusters(), i as int) == pos);
                    assert forall|j: int| 0 <= j < i implies #[trigger] cluster_offset(
                        old(self).spec_clusters(),
                        j,
                    ) != pos by {
                        assert(cluster_offset(c, j) != pos);
                    }
                }
                self.cursor_pos = i;
                return Ok(());
            }
            proof {
                lemma_cluster_offset_next(c, i as int);
                lemma_cluster_offset_bounded(c, i + 1);
                assert(g@[i as int]@ == c[i as int]);
            }
            off = off + str_byte_len(g[i].as_str());
            i = i + 1;
        }
        proof {
            lemma_cluster_offset_bounded(c, n as int);
        }
        if pos == total {
            proof {
                assert(cluster_offset(c, n as int) == pos);
                assert(cluster_offset(old(self).spec_clusters(), n as int) == pos);
                assert forall|j: int| 0 <= j < n implies #[trigger] cluster_offset(
                    old(self).spec_clusters(),
                    j,
                ) != pos by {
                    assert(cluster_offset(c, j) != pos);
                }
            }
            self.cursor_pos = n;
            Ok(())
        } else {
            proof {
                assert forall|k: int| 0 <= k <= c.len() implies #[trigger] cluster_offset(
                    old(self).spec_clusters(),
                    k,
                ) != pos by {
                    if k < n {
                        assert(cluster_offset(c, k) != pos);
                    } else {
                        assert(cluster_offset(c, n as int) == total);
                    }
                }
            }
            Err(())
        }
    }

    /// Erase the grapheme cluster at the given position (counted in clusters).
    fn erase_symbol_at(&mut self, pos: usize) -> (r: Result<(), ()>)
        ensures
            final(self).spec_cursor() == old(self).spec_cursor(),
            pos < old(self).spec_clusters().len() ==> r is Ok && final(self).spec_text() == spec_erase_at(
                old(self).spec_clusters(),
                pos as int,
            ),
            pos >= old(self).spec_clusters().len() ==> r is Err && final(self).spec_text()
                == old(self).spec_text(),
    {
        let g = graphemes(self.text.as_str());
        let ghost c = g.deep_view();
        let n = g.len();
        if pos >= n {
            return Err(());
        }
        let mut res = String::new();
        let mut i: usize = 0;
        while i < pos
            invariant
                0 <= i <= pos < n,
                n == g@.len(),
                c == g.deep_view(),
                res@ == c.take(i as int).flatten(),
            decreases pos - i,
        {
            proof {
                lemma_flatten_take_next(c, i as int);
            }
            string_push_str(&mut res, g[i].as_str());
            i = i + 1;
        }
        let ghost prefix = res@;
        i = pos + 1;
        proof {
            assert(c.subrange(i as int, i as int) =~= Seq::<Seq<char>>::empty());
            assert(prefix =~= prefix + c.subrange(i as int, i as int).flatten());
        }
        while i < n
            invariant
                pos + 1 <= i <= n,
                n == g@.len(),
                c == g.deep_view(),
                res@ == prefix + c.subrange(pos + 1, i as int).flatten(),
            decreases n - i,
        {
            proof {
                lemma_flatten_subrange_next(c, pos + 1, i as int);
            }
            string_push_str(&mut res, g[i].as_str());
            proof {
                assert(res@ =~= prefix + c.subrange(pos + 1, i + 1).flatten());
            }
            i = i + 1;
        }
        proof {
            assert(c.subrange(pos + 1, n as int) =~= c.skip(pos + 1));
        }
        self.text = res;
        Ok(())
    }
}

/// The concatenation of the clusters `g[from..to]`.
fn join_clusters(g: &Vec<String>, from: usize, to: usize) -> (r: String)
    requires
        from <= to <= g@.len(),
    ensures
        r@ == g.deep_view().subrange(from as int, to as int).flatten(),
{
    let ghost c = g.deep_view();
    let mut res = String::new();
    let mut i = from;
    proof {
        assert(c.subrange(from as int, from as int) =~= Seq::<Seq<char>>::empty());
    }
    while i < to
        invariant
            from <= i <= to <= g@.len(),
            c == g.deep_view(),
            res@ == c.subrange(from as int, i as int).flatten(),
        decreases to - i,
    {
        proof {
            lemma_flatten_subrange_next(c, from as int, i as int);
        }
        string_push_str(&mut res, g[i].as_str());
        i = i + 1;
    }
    res
}

/// Two lines with the same text and the same cursor position.
pub open spec fn same_line(a: LineEdit, b: LineEdit) -> bool {
    a.spec_text() == b.spec_text() && a.spec_cursor() == b.spec_cursor()
}

/// Moving the cursor left: possible unless it is at 0.
pub open spec fn spec_left(old: LineEdit, new: LineEdit, r: OperationResult) -> bool {
    &&& new.spec_text() == old.spec_text()
    &&& old.spec_cursor() > 0 ==> r is Ok && new.spec_cursor() == old.spec_cursor() - 1
    &&& old.spec_cursor() == 0 ==> r is Err && new.spec_cursor() == 0
}

/// Moving the cursor right: possible unless it would pass the end of the line.
pub open spec fn spec_right(old: LineEdit, new: LineEdit, r: OperationResult) -> bool {
    &&& new.spec_text() == old.spec_text()
    &&& old.spec_cursor() + 1 <= old.spec_clusters().len() ==> r is Ok && new.spec_cursor() == old.spec_cursor() + 1
    &&& old.spec_cursor() + 1 > old.spec_clusters().len() ==> r is Err && new.spec_cursor() == old.spec_cursor()
}

/// Writing a char: a newline is refused; any other char is inserted before the cursor, which
/// then moves right if the new text allows it.
pub open spec fn spec_write(old: LineEdit, new: LineEdit, c: char, r: OperationResult) -> bool {
    &&& c == '\n' ==> r is Err && same_line(new, old)
    &&& c != '\n' ==> {
        &&& new.spec_text() == spec_insert_at(old.spec_clusters(), old.spec_cursor() as int, seq![c])
        &&& old.spec_cursor() + 1 <= new.spec_clusters().len() ==> r is Ok && new.spec_cursor() == old.spec_cursor() + 1
        &&& old.spec_cursor() + 1 > new.spec_clusters().len() ==> r is Err && new.spec_cursor() == old.spec_cursor()
    }
}

/// Deleting the cluster under the cursor; fails where there is none.
pub open spec fn spec_delete_forwards(old: LineEdit, new: LineEdit, r: OperationResult) -> bool {
    &&& new.spec_cursor() == old.spec_cursor()
    &&& old.spec_cursor() < old.spec_clusters().len() ==> r is Ok && new.spec_text() == spec_erase_at(
        old.spec_clusters(),
        old.spec_cursor() as int,
    )
    &&& old.spec_cursor() >= old.spec_clusters().len() ==> r is Err && new.spec_text() == old.spec_text()
}

/// Deleting the cluster left of the cursor and moving the cursor left; fails at position 0.
pub open spec fn spec_delete_backwards(old: LineEdit, new: LineEdit, r: OperationResult) -> bool {
    &&& old.spec_cursor() == 0 ==> r is Err && same_line(new, old)
    &&& old.spec_cursor() > 0 ==> {
        &&& r is Ok
        &&& new.spec_cursor() == old.spec_cursor() - 1
        &&& old.spec_cursor() - 1 < old.spec_clusters().len() ==> new.spec_text() == spec_erase_at(
            old.spec_clusters(),
            old.spec_cursor() - 1,
        )
        &&& old.spec_cursor() - 1 >= old.spec_clusters().len() ==> new.spec_text() == old.spec_text()
    }
}

/// Moving the cursor to the first cluster; always succeeds.
pub open spec fn spec_to_beginning(old: LineEdit, new: LineEdit, r: OperationResult) -> bool {
    r is Ok && new.spec_text() == old.spec_text() && new.spec_cursor() == 0
}

/// Moving the cursor behind the last cluster; always succeeds.
pub open spec fn spec_to_end(old: LineEdit, new: LineEdit, r: OperationResult) -> bool {
    r is Ok && new.spec_text() == old.spec_text() && new.spec_cursor() == old.spec_clusters().len()
}

/// Clearing the line; fails where it is empty already.
pub open spec fn spec_clear(old: LineEdit, new: LineEdit, r: OperationResult) -> bool {
    &&& old.spec_text().len() == 0 ==> r is Err && same_line(new, old)
    &&& old.spec_text().len() > 0 ==> r is Ok && new.spec_text() == Seq::<char>::empty() && new.spec_cursor() == 0
}

/// Lines cannot be moved up or down.
impl Navigatable for LineEdit {
    fn move_up(&mut self) -> (r: OperationResult)
        ensures
            r is Err,
            same_line(*final(self), *old(self)),
    {
        Err(())
    }

    fn move_down(&mut self) -> (r: OperationResult)
        ensures
            r is Err,
            same_line(*final(self), *old(self)),
    {
        Err(())
    }

    fn move_left(&mut self) -> (r: OperationResult)
        ensures
            spec_left(*old(self), *final(self), r),
    {
        self.move_cursor_left()
    }

    fn move_right(&mut self) -> (r: OperationResult)
        ensures
            spec_right(*old(self), *final(self), r),
    {
        self.move_cursor_right()
    }
}

impl Writable for LineEdit {
    open spec fn spec_wrote(old: &LineEdit, new: &LineEdit, c: char, r: OperationResult) -> bool {
        spec_write(*old, *new, c, r)
    }

    /// Insert the char before the cursor and move the cursor behind it; a newline is refused.
    fn write(&mut self, c: char) -> (r: OperationResult)
        ensures
            spec_write(*old(self), *final(self), c, r),
    {
        if c == '\n' {
            Err(())
        } else {
            let mut s = String::new();
            string_push(&mut s, c);
            proof {
                assert(s@ =~= seq![c]);
            }
            self.insert(s.as_str());
            self.move_cursor_right()
        }
    }
}

impl Editable for LineEdit {
    /// Erase the cluster under the cursor (the "Delete" key).
    fn delete_forwards(&mut self) -> (r: OperationResult)
        ensures
            spec_delete_forwards(*old(self), *final(self), r),
    {
        let to_erase = self.cursor_pos;
        self.erase_symbol_at(to_erase)
    }

    /// Erase the cluster left of the cursor and move the cursor left (the "Backspace" key).
    fn delete_backwards(&mut self) -> (r: OperationResult)
        ensures
            spec_delete_backwards(*old(self), *final(self), r),
    {
        if self.cursor_pos > 0 {
            let to_erase = self.cursor_pos - 1;
            let _ = self.erase_symbol_at(to_erase);
            let _ = self.move_cursor_left();
            Ok(())
        } else {
            Err(())
        }
    }

    /// Move the cursor onto the first cluster (the "Home" key).
    fn go_to_beginning_of_line(&mut self) -> (r: OperationResult)
        ensures
            spec_to_beginning(*old(self), *final(self), r),
    {
        self.move_cursor_to_beginning_of_line();
        Ok(())
    }

    /// Move the cursor behind the last cluster (the "End" key).
    fn go_to_end_of_line(&mut self) -> (r: OperationResult)
        ensures
            spec_to_end(*old(self), *final(self), r),
    {
        self.move_cursor_to_end_of_line();
        Ok(())
    }

    /// Remove all text; fails on an empty line.
    fn clear(&mut self) -> (r: OperationResult)
        ensures
            spec_clear(*old(self), *final(self), r),
    {
        if self.text.as_str().is_empty() {
            Err(())
        } else {
            self.text = String::new();
            self.cursor_pos = 0;
            Ok(())
        }
    }
}

/// A cursor style that changes only the text format, to `f`.
pub open spec fn format_only(m: StyleModifier, f: TextFormatModifier) -> bool {
    m.spec_fg() is None && m.spec_bg() is None && m.spec_format() == f
}

impl LineEdit {
    /// Prepare for drawing: the cursor is shown inverted while the widget is active and blinks
    /// on, unchanged while it blinks off, and underlined while the widget is inactive.
    pub fn as_widget<'a>(&'a self) -> (r: LineEditWidget<'a>)
        ensures
            *r.spec_lineedit() == *self,
            format_only(
                r.spec_style_blink_on(),
                TextFormatModifier { invert: BoolModifyMode::Toggle, ..TextFormatModifier::spec_new() },
            ),
            format_only(r.spec_style_blink_off(), TextFormatModifier::spec_new()),
            format_only(
                r.spec_style_inactive(),
                TextFormatModifier { underline: BoolModifyMode::True, ..TextFormatModifier::spec_new() },
            ),
    {
        LineEditWidget {
            lineedit: self,
            cursor_style_active_blink_on: StyleModifier::new().invert(BoolModifyMode::Toggle),
            cursor_style_active_blink_off: StyleModifier::new(),
            cursor_style_inactive: StyleModifier::new().underline(BoolModifyMode::True),
        }
    }
}

/// A `LineEdit` prepared for drawing, with customizable cursor styles.
pub struct LineEditWidget<'a> {
    lineedit: &'a LineEdit,
    cursor_style_active_blink_on: StyleModifier,
    cursor_style_active_blink_off: StyleModifier,
    cursor_style_inactive: StyleModifier,
}

/// What drawing a `LineEdit` into a window of a given width puts where: the text is written
/// starting at column `start_col` (which is 0 or negative, so that the cursor stays visible),
/// first `before_cursor`, then `at_cursor` in the cursor style, then `after_cursor`.
pub struct LineEditLayout {
    pub start_col: ColIndex,
    pub before_cursor: String,
    pub at_cursor: String,
    pub after_cursor: String,
}

impl<'a> LineEditWidget<'a> {
    /// The line that is drawn.
    pub closed spec fn spec_lineedit(&self) -> &'a LineEdit {
        self.lineedit
    }

    /// The cursor style while active and blinking on.
    pub closed spec fn spec_style_blink_on(&self) -> StyleModifier {
        self.cursor_style_active_blink_on
    }

    /// The cursor style while active and blinking off.
    pub closed spec fn spec_style_blink_off(&self) -> StyleModifier {
        self.cursor_style_active_blink_off
    }

    /// The cursor style while inactive.
    pub closed spec fn spec_style_inactive(&self) -> StyleModifier {
        self.cursor_style_inactive
    }

    /// The display width of the text up to and including the cluster under the cursor.
    pub open spec fn spec_width_through_cursor(&self) -> nat {
        let l = self.spec_lineedit();
        if l.spec_cursor() < l.spec_clusters().len() {
            spec_str_width(l.spec_clusters().take(l.spec_cursor() + 1int).flatten())
        } else {
            spec_str_width(l.spec_text())
        }
    }

    /// The column where drawing into a window of width `w` starts: the text is shifted left just
    /// far enough that the cluster under the cursor and one column of padding fit.
    pub open spec fn spec_start_col(&self, w: int) -> int {
        let wt = self.spec_width_through_cursor();
        if w - wt - 1 < 0 {
            w - wt - 1
        } else {
            0
        }
    }

    /// The text before the cursor, the cluster under it (a space behind the text) and the text
    /// after it.
    pub open spec fn spec_parts(&self) -> (Seq<char>, Seq<char>, Seq<char>) {
        let l = self.spec_lineedit();
        let c = l.spec_clusters();
        let k = l.spec_cursor() as int;
        if k < c.len() {
            (c.take(k).flatten(), c[k], c.skip(k + 1).flatten())
        } else {
            (l.spec_text(), seq![' '], Seq::<char>::empty())
        }
    }

    /// The style the cursor is drawn with under `hints`.
    pub open spec fn spec_cursor_style(&self, hints: RenderingHints) -> StyleModifier {
        if !hints.active {
            self.spec_style_inactive()
        } else if hints.blink == Blink::On {
            self.spec_style_blink_on()
        } else {
            self.spec_style_blink_off()
        }
    }

    /// Define the cursor style for the "on" tick while the widget is active.
    pub fn cursor_blink_on(self, style: StyleModifier) -> (r: Self)
        ensures
            r.spec_style_blink_on() == style,
            r.spec_style_blink_off() == self.spec_style_blink_off(),
            r.spec_style_inactive() == self.spec_style_inactive(),
            r.spec_lineedit() == self.spec_lineedit(),
    {
        LineEditWidget { cursor_style_active_blink_on: style, ..self }
    }

    /// Define the cursor style for the "off" tick while the widget is active.
    pub fn cursor_blink_off(self, style: StyleModifier) -> (r: Self)
        ensures
            r.spec_style_blink_on() == self.spec_style_blink_on(),
            r.spec_style_blink_off() == style,
            r.spec_style_inactive() == self.spec_style_inactive(),
            r.spec_lineedit() == self.spec_lineedit(),
    {
        LineEditWidget { cursor_style_active_blink_off: style, ..self }
    }

    /// Define the cursor style while the widget is inactive.
    pub fn cursor_inactive(self, style: StyleModifier) -> (r: Self)
        ensures
            r.spec_style_blink_on() == self.spec_style_blink_on(),
            r.spec_style_blink_off() == self.spec_style_blink_off(),
            r.spec_style_inactive() == style,
            r.spec_lineedit() == self.spec_lineedit(),
    {
        LineEditWidget { cursor_style_inactive: style, ..self }
    }

    /// The style the cursor is drawn with under the given hints.
    pub fn cursor_style(&self, hints: RenderingHints) -> (r: StyleModifier)
        ensures
            r == self.spec_cursor_style(hints),
    {
        if !hints.active {
            self.cursor_style_inactive
        } else {
            match hints.blink {
                Blink::On => self.cursor_style_active_blink_on,
                Blink::Off => self.cursor_style_active_blink_off,
            }
        }
    }

    /// The space demand: one row, and at least the width of the text plus one column for the
    /// cursor behind the text. The width must fit into an i32.
    pub fn space_demand(&self) -> (r: Demand2D)
        requires
            spec_str_width(self.spec_lineedit().spec_text()) < i32::MAX,
        ensures
            r.width@ == (spec_str_width(self.spec_lineedit().spec_text()) + 1, None::<nat>),
            r.height@ == (1nat, Some(1nat)),
    {
        let w = str_width(self.lineedit.text.as_str());
        Demand2D {
            width: Demand::at_least(PositiveAxisDiff::new_unchecked((w + 1) as i32)),
            height: Demand::exact(PositiveAxisDiff::new_unchecked(1)),
        }
    }

    /// The space demand, or `None` where the width of the text does not fit into an i32.
    pub fn checked_space_demand(&self) -> (r: Option<Demand2D>)
        ensures
            spec_str_width(self.spec_lineedit().spec_text()) < i32::MAX ==> (r matches Some(d) && d.width@ == (
                spec_str_width(self.spec_lineedit().spec_text()) + 1,
                None::<nat>,
            ) && d.height@ == (1nat, Some(1nat))),
            spec_str_width(self.spec_lineedit().spec_text()) >= i32::MAX ==> r is None,
    {
        let w = str_width(self.lineedit.text.as_str());
        if w < 2147483647 {
            Some(self.space_demand())
        } else {
            None
        }
    }

    /// Where drawing into a window of the given width puts which part of the text. The text is
    /// shifted left just far enough that the cluster under the cursor and one column of padding
    /// fit into the window. Where the cursor is behind the text, a space stands for it.
    pub fn layout(&self, window_width: Width) -> (r: LineEditLayout)
        requires
            self.spec_width_through_cursor() <= i32::MAX,
        ensures
            r.start_col@ == self.spec_start_col(window_width@ as int),
            (r.before_cursor@, r.at_cursor@, r.after_cursor@) == self.spec_parts(),
    {
        let g = graphemes(self.lineedit.text.as_str());
        let ghost c = g.deep_view();
        let n = g.len();
        let k = self.lineedit.cursor_pos;
        let (before, at, after, w) = if k < n {
            let through = join_clusters(&g, 0, k + 1);
            let w = str_width(through.as_str());
            let before = join_clusters(&g, 0, k);
            let at = join_clusters(&g, k, k + 1);
            let after = join_clusters(&g, k + 1, n);
            proof {
                assert(c.subrange(0, k as int) =~= c.take(k as int));
                assert(c.subrange(0, k + 1) =~= c.take(k + 1));
                assert(c.subrange(k + 1, n as int) =~= c.skip(k + 1));
                assert(c.subrange(k as int, k + 1) =~= seq![c[k as int]]);
                seq![c[k as int]].lemma_flatten_singleton();
            }
            (before, at, after, w)
        } else {
            let w = str_width(self.lineedit.text.as_str());
            let mut space = String::new();
            string_push(&mut space, ' ');
            proof {
                assert(space@ =~= seq![' ']);
            }
            (self.lineedit.text.clone(), space, String::new(), w)
        };
        let ww = window_width.raw_value();
        let shifted: i64 = ww as i64 - w as i64 - 1;
        let start = if shifted < 0 { shifted as i32 } else { 0 };
        LineEditLayout {
            start_col: ColIndex::new(start),
            before_cursor: before,
            at_cursor: at,
            after_cursor: after,
        }
    }

    /// The layout, or `None` where the width of the text through the cursor does not fit into an
    /// i32.
    pub fn checked_layout(&self, window_width: Width) -> (r: Option<LineEditLayout>)
        ensures
            self.spec_width_through_cursor() > i32::MAX ==> r is None,
            self.spec_width_through_cursor() <= i32::MAX ==> r is Some,
            r matches Some(l) ==> l.start_col@ == self.spec_start_col(window_width@ as int) && (
                l.before_cursor@,
                l.at_cursor@,
                l.after_cursor@,
            ) == self.spec_parts(),
    {
        let g = graphemes(self.lineedit.text.as_str());
        let n = g.len();
        let k = self.lineedit.cursor_pos;
        let w = if k < n {
            let through = join_clusters(&g, 0, k + 1);
            proof {
                assert(g.deep_view().subrange(0, k + 1) =~= g.deep_view().take(k + 1));
            }
            str_width(through.as_str())
        } else {
            str_width(self.lineedit.text.as_str())
        };
        if w <= 2147483647 {
            Some(self.layout(window_width))
        } else {
            None
        }
    }

    /// Draw the line into the first row of `target`, laid out as `layout` says, with the cluster
    /// under the cursor in the cursor style for `hints`. Nothing is drawn where the width of the
    /// text up to the cursor does not fit into an `i32`, and a part whose writing would leave the
    /// `i32` range is left out.
    pub fn draw<T: CursorTarget>(&self, target: &mut T, hints: RenderingHints)
        ensures
            spec_same_frame(*final(target), *old(target)),
            self.spec_width_through_cursor() > i32::MAX ==> *final(target) == *old(target),
            self.spec_width_through_cursor() <= i32::MAX ==> spec_cells_of(*final(target)) == spec_write_styled_parts(
                spec_with_pos(
                    CursorState::spec_default(),
                    self.spec_start_col(old(target).spec_width() as int),
                    0,
                ),
                old(target).spec_width() as int,
                old(target).spec_height() as int,
                spec_cells_of(*old(target)),
                spec_has_of(*old(target)),
                old(target).spec_default_style(),
                self.spec_cursor_style(hints),
                self.spec_parts().0,
                self.spec_parts().1,
                self.spec_parts().2,
            ).0,
    {
        let w = target.get_width();
        let layout = self.checked_layout(w);
        match layout {
            None => {},
            Some(l) => {
                let ghost t0 = *target;
                let style = self.cursor_style(hints);
                let mut cursor = Cursor::new(target).position(l.start_col, AxisIndex::new(0));
                proof {
                    AxisIndex::lemma_spec_new_of_view(l.start_col);
                    AxisIndex::lemma_spec_new_of_view(cursor.state.y);
                }
                cursor.checked_write(l.before_cursor.as_str());
                let ghost t1 = *cursor.window;
                proof {
                    assert(spec_has_of(t1) =~= spec_has_of(t0));
                }
                let saved = cursor.get_style_modifier();
                cursor.apply_style_modifier(style);
                cursor.checked_write(l.at_cursor.as_str());
                let ghost t2 = *cursor.window;
                proof {
                    assert(spec_has_of(t2) =~= spec_has_of(t0));
                }
                cursor.set_style_modifier(saved);
                cursor.checked_write(l.after_cursor.as_str());
            },
        }
    }
}

/// Setting the cursor to the byte position that `cursor_pos` reports puts it back where it was
/// (for a cursor on a cluster or directly behind the last one, and clusters as the segmentation
/// produces them: non-empty, and concatenated giving the text).
pub proof fn law_set_cursor_pos_after_cursor_pos(l: LineEdit, pos: nat, m: LineEdit)
    requires
        forall|i: int| 0 <= i < l.spec_clusters().len() ==> #[trigger] l.spec_clusters()[i].len() > 0,
        l.spec_clusters().flatten() == l.spec_text(),
        l.spec_cursor() <= l.spec_clusters().len(),
        pos == if l.spec_cursor() < l.spec_clusters().len() {
            cluster_offset(l.spec_clusters(), l.spec_cursor() as int)
        } else {
            byte_len(l.spec_text())
        },
        m.spec_text() == l.spec_text(),
        m.spec_cursor() <= l.spec_clusters().len(),
        cluster_offset(l.spec_clusters(), m.spec_cursor() as int) == pos,
    ensures
        exists|k: int| 0 <= k <= l.spec_clusters().len() && #[trigger] cluster_offset(l.spec_clusters(), k) == pos,
        m.spec_cursor() == l.spec_cursor(),
{
    let c = l.spec_clusters();
    lemma_cluster_offset_bounded(c, l.spec_cursor() as int);
    assert(cluster_offset(c, l.spec_cursor() as int) == pos);
    if m.spec_cursor() < l.spec_cursor() {
        lemma_cluster_offset_strict(c, m.spec_cursor() as int, l.spec_cursor() as int);
    } else if m.spec_cursor() > l.spec_cursor() {
        lemma_cluster_offset_strict(c, l.spec_cursor() as int, m.spec_cursor() as int);
    }
}

/// Inserting an empty text leaves the text as it is (for clusters as the segmentation produces
/// them).
pub proof fn law_insert_empty_is_identity(c: Seq<Seq<char>>, text: Seq<char>, k: int)
    requires
        c.flatten() == text,
        0 <= k,
    ensures
        spec_insert_at(c, k, Seq::empty()) == text,
{
    let k2 = if k < c.len() { k } else { c.len() as int };
    lemma_flatten_split(c, k2);
    assert(c.take(k2).flatten() + Seq::<char>::empty() =~= c.take(k2).flatten());
}

} // verus!
