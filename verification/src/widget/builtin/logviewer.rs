//! A scrollable, append-only buffer of lines.
use crate::base::basic_types::{AxisDiff, AxisIndex, LineIndex};
use crate::base::cursor::{
    spec_cells_of, spec_has_of, spec_with_pos, spec_write_cells_in, spec_write_fits, spec_write_pos, Cursor,
    CursorState, WrappingMode,
};
use crate::base::style::Style;
use crate::widget::text::spec_graphemes;
use crate::base::window::spec_same_frame;
use crate::base::window::CursorTarget;
use crate::input::{OperationResult, Scrollable};
use crate::widget::linestorage::{append_text, lemma_append_text, spec_append_text};
use vstd::prelude::*;

verus! {

/// A scrollable, append-only buffer of lines.
///
/// Text is added by `write_str`. The viewer is either at the end (following new lines) or
/// scrolled back to a stored line.
pub struct LogViewer {
    storage: Vec<String>,
    scrollback_position: Option<LineIndex>,
    scroll_step: usize,
}

/// Drawing `lines` bottom-up, the last one first, with a wrapping cursor in state `st` on a `w` by
/// `h` target that holds the cells `c` at the positions `present` and draws in the default style
/// `d`: the cursor moves up by the rows that the line's wrapping will take, writes the line and a
/// line break, and then moves up past the line; drawing stops (keeping what was drawn) at a line
/// where one of these steps would leave the `i32` range of positions.
pub open spec fn spec_draw_up(
    st: CursorState,
    w: int,
    h: int,
    c: spec_fn(int, int) -> (Seq<char>, Style),
    present: spec_fn(int, int) -> bool,
    d: Style,
    lines: Seq<Seq<char>>,
) -> spec_fn(int, int) -> (Seq<char>, Style)
    decreases lines.len(),
{
    if lines.len() == 0 {
        c
    } else {
        let line = lines.last();
        let n = spec_graphemes(line).len();
        let v = st.x@ + n;
        if !(w > 0 && n <= i32::MAX && v <= i32::MAX && v > -w) {
            c
        } else {
            let wraps = if v >= 0 {
                v / w
            } else {
                0
            };
            if wraps > 2147483645 || st.y@ - wraps < -2147483646 {
                c
            } else {
                let st1 = spec_with_pos(st, st.x@, st.y@ - wraps);
                if !spec_write_fits(st1, w, line) {
                    c
                } else {
                    let c2 = spec_write_cells_in(st1, w, h, c, present, d, line);
                    let y2 = spec_write_pos(st1, w, h, line).1 + 1;
                    if y2 - wraps - 2 < i32::MIN {
                        c2
                    } else {
                        let st2 = spec_with_pos(st1, st1.line_start_column@, y2 - wraps - 2);
                        spec_draw_up(st2, w, h, c2, present, d, lines.drop_last())
                    }
                }
            }
        }
    }
}

impl LogViewer {
    /// At least one line is stored, no stored line contains a newline, and a scrollback position
    /// lies within the stored lines.
    #[verifier::type_invariant]
    spec fn inv(&self) -> bool {
        &&& self.storage@.len() >= 1
        &&& forall|i: int| 0 <= i < self.storage@.len() ==> !#[trigger] self.storage.deep_view()[i].contains('\n')
        &&& self.scrollback_position matches Some(p) ==> p@ < self.storage@.len()
        &&& self.scroll_step == 1
    }

    /// The stored lines.
    pub closed spec fn spec_lines(&self) -> Seq<Seq<char>> {
        self.storage.deep_view()
    }

    /// The line scrolled back to, or `None` where the viewer follows the end.
    pub closed spec fn spec_scrollback(&self) -> Option<nat> {
        match self.scrollback_position {
            Some(p) => Some(p@),
            None => None,
        }
    }

    /// The index of the line shown last: the scrollback position, or the last line.
    pub open spec fn spec_current_line(&self) -> nat {
        match self.spec_scrollback() {
            Some(p) => p,
            None => (self.spec_lines().len() - 1) as nat,
        }
    }

    /// An empty viewer: a single empty line, following the end.
    pub fn new() -> (r: Self)
        ensures
            r.spec_lines() == seq![Seq::<char>::empty()],
            r.spec_scrollback() is None,
    {
        let mut storage = Vec::new();
        storage.push(String::new());
        let r = LogViewer { storage: storage, scrollback_position: None, scroll_step: 1 };
        proof {
            assert(r.storage.deep_view() =~= seq![Seq::<char>::empty()]);
        }
        r
    }

    /// The number of stored lines.
    pub fn num_lines_stored(&self) -> (r: usize)
        ensures
            r == self.spec_lines().len(),
            r >= 1,
    {
        proof {
            use_type_invariant(self);
        }
        self.storage.len()
    }

    /// The index of the line shown last.
    pub fn current_line_index(&self) -> (r: LineIndex)
        ensures
            r@ == self.spec_current_line(),
            r@ < self.spec_lines().len(),
    {
        proof {
            use_type_invariant(self);
        }
        match self.scrollback_position {
            Some(p) => p,
            None => LineIndex::new(self.storage.len() - 1),
        }
    }

    /// The stored lines from `start` up to (not including) `end`.
    pub fn view(&self, start: LineIndex, end: LineIndex) -> (r: &[String])
        requires
            start@ <= end@ <= self.spec_lines().len(),
        ensures
            r@.len() == end@ - start@,
            forall|i: int| 0 <= i < r@.len() ==> #[trigger] r@[i]@ == self.spec_lines()[start@ + i],
    {
        let s = self.storage.as_slice();
        &s[start.raw_value()..end.raw_value()]
    }

    /// The first line drawn into a target of height `h`: the one `h` lines before the current
    /// one (the first stored line where there are not that many).
    pub open spec fn spec_first_drawn(&self, h: int) -> int {
        if self.spec_current_line() >= h {
            self.spec_current_line() - h
        } else {
            0
        }
    }

    /// Draw the lines up to the current one into `target`, bottom-up: the current line ends in
    /// the last row, each earlier line above the one after it (lines wrap at the right border).
    /// Drawing stops at a line whose writing would leave the `i32` range of positions (see
    /// `spec_draw_up`).
    pub fn draw<T: CursorTarget>(&self, target: &mut T)
        ensures
            spec_same_frame(*final(target), *old(target)),
            old(target).spec_height() == 0 ==> *final(target) == *old(target),
            old(target).spec_height() > 0 ==> spec_cells_of(*final(target)) == spec_draw_up(
                CursorState {
                    wrapping_mode: WrappingMode::Wrap,
                    ..spec_with_pos(CursorState::spec_default(), 0, old(target).spec_height() - 1)
                },
                old(target).spec_width() as int,
                old(target).spec_height() as int,
                spec_cells_of(*old(target)),
                spec_has_of(*old(target)),
                old(target).spec_default_style(),
                self.spec_lines().subrange(
                    self.spec_first_drawn(old(target).spec_height() as int),
                    self.spec_current_line() + 1int,
                ),
            ),
    {
        let height = target.get_height().raw_value();
        if height == 0 {
            return ;
        }
        let ghost t0 = *target;
        let ghost t_final = *final(target);
        let ghost wi = t0.spec_width() as int;
        let ghost hi = t0.spec_height() as int;
        let ghost d = t0.spec_default_style();
        let ghost present = spec_has_of(t0);
        let y0 = AxisIndex::new(height - 1);
        let x0 = AxisIndex::new(0);
        let mut cursor = Cursor::new(target).position(x0, y0).wrapping_mode(WrappingMode::Wrap);
        proof {
            AxisIndex::lemma_spec_new_of_view(x0);
            AxisIndex::lemma_spec_new_of_view(y0);
        }
        let end_line = self.current_line_index();
        let num_stored = self.num_lines_stored();
        let start_line = match end_line.checked_sub(height as usize) {
            Some(l) => l,
            None => LineIndex::new(0),
        };
        proof {
            assert(end_line@ < num_stored);
        }
        let lines = self.view(start_line, LineIndex::new(end_line.raw_value() + 1));
        let ghost all = self.spec_lines().subrange(start_line@ as int, end_line@ + 1int);
        let ghost result = spec_draw_up(cursor.state, wi, hi, spec_cells_of(*cursor.window), present, d, all);
        proof {
            assert(all.take(lines@.len() as int) =~= all);
        }
        let mut i = lines.len();
        while i > 0
            invariant_except_break
                spec_draw_up(cursor.state, wi, hi, spec_cells_of(*cursor.window), present, d, all.take(i as int))
                    == result,
            invariant
                i <= lines@.len(),
                lines@.len() == all.len(),
                forall|k: int| 0 <= k < lines@.len() ==> #[trigger] lines@[k]@ == all[k],
                cursor.state.wrapping_mode == WrappingMode::Wrap,
                wi == t0.spec_width(),
                hi == t0.spec_height(),
                d == t0.spec_default_style(),
                present == spec_has_of(t0),
                spec_same_frame(*cursor.window, t0),
                t_final == *final(cursor.window),
            ensures
                spec_cells_of(*cursor.window) == result,
                spec_same_frame(*cursor.window, t0),
                t_final == *final(cursor.window),
            decreases i,
        {
            let ghost part = all.take(i as int);
            proof {
                assert(part.last() == all[i - 1]);
                assert(part.drop_last() =~= all.take(i - 1));
                assert(spec_has_of(*cursor.window) =~= present);
                AxisIndex::lemma_view_bounds(cursor.state.x);
                AxisIndex::lemma_view_bounds(cursor.state.y);
            }
            let line = lines[i - 1].as_str();
            let wraps = match cursor.checked_num_expected_wraps(line) {
                Some(n) => n,
                None => {
                    break;
                },
            };
            let y = cursor.state.y.raw_value() as i64;
            if wraps > 2147483645 || y - (wraps as i64) < -2147483646 {
                break;
            }
            let ghost st_a = cursor.state;
            cursor.move_by(AxisDiff::new(0), AxisDiff::new(-(wraps as i32)));
            proof {
                AxisIndex::lemma_spec_new_of_view(cursor.state.x);
                AxisIndex::lemma_spec_new_of_view(cursor.state.y);
                assert(cursor.state == spec_with_pos(st_a, st_a.x@, st_a.y@ - wraps));
            }
            if !cursor.write_fits(line) {
                break;
            }
            let ghost st_b = cursor.state;
            cursor.writeln(line);
            proof {
                assert(spec_has_of(*cursor.window) =~= present);
                AxisIndex::lemma_view_bounds(cursor.state.x);
            }
            let y2 = cursor.state.y.raw_value() as i64;
            if y2 - (wraps as i64) - 2 < -2147483648 {
                break;
            }
            cursor.move_by(AxisDiff::new(0), AxisDiff::new(-(wraps as i32) - 2));
            proof {
                AxisIndex::lemma_spec_new_of_view(cursor.state.x);
                AxisIndex::lemma_spec_new_of_view(cursor.state.y);
                AxisIndex::lemma_spec_new_of_view(st_b.line_start_column);
            }
            i = i - 1;
        }
        proof {
            if i == 0 {
                assert(all.take(0) =~= Seq::<Seq<char>>::empty());
            }
        }
    }

    /// The stored lines: at least one, and none of them contains a newline (in every state that
    /// `new`, `write_str` and scrolling lead to).
    pub fn lines(&self) -> (r: &Vec<String>)
        ensures
            r.deep_view() == self.spec_lines(),
            self.spec_lines().len() >= 1,
            forall|i: int| 0 <= i < self.spec_lines().len() ==> !(#[trigger] self.spec_lines()[i]).contains('\n'),
    {
        proof {
            use_type_invariant(self);
        }
        &self.storage
    }

    /// Append text: it continues the last line, and every newline starts a new line.
    pub fn write_str(&mut self, s: &str)
        ensures
            final(self).spec_lines() == spec_append_text(old(self).spec_lines(), s@),
            final(self).spec_scrollback() == old(self).spec_scrollback(),
    {
        proof {
            use_type_invariant(&*self);
            lemma_append_text(self.storage.deep_view(), s@);
        }
        let pos = self.scrollback_position;
        self.scrollback_position = None;
        let mut storage = vec![String::new()];
        proof {
            assert(storage.deep_view() =~= seq![Seq::<char>::empty()]);
        }
        std::mem::swap(&mut storage, &mut self.storage);
        append_text(&mut storage, s);
        self.storage = storage;
        self.scrollback_position = pos;
    }
}

impl Scrollable for LogViewer {
    /// Scroll one line towards the end; scrolling past the last line follows the end again
    /// (and fails).
    fn scroll_forwards(&mut self) -> (r: OperationResult)
        ensures
            final(self).spec_lines() == old(self).spec_lines(),
            old(self).spec_current_line() + 1 < old(self).spec_lines().len() ==> r is Ok
                && final(self).spec_scrollback() == Some((old(self).spec_current_line() + 1) as nat),
            old(self).spec_current_line() + 1 >= old(self).spec_lines().len() ==> r is Err
                && final(self).spec_scrollback() is None,
    {
        proof {
            use_type_invariant(&*self);
        }
        let current = self.current_line_index();
        let len = self.storage.len();
        let candidate = current.raw_value() + self.scroll_step;
        if candidate < len {
            self.scrollback_position = Some(LineIndex::new(candidate));
            Ok(())
        } else {
            self.scrollback_position = None;
            Err(())
        }
    }

    /// Scroll one line towards the beginning; fails (but stops scrolling back further) at the
    /// first line.
    fn scroll_backwards(&mut self) -> (r: OperationResult)
        ensures
            final(self).spec_lines() == old(self).spec_lines(),
            old(self).spec_current_line() != 0 ==> r is Ok
                && final(self).spec_scrollback() == Some((old(self).spec_current_line() - 1) as nat),
            old(self).spec_current_line() == 0 ==> r is Err && final(self).spec_scrollback() == Some(0nat),
    {
        proof {
            use_type_invariant(&*self);
        }
        let current = self.current_line_index();
        let op_res = if current.raw_value() != 0 {
            Ok(())
        } else {
            Err(())
        };
        self.scrollback_position = match current.checked_sub(self.scroll_step) {
            Some(p) => Some(p),
            None => Some(LineIndex::new(0)),
        };
        op_res
    }

    /// Scroll to the first line; fails where the viewer is there already.
    fn scroll_to_beginning(&mut self) -> (r: OperationResult)
        ensures
            final(self).spec_lines() == old(self).spec_lines(),
            old(self).spec_scrollback() == Some(0nat) ==> r is Err,
            old(self).spec_scrollback() != Some(0nat) ==> r is Ok,
            final(self).spec_scrollback() == Some(0nat),
    {
        proof {
            use_type_invariant(&*self);
        }
        match self.scrollback_position {
            Some(p) => {
                if p.raw_value() == 0 {
                    return Err(());
                }
            },
            None => {},
        }
        self.scrollback_position = Some(LineIndex::new(0));
        Ok(())
    }

    /// Follow the end again; fails where the viewer does already.
    fn scroll_to_end(&mut self) -> (r: OperationResult)
        ensures
            final(self).spec_lines() == old(self).spec_lines(),
            old(self).spec_scrollback() is None ==> r is Err,
            old(self).spec_scrollback() is Some ==> r is Ok,
            final(self).spec_scrollback() is None,
    {
        proof {
            use_type_invariant(&*self);
        }
        if self.scrollback_position.is_none() {
            Err(())
        } else {
            self.scrollback_position = None;
            Ok(())
        }
    }
}

} // verus!
