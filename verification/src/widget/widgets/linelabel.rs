//! A single line text label.
use crate::base::basic_types::PositiveAxisDiff;
use crate::base::cursor::{spec_cells_of, spec_checked_write, spec_has_of, Cursor, CursorState};
use crate::base::window::spec_same_frame;
use crate::base::window::CursorTarget;
use crate::widget::text::{count_grapheme_clusters, spec_graphemes};
use crate::widget::widget::{Demand, Demand2D};
use vstd::prelude::*;

verus! {

/// A single line text label; its text can be changed programmatically but not by the user.
pub struct LineLabel {
    text: String,
}

impl LineLabel {
    /// The label text.
    pub closed spec fn spec_text(&self) -> Seq<char> {
        self.text@
    }

    /// Create a label with the given text, which should not span multiple lines.
    pub fn new(text: String) -> (r: Self)
        ensures
            r.spec_text() == text@,
    {
        LineLabel { text: text }
    }

    /// Change the label text, which should not span multiple lines.
    pub fn set(&mut self, text: String)
        ensures
            final(self).spec_text() == text@,
    {
        self.text = text;
    }

    /// The label text.
    pub fn get(&self) -> (r: &str)
        ensures
            r@ == self.spec_text(),
    {
        self.text.as_str()
    }

    /// The space demand: exactly one row, exactly as many columns as there are grapheme clusters.
    /// The number of clusters must be below `i32::MAX`.
    pub fn space_demand(&self) -> (r: Demand2D)
        requires
            spec_graphemes(self.spec_text()).len() < i32::MAX,
        ensures
            r.width@ == (spec_graphemes(self.spec_text()).len(), Some(spec_graphemes(self.spec_text()).len())),
            r.height@ == (1nat, Some(1nat)),
    {
        let n = count_grapheme_clusters(self.text.as_str());
        Demand2D {
            width: Demand::exact(PositiveAxisDiff::from_usize(n)),
            height: Demand::exact(PositiveAxisDiff::new_unchecked(1)),
        }
    }

    /// The space demand, or `None` where the number of clusters is not below `i32::MAX`.
    pub fn checked_space_demand(&self) -> (r: Option<Demand2D>)
        ensures
            spec_graphemes(self.spec_text()).len() < i32::MAX ==> (r matches Some(d) && d.width@ == (
                spec_graphemes(self.spec_text()).len(),
                Some(spec_graphemes(self.spec_text()).len()),
            ) && d.height@ == (1nat, Some(1nat))),
            spec_graphemes(self.spec_text()).len() >= i32::MAX ==> r is None,
    {
        let n = count_grapheme_clusters(self.text.as_str());
        if n < 2147483647 {
            Some(self.space_demand())
        } else {
            None
        }
    }

    /// Draw the label text at the top left of `target` (unless writing it would leave the `i32`
    /// range of positions).
    pub fn draw<T: CursorTarget>(&self, target: &mut T)
        ensures
            spec_same_frame(*final(target), *old(target)),
            spec_cells_of(*final(target)) == spec_checked_write(
                CursorState::spec_default(),
                old(target).spec_width() as int,
                old(target).spec_height() as int,
                spec_cells_of(*old(target)),
                spec_has_of(*old(target)),
                old(target).spec_default_style(),
                self.spec_text(),
            ).0,
    {
        let mut cursor = Cursor::new(target);
        cursor.checked_write(self.text.as_str());
    }
}

} // verus!
