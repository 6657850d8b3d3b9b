//! Single grapheme clusters: the content of one (or, for wide clusters, several) terminal cells.
use crate::widget::text::{
    graphemes, lemma_flatten_split, lemma_flatten_take_next, spec_graphemes, spec_printable_ascii,
    spec_str_width, str_width, string_push, string_push_str,
};
use vstd::prelude::*;

verus! {

/// A single grapheme cluster, i.e., what a reader perceives as one character. It may consist of
/// several chars. Padding cells next to wide clusters hold the empty cluster.
#[derive(Debug)]
pub struct GraphemeCluster {
    text: String,
}

impl View for GraphemeCluster {
    type V = Seq<char>;

    closed spec fn view(&self) -> Seq<char> {
        self.text@
    }
}

impl Clone for GraphemeCluster {
    fn clone(&self) -> (r: Self)
        ensures
            r@ == self@,
    {
        GraphemeCluster { text: self.text.clone() }
    }
}

impl PartialEq for GraphemeCluster {
    fn eq(&self, other: &Self) -> (r: bool) {
        self.text == other.text
    }
}

impl vstd::std_specs::cmp::PartialEqSpecImpl for GraphemeCluster {
    open spec fn obeys_eq_spec() -> bool {
        true
    }

    open spec fn eq_spec(&self, other: &Self) -> bool {
        self@ == other@
    }
}

/// Why a text is not a single grapheme cluster.
#[derive(Debug, Clone, Copy, PartialEq, Eq, Structural)]
pub enum GraphemeClusterError {
    MultipleGraphemeClusters,
    NoGraphemeCluster,
}

/// The display width of a cluster.
pub open spec fn spec_cluster_width(g: Seq<char>) -> nat {
    spec_str_width(g)
}

impl GraphemeCluster {
    /// The cluster as a string slice.
    pub fn as_str(&self) -> (r: &str)
        ensures
            r@ == self@,
    {
        self.text.as_str()
    }

    /// A cluster holding exactly the given text (which the caller knows to be one cluster).
    pub(crate) fn from_str_unchecked(text: &str) -> (r: Self)
        ensures
            r@ == text@,
    {
        GraphemeCluster { text: text.to_owned() }
    }

    /// The empty cluster, used to pad the cells covered by a wide cluster.
    pub fn empty() -> (r: Self)
        ensures
            r@ == Seq::<char>::empty(),
    {
        GraphemeCluster { text: String::new() }
    }

    /// A single space character.
    pub fn space() -> (r: Self)
        ensures
            r@ == seq![' '],
    {
        let mut text = String::new();
        string_push(&mut text, ' ');
        GraphemeCluster { text }
    }

    /// A cluster of `n` spaces, the stand-in for a tab character.
    pub(crate) fn spaces(n: usize) -> (r: Self)
        ensures
            r@ == Seq::new(n as nat, |i: int| ' '),
    {
        let mut text = String::new();
        let mut i: usize = 0;
        while i < n
            invariant
                i <= n,
                text@ == Seq::new(i as nat, |k: int| ' '),
            decreases n - i,
        {
            string_push(&mut text, ' ');
            i = i + 1;
            assert(text@ =~= Seq::new(i as nat, |k: int| ' '));
        }
        GraphemeCluster { text }
    }

    /// Append the zero-width cluster `other` (such as a lone combining mark) to this one.
    pub fn merge_zero_width(&mut self, other: Self)
        requires
            spec_cluster_width(other@) == 0,
        ensures
            final(self)@ == old(self)@ + other@,
    {
        string_push_str(&mut self.text, other.text.as_str());
    }

    /// Replace the cluster with a single space.
    pub fn clear(&mut self)
        ensures
            final(self)@ == seq![' '],
    {
        *self = Self::space();
    }

    /// The display width of the cluster.
    pub fn width(&self) -> (r: usize)
        ensures
            r == spec_cluster_width(self@),
            self@.len() == 0 ==> r == 0,
            spec_printable_ascii(self@) ==> r == self@.len(),
            self@ == seq![' '] ==> r == 1,
    {
        let r = str_width(self.text.as_str());
        proof {
            if self@ == seq![' '] {
                assert(self@[0] == ' ');
            }
        }
        r
    }

    /// All grapheme clusters of the text, in order.
    pub fn all_from_str(text: &str) -> (r: Vec<GraphemeCluster>)
        ensures
            r@.len() == spec_graphemes(text@).len(),
            forall|i: int| 0 <= i < r@.len() ==> #[trigger] r@[i]@ == spec_graphemes(text@)[i],
            spec_graphemes(text@).flatten() == text@,
            forall|i: int| 0 <= i < spec_graphemes(text@).len() ==> #[trigger] spec_graphemes(text@)[i].len() > 0,
    {
        let parts = graphemes(text);
        let mut r: Vec<GraphemeCluster> = Vec::new();
        let mut i: usize = 0;
        while i < parts.len()
            invariant
                i <= parts@.len(),
                parts.deep_view() == spec_graphemes(text@),
                r@.len() == i,
                forall|k: int| 0 <= k < i ==> #[trigger] r@[k]@ == parts@[k]@,
            decreases parts.len() - i,
        {
            r.push(GraphemeCluster::from_str_unchecked(parts[i].as_str()));
            i = i + 1;
        }
        proof {
            assert forall|k: int| 0 <= k < r@.len() implies #[trigger] r@[k]@ == spec_graphemes(text@)[k] by {
                assert(parts.deep_view()[k] == parts@[k]@);
            }
            assert forall|k: int| 0 <= k < spec_graphemes(text@).len() implies #[trigger] spec_graphemes(
                text@,
            )[k].len() > 0 by {
                assert(parts.deep_view()[k] == parts@[k]@);
            }
        }
        r
    }

    /// The single grapheme cluster that the text consists of, or why there is not exactly one.
    pub fn from_str(text: &str) -> (r: Result<GraphemeCluster, GraphemeClusterError>)
        ensures
            spec_graphemes(text@).flatten() == text@,
            forall|i: int| 0 <= i < spec_graphemes(text@).len() ==> #[trigger] spec_graphemes(text@)[i].len() > 0,
            spec_graphemes(text@).len() == 1 ==> (r matches Ok(g) && g@ == spec_graphemes(text@)[0]),
            spec_graphemes(text@).len() == 0 ==> r == Err::<GraphemeCluster, _>(GraphemeClusterError::NoGraphemeCluster),
            spec_graphemes(text@).len() > 1 ==> r == Err::<GraphemeCluster, _>(GraphemeClusterError::MultipleGraphemeClusters),
    {
        let mut all = Self::all_from_str(text);
        if all.len() == 0 {
            Err(GraphemeClusterError::NoGraphemeCluster)
        } else if all.len() == 1 {
            let g = all.pop().unwrap();
            Ok(g)
        } else {
            Err(GraphemeClusterError::MultipleGraphemeClusters)
        }
    }

    /// The cluster that consists of the char `c` (a single char always forms one cluster).
    pub fn try_from(c: char) -> (r: Result<GraphemeCluster, GraphemeClusterError>)
        ensures
            r matches Ok(g) && g@ == seq![c],
    {
        let mut text = String::new();
        string_push(&mut text, c);
        assert(text@ =~= seq![c]);
        let r = Self::from_str(text.as_str());
        proof {
            lemma_single_char_is_one_cluster(spec_graphemes(seq![c]), c);
        }
        r
    }
}

/// Clusters that are non-empty and give a single char when concatenated are that char, alone.
proof fn lemma_single_char_is_one_cluster(gs: Seq<Seq<char>>, c: char)
    requires
        gs.flatten() == seq![c],
        forall|i: int| 0 <= i < gs.len() ==> #[trigger] gs[i].len() > 0,
    ensures
        gs.len() == 1,
        gs[0] == seq![c],
{
    if gs.len() == 0 {
        assert(gs.flatten() =~= Seq::<char>::empty());
        assert(seq![c].len() == 1);
    } else {
        lemma_flatten_split(gs, 1);
        lemma_flatten_take_next(gs, 0);
        assert(gs.take(0) =~= Seq::<Seq<char>>::empty());
        assert(gs.take(0).flatten() =~= Seq::<char>::empty());
        assert(gs.take(1).flatten() =~= gs[0]);
        if gs.len() > 1 {
            let rest = gs.skip(1);
            lemma_flatten_split(rest, 1);
            lemma_flatten_take_next(rest, 0);
            assert(rest.take(0) =~= Seq::<Seq<char>>::empty());
            assert(rest.take(0).flatten() =~= Seq::<char>::empty());
            assert(rest[0] == gs[1]);
            assert(rest.take(1).flatten() =~= rest[0]);
            assert(rest.flatten().len() >= rest[0].len());
            assert(gs.flatten().len() == gs[0].len() + rest.flatten().len());
            assert(gs[0].len() + gs[1].len() <= 1);
        }
        assert(gs[0] =~= seq![c]);
    }
}

} // verus!
