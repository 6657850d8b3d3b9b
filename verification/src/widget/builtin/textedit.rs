//! A user-editable region of text, with a cursor that moves by grapheme clusters, words,
//! sentences and lines.
use crate::widget::builtin::rope_text::{
    line_begin, line_end, next_boundary, prev_boundary, rope_char_to_line, rope_insert, rope_len_chars,
    rope_len_lines, rope_line_to_char, rope_new, rope_remove, rope_slice_string, rope_from_str, rope_text,
    lemma_line_start_from_bounds, lemma_line_of_mono,
    spec_line_begin, spec_line_end, spec_line_of, spec_line_start, spec_next_boundary, spec_num_lines, spec_pos,
    spec_prev_boundary,
};
use crate::base::basic_types::{AxisIndex, ColIndex, Height, PositiveAxisDiff, RowIndex, Width};
use crate::base::cursor::{
    spec_cells_of, spec_checked_write, spec_has_of, spec_with_pos, spec_write_rows, spec_write_styled_parts, Cursor,
    CursorState,
};
use crate::base::style::{BoolModifyMode, Style, StyleModifier, TextFormatModifier};
use crate::base::window::{spec_same_frame, CursorTarget};
use crate::input::{Editable, Navigatable, OperationResult, Writable};
use crate::widget::builtin::lineedit::format_only;
use crate::widget::text::{spec_str_width, str_width};
use crate::widget::widget::{Blink, Demand, Demand2D, RenderingHints};
use crate::widget::text::{byte_len, str_byte_len, string_push};
use ropey::Rope;
use vstd::prelude::*;
use vstd::string::StrSliceExecFns;

verus! {

/// A part of a text that the cursor can be moved to.
#[derive(Copy, Clone, Debug, PartialEq, Eq, Structural)]
pub enum TextElement {
    /// The current cursor position.
    CurrentPosition,
    /// The first character of a WORD (delimited by whitespace).
    WORDBegin,
    /// The last character of a WORD.
    WORDEnd,
    /// The first character of a word (delimited by whitespace and punctuation).
    WordBegin,
    /// The last character of a word.
    WordEnd,
    /// Roughly, a single "character".
    GraphemeCluster,
    /// Beginning or end of the line.
    LineSeparator,
    /// Beginning or end of the document.
    DocumentBoundary,
    /// First character of a sentence.
    Sentence,
}

/// The direction of a text target relative to the cursor.
#[derive(Copy, Clone, Debug, PartialEq, Eq, Structural)]
pub enum Direction {
    Forward,
    Backward,
}

/// A text location relative to the cursor: the `count`'th occurrence of an element in a
/// direction.
#[derive(Copy, Clone, Debug, PartialEq, Eq, Structural)]
pub struct TextTarget {
    element: TextElement,
    direction: Direction,
    count: usize,
}

impl TextTarget {
    /// The element of the target.
    pub closed spec fn spec_element(self) -> TextElement {
        self.element
    }

    /// The direction of the target.
    pub closed spec fn spec_direction(self) -> Direction {
        self.direction
    }

    /// How many occurrences of the element the target lies away.
    pub closed spec fn spec_count(self) -> nat {
        self.count as nat
    }

    /// The first occurrence of `element` after the cursor.
    pub fn forward(element: TextElement) -> (r: Self)
        ensures
            r.spec_element() == element,
            r.spec_direction() == Direction::Forward,
            r.spec_count() == 1,
    {
        TextTarget { element, direction: Direction::Forward, count: 1 }
    }

    /// The first occurrence of `element` before the cursor.
    pub fn backward(element: TextElement) -> (r: Self)
        ensures
            r.spec_element() == element,
            r.spec_direction() == Direction::Backward,
            r.spec_count() == 1,
    {
        TextTarget { element, direction: Direction::Backward, count: 1 }
    }

    /// Exactly the cursor position.
    pub fn cursor() -> (r: Self)
        ensures
            r.spec_element() == TextElement::CurrentPosition,
            r.spec_direction() == Direction::Forward,
            r.spec_count() == 0,
    {
        TextTarget { element: TextElement::CurrentPosition, direction: Direction::Forward, count: 0 }
    }

    /// Refer to the `n`'th instead of the first occurrence.
    pub fn nth(self, n: usize) -> (r: Self)
        ensures
            r.spec_element() == self.spec_element(),
            r.spec_direction() == self.spec_direction(),
            r.spec_count() == n,
    {
        TextTarget { count: n, ..self }
    }

    /// The element of the target.
    pub fn element(&self) -> (r: TextElement)
        ensures
            r == self.spec_element(),
    {
        self.element
    }

    /// The direction of the target.
    pub fn direction(&self) -> (r: Direction)
        ensures
            r == self.spec_direction(),
    {
        self.direction
    }

    /// How many occurrences of the element the target lies away.
    pub fn count(&self) -> (r: usize)
        ensures
            r == self.spec_count(),
    {
        self.count
    }
}


/// How a grapheme cluster counts for word motions.
#[derive(Copy, Clone, Debug, PartialEq, Eq, Structural)]
pub enum ClusterType {
    /// Part of a word: alphanumeric, or an underscore.
    Keyword,
    /// A space, a newline or a tab.
    Whitespace,
    /// Anything else, such as punctuation.
    Other,
}

/// Whether a char is alphabetic or numeric, as `char::is_alphanumeric` tells.
pub uninterp spec fn spec_is_alphanumeric(c: char) -> bool;

/// `char::is_alphanumeric`. Claimed: the result is the property named `spec_is_alphanumeric`.
#[verifier::external_body]
fn is_alphanumeric(c: char) -> (r: bool)
    ensures
        r == spec_is_alphanumeric(c),
{
    c.is_alphanumeric()
}

/// The type of a cluster: a space, newline or tab is whitespace; an underscore, and a cluster
/// of alphanumeric chars only, is part of a word; anything else is other.
pub open spec fn spec_classify(s: Seq<char>) -> ClusterType {
    if s == seq![' '] || s == seq!['\n'] || s == seq!['\t'] {
        ClusterType::Whitespace
    } else if s == seq!['_'] {
        ClusterType::Keyword
    } else if forall|i: int| 0 <= i < s.len() ==> spec_is_alphanumeric(#[trigger] s[i]) {
        ClusterType::Keyword
    } else {
        ClusterType::Other
    }
}

fn classify(s: &str) -> (r: ClusterType)
    ensures
        r == spec_classify(s@),
{
    let n = s.unicode_len();
    if n == 1 {
        let c = s.get_char(0);
        proof {
            assert(s@ =~= seq![c]);
        }
        if c == ' ' || c == '\n' || c == '\t' {
            return ClusterType::Whitespace;
        }
        if c == '_' {
            return ClusterType::Keyword;
        }
        proof {
            assert(seq![c][0] != seq![' '][0]);
            assert(seq![c][0] != seq!['\n'][0]);
            assert(seq![c][0] != seq!['\t'][0]);
            assert(seq![c][0] != seq!['_'][0]);
        }
    } else {
        proof {
            assert(s@.len() != seq![' '].len());
            assert(s@.len() != seq!['\n'].len());
            assert(s@.len() != seq!['\t'].len());
            assert(s@.len() != seq!['_'].len());
        }
    }
    let mut i: usize = 0;
    while i < n
        invariant
            n == s@.len(),
            s@ != seq![' '] && s@ != seq!['\n'] && s@ != seq!['\t'] && s@ != seq!['_'],
            i <= n,
            forall|j: int| 0 <= j < i ==> spec_is_alphanumeric(#[trigger] s@[j]),
        decreases n - i,
    {
        let c = s.get_char(i);
        if !is_alphanumeric(c) {
            proof {
                assert(!spec_is_alphanumeric(s@[i as int]));
                if n == 1 {
                    assert(s@ =~= seq![c]);
                }
            }
            return ClusterType::Other;
        }
        i = i + 1;
    }
    ClusterType::Keyword
}

/// The cluster with a tab taken for a space (every other cluster as it is).
pub open spec fn spec_tab_as_space(s: Seq<char>) -> Seq<char> {
    if s == seq!['\t'] {
        seq![' ']
    } else {
        s
    }
}

/// The kinds of neighbouring cluster pairs that word and sentence motions look for.
#[derive(Copy, Clone, Debug, PartialEq, Eq, Structural)]
pub enum PairKind {
    /// Whitespace, then something else.
    BigWordBegin,
    /// The start of a word or of a run of other clusters.
    WordBegin,
    /// Something else, then whitespace.
    BigWordEnd,
    /// The end of a word or of a run of other clusters.
    WordEnd,
    /// A full stop, then whitespace.
    SentenceBoundary,
}

/// Whether the neighbouring clusters `left` and `right` are a pair of `kind`.
pub open spec fn spec_pair_matches(kind: PairKind, left: Seq<char>, right: Seq<char>) -> bool {
    let l = spec_classify(left);
    let r = spec_classify(right);
    match kind {
        PairKind::BigWordBegin => l == ClusterType::Whitespace && r != ClusterType::Whitespace,
        PairKind::WordBegin => (l == ClusterType::Whitespace && r != ClusterType::Whitespace) || (l
            == ClusterType::Keyword && r == ClusterType::Other) || (l == ClusterType::Other && r
            == ClusterType::Keyword),
        PairKind::BigWordEnd => l != ClusterType::Whitespace && r == ClusterType::Whitespace,
        PairKind::WordEnd => (l != ClusterType::Whitespace && r == ClusterType::Whitespace) || (l
            == ClusterType::Keyword && r == ClusterType::Other) || (l == ClusterType::Other && r
            == ClusterType::Keyword),
        PairKind::SentenceBoundary => left == seq!['.'] && r == ClusterType::Whitespace,
    }
}

/// The cluster classes: a single space, newline or tab is whitespace and nothing else is; an
/// underscore is part of a word; any other single char is part of a word exactly where it is
/// alphanumeric; a cluster of several chars is part of a word exactly where all its chars are
/// alphanumeric.
pub proof fn law_cluster_classes(c: char, s: Seq<char>)
    ensures
        spec_classify(seq![' ']) == ClusterType::Whitespace,
        spec_classify(seq!['\n']) == ClusterType::Whitespace,
        spec_classify(seq!['_']) == ClusterType::Keyword,
        (c != ' ' && c != '\n' && c != '\t' && c != '_') ==> (spec_classify(seq![c]) == ClusterType::Keyword
            <==> spec_is_alphanumeric(c)),
        (c != ' ' && c != '\n' && c != '\t') ==> spec_classify(seq![c]) != ClusterType::Whitespace,
        s.len() > 1 ==> spec_classify(s) != ClusterType::Whitespace,
        s.len() > 1 ==> (spec_classify(s) == ClusterType::Keyword <==> forall|i: int|
            0 <= i < s.len() ==> spec_is_alphanumeric(#[trigger] s[i])),
{
    assert(seq!['_'][0] != seq![' '][0]);
    assert(seq!['_'][0] != seq!['\n'][0]);
    assert(seq!['_'][0] != seq!['\t'][0]);
    assert(seq![' '][0] != seq!['\n'][0]);
    if c != ' ' && c != '\n' && c != '\t' {
        assert(seq![c][0] != seq![' '][0]);
        assert(seq![c][0] != seq!['\n'][0]);
        assert(seq![c][0] != seq!['\t'][0]);
        if c != '_' {
            assert(seq![c][0] != seq!['_'][0]);
            if spec_is_alphanumeric(c) {
                assert(forall|i: int| 0 <= i < seq![c].len() ==> spec_is_alphanumeric(#[trigger] seq![c][i]));
            } else {
                assert(!spec_is_alphanumeric(seq![c][0]));
            }
        }
    }
    if s.len() > 1 {
        assert(s.len() != seq![' '].len());
        assert(s.len() != seq!['\n'].len());
        assert(s.len() != seq!['\t'].len());
        assert(s.len() != seq!['_'].len());
    }
}

/// A tab is whitespace, like a space and a newline: word, WORD and sentence motions see no
/// difference between a tab and a space, on either side of any pair of neighbouring clusters.
pub proof fn law_tab_is_whitespace(kind: PairKind, left: Seq<char>, right: Seq<char>)
    ensures
        spec_classify(seq!['\t']) == ClusterType::Whitespace,
        spec_classify(seq!['\t']) == spec_classify(seq![' ']),
        spec_classify(seq!['\t']) == spec_classify(seq!['\n']),
        spec_pair_matches(kind, spec_tab_as_space(left), spec_tab_as_space(right)) == spec_pair_matches(
            kind,
            left,
            right,
        ),
{
    assert(seq!['\t'][0] != seq![' '][0]);
    assert(seq!['\t'][0] != seq!['\n'][0]);
    assert(seq!['\t'][0] != seq!['_'][0]);
    assert(seq![' '][0] != seq!['_'][0]);
    assert(seq![' '][0] != seq!['.'][0]);
    assert(seq!['\t'][0] != seq!['.'][0]);
}

/// Whether a motion to a pair of `kind` ends at the left cluster (otherwise at the right one).
pub open spec fn spec_takes_left(kind: PairKind) -> bool {
    kind == PairKind::BigWordEnd || kind == PairKind::WordEnd || kind == PairKind::SentenceBoundary
}

fn pair_matches(kind: PairKind, left: &str, right: &str) -> (r: bool)
    ensures
        r == spec_pair_matches(kind, left@, right@),
{
    let l = classify(left);
    let r = classify(right);
    match kind {
        PairKind::BigWordBegin => l == ClusterType::Whitespace && r != ClusterType::Whitespace,
        PairKind::WordBegin => (l == ClusterType::Whitespace && r != ClusterType::Whitespace) || (l
            == ClusterType::Keyword && r == ClusterType::Other) || (l == ClusterType::Other && r
            == ClusterType::Keyword),
        PairKind::BigWordEnd => l != ClusterType::Whitespace && r == ClusterType::Whitespace,
        PairKind::WordEnd => (l != ClusterType::Whitespace && r == ClusterType::Whitespace) || (l
            == ClusterType::Keyword && r == ClusterType::Other) || (l == ClusterType::Other && r
            == ClusterType::Keyword),
        PairKind::SentenceBoundary => {
            let is_dot = left.unicode_len() == 1 && left.get_char(0) == '.';
            proof {
                if left@.len() == 1 {
                    assert(left@ =~= seq![left@[0]]);
                }
                if left@ == seq!['.'] {
                    assert(left@[0] == '.');
                }
            }
            is_dot && r == ClusterType::Whitespace
        },
    }
}

/// Scanning forward over neighbouring cluster pairs of `t`, the left one from `p_left` to
/// `p_middle`, the right one from `p_middle` to the next boundary, then on from there: where the
/// first pair of `kind` lies (at most `steps` pairs are looked at).
pub open spec fn spec_find_fwd(t: Seq<char>, kind: PairKind, p_left: int, p_middle: int, steps: nat) -> Option<int>
    decreases steps,
{
    if steps == 0 {
        None
    } else {
        match spec_next_boundary(t, p_middle) {
            None => None,
            Some(p_right) => if spec_pair_matches(kind, t.subrange(p_left, p_middle), t.subrange(p_middle, p_right)) {
                Some(
                    if spec_takes_left(kind) {
                        p_left
                    } else {
                        p_middle
                    },
                )
            } else {
                spec_find_fwd(t, kind, p_middle, p_right, (steps - 1) as nat)
            },
        }
    }
}

/// Scanning backward over neighbouring cluster pairs of `t`, the left one from the previous
/// boundary to `p_middle`, the right one from `p_middle` to `p_right`, then on from there: where
/// the first pair of `kind` lies (at most `steps` pairs are looked at).
pub open spec fn spec_find_bwd(t: Seq<char>, kind: PairKind, p_middle: int, p_right: int, steps: nat) -> Option<int>
    decreases steps,
{
    if steps == 0 {
        None
    } else {
        match spec_prev_boundary(t, p_middle) {
            None => None,
            Some(p_left) => if spec_pair_matches(kind, t.subrange(p_left, p_middle), t.subrange(p_middle, p_right)) {
                Some(
                    if spec_takes_left(kind) {
                        p_left
                    } else {
                        p_middle
                    },
                )
            } else {
                spec_find_bwd(t, kind, p_left, p_middle, (steps - 1) as nat)
            },
        }
    }
}

fn find_fwd(r: &Rope, kind: PairKind, p_left0: usize, p_middle0: usize) -> (res: Option<usize>)
    requires
        p_left0 <= p_middle0 <= rope_text(*r).len(),
    ensures
        spec_pos(res) == spec_find_fwd(rope_text(*r), kind, p_left0 as int, p_middle0 as int, rope_text(*r).len()),
        res matches Some(e) ==> e <= rope_text(*r).len(),
{
    let ghost t = rope_text(*r);
    let mut p_left = p_left0;
    let mut p_middle = p_middle0;
    let ghost mut steps: nat = t.len();
    loop
        invariant
            t == rope_text(*r),
            p_left <= p_middle <= t.len(),
            steps >= t.len() - p_middle,
            spec_find_fwd(t, kind, p_left as int, p_middle as int, steps) == spec_find_fwd(
                t,
                kind,
                p_left0 as int,
                p_middle0 as int,
                t.len(),
            ),
        decreases t.len() - p_middle,
    {
        match next_boundary(r, p_middle) {
            None => {
                return None;
            },
            Some(p_right) => {
                let left = rope_slice_string(r, p_left, p_middle);
                let right = rope_slice_string(r, p_middle, p_right);
                if pair_matches(kind, left.as_str(), right.as_str()) {
                    let takes_left = kind == PairKind::BigWordEnd || kind == PairKind::WordEnd || kind
                        == PairKind::SentenceBoundary;
                    if takes_left {
                        return Some(p_left);
                    } else {
                        return Some(p_middle);
                    }
                }
                proof {
                    steps = (steps - 1) as nat;
                }
                p_left = p_middle;
                p_middle = p_right;
            },
        }
    }
}

fn find_bwd(r: &Rope, kind: PairKind, p_middle0: usize, p_right0: usize) -> (res: Option<usize>)
    requires
        p_middle0 <= p_right0 <= rope_text(*r).len(),
    ensures
        spec_pos(res) == spec_find_bwd(rope_text(*r), kind, p_middle0 as int, p_right0 as int, rope_text(*r).len()),
        res matches Some(e) ==> e <= rope_text(*r).len(),
{
    let ghost t = rope_text(*r);
    let mut p_middle = p_middle0;
    let mut p_right = p_right0;
    let ghost mut steps: nat = t.len();
    loop
        invariant
            t == rope_text(*r),
            p_middle <= p_right <= t.len(),
            steps >= p_middle,
            spec_find_bwd(t, kind, p_middle as int, p_right as int, steps) == spec_find_bwd(
                t,
                kind,
                p_middle0 as int,
                p_right0 as int,
                t.len(),
            ),
        decreases p_middle,
    {
        match prev_boundary(r, p_middle) {
            None => {
                return None;
            },
            Some(p_left) => {
                let left = rope_slice_string(r, p_left, p_middle);
                let right = rope_slice_string(r, p_middle, p_right);
                if pair_matches(kind, left.as_str(), right.as_str()) {
                    let takes_left = kind == PairKind::BigWordEnd || kind == PairKind::WordEnd || kind
                        == PairKind::SentenceBoundary;
                    if takes_left {
                        return Some(p_left);
                    } else {
                        return Some(p_middle);
                    }
                }
                proof {
                    steps = (steps - 1) as nat;
                }
                p_right = p_middle;
                p_middle = p_left;
            },
        }
    }
}

/// The first boundary after `p`, or `p` itself where there is none.
pub open spec fn spec_next_or(t: Seq<char>, p: int) -> int {
    match spec_next_boundary(t, p) {
        Some(e) => e,
        None => p,
    }
}

/// The first boundary after `p`, or the end of `t` where there is none.
pub open spec fn spec_next_or_end(t: Seq<char>, p: int) -> int {
    match spec_next_boundary(t, p) {
        Some(e) => e,
        None => t.len() as int,
    }
}

/// Where the next `elm` after `begin` lies, if there is one: the next cluster boundary; the
/// start or end of the next (big) word; the start of the big word after the next sentence end;
/// the end of the line; the end of the text.
pub open spec fn spec_next_element_pos(t: Seq<char>, begin: int, elm: TextElement) -> Option<int> {
    let n = t.len();
    match elm {
        TextElement::CurrentPosition => Some(begin),
        TextElement::GraphemeCluster => spec_next_boundary(t, begin),
        TextElement::WORDBegin => match spec_next_boundary(t, begin) {
            Some(m) => spec_find_fwd(t, PairKind::BigWordBegin, begin, m, n),
            None => None,
        },
        TextElement::WordBegin => match spec_next_boundary(t, begin) {
            Some(m) => spec_find_fwd(t, PairKind::WordBegin, begin, m, n),
            None => None,
        },
        TextElement::WORDEnd => match spec_next_boundary(t, begin) {
            Some(m) => match spec_next_boundary(t, m) {
                Some(r) => match spec_find_fwd(t, PairKind::BigWordEnd, m, r, n) {
                    Some(p) => Some(p),
                    None => spec_prev_boundary(t, n as int),
                },
                None => None,
            },
            None => None,
        },
        TextElement::WordEnd => match spec_next_boundary(t, begin) {
            Some(m) => match spec_next_boundary(t, m) {
                Some(r) => match spec_find_fwd(t, PairKind::WordEnd, m, r, n) {
                    Some(p) => Some(p),
                    None => spec_prev_boundary(t, n as int),
                },
                None => None,
            },
            None => None,
        },
        TextElement::Sentence => match spec_next_boundary(t, begin) {
            Some(m) => match spec_find_fwd(t, PairKind::SentenceBoundary, begin, m, n) {
                Some(p) => match spec_next_boundary(t, p) {
                    Some(m2) => spec_find_fwd(t, PairKind::BigWordBegin, p, m2, n),
                    None => None,
                },
                None => None,
            },
            None => None,
        },
        TextElement::LineSeparator => Some(spec_line_end(t, begin)),
        TextElement::DocumentBoundary => Some(n as int),
    }
}

/// Where the previous `elm` before `begin` lies, if there is one (see `spec_next_element_pos`;
/// a sentence starts at the big word after the end of the sentence before).
pub open spec fn spec_prev_element_pos(t: Seq<char>, begin: int, elm: TextElement) -> Option<int> {
    let n = t.len();
    match elm {
        TextElement::CurrentPosition => Some(begin),
        TextElement::GraphemeCluster => spec_prev_boundary(t, begin),
        TextElement::WORDBegin => match spec_prev_boundary(t, begin) {
            Some(q) => spec_find_bwd(t, PairKind::BigWordBegin, q, begin, n),
            None => None,
        },
        TextElement::WordBegin => match spec_prev_boundary(t, begin) {
            Some(q) => spec_find_bwd(t, PairKind::WordBegin, q, begin, n),
            None => None,
        },
        TextElement::WORDEnd => spec_find_bwd(t, PairKind::BigWordEnd, begin, spec_next_or(t, begin), n),
        TextElement::WordEnd => spec_find_bwd(t, PairKind::WordEnd, begin, spec_next_or(t, begin), n),
        TextElement::Sentence => match spec_prev_boundary(t, begin) {
            Some(q) => match spec_find_bwd(t, PairKind::BigWordBegin, q, begin, n) {
                Some(p1) => match spec_find_bwd(t, PairKind::SentenceBoundary, p1, spec_next_or(t, p1), n) {
                    Some(p2) => match spec_next_boundary(t, p2) {
                        Some(m) => spec_find_fwd(t, PairKind::BigWordBegin, p2, m, n),
                        None => None,
                    },
                    None => None,
                },
                None => None,
            },
            None => None,
        },
        TextElement::LineSeparator => Some(spec_line_begin(t, begin)),
        TextElement::DocumentBoundary => Some(0),
    }
}

/// The next `elm` after `begin` (the end of the text where there is none), and whether that
/// moves away from `begin`.
pub open spec fn spec_next_element(t: Seq<char>, begin: int, elm: TextElement) -> (int, bool) {
    let p = match spec_next_element_pos(t, begin, elm) {
        Some(p) => p,
        None => t.len() as int,
    };
    (p, p != begin)
}

/// The previous `elm` before `begin` (the start of the text where there is none), and whether
/// that moves away from `begin`.
pub open spec fn spec_prev_element(t: Seq<char>, begin: int, elm: TextElement) -> (int, bool) {
    let p = match spec_prev_element_pos(t, begin, elm) {
        Some(p) => p,
        None => 0,
    };
    (p, p != begin)
}

/// Moving from `pos` to the element of `target`, with `i` of its steps done: where that ends,
/// and whether it succeeded (a step that does not move ends the motion; it fails only where it
/// is the first one).
pub open spec fn spec_resolve_from(t: Seq<char>, pos: int, target: TextTarget, i: nat) -> (int, bool)
    decreases target.spec_count() - i,
{
    if i >= target.spec_count() {
        (pos, true)
    } else {
        let (p, ok) = if target.spec_direction() == Direction::Forward {
            spec_next_element(t, pos, target.spec_element())
        } else {
            spec_prev_element(t, pos, target.spec_element())
        };
        if ok {
            spec_resolve_from(t, p, target, i + 1)
        } else {
            (p, i != 0)
        }
    }
}

/// Where the element of `target` lies as seen from `pos`, and whether reaching it succeeds.
pub open spec fn spec_resolve(t: Seq<char>, pos: int, target: TextTarget) -> (int, bool) {
    spec_resolve_from(t, pos, target, 0)
}

fn next_or(r: &Rope, p: usize) -> (res: usize)
    requires
        p <= rope_text(*r).len(),
    ensures
        res == spec_next_or(rope_text(*r), p as int),
        p <= res <= rope_text(*r).len(),
{
    match next_boundary(r, p) {
        Some(e) => e,
        None => p,
    }
}

fn next_element(r: &Rope, begin: usize, elm: TextElement) -> (res: (usize, bool))
    requires
        begin <= rope_text(*r).len(),
    ensures
        (res.0 as int, res.1) == spec_next_element(rope_text(*r), begin as int, elm),
        res.0 <= rope_text(*r).len(),
{
    let n = rope_len_chars(r);
    let p: Option<usize> = match elm {
        TextElement::CurrentPosition => Some(begin),
        TextElement::GraphemeCluster => next_boundary(r, begin),
        TextElement::WORDBegin => match next_boundary(r, begin) {
            Some(m) => find_fwd(r, PairKind::BigWordBegin, begin, m),
            None => None,
        },
        TextElement::WordBegin => match next_boundary(r, begin) {
            Some(m) => find_fwd(r, PairKind::WordBegin, begin, m),
            None => None,
        },
        TextElement::WORDEnd => match next_boundary(r, begin) {
            Some(m) => match next_boundary(r, m) {
                Some(rt) => match find_fwd(r, PairKind::BigWordEnd, m, rt) {
                    Some(p) => Some(p),
                    None => prev_boundary(r, n),
                },
                None => None,
            },
            None => None,
        },
        TextElement::WordEnd => match next_boundary(r, begin) {
            Some(m) => match next_boundary(r, m) {
                Some(rt) => match find_fwd(r, PairKind::WordEnd, m, rt) {
                    Some(p) => Some(p),
                    None => prev_boundary(r, n),
                },
                None => None,
            },
            None => None,
        },
        TextElement::Sentence => match next_boundary(r, begin) {
            Some(m) => match find_fwd(r, PairKind::SentenceBoundary, begin, m) {
                Some(p) => match next_boundary(r, p) {
                    Some(m2) => find_fwd(r, PairKind::BigWordBegin, p, m2),
                    None => None,
                },
                None => None,
            },
            None => None,
        },
        TextElement::LineSeparator => Some(line_end(r, begin)),
        TextElement::DocumentBoundary => Some(n),
    };
    proof {
        assert(spec_pos(p) == spec_next_element_pos(rope_text(*r), begin as int, elm));
    }
    let p = match p {
        Some(p) => p,
        None => n,
    };
    (p, p != begin)
}

fn prev_element(r: &Rope, begin: usize, elm: TextElement) -> (res: (usize, bool))
    requires
        begin <= rope_text(*r).len(),
    ensures
        (res.0 as int, res.1) == spec_prev_element(rope_text(*r), begin as int, elm),
        res.0 <= rope_text(*r).len(),
{
    let p: Option<usize> = match elm {
        TextElement::CurrentPosition => Some(begin),
        TextElement::GraphemeCluster => prev_boundary(r, begin),
        TextElement::WORDBegin => match prev_boundary(r, begin) {
            Some(q) => find_bwd(r, PairKind::BigWordBegin, q, begin),
            None => None,
        },
        TextElement::WordBegin => match prev_boundary(r, begin) {
            Some(q) => find_bwd(r, PairKind::WordBegin, q, begin),
            None => None,
        },
        TextElement::WORDEnd => find_bwd(r, PairKind::BigWordEnd, begin, next_or(r, begin)),
        TextElement::WordEnd => find_bwd(r, PairKind::WordEnd, begin, next_or(r, begin)),
        TextElement::Sentence => match prev_boundary(r, begin) {
            Some(q) => match find_bwd(r, PairKind::BigWordBegin, q, begin) {
                Some(p1) => match find_bwd(r, PairKind::SentenceBoundary, p1, next_or(r, p1)) {
                    Some(p2) => match next_boundary(r, p2) {
                        Some(m) => find_fwd(r, PairKind::BigWordBegin, p2, m),
                        None => None,
                    },
                    None => None,
                },
                None => None,
            },
            None => None,
        },
        TextElement::LineSeparator => Some(line_begin(r, begin)),
        TextElement::DocumentBoundary => Some(0),
    };
    proof {
        assert(spec_pos(p) == spec_prev_element_pos(rope_text(*r), begin as int, elm));
    }
    let p = match p {
        Some(p) => p,
        None => 0,
    };
    (p, p != begin)
}

fn resolve_target(r: &Rope, begin: usize, target: TextTarget) -> (res: (usize, bool))
    requires
        begin <= rope_text(*r).len(),
    ensures
        (res.0 as int, res.1) == spec_resolve(rope_text(*r), begin as int, target),
        res.0 <= rope_text(*r).len(),
{
    let ghost t = rope_text(*r);
    let count = target.count();
    let mut pos = begin;
    let mut i: usize = 0;
    while i < count
        invariant
            t == rope_text(*r),
            count == target.spec_count(),
            i <= count,
            pos <= t.len(),
            spec_resolve_from(t, pos as int, target, i as nat) == spec_resolve(t, begin as int, target),
        decreases count - i,
    {
        let (p, ok) = if target.direction() == Direction::Forward {
            next_element(r, pos, target.element())
        } else {
            prev_element(r, pos, target.element())
        };
        if !ok {
            return (p, i != 0);
        }
        pos = p;
        i = i + 1;
    }
    (pos, true)
}

/// One end of a range of text, given by a target relative to the cursor.
#[derive(Copy, Clone, Debug, PartialEq, Eq, Structural)]
pub enum TextBound {
    /// The start (for the start of a range) or end (for its end) of the text.
    Unbounded,
    /// The cluster at the target's position is part of the range.
    Included(TextTarget),
    /// The cluster at the target's position is not part of the range.
    Excluded(TextTarget),
}

/// The range of `t` from `start` to `end`, as seen from the cursor at `c`.
pub open spec fn spec_range(t: Seq<char>, c: int, start: TextBound, end: TextBound) -> (int, int) {
    let s = match start {
        TextBound::Included(tt) => spec_resolve(t, c, tt).0,
        TextBound::Excluded(tt) => spec_next_or_end(t, spec_resolve(t, c, tt).0),
        TextBound::Unbounded => 0,
    };
    let e = match end {
        TextBound::Included(tt) => spec_next_or_end(t, spec_resolve(t, c, tt).0),
        TextBound::Excluded(tt) => spec_resolve(t, c, tt).0,
        TextBound::Unbounded => t.len() as int,
    };
    (s, e)
}

/// The number of steps from boundary to boundary that lead from `a` exactly to `b` (`None` where
/// they step over `b`; at most `fuel` steps).
pub open spec fn spec_count_steps(t: Seq<char>, a: int, b: int, fuel: nat) -> Option<nat>
    decreases fuel,
{
    if a >= b {
        if a == b {
            Some(0)
        } else {
            None
        }
    } else if fuel == 0 {
        None
    } else {
        match spec_next_boundary(t, a) {
            None => None,
            Some(a2) => match spec_count_steps(t, a2, b, (fuel - 1) as nat) {
                Some(k) => Some(k + 1),
                None => None,
            },
        }
    }
}

/// Where `k` steps from boundary to boundary lead from `a`, if there are that many.
pub open spec fn spec_steps_forward(t: Seq<char>, a: int, k: nat) -> Option<int>
    decreases k,
{
    if k == 0 {
        Some(a)
    } else {
        match spec_next_boundary(t, a) {
            None => None,
            Some(a2) => spec_steps_forward(t, a2, (k - 1) as nat),
        }
    }
}

/// Moving the cursor at `c` to line `l`: to as many clusters after the line's start as it
/// stood after the start of its own line (at most to the line's end); `None` where the cursor
/// does not stand on a boundary that stepping from its line's start reaches.
pub open spec fn spec_move_to_line(t: Seq<char>, c: int, l: nat) -> Option<int> {
    match spec_count_steps(t, spec_line_begin(t, c), c, t.len()) {
        None => None,
        Some(pos_in_line) => {
            let lb = spec_line_start(t, l);
            match spec_count_steps(t, lb, spec_line_end(t, lb), t.len()) {
                None => None,
                Some(num) => spec_steps_forward(
                    t,
                    lb,
                    if pos_in_line <= num {
                        pos_in_line
                    } else {
                        num
                    },
                ),
            }
        },
    }
}

fn count_steps(r: &Rope, a: usize, b: usize) -> (res: Option<usize>)
    requires
        b <= rope_text(*r).len(),
    ensures
        spec_pos(res) == match spec_count_steps(rope_text(*r), a as int, b as int, rope_text(*r).len()) {
            Some(k) => Some(k as int),
            None => None::<int>,
        },
{
    let ghost t = rope_text(*r);
    let n = rope_len_chars(r);
    let ghost mut fuel: nat = t.len();
    let mut start = a;
    let mut num: usize = 0;
    while start < b
        invariant
            t == rope_text(*r),
            n == t.len(),
            b <= t.len(),
            start < b ==> fuel >= b - start,
            num + fuel <= t.len(),
            match spec_count_steps(t, start as int, b as int, fuel) {
                Some(k) => Some((k + num) as nat),
                None => None::<nat>,
            } == spec_count_steps(t, a as int, b as int, t.len()),
        decreases t.len() - start,
    {
        match next_boundary(r, start) {
            None => {
                return None;
            },
            Some(s2) => {
                proof {
                    assert(spec_next_boundary(t, start as int) == Some(s2 as int));
                    assert(spec_count_steps(t, start as int, b as int, fuel) == match spec_count_steps(
                        t,
                        s2 as int,
                        b as int,
                        (fuel - 1) as nat,
                    ) {
                        Some(k) => Some((k + 1) as nat),
                        None => None::<nat>,
                    });
                }
                start = s2;
                num = num + 1;
                proof {
                    fuel = (fuel - 1) as nat;
                }
            },
        }
    }
    if start == b {
        Some(num)
    } else {
        None
    }
}

fn steps_forward(r: &Rope, a: usize, k: usize) -> (res: Option<usize>)
    requires
        a <= rope_text(*r).len(),
    ensures
        spec_pos(res) == spec_steps_forward(rope_text(*r), a as int, k as nat),
        res matches Some(e) ==> e <= rope_text(*r).len(),
{
    let ghost t = rope_text(*r);
    let mut pos = a;
    let mut i: usize = 0;
    while i < k
        invariant
            t == rope_text(*r),
            i <= k,
            pos <= t.len(),
            spec_steps_forward(t, pos as int, (k - i) as nat) == spec_steps_forward(t, a as int, k as nat),
        decreases k - i,
    {
        match next_boundary(r, pos) {
            None => {
                return None;
            },
            Some(p) => {
                pos = p;
            },
        }
        i = i + 1;
    }
    Some(pos)
}

/// A user-editable region of text, with a cursor that always lies within the text.
pub struct TextEdit {
    text: Rope,
    cursor_pos: usize,
}

impl TextEdit {
    /// The text.
    pub closed spec fn spec_text(&self) -> Seq<char> {
        rope_text(self.text)
    }

    /// The cursor position (a char index, at most the length of the text).
    pub closed spec fn spec_cursor(&self) -> int {
        if self.cursor_pos <= rope_text(self.text).len() {
            self.cursor_pos as int
        } else {
            rope_text(self.text).len() as int
        }
    }

    fn cursor(&self) -> (r: usize)
        ensures
            r == self.spec_cursor(),
            r <= self.spec_text().len(),
    {
        let n = rope_len_chars(&self.text);
        if self.cursor_pos <= n {
            self.cursor_pos
        } else {
            n
        }
    }

    /// An empty text.
    pub fn new() -> (r: Self)
        ensures
            r.spec_text() == Seq::<char>::empty(),
            r.spec_cursor() == 0,
    {
        TextEdit { text: rope_new(), cursor_pos: 0 }
    }

    /// The text as a `String`.
    fn all(&self) -> (r: String)
        ensures
            r@ == self.spec_text(),
    {
        let n = rope_len_chars(&self.text);
        let s = rope_slice_string(&self.text, 0, n);
        proof {
            assert(self.spec_text().subrange(0, n as int) =~= self.spec_text());
        }
        s
    }

    fn range(&self, start: TextBound, end: TextBound) -> (r: (usize, usize))
        ensures
            (r.0 as int, r.1 as int) == spec_range(self.spec_text(), self.spec_cursor(), start, end),
            r.0 <= self.spec_text().len(),
            r.1 <= self.spec_text().len(),
    {
        let c = self.cursor();
        let n = rope_len_chars(&self.text);
        let s = match start {
            TextBound::Included(tt) => resolve_target(&self.text, c, tt).0,
            TextBound::Excluded(tt) => {
                let p = resolve_target(&self.text, c, tt).0;
                match next_boundary(&self.text, p) {
                    Some(e) => e,
                    None => n,
                }
            },
            TextBound::Unbounded => 0,
        };
        let e = match end {
            TextBound::Included(tt) => {
                let p = resolve_target(&self.text, c, tt).0;
                match next_boundary(&self.text, p) {
                    Some(e) => e,
                    None => n,
                }
            },
            TextBound::Excluded(tt) => resolve_target(&self.text, c, tt).0,
            TextBound::Unbounded => n,
        };
        (s, e)
    }

    /// The text from `start` to `end`, which must not lie after `end` (see `try_get`).
    pub fn get(&self, start: TextBound, end: TextBound) -> (r: String)
        requires
            spec_range(self.spec_text(), self.spec_cursor(), start, end).0 <= spec_range(
                self.spec_text(),
                self.spec_cursor(),
                start,
                end,
            ).1,
        ensures
            ({
                let (s, e) = spec_range(self.spec_text(), self.spec_cursor(), start, end);
                r@ == self.spec_text().subrange(s, e)
            }),
    {
        let (s, e) = self.range(start, end);
        rope_slice_string(&self.text, s, e)
    }

    /// The text from `start` to `end`, or `None` where `start` lies after `end`.
    pub fn try_get(&self, start: TextBound, end: TextBound) -> (r: Option<String>)
        ensures
            ({
                let (s, e) = spec_range(self.spec_text(), self.spec_cursor(), start, end);
                &&& r is Some <==> s <= e
                &&& r matches Some(v) ==> v@ == self.spec_text().subrange(s, e)
            }),
    {
        let (s, e) = self.range(start, end);
        if s <= e {
            Some(self.get(start, end))
        } else {
            None
        }
    }

    /// Replace the text; the cursor goes to its end.
    pub fn set(&mut self, text: &str)
        ensures
            final(self).spec_text() == text@,
            final(self).spec_cursor() == text@.len(),
    {
        self.text = rope_from_str(text);
        self.cursor_pos = rope_len_chars(&self.text);
    }

    /// Remove the text from `start` to `end`, which must not lie after `end` (see
    /// `try_delete`); the cursor goes to where the range started.
    pub fn delete(&mut self, start: TextBound, end: TextBound)
        requires
            spec_range(old(self).spec_text(), old(self).spec_cursor(), start, end).0 <= spec_range(
                old(self).spec_text(),
                old(self).spec_cursor(),
                start,
                end,
            ).1,
        ensures
            ({
                let t = old(self).spec_text();
                let (s, e) = spec_range(t, old(self).spec_cursor(), start, end);
                &&& final(self).spec_text() == t.subrange(0, s) + t.subrange(e, t.len() as int)
                &&& final(self).spec_cursor() == s
            }),
    {
        let (s, e) = self.range(start, end);
        rope_remove(&mut self.text, s, e);
        self.cursor_pos = s;
    }

    /// Remove the text from `start` to `end`, unless `start` lies after `end`; tells whether
    /// it did.
    pub fn try_delete(&mut self, start: TextBound, end: TextBound) -> (r: bool)
        ensures
            ({
                let t = old(self).spec_text();
                let (s, e) = spec_range(t, old(self).spec_cursor(), start, end);
                &&& r == (s <= e)
                &&& r ==> final(self).spec_text() == t.subrange(0, s) + t.subrange(e, t.len() as int)
                    && final(self).spec_cursor() == s
                &&& !r ==> *final(self) == *old(self)
            }),
    {
        let (s, e) = self.range(start, end);
        if s <= e {
            self.delete(start, end);
            true
        } else {
            false
        }
    }

    /// Move the cursor to the element of `target`; fails (leaving the cursor where the first
    /// step ended) where the first step does not move.
    pub fn move_cursor_to(&mut self, target: TextTarget) -> (r: Result<(), ()>)
        ensures
            ({
                let (p, ok) = spec_resolve(old(self).spec_text(), old(self).spec_cursor(), target);
                &&& final(self).spec_text() == old(self).spec_text()
                &&& final(self).spec_cursor() == p
                &&& r is Ok <==> ok
            }),
    {
        let c = self.cursor();
        let (p, ok) = resolve_target(&self.text, c, target);
        self.cursor_pos = p;
        if ok {
            Ok(())
        } else {
            Err(())
        }
    }

    /// Insert `text` right before the cursor; the cursor stays at its position.
    pub fn insert(&mut self, text: &str)
        ensures
            ({
                let t = old(self).spec_text();
                let c = old(self).spec_cursor();
                &&& final(self).spec_text() == t.subrange(0, c) + text@ + t.subrange(c, t.len() as int)
                &&& final(self).spec_cursor() == c
            }),
    {
        let c = self.cursor();
        rope_insert(&mut self.text, c, text);
        self.cursor_pos = c;
    }

    /// The number of bytes (in UTF-8) from the start of the cursor's line to the cursor.
    pub fn cursor_byte_pos_in_line(&self) -> (r: usize)
        ensures
            r == byte_len(
                self.spec_text().subrange(spec_line_begin(self.spec_text(), self.spec_cursor()), self.spec_cursor()),
            ),
    {
        let c = self.cursor();
        let b = line_begin(&self.text, c);
        let s = rope_slice_string(&self.text, b, c);
        str_byte_len(s.as_str())
    }

    /// Move the cursor one cluster to the left, within its line.
    pub fn move_cursor_left(&mut self) -> (r: Result<(), ()>)
        ensures
            ({
                let t = old(self).spec_text();
                let c = old(self).spec_cursor();
                let ok = spec_line_begin(t, c) != c && spec_prev_boundary(t, c) is Some;
                &&& final(self).spec_text() == t
                &&& r is Ok <==> ok
                &&& ok ==> final(self).spec_cursor() == spec_prev_boundary(t, c)->0
                &&& !ok ==> final(self).spec_cursor() == c
            }),
    {
        let c = self.cursor();
        if line_begin(&self.text, c) == c {
            self.cursor_pos = c;
            return Err(());
        }
        match prev_boundary(&self.text, c) {
            Some(p) => {
                self.cursor_pos = p;
                Ok(())
            },
            None => {
                self.cursor_pos = c;
                Err(())
            },
        }
    }

    /// Move the cursor one cluster to the right, within its line.
    pub fn move_cursor_right(&mut self) -> (r: Result<(), ()>)
        ensures
            ({
                let t = old(self).spec_text();
                let c = old(self).spec_cursor();
                let ok = spec_line_end(t, c) != c && spec_next_boundary(t, c) is Some;
                &&& final(self).spec_text() == t
                &&& r is Ok <==> ok
                &&& ok ==> final(self).spec_cursor() == spec_next_boundary(t, c)->0
                &&& !ok ==> final(self).spec_cursor() == c
            }),
    {
        let c = self.cursor();
        if line_end(&self.text, c) == c {
            self.cursor_pos = c;
            return Err(());
        }
        match next_boundary(&self.text, c) {
            Some(p) => {
                self.cursor_pos = p;
                Ok(())
            },
            None => {
                self.cursor_pos = c;
                Err(())
            },
        }
    }

    fn move_cursor_to_line(&mut self, l: usize) -> (r: Result<(), ()>)
        requires
            l < spec_num_lines(old(self).spec_text()),
        ensures
            ({
                let t = old(self).spec_text();
                let c = old(self).spec_cursor();
                &&& final(self).spec_text() == t
                &&& r is Ok <==> spec_move_to_line(t, c, l as nat) is Some
                &&& r is Ok ==> final(self).spec_cursor() == spec_move_to_line(t, c, l as nat)->0
                &&& r is Err ==> final(self).spec_cursor() == c
            }),
    {
        let c = self.cursor();
        let ghost t = self.spec_text();
        let b = line_begin(&self.text, c);
        match count_steps(&self.text, b, c) {
            None => {
                self.cursor_pos = c;
                Err(())
            },
            Some(pos_in_line) => {
                let lb = rope_line_to_char(&self.text, l);
                proof {
                    crate::widget::builtin::rope_text::lemma_line_start_from_bounds(t, l as nat, 0);
                }
                let le = line_end(&self.text, lb);
                match count_steps(&self.text, lb, le) {
                    None => {
                        self.cursor_pos = c;
                        Err(())
                    },
                    Some(num) => {
                        let k = if pos_in_line <= num {
                            pos_in_line
                        } else {
                            num
                        };
                        match steps_forward(&self.text, lb, k) {
                            Some(p) => {
                                self.cursor_pos = p;
                                Ok(())
                            },
                            None => {
                                self.cursor_pos = c;
                                Err(())
                            },
                        }
                    },
                }
            },
        }
    }

    /// Move the cursor to the line below, to as many clusters after its start as the cursor
    /// stood after the start of its own line (at most to its end). Fails on the last line, and
    /// where the cursor does not stand on a cluster boundary of its line.
    pub fn move_cursor_down(&mut self) -> (r: Result<(), ()>)
        ensures
            ({
                let t = old(self).spec_text();
                let c = old(self).spec_cursor();
                let l = spec_line_of(t, c);
                let target = if l + 1 < spec_num_lines(t) {
                    spec_move_to_line(t, c, l + 1)
                } else {
                    None
                };
                &&& final(self).spec_text() == t
                &&& r is Ok <==> target is Some
                &&& r is Ok ==> final(self).spec_cursor() == target->0
                &&& r is Err ==> final(self).spec_cursor() == c
            }),
    {
        let c = self.cursor();
        let l = rope_char_to_line(&self.text, c);
        let n = rope_len_lines(&self.text);
        if l < n && l + 1 < n {
            self.move_cursor_to_line(l + 1)
        } else {
            self.cursor_pos = c;
            Err(())
        }
    }

    /// Move the cursor to the line above, as `move_cursor_down` moves it down. Fails on the
    /// first line.
    pub fn move_cursor_up(&mut self) -> (r: Result<(), ()>)
        ensures
            ({
                let t = old(self).spec_text();
                let c = old(self).spec_cursor();
                let l = spec_line_of(t, c);
                let target = if l > 0 {
                    spec_move_to_line(t, c, (l - 1) as nat)
                } else {
                    None
                };
                &&& final(self).spec_text() == t
                &&& r is Ok <==> target is Some
                &&& r is Ok ==> final(self).spec_cursor() == target->0
                &&& r is Err ==> final(self).spec_cursor() == c
            }),
    {
        let c = self.cursor();
        let l = rope_char_to_line(&self.text, c);
        if l > 0 {
            proof {
                crate::widget::builtin::rope_text::lemma_line_of_mono(self.spec_text(), c as int, self.spec_text().len() as int);
            }
            self.move_cursor_to_line(l - 1)
        } else {
            self.cursor_pos = c;
            Err(())
        }
    }
}

impl Navigatable for TextEdit {
    /// See `move_cursor_up`.
    fn move_up(&mut self) -> (r: OperationResult)
        ensures
            ({
                let t = old(self).spec_text();
                let c = old(self).spec_cursor();
                let l = spec_line_of(t, c);
                let target = if l > 0 {
                    spec_move_to_line(t, c, (l - 1) as nat)
                } else {
                    None
                };
                &&& final(self).spec_text() == t
                &&& r is Ok <==> target is Some
                &&& r is Ok ==> final(self).spec_cursor() == target->0
                &&& r is Err ==> final(self).spec_cursor() == c
            }),
    {
        self.move_cursor_up()
    }

    /// See `move_cursor_down`.
    fn move_down(&mut self) -> (r: OperationResult)
        ensures
            ({
                let t = old(self).spec_text();
                let c = old(self).spec_cursor();
                let l = spec_line_of(t, c);
                let target = if l + 1 < spec_num_lines(t) {
                    spec_move_to_line(t, c, l + 1)
                } else {
                    None
                };
                &&& final(self).spec_text() == t
                &&& r is Ok <==> target is Some
                &&& r is Ok ==> final(self).spec_cursor() == target->0
                &&& r is Err ==> final(self).spec_cursor() == c
            }),
    {
        self.move_cursor_down()
    }

    /// See `move_cursor_left`.
    fn move_left(&mut self) -> (r: OperationResult)
        ensures
            ({
                let t = old(self).spec_text();
                let c = old(self).spec_cursor();
                let ok = spec_line_begin(t, c) != c && spec_prev_boundary(t, c) is Some;
                &&& final(self).spec_text() == t
                &&& r is Ok <==> ok
                &&& ok ==> final(self).spec_cursor() == spec_prev_boundary(t, c)->0
                &&& !ok ==> final(self).spec_cursor() == c
            }),
    {
        self.move_cursor_left()
    }

    /// See `move_cursor_right`.
    fn move_right(&mut self) -> (r: OperationResult)
        ensures
            ({
                let t = old(self).spec_text();
                let c = old(self).spec_cursor();
                let ok = spec_line_end(t, c) != c && spec_next_boundary(t, c) is Some;
                &&& final(self).spec_text() == t
                &&& r is Ok <==> ok
                &&& ok ==> final(self).spec_cursor() == spec_next_boundary(t, c)->0
                &&& !ok ==> final(self).spec_cursor() == c
            }),
    {
        self.move_cursor_right()
    }
}

/// Writing `c` into `old`: the char is inserted before the cursor, and the cursor moves past
/// the cluster boundary after its old position; this always succeeds.
pub open spec fn spec_textedit_write(old: TextEdit, new: TextEdit, c: char, r: OperationResult) -> bool {
    let t = old.spec_text();
    let p = old.spec_cursor();
    let t2 = t.subrange(0, p) + seq![c] + t.subrange(p, t.len() as int);
    &&& new.spec_text() == t2
    &&& spec_next_boundary(t2, p) is Some
    &&& new.spec_cursor() == spec_next_boundary(t2, p)->0
    &&& r is Ok
}

impl Writable for TextEdit {
    open spec fn spec_wrote(old: &TextEdit, new: &TextEdit, c: char, r: OperationResult) -> bool {
        spec_textedit_write(*old, *new, c, r)
    }

    /// Insert the char before the cursor, and move the cursor past the cluster boundary after
    /// its old position.
    fn write(&mut self, c: char) -> (r: OperationResult)
        ensures
            spec_textedit_write(*old(self), *final(self), c, r),
    {
        let mut s = String::new();
        string_push(&mut s, c);
        proof {
            assert(s@ =~= seq![c]);
        }
        self.insert(s.as_str());
        let p = self.cursor();
        match next_boundary(&self.text, p) {
            Some(e) => {
                self.cursor_pos = e;
            },
            None => {},
        }
        Ok(())
    }
}

impl Editable for TextEdit {
    /// Remove the cluster after the cursor; fails at the end of the text.
    fn delete_forwards(&mut self) -> (r: OperationResult)
        ensures
            ({
                let t = old(self).spec_text();
                let c = old(self).spec_cursor();
                &&& r is Ok <==> spec_next_boundary(t, c) is Some
                &&& r is Ok ==> final(self).spec_text() == t.subrange(0, c) + t.subrange(
                    spec_next_boundary(t, c)->0,
                    t.len() as int,
                ) && final(self).spec_cursor() == c
                &&& r is Err ==> final(self).spec_text() == t && final(self).spec_cursor() == c
            }),
    {
        let c = self.cursor();
        match next_boundary(&self.text, c) {
            Some(e) => {
                rope_remove(&mut self.text, c, e);
                self.cursor_pos = c;
                Ok(())
            },
            None => {
                self.cursor_pos = c;
                Err(())
            },
        }
    }

    /// Remove the cluster before the cursor (the cursor moves to where it started); fails at
    /// the start of the text.
    fn delete_backwards(&mut self) -> (r: OperationResult)
        ensures
            ({
                let t = old(self).spec_text();
                let c = old(self).spec_cursor();
                &&& r is Ok <==> spec_prev_boundary(t, c) is Some
                &&& r is Ok ==> final(self).spec_text() == t.subrange(0, spec_prev_boundary(t, c)->0) + t.subrange(
                    c,
                    t.len() as int,
                ) && final(self).spec_cursor() == spec_prev_boundary(t, c)->0
                &&& r is Err ==> final(self).spec_text() == t && final(self).spec_cursor() == c
            }),
    {
        let c = self.cursor();
        match prev_boundary(&self.text, c) {
            Some(s) => {
                rope_remove(&mut self.text, s, c);
                self.cursor_pos = s;
                Ok(())
            },
            None => {
                self.cursor_pos = c;
                Err(())
            },
        }
    }

    /// Move the cursor to the start of its line; fails where it is there already.
    fn go_to_beginning_of_line(&mut self) -> (r: OperationResult)
        ensures
            ({
                let t = old(self).spec_text();
                let c = old(self).spec_cursor();
                &&& final(self).spec_text() == t
                &&& final(self).spec_cursor() == spec_line_begin(t, c)
                &&& r is Ok <==> spec_line_begin(t, c) != c
            }),
    {
        let target = TextTarget::backward(TextElement::LineSeparator);
        proof {
            reveal_with_fuel(spec_resolve_from, 2);
        }
        self.move_cursor_to(target)
    }

    /// Move the cursor to the end of its line; fails where it is there already.
    fn go_to_end_of_line(&mut self) -> (r: OperationResult)
        ensures
            ({
                let t = old(self).spec_text();
                let c = old(self).spec_cursor();
                &&& final(self).spec_text() == t
                &&& final(self).spec_cursor() == spec_line_end(t, c)
                &&& r is Ok <==> spec_line_end(t, c) != c
            }),
    {
        let target = TextTarget::forward(TextElement::LineSeparator);
        proof {
            reveal_with_fuel(spec_resolve_from, 2);
        }
        self.move_cursor_to(target)
    }

    /// Remove all of the text; fails where it is empty already.
    fn clear(&mut self) -> (r: OperationResult)
        ensures
            r is Ok <==> old(self).spec_text().len() > 0,
            r is Ok ==> final(self).spec_text() == Seq::<char>::empty() && final(self).spec_cursor() == 0,
            r is Err ==> *final(self) == *old(self),
    {
        if rope_len_chars(&self.text) == 0 {
            Err(())
        } else {
            self.text = rope_new();
            self.cursor_pos = 0;
            Ok(())
        }
    }
}

/// The text of line `l` of `t`: from where the line starts to the end of the line there (before
/// its break).
pub open spec fn spec_line_text(t: Seq<char>, l: nat) -> Seq<char> {
    let s = spec_line_start(t, l);
    t.subrange(s, spec_line_end(t, s))
}

/// The greatest display width among the first `k` lines of `t` (0 for none).
pub open spec fn spec_max_line_width(t: Seq<char>, k: nat) -> nat
    decreases k,
{
    if k == 0 {
        0
    } else {
        let a = spec_max_line_width(t, (k - 1) as nat);
        let b = spec_str_width(spec_line_text(t, (k - 1) as nat));
        if a >= b {
            a
        } else {
            b
        }
    }
}

/// The row into which the line of the cursor is drawn, in a window of height `h`, where it is
/// line `l` of `n`: as low as the lines above it need, but with a row of the following text
/// below it where there is one, and within the window.
pub open spec fn spec_cursor_row(h: int, l: int, n: int) -> int {
    let pad = if n - l - 1 < 1 { n - l - 1 } else { 1 };
    let a = h - 1 - pad;
    let b = if a < l { a } else { l };
    if b < 0 {
        0
    } else {
        b
    }
}

/// Where the cluster after `c` ends, where it ends within the line of `c`.
pub open spec fn spec_cursor_cluster_end(t: Seq<char>, c: int) -> Option<int> {
    match spec_next_boundary(t, c) {
        Some(e) => if e <= spec_line_end(t, c) {
            Some(e)
        } else {
            None
        },
        None => None,
    }
}

/// How many of `rest` lines fit into `room` rows.
pub open spec fn spec_rows_used(room: int, rest: int) -> int {
    if room < 0 {
        0
    } else if room < rest {
        room
    } else {
        rest
    }
}

fn line_text(r: &Rope, l: usize) -> (s: String)
    requires
        l <= spec_num_lines(rope_text(*r)),
    ensures
        s@ == spec_line_text(rope_text(*r), l as nat),
{
    let ghost t = rope_text(*r);
    let b = rope_line_to_char(r, l);
    proof {
        lemma_line_start_from_bounds(t, l as nat, 0);
    }
    let e = line_end(r, b);
    rope_slice_string(r, b, e)
}

impl TextEdit {
    /// Prepare for drawing: the cursor is shown inverted while the widget is active and blinks
    /// on, unchanged while it blinks off, and underlined while the widget is inactive.
    pub fn as_widget<'a>(&'a self) -> (r: TextEditWidget<'a>)
        ensures
            *r.spec_textedit() == *self,
            format_only(
                r.spec_style_blink_on(),
                TextFormatModifier { invert: BoolModifyMode::Toggle, ..TextFormatModifier::spec_new() },
            ),
            format_only(r.spec_style_blink_off(), TextFormatModifier::spec_new()),
            format_only(
                r.spec_style_inactive(),
                TextFormatModifier { underline: BoolModifyMode::True, ..TextFormatModifier::spec_new() },
            ),
    {
        TextEditWidget {
            textedit: self,
            cursor_style_active_blink_on: StyleModifier::new().invert(BoolModifyMode::Toggle),
            cursor_style_active_blink_off: StyleModifier::new(),
            cursor_style_inactive: StyleModifier::new().underline(BoolModifyMode::True),
        }
    }
}

/// A `TextEdit` prepared for drawing, with customizable cursor styles.
pub struct TextEditWidget<'a> {
    textedit: &'a TextEdit,
    cursor_style_active_blink_on: StyleModifier,
    cursor_style_active_blink_off: StyleModifier,
    cursor_style_inactive: StyleModifier,
}

/// What drawing a `TextEdit` into a window puts where. Every line is written starting at column
/// `start_col` (0 or negative, so that the cursor stays visible). The line of the cursor goes
/// into row `cursor_row`: first `before_cursor`, then `at_cursor` in the cursor style, then
/// `after_cursor`. The lines before it fill the rows above, top to bottom (`lines_above`), and
/// the lines after it the rows below, as many as fit (`lines_below`).
pub struct TextEditLayout {
    pub start_col: ColIndex,
    pub cursor_row: RowIndex,
    pub before_cursor: String,
    pub at_cursor: String,
    pub after_cursor: String,
    pub lines_above: Vec<String>,
    pub lines_below: Vec<String>,
}

impl<'a> TextEditWidget<'a> {
    /// The text that is drawn.
    pub closed spec fn spec_textedit(&self) -> &'a TextEdit {
        self.textedit
    }

    /// The cursor style while active and blinking on.
    pub closed spec fn spec_style_blink_on(&self) -> StyleModifier {
        self.cursor_style_active_blink_on
    }

    /// The cursor style while active and blinking off.
    pub closed spec fn spec_style_blink_off(&self) -> StyleModifier {
        self.cursor_style_active_blink_off
    }

    /// The cursor style while inactive.
    pub closed spec fn spec_style_inactive(&self) -> StyleModifier {
        self.cursor_style_inactive
    }

    /// The display width of the line of the cursor up to the cursor.
    pub open spec fn spec_width_before_cursor(&self) -> nat {
        let t = self.spec_textedit().spec_text();
        let c = self.spec_textedit().spec_cursor();
        spec_str_width(t.subrange(spec_line_begin(t, c), c))
    }

    /// The column where drawing into a window of width `w` starts: the text is shifted left just
    /// far enough that the part of the cursor's line before the cursor and one column of padding
    /// fit.
    pub open spec fn spec_start_col(&self, w: int) -> int {
        let wb = self.spec_width_before_cursor();
        if w - wb - 1 < 0 {
            w - wb - 1
        } else {
            0
        }
    }

    /// The line of the cursor.
    pub open spec fn spec_cursor_line(&self) -> int {
        spec_line_of(self.spec_textedit().spec_text(), self.spec_textedit().spec_cursor()) as int
    }

    /// The row of the cursor's line in a window of height `h` (see `spec_cursor_row`).
    pub open spec fn spec_row(&self, h: int) -> int {
        spec_cursor_row(h, self.spec_cursor_line(), spec_num_lines(self.spec_textedit().spec_text()) as int)
    }

    /// The cursor's line before the cursor, the cluster after the cursor (a space where that
    /// cluster does not end within the line) and the rest of the line.
    pub open spec fn spec_parts(&self) -> (Seq<char>, Seq<char>, Seq<char>) {
        let t = self.spec_textedit().spec_text();
        let c = self.spec_textedit().spec_cursor();
        let lb = spec_line_begin(t, c);
        let le = spec_line_end(t, c);
        match spec_cursor_cluster_end(t, c) {
            Some(e) => (t.subrange(lb, c), t.subrange(c, e), t.subrange(e, le)),
            None => (t.subrange(lb, le), seq![' '], Seq::<char>::empty()),
        }
    }

    /// The lines that fill the rows above the cursor's row in a window of height `h`.
    pub open spec fn spec_lines_above(&self, h: int) -> Seq<Seq<char>> {
        let t = self.spec_textedit().spec_text();
        let l = self.spec_cursor_line();
        let row = self.spec_row(h);
        Seq::new(row as nat, |i: int| spec_line_text(t, (l - row + i) as nat))
    }

    /// The lines that go into the rows below the cursor's row in a window of height `h`, as many
    /// as follow and fit.
    pub open spec fn spec_lines_below(&self, h: int) -> Seq<Seq<char>> {
        let t = self.spec_textedit().spec_text();
        let l = self.spec_cursor_line();
        let n = spec_num_lines(t) as int;
        let below = spec_rows_used(h - self.spec_row(h) - 1, n - l - 1);
        Seq::new(below as nat, |i: int| spec_line_text(t, (l + 1 + i) as nat))
    }

    /// The style the cursor is drawn with under `hints`.
    pub open spec fn spec_cursor_style(&self, hints: RenderingHints) -> StyleModifier {
        if !hints.active {
            self.spec_style_inactive()
        } else if hints.blink == Blink::On {
            self.spec_style_blink_on()
        } else {
            self.spec_style_blink_off()
        }
    }

    /// Define the cursor style for the "on" tick while the widget is active.
    pub fn cursor_blink_on(self, style: StyleModifier) -> (r: Self)
        ensures
            r.spec_style_blink_on() == style,
            r.spec_style_blink_off() == self.spec_style_blink_off(),
            r.spec_style_inactive() == self.spec_style_inactive(),
            r.spec_textedit() == self.spec_textedit(),
    {
        TextEditWidget { cursor_style_active_blink_on: style, ..self }
    }

    /// Define the cursor style for the "off" tick while the widget is active.
    pub fn cursor_blink_off(self, style: StyleModifier) -> (r: Self)
        ensures
            r.spec_style_blink_on() == self.spec_style_blink_on(),
            r.spec_style_blink_off() == style,
            r.spec_style_inactive() == self.spec_style_inactive(),
            r.spec_textedit() == self.spec_textedit(),
    {
        TextEditWidget { cursor_style_active_blink_off: style, ..self }
    }

    /// Define the cursor style while the widget is inactive.
    pub fn cursor_inactive(self, style: StyleModifier) -> (r: Self)
        ensures
            r.spec_style_blink_on() == self.spec_style_blink_on(),
            r.spec_style_blink_off() == self.spec_style_blink_off(),
            r.spec_style_inactive() == style,
            r.spec_textedit() == self.spec_textedit(),
    {
        TextEditWidget { cursor_style_inactive: style, ..self }
    }

    /// The greatest display width among the lines of the text.
    pub open spec fn spec_text_width(&self) -> nat {
        let t = self.spec_textedit().spec_text();
        spec_max_line_width(t, spec_num_lines(t))
    }

    /// The number of lines of the text.
    pub open spec fn spec_num_text_lines(&self) -> nat {
        spec_num_lines(self.spec_textedit().spec_text())
    }

    fn max_line_width(&self) -> (m: usize)
        ensures
            m == self.spec_text_width(),
    {
        let r = &self.textedit.text;
        let n = rope_len_lines(r);
        let mut m: usize = 0;
        let mut i: usize = 0;
        while i < n
            invariant
                i <= n,
                n == spec_num_lines(rope_text(*r)),
                m == spec_max_line_width(rope_text(*r), i as nat),
            decreases n - i,
        {
            let s = line_text(r, i);
            let w = str_width(s.as_str());
            if w > m {
                m = w;
            }
            i = i + 1;
        }
        m
    }

    /// The space demand: as many rows as the text has lines, and at least the width of its
    /// widest line plus one column for the cursor behind it. Both must fit into an i32.
    pub fn space_demand(&self) -> (r: Demand2D)
        requires
            self.spec_text_width() < i32::MAX,
            self.spec_num_text_lines() <= i32::MAX,
        ensures
            r.width@ == (self.spec_text_width() + 1, None::<nat>),
            r.height@ == (self.spec_num_text_lines(), Some(self.spec_num_text_lines())),
    {
        let w = self.max_line_width();
        let n = rope_len_lines(&self.textedit.text);
        Demand2D {
            width: Demand::at_least(PositiveAxisDiff::new_unchecked((w + 1) as i32)),
            height: Demand::exact(PositiveAxisDiff::new_unchecked(n as i32)),
        }
    }

    /// The space demand, or `None` where the width of the widest line or the number of lines
    /// does not fit into an i32.
    pub fn checked_space_demand(&self) -> (r: Option<Demand2D>)
        ensures
            (self.spec_text_width() < i32::MAX && self.spec_num_text_lines() <= i32::MAX) ==> (r matches Some(
                d,
            ) && d.width@ == (self.spec_text_width() + 1, None::<nat>) && d.height@ == (
                self.spec_num_text_lines(),
                Some(self.spec_num_text_lines()),
            )),
            !(self.spec_text_width() < i32::MAX && self.spec_num_text_lines() <= i32::MAX) ==> r is None,
    {
        let w = self.max_line_width();
        let n = rope_len_lines(&self.textedit.text);
        if w < 2147483647 && n <= 2147483647 {
            Some(self.space_demand())
        } else {
            None
        }
    }

    fn width_before_cursor(&self) -> (w: usize)
        ensures
            w == self.spec_width_before_cursor(),
    {
        let tx = &self.textedit.text;
        let c = self.textedit.cursor();
        let lb = line_begin(tx, c);
        let before = rope_slice_string(tx, lb, c);
        str_width(before.as_str())
    }

    /// Where drawing into a window of the given size puts which part of the text (see
    /// `TextEditLayout`). The text is shifted left just far enough that the part of the cursor's
    /// line before the cursor and one column of padding fit into the window. The cluster after
    /// the cursor is the one drawn in the cursor style where it ends within the line; otherwise
    /// a space stands for the cursor behind the rest of the line. The row of the cursor is that
    /// of `spec_cursor_row`, and the rows below it are filled as far as lines follow.
    pub fn layout(&self, width: Width, height: Height) -> (r: TextEditLayout)
        requires
            self.spec_width_before_cursor() <= i32::MAX,
        ensures
            r.start_col@ == self.spec_start_col(width@ as int),
            r.cursor_row@ == self.spec_row(height@ as int),
            (r.before_cursor@, r.at_cursor@, r.after_cursor@) == self.spec_parts(),
            r.lines_above.deep_view() == self.spec_lines_above(height@ as int),
            r.lines_below.deep_view() == self.spec_lines_below(height@ as int),
    {
        let tx = &self.textedit.text;
        let ghost t = rope_text(*tx);
        let c = self.textedit.cursor();
        let lb = line_begin(tx, c);
        let le = line_end(tx, c);
        let l = rope_char_to_line(tx, c);
        let n = rope_len_lines(tx);
        proof {
            lemma_line_of_mono(t, c as int, t.len() as int);
        }
        let wb = self.width_before_cursor();
        let shifted: i64 = width.raw_value() as i64 - wb as i64 - 1;
        let start: i32 = if shifted < 0 {
            shifted as i32
        } else {
            0
        };
        let hh: i64 = height.raw_value() as i64;
        let pad: i64 = if n - l - 1 < 1 {
            0
        } else {
            1
        };
        let a: i64 = hh - 1 - pad;
        let row: usize = if a < 0 {
            0
        } else if (a as usize) < l {
            a as usize
        } else {
            l
        };
        let nb = next_boundary(tx, c);
        let has_after: bool = match nb {
            Some(e) => e <= le,
            None => false,
        };
        let e: usize = match nb {
            Some(e) => e,
            None => c,
        };
        let (before, at, after) = if has_after {
            (rope_slice_string(tx, lb, c), rope_slice_string(tx, c, e), rope_slice_string(tx, e, le))
        } else {
            let mut space = String::new();
            string_push(&mut space, ' ');
            proof {
                assert(space@ =~= seq![' ']);
            }
            (rope_slice_string(tx, lb, le), space, String::new())
        };
        let mut above: Vec<String> = Vec::new();
        let mut i: usize = 0;
        while i < row
            invariant
                i <= row,
                row <= l,
                l < n,
                n == spec_num_lines(t),
                t == rope_text(*tx),
                above@.len() == i,
                forall|j: int| 0 <= j < i ==> #[trigger] above@[j]@ == spec_line_text(t, (l - row + j) as nat),
            decreases row - i,
        {
            let s = line_text(tx, l - row + i);
            above.push(s);
            i = i + 1;
        }
        let room: i64 = hh - row as i64 - 1;
        let rest: usize = n - l - 1;
        let count: usize = if room < 0 {
            0
        } else if (room as usize) < rest {
            room as usize
        } else {
            rest
        };
        let mut below: Vec<String> = Vec::new();
        let mut k: usize = 0;
        while k < count
            invariant
                k <= count,
                count <= rest,
                rest == n - l - 1,
                l < n,
                n == spec_num_lines(t),
                t == rope_text(*tx),
                below@.len() == k,
                forall|j: int| 0 <= j < k ==> #[trigger] below@[j]@ == spec_line_text(t, (l + 1 + j) as nat),
            decreases count - k,
        {
            let s = line_text(tx, l + 1 + k);
            below.push(s);
            k = k + 1;
        }
        proof {
            assert(above.deep_view() =~= self.spec_lines_above(height@ as int));
            assert(below.deep_view() =~= self.spec_lines_below(height@ as int));
        }
        TextEditLayout {
            start_col: ColIndex::new(start),
            cursor_row: AxisIndex::new(row as i32),
            before_cursor: before,
            at_cursor: at,
            after_cursor: after,
            lines_above: above,
            lines_below: below,
        }
    }

    /// The layout, or `None` where the width of the cursor's line up to the cursor does not fit
    /// into an i32.
    pub fn checked_layout(&self, width: Width, height: Height) -> (r: Option<TextEditLayout>)
        ensures
            self.spec_width_before_cursor() > i32::MAX ==> r is None,
            self.spec_width_before_cursor() <= i32::MAX ==> r is Some,
            r matches Some(l) ==> {
                &&& l.start_col@ == self.spec_start_col(width@ as int)
                &&& l.cursor_row@ == self.spec_row(height@ as int)
                &&& (l.before_cursor@, l.at_cursor@, l.after_cursor@) == self.spec_parts()
                &&& l.lines_above.deep_view() == self.spec_lines_above(height@ as int)
                &&& l.lines_below.deep_view() == self.spec_lines_below(height@ as int)
            },
    {
        if self.width_before_cursor() <= 2147483647 {
            Some(self.layout(width, height))
        } else {
            None
        }
    }

    /// The cells of `t` after drawing into it: the cursor's line goes into its row, starting at
    /// the start column (the cluster after the cursor in the cursor style for `hints`), then the
    /// lines below and above it each into their row from the start column, each part written
    /// where `checked_write` lets it.
    pub open spec fn spec_drawn_cells<T: CursorTarget>(&self, t: T, hints: RenderingHints) -> spec_fn(int, int) -> (
        Seq<char>,
        Style,
    ) {
        let w = t.spec_width() as int;
        let h = t.spec_height() as int;
        let start = self.spec_start_col(w);
        let row = self.spec_row(h);
        let d = t.spec_default_style();
        let present = spec_has_of(t);
        let st0 = CursorState {
            line_start_column: AxisIndex::spec_new(start),
            ..spec_with_pos(CursorState::spec_default(), start, row)
        };
        let p = self.spec_parts();
        let r1 = spec_write_styled_parts(
            st0,
            w,
            h,
            spec_cells_of(t),
            present,
            d,
            self.spec_cursor_style(hints),
            p.0,
            p.1,
            p.2,
        );
        let r2 = spec_write_rows(r1.1, w, h, r1.0, present, d, start, row + 1, self.spec_lines_below(h));
        spec_write_rows(r2.1, w, h, r2.0, present, d, start, 0, self.spec_lines_above(h)).0
    }

    /// Draw the text into `target`, laid out as `layout` says for the target's size, with the
    /// cursor in the cursor style for `hints` (see `spec_drawn_cells`). Nothing is drawn where
    /// the width of the cursor's line up to the cursor does not fit into an `i32`.
    pub fn draw<T: CursorTarget>(&self, target: &mut T, hints: RenderingHints)
        ensures
            spec_same_frame(*final(target), *old(target)),
            self.spec_width_before_cursor() > i32::MAX ==> *final(target) == *old(target),
            self.spec_width_before_cursor() <= i32::MAX ==> spec_cells_of(*final(target)) == self.spec_drawn_cells(
                *old(target),
                hints,
            ),
    {
        let w = target.get_width();
        let h = target.get_height();
        let hv = h.raw_value();
        if self.width_before_cursor() > 2147483647 {
            return ;
        }
        let lay = self.layout(w, h);
        let ghost t0 = *target;
        let ghost t_final = *final(target);
        let ghost wi = w@ as int;
        let ghost hi = h@ as int;
        let ghost d = t0.spec_default_style();
        let ghost present = spec_has_of(t0);
        let ghost start = lay.start_col@;
        let style = self.cursor_style(hints);
        let row = lay.cursor_row.raw_value();
        let mut cursor = Cursor::new(target).position(lay.start_col, lay.cursor_row);
        cursor.set_line_start_column(lay.start_col);
        proof {
            AxisIndex::lemma_spec_new_of_view(lay.start_col);
            AxisIndex::lemma_spec_new_of_view(lay.cursor_row);
        }
        cursor.checked_write(lay.before_cursor.as_str());
        proof {
            assert(spec_has_of(*cursor.window) =~= present);
        }
        let saved = cursor.get_style_modifier();
        cursor.apply_style_modifier(style);
        cursor.checked_write(lay.at_cursor.as_str());
        proof {
            assert(spec_has_of(*cursor.window) =~= present);
        }
        cursor.set_style_modifier(saved);
        cursor.checked_write(lay.after_cursor.as_str());
        proof {
            assert(spec_has_of(*cursor.window) =~= present);
        }
        let ghost below = lay.lines_below.deep_view();
        let ghost r2 = spec_write_rows(
            cursor.state,
            wi,
            hi,
            spec_cells_of(*cursor.window),
            present,
            d,
            start,
            row + 1,
            below,
        );
        proof {
            assert(below.skip(0) =~= below);
            lemma_line_of_mono(
                self.textedit.spec_text(),
                self.textedit.spec_cursor(),
                self.textedit.spec_text().len() as int,
            );
        }
        let mut i: usize = 0;
        while i < lay.lines_below.len()
            invariant
                0 <= row,
                below == lay.lines_below.deep_view(),
                i <= below.len(),
                below.len() == 0 || row + below.len() < hv,
                hv == hi,
                wi == t0.spec_width(),
                hi == t0.spec_height(),
                d == t0.spec_default_style(),
                present == spec_has_of(t0),
                start == lay.start_col@,
                spec_same_frame(*cursor.window, t0),
                t_final == *final(cursor.window),
                spec_write_rows(
                    cursor.state,
                    wi,
                    hi,
                    spec_cells_of(*cursor.window),
                    present,
                    d,
                    start,
                    row + 1 + i,
                    below.skip(i as int),
                ) == r2,
            decreases lay.lines_below.len() - i,
        {
            proof {
                assert(below.skip(i as int)[0] == below[i as int]);
                assert(below.skip(i as int).drop_first() =~= below.skip(i + 1));
                assert(lay.lines_below@[i as int]@ == below[i as int]);
            }
            let ghost st_b = cursor.state;
            let y = AxisIndex::new(row + 1 + i as i32);
            cursor.move_to(lay.start_col, y);
            proof {
                AxisIndex::lemma_spec_new_of_view(y);
                AxisIndex::lemma_spec_new_of_view(lay.start_col);
                assert(cursor.state == spec_with_pos(st_b, start, row + 1 + i));
                assert(spec_has_of(*cursor.window) =~= present);
            }
            cursor.checked_write(lay.lines_below[i].as_str());
            proof {
                assert(spec_has_of(*cursor.window) =~= present);
            }
            i = i + 1;
        }
        proof {
            assert(below.skip(i as int) =~= Seq::<Seq<char>>::empty());
        }
        let ghost above = lay.lines_above.deep_view();
        let ghost r3 = spec_write_rows(cursor.state, wi, hi, spec_cells_of(*cursor.window), present, d, start, 0, above);
        proof {
            assert(above.skip(0) =~= above);
        }
        let mut j: usize = 0;
        while j < lay.lines_above.len()
            invariant
                above == lay.lines_above.deep_view(),
                j <= above.len(),
                above.len() == row,
                wi == t0.spec_width(),
                hi == t0.spec_height(),
                d == t0.spec_default_style(),
                present == spec_has_of(t0),
                start == lay.start_col@,
                spec_same_frame(*cursor.window, t0),
                t_final == *final(cursor.window),
                spec_write_rows(
                    cursor.state,
                    wi,
                    hi,
                    spec_cells_of(*cursor.window),
                    present,
                    d,
                    start,
                    j as int,
                    above.skip(j as int),
                ) == r3,
            decreases lay.lines_above.len() - j,
        {
            proof {
                assert(above.skip(j as int)[0] == above[j as int]);
                assert(above.skip(j as int).drop_first() =~= above.skip(j + 1));
                assert(lay.lines_above@[j as int]@ == above[j as int]);
            }
            let y = AxisIndex::new(j as i32);
            cursor.move_to(lay.start_col, y);
            proof {
                AxisIndex::lemma_spec_new_of_view(y);
                AxisIndex::lemma_spec_new_of_view(lay.start_col);
                assert(spec_has_of(*cursor.window) =~= present);
            }
            cursor.checked_write(lay.lines_above[j].as_str());
            proof {
                assert(spec_has_of(*cursor.window) =~= present);
            }
            j = j + 1;
        }
        proof {
            assert(above.skip(j as int) =~= Seq::<Seq<char>>::empty());
        }
    }

    /// The style the cursor is drawn with under the given hints.
    pub fn cursor_style(&self, hints: RenderingHints) -> (r: StyleModifier)
        ensures
            r == self.spec_cursor_style(hints),
    {
        if !hints.active {
            self.cursor_style_inactive
        } else {
            match hints.blink {
                Blink::On => self.cursor_style_active_blink_on,
                Blink::Off => self.cursor_style_active_blink_off,
            }
        }
    }
}

/// The unbounded range is the whole text: `get` of it gives back what `set` stored.
pub proof fn law_get_all_after_set(e: TextEdit, text: Seq<char>)
    requires
        e.spec_text() == text,
    ensures
        spec_range(e.spec_text(), e.spec_cursor(), TextBound::Unbounded, TextBound::Unbounded) == (
            0int,
            text.len() as int,
        ),
        e.spec_text().subrange(0, text.len() as int) == text,
{
    assert(text.subrange(0, text.len() as int) =~= text);
}

/// Deleting backwards right after writing a char that forms a grapheme cluster of its own (in
/// the text after writing) gives back the text from before writing, with the cursor where it was.
pub proof fn law_delete_backwards_undoes_write(t: Seq<char>, p: int, c: char)
    requires
        0 <= p <= t.len(),
        spec_next_boundary(t.subrange(0, p) + seq![c] + t.subrange(p, t.len() as int), p) == Some(p + 1),
        spec_prev_boundary(t.subrange(0, p) + seq![c] + t.subrange(p, t.len() as int), p + 1) == Some(p),
    ensures
        ({
            let t2 = t.subrange(0, p) + seq![c] + t.subrange(p, t.len() as int);
            let e = spec_next_boundary(t2, p)->0;
            let s = spec_prev_boundary(t2, e)->0;
            &&& s == p
            &&& t2.subrange(0, s) + t2.subrange(e, t2.len() as int) == t
        }),
{
    let t2 = t.subrange(0, p) + seq![c] + t.subrange(p, t.len() as int);
    assert(t2.subrange(0, p) =~= t.subrange(0, p));
    assert(t2.subrange(p + 1, t2.len() as int) =~= t.subrange(p, t.len() as int));
    assert(t.subrange(0, p) + t.subrange(p, t.len() as int) =~= t);
}

} // verus!
