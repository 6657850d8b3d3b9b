//! Text held in a rope: its chars, its lines (as the rope counts them) and the boundaries of its
//! grapheme clusters. Positions are char indices.
use crate::widget::text::{graphemes, spec_graphemes};
use ropey::Rope;
use vstd::prelude::*;
use vstd::string::StrSliceExecFns;

verus! {

#[verifier::external_type_specification]
#[verifier::external_body]
pub struct ExRope(Rope);

/// The chars that a rope holds.
pub uninterp spec fn rope_text(r: Rope) -> Seq<char>;

/// `Rope::new`. Claimed: the rope is empty.
#[verifier::external_body]
pub(crate) fn rope_new() -> (r: Rope)
    ensures
        rope_text(r) == Seq::<char>::empty(),
{
    Rope::new()
}

/// `Rope::from_str`. Claimed: the rope holds the chars of the text.
#[verifier::external_body]
pub(crate) fn rope_from_str(text: &str) -> (r: Rope)
    ensures
        rope_text(r) == text@,
{
    Rope::from_str(text)
}

/// `Rope::len_chars`. Claimed: the number of chars of the rope.
#[verifier::external_body]
pub(crate) fn rope_len_chars(r: &Rope) -> (n: usize)
    ensures
        n == rope_text(*r).len(),
{
    r.len_chars()
}

/// `Rope::slice` on the char range `start..end`, as a `String` (`to_string`, which writes the
/// slice's chunks one after the other). Claimed: the chars of the range. The range must lie
/// within the rope (`ropey` panics otherwise).
#[verifier::external_body]
pub(crate) fn rope_slice_string(r: &Rope, start: usize, end: usize) -> (s: String)
    requires
        start <= end <= rope_text(*r).len(),
    ensures
        s@ == rope_text(*r).subrange(start as int, end as int),
{
    r.slice(start..end).to_string()
}

/// `Rope::insert` at a char index. Claimed: the text is inserted there. The index must lie within
/// the rope or at its end (`ropey` panics otherwise).
#[verifier::external_body]
pub(crate) fn rope_insert(r: &mut Rope, char_idx: usize, text: &str)
    requires
        char_idx <= rope_text(*old(r)).len(),
    ensures
        rope_text(*final(r)) == rope_text(*old(r)).subrange(0, char_idx as int) + text@ + rope_text(
            *old(r),
        ).subrange(char_idx as int, rope_text(*old(r)).len() as int),
{
    r.insert(char_idx, text)
}

/// `Rope::remove` of the char range `start..end`. Claimed: the chars of the range are removed.
/// The range must lie within the rope (`ropey` panics otherwise).
#[verifier::external_body]
pub(crate) fn rope_remove(r: &mut Rope, start: usize, end: usize)
    requires
        start <= end <= rope_text(*old(r)).len(),
    ensures
        rope_text(*final(r)) == rope_text(*old(r)).subrange(0, start as int) + rope_text(*old(r)).subrange(
            end as int,
            rope_text(*old(r)).len() as int,
        ),
{
    r.remove(start..end)
}

/// Whether a line of `t` starts at position `i` (besides the one at 0): right after a LF, VT, FF,
/// NEL, LS or PS, or after a CR that no LF follows (the line breaks that a rope recognizes with
/// its default features, a CR LF pair being one break).
pub open spec fn spec_line_starts_at(t: Seq<char>, i: int) -> bool {
    &&& 0 < i <= t.len()
    &&& {
        let c = t[i - 1];
        ||| c == '\n' || c == '\u{0B}' || c == '\u{0C}' || c == '\u{85}' || c == '\u{2028}' || c == '\u{2029}'
        ||| c == '\r' && (i == t.len() || t[i] != '\n')
    }
}

/// The line (counted from 0) of position `i`: the number of line starts in `1..=i`.
pub open spec fn spec_line_of(t: Seq<char>, i: int) -> nat
    decreases i,
{
    if i <= 0 {
        0
    } else {
        spec_line_of(t, i - 1) + if spec_line_starts_at(t, i) {
            1nat
        } else {
            0nat
        }
    }
}

/// The number of lines of `t`: one more than it has line breaks.
pub open spec fn spec_num_lines(t: Seq<char>) -> nat {
    spec_line_of(t, t.len() as int) + 1
}

/// The first position from `i` on that lies in line `l` or a later one (the end of `t` where
/// there is none).
pub open spec fn spec_line_start_from(t: Seq<char>, l: nat, i: int) -> int
    decreases t.len() - i,
{
    if i >= t.len() {
        t.len() as int
    } else if spec_line_of(t, i) >= l {
        i
    } else {
        spec_line_start_from(t, l, i + 1)
    }
}

/// Where line `l` of `t` starts (the end of `t` for the line after the last).
pub open spec fn spec_line_start(t: Seq<char>, l: nat) -> int {
    spec_line_start_from(t, l, 0)
}

/// `Rope::len_lines`. Claimed: one more than the rope has line breaks.
#[verifier::external_body]
pub(crate) fn rope_len_lines(r: &Rope) -> (n: usize)
    ensures
        n == spec_num_lines(rope_text(*r)),
{
    r.len_lines()
}

/// `Rope::char_to_line`. Claimed: the number of line breaks before the char, i.e., its line.
/// The index must lie within the rope or at its end (`ropey` panics otherwise).
#[verifier::external_body]
pub(crate) fn rope_char_to_line(r: &Rope, char_idx: usize) -> (l: usize)
    requires
        char_idx <= rope_text(*r).len(),
    ensures
        l == spec_line_of(rope_text(*r), char_idx as int),
{
    r.char_to_line(char_idx)
}

/// `Rope::line_to_char`. Claimed: where the line starts (the end of the rope for the line after
/// the last). The line must exist or be the one after the last (`ropey` panics otherwise).
#[verifier::external_body]
pub(crate) fn rope_line_to_char(r: &Rope, line_idx: usize) -> (i: usize)
    requires
        line_idx <= spec_num_lines(rope_text(*r)),
    ensures
        i == spec_line_start(rope_text(*r), line_idx as nat),
{
    r.line_to_char(line_idx)
}

/// `Rope::to_string` (the `Display` of a rope writes its chunks one after the other). Claimed:
/// the chars of the rope.
#[verifier::external_body]
pub(crate) fn rope_to_string(r: &Rope) -> (s: String)
    ensures
        s@ == rope_text(*r),
{
    r.to_string()
}

/// The position where the `k` first of the clusters `gs` end.
pub open spec fn spec_offset(gs: Seq<Seq<char>>, k: int) -> int {
    gs.take(k).flatten().len() as int
}

/// The first boundary between the clusters `gs` (which start at position `off`) after `p`.
pub open spec fn spec_next_in(gs: Seq<Seq<char>>, p: int, off: int) -> Option<int>
    decreases gs.len(),
{
    if gs.len() == 0 {
        None
    } else {
        let e = off + gs[0].len();
        if e > p {
            Some(e)
        } else {
            spec_next_in(gs.drop_first(), p, e)
        }
    }
}

/// The last boundary between the clusters `gs` (which start at position `off`) before `p`, or
/// `best` where there is none.
pub open spec fn spec_prev_in(gs: Seq<Seq<char>>, p: int, off: int, best: Option<int>) -> Option<int>
    decreases gs.len(),
{
    let best2 = if off < p {
        Some(off)
    } else {
        best
    };
    if gs.len() == 0 {
        best2
    } else {
        spec_prev_in(gs.drop_first(), p, off + gs[0].len(), best2)
    }
}

/// The first grapheme cluster boundary of `t` after position `p`.
pub open spec fn spec_next_boundary(t: Seq<char>, p: int) -> Option<int> {
    spec_next_in(spec_graphemes(t), p, 0)
}

/// The last grapheme cluster boundary of `t` before position `p`.
pub open spec fn spec_prev_boundary(t: Seq<char>, p: int) -> Option<int> {
    spec_prev_in(spec_graphemes(t), p, 0, None)
}

pub proof fn lemma_line_of_mono(t: Seq<char>, i: int, j: int)
    requires
        i <= j,
    ensures
        spec_line_of(t, i) <= spec_line_of(t, j),
    decreases j - i,
{
    if i < j {
        lemma_line_of_mono(t, i, j - 1);
    }
}

proof fn lemma_line_of_le(t: Seq<char>, i: int)
    ensures
        spec_line_of(t, i) <= if i < 0 { 0 } else { i },
    decreases i,
{
    if i > 0 {
        lemma_line_of_le(t, i - 1);
    }
}

pub proof fn lemma_line_start_from_bounds(t: Seq<char>, l: nat, i: int)
    requires
        0 <= i <= t.len(),
    ensures
        i <= spec_line_start_from(t, l, i) <= t.len(),
    decreases t.len() - i,
{
    if i < t.len() && spec_line_of(t, i) < l {
        lemma_line_start_from_bounds(t, l, i + 1);
    }
}

/// The search for the start of line `l` from `i` stops at `j` at the latest, where `j` lies in
/// line `l` or a later one.
proof fn lemma_line_start_from_le(t: Seq<char>, l: nat, i: int, j: int)
    requires
        0 <= i <= j <= t.len(),
        spec_line_of(t, j) >= l,
    ensures
        spec_line_start_from(t, l, i) <= j,
    decreases j - i,
{
    if i < j && i < t.len() && spec_line_of(t, i) < l {
        lemma_line_start_from_le(t, l, i + 1, j);
    }
}

/// The search for the start of line `l` from `i` finds a position after `j`, where no position
/// up to `j` lies in line `l` or a later one.
proof fn lemma_line_start_from_gt(t: Seq<char>, l: nat, i: int, j: int)
    requires
        0 <= i,
        j < t.len(),
        spec_line_of(t, j) < l,
    ensures
        spec_line_start_from(t, l, i) > j,
    decreases t.len() - i,
{
    if i < t.len() {
        if i <= j {
            lemma_line_of_mono(t, i, j);
        }
        if spec_line_of(t, i) < l {
            lemma_line_start_from_gt(t, l, i + 1, j);
        }
    }
}

/// Where the line of `p` starts.
pub open spec fn spec_line_begin(t: Seq<char>, p: int) -> int {
    spec_line_start(t, spec_line_of(t, p))
}

/// Where the line of `p` ends: before the break that ends it (the end of `t` in the last line).
pub open spec fn spec_line_end(t: Seq<char>, p: int) -> int {
    let l = spec_line_of(t, p);
    if l + 1 == spec_num_lines(t) {
        t.len() as int
    } else {
        spec_line_start(t, l + 1) - 1
    }
}

/// The start of the line of `p`, which lies at or before `p`.
pub(crate) fn line_begin(r: &Rope, p: usize) -> (res: usize)
    requires
        p <= rope_text(*r).len(),
    ensures
        res == spec_line_begin(rope_text(*r), p as int),
        res <= p,
{
    let ghost t = rope_text(*r);
    let l = rope_char_to_line(r, p);
    proof {
        lemma_line_of_mono(t, p as int, t.len() as int);
        lemma_line_start_from_le(t, l as nat, 0, p as int);
    }
    rope_line_to_char(r, l)
}

/// The end of the line of `p` (before its break), which lies at or after `p`.
pub(crate) fn line_end(r: &Rope, p: usize) -> (res: usize)
    requires
        p <= rope_text(*r).len(),
    ensures
        res == spec_line_end(rope_text(*r), p as int),
        p <= res <= rope_text(*r).len(),
{
    let ghost t = rope_text(*r);
    let l = rope_char_to_line(r, p);
    let n = rope_len_lines(r);
    proof {
        lemma_line_of_mono(t, p as int, t.len() as int);
    }
    if l + 1 == n {
        rope_len_chars(r)
    } else {
        proof {
            if p < t.len() {
                lemma_line_start_from_gt(t, (l + 1) as nat, 0, p as int);
            }
            lemma_line_start_from_bounds(t, (l + 1) as nat, 0);
        }
        let s = rope_line_to_char(r, l + 1);
        s - 1
    }
}

/// A position, if there is one, as an integer.
pub open spec fn spec_pos(o: Option<usize>) -> Option<int> {
    match o {
        Some(e) => Some(e as int),
        None => None,
    }
}

/// The grapheme clusters of the rope's text, with its chars counted.
pub(crate) fn rope_clusters(r: &Rope) -> (res: (Vec<String>, usize))
    ensures
        res.0.deep_view() == spec_graphemes(rope_text(*r)),
        res.0.deep_view().flatten() == rope_text(*r),
        res.1 == rope_text(*r).len(),
        forall|i: int| 0 <= i < res.0@.len() ==> #[trigger] res.0@[i]@.len() > 0,
{
    let s = rope_to_string(r);
    let n = s.as_str().unicode_len();
    (graphemes(s.as_str()), n)
}

/// The first grapheme cluster boundary after `p`.
pub(crate) fn next_boundary(r: &Rope, p: usize) -> (res: Option<usize>)
    ensures
        spec_pos(res) == spec_next_boundary(rope_text(*r), p as int),
        res matches Some(e) ==> p < e <= rope_text(*r).len(),
        (p as int) < rope_text(*r).len() ==> res is Some,
{
    let (gs, n) = rope_clusters(r);
    let ghost g = gs.deep_view();
    let mut off: usize = 0;
    let mut k: usize = 0;
    proof {
        assert(g.skip(0) =~= g);
    }
    while k < gs.len()
        invariant
            g == gs.deep_view(),
            g == spec_graphemes(rope_text(*r)),
            n == rope_text(*r).len(),
            k <= g.len(),
            off <= p,
            off + g.skip(k as int).flatten().len() == n,
            spec_next_in(g.skip(k as int), p as int, off as int) == spec_next_in(g, p as int, 0),
            forall|i: int| 0 <= i < g.len() ==> #[trigger] g[i].len() > 0,
        decreases g.len() - k,
    {
        proof {
            assert(g.skip(k as int)[0] == g[k as int]);
            assert(g.skip(k as int).drop_first() =~= g.skip(k + 1));
            assert(gs@[k as int]@ == g[k as int]);
        }
        let len = gs[k].as_str().unicode_len();
        let e = off + len;
        k = k + 1;
        if e > p {
            return Some(e);
        }
        off = e;
    }
    proof {
        assert(g.skip(k as int) =~= Seq::<Seq<char>>::empty());
    }
    None
}

/// The last grapheme cluster boundary before `p`.
pub(crate) fn prev_boundary(r: &Rope, p: usize) -> (res: Option<usize>)
    ensures
        spec_pos(res) == spec_prev_boundary(rope_text(*r), p as int),
        res matches Some(e) ==> e < p && e <= rope_text(*r).len(),
{
    let (gs, n) = rope_clusters(r);
    let ghost g = gs.deep_view();
    let mut off: usize = 0;
    let mut best: Option<usize> = None;
    let mut k: usize = 0;
    proof {
        assert(g.skip(0) =~= g);
    }
    while k < gs.len()
        invariant
            g == gs.deep_view(),
            g == spec_graphemes(rope_text(*r)),
            n == rope_text(*r).len(),
            k <= g.len(),
            off + g.skip(k as int).flatten().len() == n,
            spec_prev_in(g.skip(k as int), p as int, off as int, spec_pos(best)) == spec_prev_in(
                g,
                p as int,
                0,
                None,
            ),
            best matches Some(e) ==> e < p && e <= n,
        decreases g.len() - k,
    {
        proof {
            assert(g.skip(k as int)[0] == g[k as int]);
            assert(g.skip(k as int).drop_first() =~= g.skip(k + 1));
            assert(gs@[k as int]@ == g[k as int]);
        }
        if off < p {
            best = Some(off);
        }
        let len = gs[k].as_str().unicode_len();
        off = off + len;
        k = k + 1;
    }
    if off < p {
        best = Some(off);
    }
    best
}

} // verus!
