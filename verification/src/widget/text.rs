//! Grapheme clusters and display widths of text, as computed by `unicode-segmentation` and
//! `unicode-width`.
use unicode_segmentation::UnicodeSegmentation;
use unicode_width::UnicodeWidthStr;
use vstd::prelude::*;
use vstd::utf8::{encode_scalar, encode_utf8};

verus! {

/// The extended grapheme clusters of a text, in order, as `unicode-segmentation` splits it.
pub uninterp spec fn spec_graphemes(text: Seq<char>) -> Seq<Seq<char>>;

/// The monospace display width of a text, as `unicode-width` computes it.
pub uninterp spec fn spec_str_width(text: Seq<char>) -> nat;

/// `UnicodeSegmentation::graphemes(text, true)`, collected.
///
/// Claimed: the result is the grapheme sequence named `spec_graphemes`; the clusters are
/// non-empty and, concatenated, give back the text (the iterator hands out consecutive,
/// non-empty slices of the text between adjacent boundaries).
#[verifier::external_body]
pub(crate) fn graphemes(text: &str) -> (r: Vec<String>)
    ensures
        r.deep_view() == spec_graphemes(text@),
        r.deep_view().flatten() == text@,
        forall|i: int| 0 <= i < r@.len() ==> #[trigger] r@[i]@.len() > 0,
{
    text.graphemes(true).map(|g| g.to_string()).collect()
}

/// Whether every char of the text is a printable ASCII char (`' '` to `'~'`).
pub open spec fn spec_printable_ascii(text: Seq<char>) -> bool {
    forall|i: int| 0 <= i < text.len() ==> ' ' <= #[trigger] text[i] <= '~'
}

/// `UnicodeWidthStr::width(text)`.
///
/// Claimed: the result is the width named `spec_str_width`. Of its value only two facts are
/// claimed, both plain in the crate's source (`tables::str_width` sums per-char widths over the
/// chars, and every char from U+0020 to U+007E adds exactly 1): the empty text has width 0, and a
/// text of printable ASCII chars is as wide as it is long.
#[verifier::external_body]
pub(crate) fn str_width(text: &str) -> (r: usize)
    ensures
        r == spec_str_width(text@),
        text@.len() == 0 ==> r == 0,
        spec_printable_ascii(text@) ==> r == text@.len(),
{
    UnicodeWidthStr::width(text)
}

/// `str::len`: the number of bytes of the text's UTF-8 encoding.
///
/// Claimed: the result is exactly the length of the encoding (a `str` is stored as its UTF-8
/// bytes, so the length always fits into a `usize`).
#[verifier::external_body]
pub(crate) fn str_byte_len(text: &str) -> (r: usize)
    ensures
        r as nat == encode_utf8(text@).len(),
{
    text.len()
}

/// `String::push`: append a single char.
#[verifier::external_body]
pub(crate) fn string_push(s: &mut String, c: char)
    ensures
        final(s)@ == old(s)@.push(c),
{
    s.push(c);
}

/// `String::push_str`: append a text.
#[verifier::external_body]
pub(crate) fn string_push_str(s: &mut String, t: &str)
    ensures
        final(s)@ == old(s)@ + t@,
{
    s.push_str(t);
}

/// `String::pop`: remove and return the last char, if any.
#[verifier::external_body]
pub(crate) fn string_pop(s: &mut String) -> (r: Option<char>)
    ensures
        old(s)@.len() == 0 ==> r is None && final(s)@ == old(s)@,
        old(s)@.len() > 0 ==> r == Some(old(s)@.last()) && final(s)@ == old(s)@.drop_last(),
{
    s.pop()
}

/// The number of grapheme clusters in the given text.
pub fn count_grapheme_clusters(text: &str) -> (r: usize)
    ensures
        r == spec_graphemes(text@).len(),
{
    let g = graphemes(text);
    g.len()
}

/// The number of bytes of the UTF-8 encoding of a text.
pub open spec fn byte_len(text: Seq<char>) -> nat {
    encode_utf8(text).len()
}

/// The byte offset of the `k`'th grapheme cluster, i.e., the number of bytes of the first `k`
/// clusters.
pub open spec fn cluster_offset(clusters: Seq<Seq<char>>, k: int) -> nat {
    byte_len(clusters.take(k).flatten())
}

/// The UTF-8 encoding of a concatenation is the concatenation of the encodings.
pub proof fn lemma_encode_utf8_concat(a: Seq<char>, b: Seq<char>)
    ensures
        encode_utf8(a + b) == encode_utf8(a) + encode_utf8(b),
    decreases a.len(),
{
    if a.len() == 0 {
        assert(a + b =~= b);
        assert(encode_utf8(a) =~= Seq::<u8>::empty());
        assert(encode_utf8(a) + encode_utf8(b) =~= encode_utf8(b));
    } else {
        assert((a + b)[0] == a[0]);
        assert((a + b).drop_first() =~= a.drop_first() + b);
        lemma_encode_utf8_concat(a.drop_first(), b);
        assert(encode_utf8(a + b) =~= encode_scalar(a[0] as u32) + encode_utf8(a.drop_first() + b));
        assert(encode_utf8(a) + encode_utf8(b) =~= encode_scalar(a[0] as u32) + (encode_utf8(
            a.drop_first(),
        ) + encode_utf8(b)));
    }
}

/// Every char takes at least one byte.
pub proof fn lemma_byte_len_at_least_len(a: Seq<char>)
    ensures
        byte_len(a) >= a.len(),
    decreases a.len(),
{
    if a.len() > 0 {
        lemma_byte_len_at_least_len(a.drop_first());
        assert(encode_scalar(a[0] as u32).len() >= 1);
    }
}

/// Splitting a sequence of clusters at `k` splits its concatenation.
pub proof fn lemma_flatten_split(s: Seq<Seq<char>>, k: int)
    requires
        0 <= k <= s.len(),
    ensures
        s.take(k).flatten() + s.skip(k).flatten() == s.flatten(),
{
    assert(s.take(k) + s.skip(k) =~= s);
    vstd::seq_lib::lemma_flatten_concat(s.take(k), s.skip(k));
}

/// Taking one more cluster appends that cluster.
pub proof fn lemma_flatten_take_next(s: Seq<Seq<char>>, k: int)
    requires
        0 <= k < s.len(),
    ensures
        s.take(k + 1).flatten() == s.take(k).flatten() + s[k],
{
    assert(s.take(k + 1) =~= s.take(k).push(s[k]));
    s.take(k).lemma_flatten_push(s[k]);
}

/// Extending a subrange by one cluster appends that cluster.
pub proof fn lemma_flatten_subrange_next(s: Seq<Seq<char>>, j: int, k: int)
    requires
        0 <= j <= k < s.len(),
    ensures
        s.subrange(j, k + 1).flatten() == s.subrange(j, k).flatten() + s[k],
{
    assert(s.subrange(j, k + 1) =~= s.subrange(j, k).push(s[k]));
    s.subrange(j, k).lemma_flatten_push(s[k]);
}

/// Cluster offsets grow with `k` (strictly, where clusters are non-empty) and end at the byte
/// length of the whole text.
pub proof fn lemma_cluster_offset_next(s: Seq<Seq<char>>, k: int)
    requires
        0 <= k < s.len(),
    ensures
        cluster_offset(s, k + 1) == cluster_offset(s, k) + byte_len(s[k]),
        s[k].len() > 0 ==> cluster_offset(s, k + 1) > cluster_offset(s, k),
{
    lemma_flatten_take_next(s, k);
    lemma_encode_utf8_concat(s.take(k).flatten(), s[k]);
    lemma_byte_len_at_least_len(s[k]);
}

/// The offset of the first `k` clusters never exceeds the byte length of all of them.
pub proof fn lemma_cluster_offset_bounded(s: Seq<Seq<char>>, k: int)
    requires
        0 <= k <= s.len(),
    ensures
        cluster_offset(s, k) <= byte_len(s.flatten()),
        cluster_offset(s, s.len() as int) == byte_len(s.flatten()),
{
    lemma_flatten_split(s, k);
    lemma_encode_utf8_concat(s.take(k).flatten(), s.skip(k).flatten());
    assert(s.take(s.len() as int) =~= s);
}

/// Offsets of non-empty clusters are strictly increasing.
pub proof fn lemma_cluster_offset_strict(s: Seq<Seq<char>>, j: int, k: int)
    requires
        0 <= j < k <= s.len(),
        forall|i: int| 0 <= i < s.len() ==> #[trigger] s[i].len() > 0,
    ensures
        cluster_offset(s, j) < cluster_offset(s, k),
    decreases k - j,
{
    lemma_cluster_offset_next(s, k - 1);
    if j < k - 1 {
        lemma_cluster_offset_strict(s, j, k - 1);
    }
}

} // verus!
