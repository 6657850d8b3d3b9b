//! Storage of lines of text, and the splitting of written text into lines.
use crate::base::basic_types::LineIndex;
use crate::widget::text::string_push;
use vstd::prelude::*;
use vstd::string::StrSliceExecFns;

verus! {

/// The lines after appending `text` to the last of `lines`: each newline of the text starts a new
/// (empty) line, every other char is appended to the last line.
pub open spec fn spec_append_text(lines: Seq<Seq<char>>, text: Seq<char>) -> Seq<Seq<char>>
    decreases text.len(),
{
    if text.len() == 0 {
        lines
    } else {
        let r = spec_append_text(lines, text.drop_last());
        if text.last() == '\n' {
            r.push(Seq::empty())
        } else {
            r.update(r.len() - 1, r.last().push(text.last()))
        }
    }
}

/// Appending keeps at least one line, keeps the lines before the last one, and adds no line
/// that contains a newline.
pub proof fn lemma_append_text(lines: Seq<Seq<char>>, text: Seq<char>)
    requires
        lines.len() >= 1,
    ensures
        spec_append_text(lines, text).len() >= lines.len(),
        forall|i: int| 0 <= i < lines.len() - 1 ==> #[trigger] spec_append_text(lines, text)[i] == lines[i],
        (forall|i: int| 0 <= i < lines.len() ==> !#[trigger] lines[i].contains('\n')) ==> forall|i: int|
            0 <= i < spec_append_text(lines, text).len() ==> !#[trigger] spec_append_text(lines, text)[i].contains('\n'),
    decreases text.len(),
{
    if text.len() > 0 {
        lemma_append_text(lines, text.drop_last());
        let r = spec_append_text(lines, text.drop_last());
        if (forall|i: int| 0 <= i < lines.len() ==> !#[trigger] lines[i].contains('\n')) {
            if text.last() != '\n' {
                assert forall|i: int| 0 <= i < spec_append_text(lines, text).len() implies !#[trigger] spec_append_text(lines, text)[i].contains('\n') by {
                    if i == r.len() - 1 {
                        let l = r.last().push(text.last());
                        if l.contains('\n') {
                            let k = choose|k: int| 0 <= k < l.len() && l[k] == '\n';
                            if k < r.last().len() {
                                assert(r.last()[k] == '\n');
                                assert(r[r.len() - 1].contains('\n'));
                            }
                        }
                    } else {
                        assert(!r[i].contains('\n'));
                    }
                }
            } else {
                assert forall|i: int| 0 <= i < spec_append_text(lines, text).len() implies !#[trigger] spec_append_text(lines, text)[i].contains('\n') by {
                    if i == r.len() {
                        assert(!Seq::<char>::empty().contains('\n'));
                    } else {
                        assert(!r[i].contains('\n'));
                    }
                }
            }
        }
    }
}

/// Append `text` to the last of `lines` (which must not be empty), starting a new line at every
/// newline.
pub(crate) fn append_text(lines: &mut Vec<String>, text: &str)
    requires
        old(lines)@.len() >= 1,
    ensures
        final(lines).deep_view() == spec_append_text(old(lines).deep_view(), text@),
        final(lines)@.len() >= 1,
{
    let ghost before = lines.deep_view();
    let n = text.unicode_len();
    let mut i: usize = 0;
    proof {
        assert(text@.take(0) =~= Seq::<char>::empty());
    }
    while i < n
        invariant
            n == text@.len(),
            i <= n,
            before.len() >= 1,
            lines.deep_view() == spec_append_text(before, text@.take(i as int)),
        decreases n - i,
    {
        let c = text.get_char(i);
        proof {
            lemma_append_text(before, text@.take(i as int));
            assert(text@.take(i + 1).drop_last() =~= text@.take(i as int));
            assert(text@.take(i + 1).last() == c);
        }
        if c == '\n' {
            lines.push(String::new());
            proof {
                assert(lines.deep_view() =~= spec_append_text(before, text@.take(i + 1)));
            }
        } else {
            let last = lines.len() - 1;
            let mut l = String::new();
            std::mem::swap(&mut l, &mut lines[last]);
            string_push(&mut l, c);
            lines.set(last, l);
            proof {
                assert(lines.deep_view() =~= spec_append_text(before, text@.take(i + 1)));
            }
        }
        i = i + 1;
    }
    proof {
        assert(text@.take(n as int) =~= text@);
        lemma_append_text(before, text@);
    }
}

/// Something that stores lines, which can be looked up by index.
pub trait LineStorage {
    /// The type of a line.
    type Line;
    /// The line at the given index, if there is one.
    fn view_line(&self, pos: LineIndex) -> Option<Self::Line>;
}

/// Lines stored in memory.
pub struct MemoryLineStorage<L> {
    pub lines: Vec<L>,
}

impl<L> MemoryLineStorage<L> {
    /// An empty storage.
    pub fn new() -> (r: Self)
        ensures
            r.lines@ == Seq::<L>::empty(),
    {
        Self::with_lines(Vec::new())
    }

    /// A storage holding the given lines.
    pub fn with_lines(lines: Vec<L>) -> (r: Self)
        ensures
            r.lines@ == lines@,
    {
        MemoryLineStorage { lines: lines }
    }

    /// The number of stored lines.
    pub fn num_lines_stored(&self) -> (r: usize)
        ensures
            r == self.lines@.len(),
    {
        self.lines.len()
    }
}

impl<L: Clone> LineStorage for MemoryLineStorage<L> {
    type Line = L;

    /// A copy of the line at `pos`, if there is one.
    fn view_line(&self, pos: LineIndex) -> (r: Option<L>)
        ensures
            pos@ < self.lines@.len() <==> r is Some,
            r matches Some(l) ==> cloned::<L>(self.lines@[pos@ as int], l),
    {
        let upos = pos.raw_value();
        if upos < self.lines.len() {
            Some(self.lines[upos].clone())
        } else {
            None
        }
    }
}

impl<L: Default> MemoryLineStorage<L> {
    /// The last line, for changing it in place (a default line is added where there is none
    /// yet). Text appended to it should not contain newlines.
    pub fn active_line_mut(&mut self) -> (r: &mut L)
        ensures
            old(self).lines@.len() > 0 ==> final(self).lines@.len() == old(self).lines@.len()
                && (forall|i: int| 0 <= i < old(self).lines@.len() - 1 ==> final(self).lines@[i] == old(self).lines@[i])
                && *r == old(self).lines@.last(),
            old(self).lines@.len() == 0 ==> final(self).lines@.len() == 1 && call_ensures(L::default, (), *r),
            final(self).lines@.last() == *final(r),
    {
        if self.lines.len() == 0 {
            self.lines.push(L::default());
        }
        let last = self.lines.len() - 1;
        &mut self.lines[last]
    }
}

impl MemoryLineStorage<String> {
    /// Append text, starting a new line at every newline.
    pub fn write_str(&mut self, s: &str)
        ensures
            final(self).lines.deep_view() == spec_append_text(
                if old(self).lines@.len() == 0 {
                    seq![Seq::<char>::empty()]
                } else {
                    old(self).lines.deep_view()
                },
                s@,
            ),
    {
        if self.lines.len() == 0 {
            self.lines.push(String::new());
            proof {
                assert(self.lines.deep_view() =~= seq![Seq::<char>::empty()]);
            }
        }
        append_text(&mut self.lines, s);
    }
}

/// Lines of text stored in memory.
pub type StringLineStorage = MemoryLineStorage<String>;

} // verus!
