//! A widget with "readline"-like functionality: an editable line with a history that can be
//! scrolled through and searched.
use crate::input::{Editable, Navigatable, OperationResult, Scrollable, Writable};
use crate::widget::builtin::lineedit::{
    same_line, spec_clear, spec_delete_backwards, spec_delete_forwards, spec_left, spec_right,
    spec_to_beginning, spec_to_end, spec_write, LineEdit,
};
use crate::widget::text::{spec_graphemes, string_pop, string_push, string_push_str};
use crate::widget::widgets::linelabel::LineLabel;
use vstd::prelude::*;
use vstd::string::StrSliceExecFns;

verus! {

/// Whether `needle` occurs in `hay` as a contiguous part.
pub open spec fn spec_contains(hay: Seq<char>, needle: Seq<char>) -> bool {
    exists|i: int| 0 <= i && i + needle.len() <= hay.len() && #[trigger] hay.subrange(i, i + needle.len()) == needle
}

/// The greatest index below `end` whose line contains `pattern`.
pub open spec fn spec_last_match(history: Seq<Seq<char>>, pattern: Seq<char>, end: int) -> Option<nat>
    decreases end,
{
    if end <= 0 {
        None
    } else if spec_contains(history[end - 1], pattern) {
        Some((end - 1) as nat)
    } else {
        spec_last_match(history, pattern, end - 1)
    }
}

/// The least index from `start` on whose line contains `pattern`.
pub open spec fn spec_first_match(history: Seq<Seq<char>>, pattern: Seq<char>, start: int) -> Option<nat>
    decreases history.len() - start,
{
    if start >= history.len() || start < 0 {
        None
    } else if spec_contains(history[start], pattern) {
        Some(start as nat)
    } else {
        spec_first_match(history, pattern, start + 1)
    }
}

/// An optional index as an optional natural number.
pub open spec fn opt_nat(r: Option<usize>) -> Option<nat> {
    match r {
        Some(i) => Some(i as nat),
        None => None,
    }
}

/// The result of searching the history backwards from `current` (or from its end).
pub open spec fn spec_search_prev(history: Seq<Seq<char>>, pattern: Seq<char>, current: Option<nat>) -> Option<nat> {
    if pattern.len() == 0 {
        None
    } else {
        spec_last_match(
            history,
            pattern,
            match current {
                Some(c) => c as int,
                None => history.len() as int,
            },
        )
    }
}

/// The result of searching the history forwards from behind `current` (or from its start).
pub open spec fn spec_search_next(history: Seq<Seq<char>>, pattern: Seq<char>, current: Option<nat>) -> Option<nat> {
    if pattern.len() == 0 {
        None
    } else {
        spec_first_match(
            history,
            pattern,
            match current {
                Some(c) => c + 1int,
                None => 0int,
            },
        )
    }
}

/// The chars of a text.
fn chars_of(s: &str) -> (r: Vec<char>)
    ensures
        r@ == s@,
{
    let n = s.unicode_len();
    let mut v: Vec<char> = Vec::new();
    let mut i: usize = 0;
    while i < n
        invariant
            n == s@.len(),
            i <= n,
            v@ == s@.take(i as int),
        decreases n - i,
    {
        let c = s.get_char(i);
        v.push(c);
        proof {
            assert(v@ =~= s@.take(i + 1));
        }
        i = i + 1;
    }
    proof {
        assert(s@.take(n as int) =~= s@);
    }
    v
}

/// Whether `hay[i..]` starts with `needle`.
fn matches_at(hay: &Vec<char>, needle: &Vec<char>, i: usize) -> (r: bool)
    requires
        i + needle@.len() <= hay@.len(),
    ensures
        r == (hay@.subrange(i as int, i + needle@.len()) == needle@),
{
    let hl = hay.len();
    let mut j: usize = 0;
    while j < needle.len()
        invariant
            hl == hay@.len(),
            i + needle@.len() <= hay@.len(),
            j <= needle@.len(),
            hay@.subrange(i as int, i + j) == needle@.take(j as int),
        decreases needle@.len() - j,
    {
        if hay[i + j] != needle[j] {
            proof {
                assert(hay@.subrange(i as int, i + needle@.len())[j as int] != needle@[j as int]);
            }
            return false;
        }
        proof {
            assert(hay@.subrange(i as int, i + j + 1) =~= needle@.take(j + 1));
        }
        j = j + 1;
    }
    proof {
        assert(needle@.take(j as int) =~= needle@);
    }
    true
}

/// Whether `needle` occurs in `hay`.
pub fn text_contains(hay: &str, needle: &str) -> (r: bool)
    ensures
        r == spec_contains(hay@, needle@),
{
    let h = chars_of(hay);
    let n = chars_of(needle);
    if n.len() > h.len() {
        return false;
    }
    let last = h.len() - n.len();
    let mut i: usize = 0;
    loop
        invariant
            h@ == hay@,
            n@ == needle@,
            last + n@.len() == h@.len(),
            i <= last,
            forall|k: int| 0 <= k < i ==> #[trigger] h@.subrange(k, k + n@.len()) != n@,
        decreases last - i,
    {
        if matches_at(&h, &n, i) {
            return true;
        }
        if i == last {
            return false;
        }
        i = i + 1;
    }
}

/// The index of the last line before `current` (or before the end of the history, where
/// `current` is `None`) that contains `search_pattern`; `None` if there is no such line or the
/// pattern is empty.
pub fn search_prev(current: Option<usize>, history: &Vec<String>, search_pattern: &str) -> (r: Option<usize>)
    requires
        search_pattern@.len() > 0 ==> (current matches Some(c) ==> c <= history@.len()),
    ensures
        opt_nat(r) == spec_search_prev(history.deep_view(), search_pattern@, opt_nat(current)),
{
    if search_pattern.unicode_len() == 0 {
        return None;
    }
    let end = match current {
        Some(c) => c,
        None => history.len(),
    };
    let ghost h = history.deep_view();
    let mut i = end;
    while i > 0
        invariant
            i <= end <= history@.len(),
            h == history.deep_view(),
            spec_last_match(h, search_pattern@, end as int) == spec_last_match(h, search_pattern@, i as int),
            search_pattern@.len() > 0,
            end as int == match current {
                Some(c) => c as int,
                None => history@.len() as int,
            },
        decreases i,
    {
        proof {
            assert(history@[i - 1]@ == h[i - 1]);
        }
        if text_contains(history[i - 1].as_str(), search_pattern) {
            proof {
                assert(spec_contains(h[i - 1], search_pattern@));
                assert(spec_last_match(h, search_pattern@, i as int) == Some((i - 1) as nat));
            }
            return Some(i - 1);
        }
        i = i - 1;
    }
    None
}

/// The index of the first line after `current` (or from the start of the history, where
/// `current` is `None`) that contains `search_pattern`; `None` if there is no such line or the
/// pattern is empty.
pub fn search_next(current: Option<usize>, history: &Vec<String>, search_pattern: &str) -> (r: Option<usize>)
    requires
        search_pattern@.len() > 0 ==> (current matches Some(c) ==> c < history@.len()),
    ensures
        opt_nat(r) == spec_search_next(history.deep_view(), search_pattern@, opt_nat(current)),
{
    if search_pattern.unicode_len() == 0 {
        return None;
    }
    let len = history.len();
    let start = match current {
        Some(c) => c + 1,
        None => 0,
    };
    let ghost h = history.deep_view();
    let mut i = start;
    while i < history.len()
        invariant
            start <= i <= history@.len(),
            h == history.deep_view(),
            spec_first_match(h, search_pattern@, start as int) == spec_first_match(h, search_pattern@, i as int),
            search_pattern@.len() > 0,
            start as int == match current {
                Some(c) => c + 1,
                None => 0,
            },
        decreases history@.len() - i,
    {
        proof {
            assert(history@[i as int]@ == h[i as int]);
        }
        if text_contains(history[i].as_str(), search_pattern) {
            proof {
                assert(spec_contains(h[i as int], search_pattern@));
                assert(spec_first_match(h, search_pattern@, i as int) == Some(i as nat));
            }
            return Some(i);
        }
        i = i + 1;
    }
    None
}

/// A match found searching backwards lies before the end of the search.
pub proof fn lemma_last_match_bound(history: Seq<Seq<char>>, pattern: Seq<char>, end: int)
    ensures
        spec_last_match(history, pattern, end) matches Some(i) ==> i < end,
    decreases end,
{
    if end > 0 {
        lemma_last_match_bound(history, pattern, end - 1);
    }
}

/// A match found searching forwards lies in the history, at or after the start of the search.
pub proof fn lemma_first_match_bound(history: Seq<Seq<char>>, pattern: Seq<char>, start: int)
    ensures
        spec_first_match(history, pattern, start) matches Some(i) ==> start <= i < history.len(),
    decreases history.len() - start,
{
    if 0 <= start < history.len() {
        lemma_first_match_bound(history, pattern, start + 1);
    }
}

/// The state of a `PromptLine`: editing a new line, scrolling through the history (remembering
/// the line that was being edited), or searching the history for a pattern.
pub ghost enum PromptState {
    Editing,
    Scrollback { active_line: Seq<char>, pos: nat },
    Searching { search_pattern: Seq<char>, pos: Option<nat> },
}

enum State {
    Editing,
    Scrollback { active_line: String, pos: usize },
    Searching { search_pattern: String, pos: Option<usize> },
}

impl State {
    spec fn view(&self) -> PromptState {
        match self {
            State::Editing => PromptState::Editing,
            State::Scrollback { active_line, pos } => PromptState::Scrollback {
                active_line: active_line@,
                pos: *pos as nat,
            },
            State::Searching { search_pattern, pos } => PromptState::Searching {
                search_pattern: search_pattern@,
                pos: opt_nat(*pos),
            },
        }
    }
}

/// The label shown left of the line: the prompt for the current state; while searching it also
/// shows the pattern, as in `prompt"pattern": `.
pub open spec fn spec_label_for(state: PromptState, edit: Seq<char>, scroll: Seq<char>, search: Seq<char>) -> Seq<char> {
    match state {
        PromptState::Editing => edit,
        PromptState::Scrollback { .. } => scroll,
        PromptState::Searching { search_pattern, .. } => search + seq!['"'] + search_pattern + seq!['"', ':', ' '],
    }
}

/// The line content that the state dictates: the history entry scrolled or searched to (empty
/// where a search found nothing); none while editing.
pub open spec fn spec_line_for(state: PromptState, history: Seq<Seq<char>>) -> Option<Seq<char>> {
    match state {
        PromptState::Editing => None,
        PromptState::Scrollback { pos, .. } => Some(history[pos as int]),
        PromptState::Searching { pos, .. } => match pos {
            Some(p) => Some(history[p as int]),
            None => Some(Seq::empty()),
        },
    }
}

/// An editable line with a history that can be scrolled through and searched ("readline"-like).
pub struct PromptLine {
    prompt: LineLabel,
    edit_prompt: String,
    scroll_prompt: String,
    search_prompt: String,
    line: LineEdit,
    history: Vec<String>,
    state: State,
}

impl PromptLine {
    /// The editable line.
    pub closed spec fn spec_line(&self) -> LineEdit {
        self.line
    }

    /// The current state.
    pub closed spec fn spec_state(&self) -> PromptState {
        self.state@
    }

    /// The history, oldest line first.
    pub closed spec fn spec_history(&self) -> Seq<Seq<char>> {
        self.history.deep_view()
    }

    /// The prompt shown while editing.
    pub closed spec fn spec_edit_prompt(&self) -> Seq<char> {
        self.edit_prompt@
    }

    /// The prompt shown while scrolling.
    pub closed spec fn spec_scroll_prompt(&self) -> Seq<char> {
        self.scroll_prompt@
    }

    /// The prompt shown while searching.
    pub closed spec fn spec_search_prompt(&self) -> Seq<char> {
        self.search_prompt@
    }

    /// The label currently shown left of the line.
    pub closed spec fn spec_label(&self) -> Seq<char> {
        self.prompt.spec_text()
    }

    /// Positions in the state point into the history.
    #[verifier::type_invariant]
    spec fn wf(&self) -> bool {
        match self.spec_state() {
            PromptState::Scrollback { pos, .. } => pos < self.spec_history().len(),
            PromptState::Searching { pos, .. } => pos matches Some(p) ==> p < self.spec_history().len(),
            PromptState::Editing => true,
        }
    }

    /// The label for the current state.
    pub open spec fn spec_expected_label(&self) -> Seq<char> {
        spec_label_for(
            self.spec_state(),
            self.spec_edit_prompt(),
            self.spec_scroll_prompt(),
            self.spec_search_prompt(),
        )
    }

    /// `self` shows what its state dictates, where `before` is the line as it was before the
    /// display was brought up to date: the label for the state, and the line content for the
    /// state (with the cursor at its end), or, while editing, the line as it was.
    pub open spec fn spec_refreshed(&self, before: LineEdit) -> bool {
        &&& self.spec_label() == self.spec_expected_label()
        &&& match spec_line_for(self.spec_state(), self.spec_history()) {
            Some(t) => self.spec_line().spec_text() == t && self.spec_line().spec_cursor() == spec_graphemes(t).len(),
            None => same_line(self.spec_line(), before),
        }
    }

    /// The prompts, history and state are those of `other`.
    pub open spec fn spec_same_config(&self, other: &Self) -> bool {
        &&& self.spec_edit_prompt() == other.spec_edit_prompt()
        &&& self.spec_scroll_prompt() == other.spec_scroll_prompt()
        &&& self.spec_search_prompt() == other.spec_search_prompt()
        &&& self.spec_history() == other.spec_history()
    }

    /// A prompt line that shows `prompt` left of the editable line, with an empty history.
    pub fn with_prompt(prompt: String) -> (r: Self)
        ensures
            r.spec_state() == PromptState::Editing,
            r.spec_history() == Seq::<Seq<char>>::empty(),
            r.spec_edit_prompt() == prompt@,
            r.spec_scroll_prompt() == prompt@,
            r.spec_search_prompt() == prompt@,
            r.spec_label() == prompt@,
            r.spec_line().spec_text() == Seq::<char>::empty(),
            r.spec_line().spec_cursor() == 0,
    {
        let r = PromptLine {
            edit_prompt: prompt.clone(),
            scroll_prompt: prompt.clone(),
            search_prompt: prompt.clone(),
            prompt: LineLabel::new(prompt),
            line: LineEdit::new(),
            history: Vec::new(),
            state: State::Editing,
        };
        proof {
            assert(r.history.deep_view() =~= Seq::<Seq<char>>::empty());
        }
        r
    }

    /// Set the content of the line, placing the cursor at its end.
    fn set_line(&mut self, text: &str)
        ensures
            line_is(final(self).spec_line(), text@),
            final(self).spec_state() == old(self).spec_state(),
            final(self).spec_same_config(old(self)),
            final(self).spec_label() == old(self).spec_label(),
    {
        proof {
            use_type_invariant(&*self);
        }
        let mut l = LineEdit::new();
        std::mem::swap(&mut l, &mut self.line);
        l.set(text);
        std::mem::swap(&mut l, &mut self.line);
    }

    /// Bring the label and the line up to date with the state.
    fn update_display(&mut self)
        ensures
            final(self).spec_state() == old(self).spec_state(),
            final(self).spec_same_config(old(self)),
            final(self).spec_refreshed(old(self).spec_line()),
    {
        proof {
            use_type_invariant(&*self);
        }
        let (label, text): (String, Option<String>) = match &self.state {
            State::Editing => (self.edit_prompt.clone(), None),
            State::Scrollback { pos, .. } => {
                proof {
                    assert(self.history@[*pos as int]@ == self.history.deep_view()[*pos as int]);
                }
                (self.scroll_prompt.clone(), Some(self.history[*pos].clone()))
            },
            State::Searching { pos, search_pattern } => {
                let mut label = self.search_prompt.clone();
                string_push(&mut label, '"');
                string_push_str(&mut label, search_pattern.as_str());
                string_push(&mut label, '"');
                string_push(&mut label, ':');
                string_push(&mut label, ' ');
                proof {
                    assert(label@ =~= self.search_prompt@ + seq!['"'] + search_pattern@ + seq!['"', ':', ' ']);
                }
                match pos {
                    Some(p) => {
                        proof {
                            assert(self.history@[*p as int]@ == self.history.deep_view()[*p as int]);
                        }
                        (label, Some(self.history[*p].clone()))
                    },
                    None => (label, Some(String::new())),
                }
            },
        };
        self.prompt = LineLabel::new(label);
        match text {
            Some(t) => self.set_line(t.as_str()),
            None => {},
        }
    }

    /// Change the prompt for editing, searching and scrolling.
    pub fn set_prompt(&mut self, prompt: String)
        ensures
            final(self).spec_state() == old(self).spec_state(),
            final(self).spec_history() == old(self).spec_history(),
            final(self).spec_edit_prompt() == prompt@,
            final(self).spec_scroll_prompt() == prompt@,
            final(self).spec_search_prompt() == prompt@,
            final(self).spec_refreshed(old(self).spec_line()),
    {
        proof {
            use_type_invariant(&*self);
        }
        self.edit_prompt = prompt.clone();
        self.search_prompt = prompt.clone();
        self.scroll_prompt = prompt;
        self.update_display();
    }

    /// Change the prompt for editing.
    pub fn set_edit_prompt(&mut self, prompt: String)
        ensures
            final(self).spec_state() == old(self).spec_state(),
            final(self).spec_history() == old(self).spec_history(),
            final(self).spec_edit_prompt() == prompt@,
            final(self).spec_scroll_prompt() == old(self).spec_scroll_prompt(),
            final(self).spec_search_prompt() == old(self).spec_search_prompt(),
            final(self).spec_refreshed(old(self).spec_line()),
    {
        proof {
            use_type_invariant(&*self);
        }
        self.edit_prompt = prompt;
        self.update_display();
    }

    /// Change the prompt for searching.
    pub fn set_search_prompt(&mut self, prompt: String)
        ensures
            final(self).spec_state() == old(self).spec_state(),
            final(self).spec_history() == old(self).spec_history(),
            final(self).spec_edit_prompt() == old(self).spec_edit_prompt(),
            final(self).spec_scroll_prompt() == old(self).spec_scroll_prompt(),
            final(self).spec_search_prompt() == prompt@,
            final(self).spec_refreshed(old(self).spec_line()),
    {
        proof {
            use_type_invariant(&*self);
        }
        self.search_prompt = prompt;
        self.update_display();
    }

    /// Change the prompt for scrolling.
    pub fn set_scroll_prompt(&mut self, prompt: String)
        ensures
            final(self).spec_state() == old(self).spec_state(),
            final(self).spec_history() == old(self).spec_history(),
            final(self).spec_edit_prompt() == old(self).spec_edit_prompt(),
            final(self).spec_scroll_prompt() == prompt@,
            final(self).spec_search_prompt() == old(self).spec_search_prompt(),
            final(self).spec_refreshed(old(self).spec_line()),
    {
        proof {
            use_type_invariant(&*self);
        }
        self.scroll_prompt = prompt;
        self.update_display();
    }

    /// The history line `n` lines before its end (the first line where `n` exceeds the length);
    /// `None` for `n == 0` or an empty history.
    pub fn previous_line(&self, n: usize) -> (r: Option<&str>)
        ensures
            ({
                let len = self.spec_history().len();
                let idx = if n <= len { len - n } else { 0 };
                &&& idx < len ==> (r matches Some(l) && l@ == self.spec_history()[idx as int])
                &&& idx >= len ==> r is None
            }),
    {
        let len = self.history.len();
        let idx = if n <= len { len - n } else { 0 };
        if idx < len {
            proof {
                assert(self.history@[idx as int]@ == self.history.deep_view()[idx as int]);
            }
            Some(self.history[idx].as_str())
        } else {
            None
        }
    }

    /// The editable line.
    pub fn line(&self) -> (r: &LineEdit)
        ensures
            same_line(*r, self.spec_line()),
    {
        &self.line
    }

    /// The current content of the line.
    pub fn active_line(&self) -> (r: &str)
        ensures
            r@ == self.spec_line().spec_text(),
    {
        self.line.get()
    }

    /// The history.
    pub fn history(&self) -> (r: &Vec<String>)
        ensures
            r.deep_view() == self.spec_history(),
    {
        &self.history
    }

    /// The label shown left of the line.
    pub fn label(&self) -> (r: &str)
        ensures
            r@ == self.spec_label(),
    {
        self.prompt.get()
    }
}

/// The line `l` has the text `t` and the cursor at its end.
pub open spec fn line_is(l: LineEdit, t: Seq<char>) -> bool {
    l.spec_text() == t && l.spec_cursor() == spec_graphemes(t).len()
}

impl PromptLine {
    /// Accept the current content, e.g., a submitted command: it is added to the end of the
    /// history (unless it equals the last entry there), the line is cleared and editing starts
    /// anew. Returns the last history entry.
    pub fn finish_line(&mut self) -> (r: &str)
        ensures
            ({
                let h = old(self).spec_history();
                let l = old(self).spec_line().spec_text();
                final(self).spec_history() == if h.len() == 0 || l != h.last() {
                    h.push(l)
                } else {
                    h
                }
            }),
            final(self).spec_state() == PromptState::Editing,
            final(self).spec_label() == final(self).spec_edit_prompt(),
            final(self).spec_edit_prompt() == old(self).spec_edit_prompt(),
            final(self).spec_scroll_prompt() == old(self).spec_scroll_prompt(),
            final(self).spec_search_prompt() == old(self).spec_search_prompt(),
            final(self).spec_line().spec_text() == Seq::<char>::empty(),
            old(self).spec_line().spec_text().len() > 0 ==> final(self).spec_line().spec_cursor() == 0,
            old(self).spec_line().spec_text().len() == 0 ==> final(self).spec_line().spec_cursor()
                == old(self).spec_line().spec_cursor(),
            r@ == final(self).spec_history().last(),
    {
        let current = self.line.get().to_owned();
        self.state = State::Editing;
        let len = self.history.len();
        let push = if len == 0 {
            true
        } else {
            proof {
                assert(self.history@[len - 1]@ == self.history.deep_view()[len - 1]);
            }
            current != self.history[len - 1]
        };
        if push {
            let mut h = Vec::new();
            std::mem::swap(&mut h, &mut self.history);
            h.push(current);
            std::mem::swap(&mut h, &mut self.history);
            proof {
                assert(self.history.deep_view() =~= old(self).history.deep_view().push(current@));
            }
        }
        self.state = State::Editing;
        self.update_display();
        let mut l = LineEdit::new();
        std::mem::swap(&mut l, &mut self.line);
        let _ = l.clear();
        std::mem::swap(&mut l, &mut self.line);
        let n = self.history.len();
        proof {
            assert(self.history@[n - 1]@ == self.history.deep_view()[n - 1]);
        }
        self.history[n - 1].as_str()
    }

    /// Start (or continue) searching the history backwards; the search pattern is kept where a
    /// search was already under way, and starts out empty otherwise.
    pub fn enter_search(&mut self)
        ensures
            final(self).spec_same_config(old(self)),
            final(self).spec_refreshed(old(self).spec_line()),
            final(self).spec_state() == (match old(self).spec_state() {
                PromptState::Editing => PromptState::Searching {
                    search_pattern: Seq::empty(),
                    pos: None,
                },
                PromptState::Searching { search_pattern, pos } => PromptState::Searching {
                    search_pattern: search_pattern,
                    pos: spec_search_prev(old(self).spec_history(), search_pattern, pos),
                },
                PromptState::Scrollback { pos, .. } => PromptState::Searching {
                    search_pattern: Seq::empty(),
                    pos: None,
                },
            }),
    {
        proof {
            use_type_invariant(&*self);
        }
        let mut tmp = State::Editing;
        std::mem::swap(&mut tmp, &mut self.state);
        let (pos, search_pattern) = match tmp {
            State::Editing => (None, String::new()),
            State::Searching { pos, search_pattern } => (pos, search_pattern),
            State::Scrollback { pos, .. } => (Some(pos), String::new()),
        };
        let old_pos = pos;
        let pos = search_prev(old_pos, &self.history, search_pattern.as_str());
        proof {
            lemma_last_match_bound(self.history.deep_view(), search_pattern@,
                match opt_nat(old_pos) { Some(c) => c as int, None => self.history@.len() as int });
        }
        self.state = State::Searching { pos, search_pattern };
        self.update_display();
    }

    /// An edit operation that succeeded ends scrolling and searching: editing starts anew.
    fn note_edit_operation(&mut self, res: OperationResult) -> (r: OperationResult)
        ensures
            r == res,
            final(self).spec_same_config(old(self)),
            res is Ok ==> final(self).spec_state() == PromptState::Editing && final(self).spec_refreshed(
                old(self).spec_line(),
            ),
            res is Err ==> final(self).spec_state() == old(self).spec_state() && final(self).spec_label()
                == old(self).spec_label() && same_line(final(self).spec_line(), old(self).spec_line()),
    {
        if res.is_ok() {
            self.state = State::Editing;
            self.update_display();
        }
        res
    }

    /// Whether the history is being searched.
    fn searching(&self) -> (r: bool)
        ensures
            r == self.spec_state() is Searching,
    {
        if let State::Searching { .. } = self.state {
            true
        } else {
            false
        }
    }
}

/// Scrolling forwards: towards newer history entries; past the newest one, editing resumes with
/// the line that was being edited before scrolling started. While searching, the next match
/// is looked for. Nothing happens while editing.
pub open spec fn spec_scroll_forwards(old: PromptLine, new: PromptLine, r: OperationResult) -> bool {
    &&& new.spec_same_config(&old)
    &&& match old.spec_state() {
        PromptState::Editing => r is Err && new.spec_state() == PromptState::Editing && new.spec_refreshed(
            old.spec_line(),
        ),
        PromptState::Scrollback { active_line, pos } => {
            &&& r is Ok
            &&& pos + 1 < old.spec_history().len() ==> new.spec_state() == (PromptState::Scrollback {
                active_line,
                pos: pos + 1,
            }) && new.spec_refreshed(old.spec_line())
            &&& pos + 1 >= old.spec_history().len() ==> new.spec_state() == PromptState::Editing
                && new.spec_label() == new.spec_expected_label() && line_is(new.spec_line(), active_line)
        },
        PromptState::Searching { search_pattern, pos } => {
            let np = spec_search_next(old.spec_history(), search_pattern, pos);
            &&& new.spec_state() == (PromptState::Searching { search_pattern, pos: np })
            &&& (r is Ok <==> np is Some)
            &&& new.spec_refreshed(old.spec_line())
        },
    }
}

/// Scrolling backwards: while editing, scrolling starts at the newest history entry (remembering
/// the edited line); while scrolling, the next older entry is shown; while searching, the
/// previous match is looked for.
pub open spec fn spec_scroll_backwards(old: PromptLine, new: PromptLine, r: OperationResult) -> bool {
    &&& new.spec_same_config(&old)
    &&& new.spec_refreshed(old.spec_line())
    &&& match old.spec_state() {
        PromptState::Editing => if old.spec_history().len() > 0 {
            r is Ok && new.spec_state() == (PromptState::Scrollback {
                active_line: old.spec_line().spec_text(),
                pos: (old.spec_history().len() - 1) as nat,
            })
        } else {
            r is Err && new.spec_state() == PromptState::Editing
        },
        PromptState::Scrollback { active_line, pos } => if pos > 0 {
            r is Ok && new.spec_state() == (PromptState::Scrollback { active_line, pos: (pos - 1) as nat })
        } else {
            r is Err && new.spec_state() == old.spec_state()
        },
        PromptState::Searching { search_pattern, pos } => {
            let np = spec_search_prev(old.spec_history(), search_pattern, pos);
            &&& new.spec_state() == (PromptState::Searching { search_pattern, pos: np })
            &&& (r is Ok <==> np is Some)
        },
    }
}

/// Scrolling to the beginning: to the oldest history entry (remembering the current line); while
/// searching, to the first match.
pub open spec fn spec_scroll_to_beginning(old: PromptLine, new: PromptLine, r: OperationResult) -> bool {
    &&& new.spec_same_config(&old)
    &&& new.spec_refreshed(old.spec_line())
    &&& match old.spec_state() {
        PromptState::Searching { search_pattern, .. } => {
            let np = spec_search_next(old.spec_history(), search_pattern, None);
            &&& new.spec_state() == (PromptState::Searching { search_pattern, pos: np })
            &&& (r is Ok <==> np is Some)
        },
        _ => if old.spec_history().len() > 0 {
            r is Ok && new.spec_state() == (PromptState::Scrollback {
                active_line: old.spec_line().spec_text(),
                pos: 0,
            })
        } else {
            r is Err && new.spec_state() == PromptState::Editing
        },
    }
}

/// Scrolling to the end: editing resumes with the line that was being edited before scrolling
/// started; while searching, the last match is looked for. Nothing happens while editing.
pub open spec fn spec_scroll_to_end(old: PromptLine, new: PromptLine, r: OperationResult) -> bool {
    &&& new.spec_same_config(&old)
    &&& match old.spec_state() {
        PromptState::Editing => r is Err && new.spec_state() == PromptState::Editing && new.spec_refreshed(
            old.spec_line(),
        ),
        PromptState::Scrollback { active_line, .. } => r is Ok && new.spec_state() == PromptState::Editing
            && new.spec_label() == new.spec_expected_label() && line_is(new.spec_line(), active_line),
        PromptState::Searching { search_pattern, .. } => {
            let np = spec_search_prev(old.spec_history(), search_pattern, None);
            &&& new.spec_state() == (PromptState::Searching { search_pattern, pos: np })
            &&& (r is Ok <==> np is Some)
            &&& new.spec_refreshed(old.spec_line())
        },
    }
}

impl Scrollable for PromptLine {
    fn scroll_forwards(&mut self) -> (r: OperationResult)
        ensures
            spec_scroll_forwards(*old(self), *final(self), r),
    {
        proof {
            use_type_invariant(&*self);
        }
        let result;
        let mut tmp = State::Editing;
        std::mem::swap(&mut tmp, &mut self.state);
        let new_state = match tmp {
            State::Editing => {
                result = Err(());
                State::Editing
            },
            State::Scrollback { active_line, pos } => {
                result = Ok(());
                if pos < self.history.len() - 1 {
                    State::Scrollback { pos: pos + 1, active_line }
                } else {
                    self.set_line(active_line.as_str());
                    State::Editing
                }
            },
            State::Searching { search_pattern, pos } => {
                let old_pos = pos;
                let pos = search_next(old_pos, &self.history, search_pattern.as_str());
                proof {
                    lemma_first_match_bound(self.history.deep_view(), search_pattern@,
                        match opt_nat(old_pos) { Some(c) => c + 1int, None => 0int });
                }
                result = match pos {
                    Some(_) => Ok(()),
                    None => Err(()),
                };
                State::Searching { search_pattern, pos }
            },
        };
        self.state = new_state;
        self.update_display();
        result
    }

    fn scroll_backwards(&mut self) -> (r: OperationResult)
        ensures
            spec_scroll_backwards(*old(self), *final(self), r),
    {
        proof {
            use_type_invariant(&*self);
        }
        let result;
        let mut tmp = State::Editing;
        std::mem::swap(&mut tmp, &mut self.state);
        let new_state = match tmp {
            State::Editing => {
                if self.history.len() > 0 {
                    result = Ok(());
                    State::Scrollback {
                        active_line: self.line.get().to_owned(),
                        pos: self.history.len() - 1,
                    }
                } else {
                    result = Err(());
                    State::Editing
                }
            },
            State::Scrollback { active_line, pos } => {
                let mut pos = pos;
                if pos > 0 {
                    pos = pos - 1;
                    result = Ok(());
                } else {
                    result = Err(());
                }
                State::Scrollback { active_line, pos }
            },
            State::Searching { search_pattern, pos } => {
                let old_pos = pos;
                let pos = search_prev(old_pos, &self.history, search_pattern.as_str());
                proof {
                    lemma_last_match_bound(self.history.deep_view(), search_pattern@,
                        match opt_nat(old_pos) { Some(c) => c as int, None => self.history@.len() as int });
                }
                result = match pos {
                    Some(_) => Ok(()),
                    None => Err(()),
                };
                State::Searching { search_pattern, pos }
            },
        };
        self.state = new_state;
        self.update_display();
        result
    }

    fn scroll_to_beginning(&mut self) -> (r: OperationResult)
        ensures
            spec_scroll_to_beginning(*old(self), *final(self), r),
    {
        proof {
            use_type_invariant(&*self);
        }
        let result;
        let mut tmp = State::Editing;
        std::mem::swap(&mut tmp, &mut self.state);
        let new_state = match tmp {
            State::Searching { search_pattern, .. } => {
                let pos = search_next(None, &self.history, search_pattern.as_str());
                proof {
                    lemma_first_match_bound(self.history.deep_view(), search_pattern@, 0);
                }
                result = match pos {
                    Some(_) => Ok(()),
                    None => Err(()),
                };
                State::Searching { search_pattern, pos }
            },
            _ => {
                if self.history.len() > 0 {
                    result = Ok(());
                    State::Scrollback { active_line: self.line.get().to_owned(), pos: 0 }
                } else {
                    result = Err(());
                    State::Editing
                }
            },
        };
        self.state = new_state;
        self.update_display();
        result
    }

    fn scroll_to_end(&mut self) -> (r: OperationResult)
        ensures
            spec_scroll_to_end(*old(self), *final(self), r),
    {
        proof {
            use_type_invariant(&*self);
        }
        let result;
        let mut tmp = State::Editing;
        std::mem::swap(&mut tmp, &mut self.state);
        let new_state = match tmp {
            State::Editing => {
                result = Err(());
                State::Editing
            },
            State::Scrollback { active_line, .. } => {
                result = Ok(());
                self.set_line(active_line.as_str());
                State::Editing
            },
            State::Searching { search_pattern, .. } => {
                let pos = search_prev(None, &self.history, search_pattern.as_str());
                proof {
                    lemma_last_match_bound(self.history.deep_view(), search_pattern@,
                        self.history@.len() as int);
                }
                result = match pos {
                    Some(_) => Ok(()),
                    None => Err(()),
                };
                State::Searching { search_pattern, pos }
            },
        };
        self.state = new_state;
        self.update_display();
        result
    }
}

/// After a line operation that went from `before` to `l1` with result `r`: a success ends
/// scrolling and searching (editing resumes), a failure keeps the state; then the display is
/// brought up to date.
pub open spec fn spec_after_line_op(old: PromptLine, new: PromptLine, l1: LineEdit, r: OperationResult) -> bool {
    &&& new.spec_same_config(&old)
    &&& r is Ok ==> new.spec_state() == PromptState::Editing
    &&& r is Err ==> new.spec_state() == old.spec_state()
    &&& new.spec_refreshed(l1)
}

/// Like `spec_after_line_op`, except that a failure leaves label and line as they are.
pub open spec fn spec_after_line_op_no_refresh(old: PromptLine, new: PromptLine, l1: LineEdit, r: OperationResult) -> bool {
    &&& new.spec_same_config(&old)
    &&& r is Ok ==> new.spec_state() == PromptState::Editing && new.spec_refreshed(l1)
    &&& r is Err ==> new.spec_state() == old.spec_state() && new.spec_label() == old.spec_label()
        && same_line(new.spec_line(), l1)
}

/// Moving left or right while searching ends the search; otherwise the line's cursor moves.
pub open spec fn spec_move_sideways(old: PromptLine, new: PromptLine, r: OperationResult, right: bool) -> bool {
    &&& new.spec_same_config(&old)
    &&& old.spec_state() is Searching ==> r is Ok && new.spec_state() == PromptState::Editing
        && new.spec_refreshed(old.spec_line())
    &&& !(old.spec_state() is Searching) ==> {
        &&& new.spec_state() == old.spec_state()
        &&& new.spec_label() == old.spec_label()
        &&& right ==> spec_right(old.spec_line(), new.spec_line(), r)
        &&& !right ==> spec_left(old.spec_line(), new.spec_line(), r)
    }
}

/// Writing a char: while searching, the char extends the search pattern (a newline is refused)
/// and the search is repeated from the current match on; otherwise the char is written to the
/// line.
pub open spec fn spec_prompt_write(old: PromptLine, new: PromptLine, c: char, r: OperationResult) -> bool {
    match old.spec_state() {
        PromptState::Searching { search_pattern, pos } => {
            &&& new.spec_same_config(&old)
            &&& new.spec_refreshed(old.spec_line())
            &&& c == '\n' ==> r is Err && new.spec_state() == old.spec_state()
            &&& c != '\n' ==> {
                let pattern = search_pattern.push(c);
                let np = spec_search_prev(
                    old.spec_history(),
                    pattern,
                    match pos {
                        Some(p) => Some(p + 1),
                        None => None,
                    },
                );
                &&& new.spec_state() == (PromptState::Searching { search_pattern: pattern, pos: np })
                &&& (r is Ok <==> np is Some)
            }
        },
        _ => exists|l1: LineEdit|
            spec_write(old.spec_line(), l1, c, r) && #[trigger] spec_after_line_op(old, new, l1, r),
    }
}

/// Deleting backwards: while searching, the last char of the pattern is removed and the search
/// repeated (an empty pattern ends the search); otherwise the line deletes backwards.
pub open spec fn spec_prompt_delete_backwards(old: PromptLine, new: PromptLine, r: OperationResult) -> bool {
    match old.spec_state() {
        PromptState::Searching { search_pattern, pos } => {
            &&& r is Ok
            &&& new.spec_same_config(&old)
            &&& new.spec_refreshed(old.spec_line())
            &&& search_pattern.len() == 0 ==> new.spec_state() == PromptState::Editing
            &&& search_pattern.len() > 0 ==> {
                let pattern = search_pattern.drop_last();
                new.spec_state() == (PromptState::Searching {
                    search_pattern: pattern,
                    pos: spec_search_prev(
                        old.spec_history(),
                        pattern,
                        match pos {
                            Some(p) => Some(p + 1),
                            None => None,
                        },
                    ),
                })
            }
        },
        _ => exists|l1: LineEdit|
            spec_delete_backwards(old.spec_line(), l1, r) && #[trigger] spec_after_line_op(old, new, l1, r),
    }
}

/// Clearing: while searching, the search ends; otherwise the line is cleared.
pub open spec fn spec_prompt_clear(old: PromptLine, new: PromptLine, r: OperationResult) -> bool {
    match old.spec_state() {
        PromptState::Searching { .. } => r is Ok && new.spec_same_config(&old) && new.spec_state()
            == PromptState::Editing && new.spec_refreshed(old.spec_line()),
        _ => exists|l1: LineEdit|
            spec_clear(old.spec_line(), l1, r) && #[trigger] spec_after_line_op(old, new, l1, r),
    }
}

impl Navigatable for PromptLine {
    /// Same as scrolling backwards.
    fn move_up(&mut self) -> (r: OperationResult)
        ensures
            spec_scroll_backwards(*old(self), *final(self), r),
    {
        self.scroll_backwards()
    }

    /// Same as scrolling forwards.
    fn move_down(&mut self) -> (r: OperationResult)
        ensures
            spec_scroll_forwards(*old(self), *final(self), r),
    {
        self.scroll_forwards()
    }

    fn move_left(&mut self) -> (r: OperationResult)
        ensures
            spec_move_sideways(*old(self), *final(self), r, false),
    {
        proof {
            use_type_invariant(&*self);
        }
        if self.searching() {
            self.state = State::Editing;
            self.update_display();
            Ok(())
        } else {
            let mut l = LineEdit::new();
            std::mem::swap(&mut l, &mut self.line);
            let r = l.move_left();
            std::mem::swap(&mut l, &mut self.line);
            r
        }
    }

    fn move_right(&mut self) -> (r: OperationResult)
        ensures
            spec_move_sideways(*old(self), *final(self), r, true),
    {
        proof {
            use_type_invariant(&*self);
        }
        if self.searching() {
            self.state = State::Editing;
            self.update_display();
            Ok(())
        } else {
            let mut l = LineEdit::new();
            std::mem::swap(&mut l, &mut self.line);
            let r = l.move_right();
            std::mem::swap(&mut l, &mut self.line);
            r
        }
    }
}

impl Writable for PromptLine {
    open spec fn spec_wrote(old: &PromptLine, new: &PromptLine, c: char, r: OperationResult) -> bool {
        spec_prompt_write(*old, *new, c, r)
    }

    fn write(&mut self, c: char) -> (r: OperationResult)
        ensures
            spec_prompt_write(*old(self), *final(self), c, r),
    {
        proof {
            use_type_invariant(&*self);
        }
        let mut tmp = State::Editing;
        std::mem::swap(&mut tmp, &mut self.state);
        let res = match tmp {
            State::Searching { search_pattern, pos } => {
                if c == '\n' {
                    self.state = State::Searching { search_pattern, pos };
                    Err(())
                } else {
                    let mut pattern = search_pattern;
                    string_push(&mut pattern, c);
                    let _hl = self.history.len();
                    let start = match pos {
                        Some(p) => Some(p + 1),
                        None => None,
                    };
                    let np = search_prev(start, &self.history, pattern.as_str());
                    proof {
                        lemma_last_match_bound(self.history.deep_view(), pattern@,
                            match opt_nat(start) { Some(c) => c as int, None => self.history@.len() as int });
                    }
                    let res = match np {
                        Some(_) => Ok(()),
                        None => Err(()),
                    };
                    self.state = State::Searching { search_pattern: pattern, pos: np };
                    res
                }
            },
            other => {
                self.state = other;
                let mut l = LineEdit::new();
                std::mem::swap(&mut l, &mut self.line);
                let res = l.write(c);
                std::mem::swap(&mut l, &mut self.line);
                self.note_edit_operation(res)
            },
        };
        let ghost l1 = self.line;
        self.update_display();
        proof {
            if !(old(self).spec_state() is Searching) {
                assert(spec_after_line_op(*old(self), *self, l1, res));
            }
        }
        res
    }
}

impl Editable for PromptLine {
    fn delete_forwards(&mut self) -> (r: OperationResult)
        ensures
            exists|l1: LineEdit|
                spec_delete_forwards(old(self).spec_line(), l1, r) && #[trigger] spec_after_line_op_no_refresh(
                    *old(self),
                    *final(self),
                    l1,
                    r,
                ),
    {
        proof {
            use_type_invariant(&*self);
        }
        let mut l = LineEdit::new();
        std::mem::swap(&mut l, &mut self.line);
        let res = l.delete_forwards();
        std::mem::swap(&mut l, &mut self.line);
        let ghost l1 = self.line;
        let r = self.note_edit_operation(res);
        proof {
            assert(spec_after_line_op_no_refresh(*old(self), *self, l1, r));
        }
        r
    }

    fn delete_backwards(&mut self) -> (r: OperationResult)
        ensures
            spec_prompt_delete_backwards(*old(self), *final(self), r),
    {
        proof {
            use_type_invariant(&*self);
        }
        let mut tmp = State::Editing;
        std::mem::swap(&mut tmp, &mut self.state);
        let res = match tmp {
            State::Searching { search_pattern, pos } => {
                let mut pattern = search_pattern;
                let popped = string_pop(&mut pattern);
                match popped {
                    Some(_) => {
                        let _hl = self.history.len();
                        let start = match pos {
                            Some(p) => Some(p + 1),
                            None => None,
                        };
                        let np = search_prev(start, &self.history, pattern.as_str());
                        proof {
                            lemma_last_match_bound(self.history.deep_view(), pattern@,
                                match opt_nat(start) { Some(c) => c as int, None => self.history@.len() as int });
                        }
                        self.state = State::Searching { search_pattern: pattern, pos: np };
                    },
                    None => {},
                }
                Ok(())
            },
            other => {
                self.state = other;
                let mut l = LineEdit::new();
                std::mem::swap(&mut l, &mut self.line);
                let res = l.delete_backwards();
                std::mem::swap(&mut l, &mut self.line);
                self.note_edit_operation(res)
            },
        };
        let ghost l1 = self.line;
        self.update_display();
        proof {
            if !(old(self).spec_state() is Searching) {
                assert(spec_after_line_op(*old(self), *self, l1, res));
            }
        }
        res
    }

    fn go_to_beginning_of_line(&mut self) -> (r: OperationResult)
        ensures
            exists|l1: LineEdit|
                spec_to_beginning(old(self).spec_line(), l1, r) && #[trigger] spec_after_line_op_no_refresh(
                    *old(self),
                    *final(self),
                    l1,
                    r,
                ),
    {
        proof {
            use_type_invariant(&*self);
        }
        let mut l = LineEdit::new();
        std::mem::swap(&mut l, &mut self.line);
        let res = l.go_to_beginning_of_line();
        std::mem::swap(&mut l, &mut self.line);
        let ghost l1 = self.line;
        let r = self.note_edit_operation(res);
        proof {
            assert(spec_after_line_op_no_refresh(*old(self), *self, l1, r));
        }
        r
    }

    fn go_to_end_of_line(&mut self) -> (r: OperationResult)
        ensures
            exists|l1: LineEdit|
                spec_to_end(old(self).spec_line(), l1, r) && #[trigger] spec_after_line_op_no_refresh(
                    *old(self),
                    *final(self),
                    l1,
                    r,
                ),
    {
        proof {
            use_type_invariant(&*self);
        }
        let mut l = LineEdit::new();
        std::mem::swap(&mut l, &mut self.line);
        let res = l.go_to_end_of_line();
        std::mem::swap(&mut l, &mut self.line);
        let ghost l1 = self.line;
        let r = self.note_edit_operation(res);
        proof {
            assert(spec_after_line_op_no_refresh(*old(self), *self, l1, r));
        }
        r
    }

    fn clear(&mut self) -> (r: OperationResult)
        ensures
            spec_prompt_clear(*old(self), *final(self), r),
    {
        proof {
            use_type_invariant(&*self);
        }
        let mut tmp = State::Editing;
        std::mem::swap(&mut tmp, &mut self.state);
        let res = match tmp {
            State::Searching { .. } => Ok(()),
            other => {
                self.state = other;
                let mut l = LineEdit::new();
                std::mem::swap(&mut l, &mut self.line);
                let res = l.clear();
                std::mem::swap(&mut l, &mut self.line);
                self.note_edit_operation(res)
            },
        };
        let ghost l1 = self.line;
        self.update_display();
        proof {
            if !(old(self).spec_state() is Searching) {
                assert(spec_after_line_op(*old(self), *self, l1, res));
            }
        }
        res
    }
}

/// Scrolling back from editing (with a non-empty history) and then forwards again resumes
/// editing the very same line.
pub proof fn law_scroll_back_and_forth_restores_line(
    a: PromptLine,
    b: PromptLine,
    c: PromptLine,
    r1: OperationResult,
    r2: OperationResult,
)
    requires
        a.spec_state() == PromptState::Editing,
        a.spec_history().len() > 0,
        spec_scroll_backwards(a, b, r1),
        spec_scroll_forwards(b, c, r2),
    ensures
        r1 is Ok,
        r2 is Ok,
        c.spec_state() == PromptState::Editing,
        c.spec_line().spec_text() == a.spec_line().spec_text(),
        c.spec_history() == a.spec_history(),
{
}

/// Scrolling to the beginning (while not searching, with a non-empty history) shows the oldest
/// history entry, with the cursor at its end; from there nothing older can be scrolled to, and
/// the line stays that entry.
pub proof fn law_scroll_to_beginning_shows_oldest(
    a: PromptLine,
    b: PromptLine,
    c: PromptLine,
    r1: OperationResult,
    r2: OperationResult,
)
    requires
        !(a.spec_state() is Searching),
        a.spec_history().len() > 0,
        spec_scroll_to_beginning(a, b, r1),
        spec_scroll_backwards(b, c, r2),
    ensures
        r1 is Ok,
        b.spec_line().spec_text() == a.spec_history()[0],
        b.spec_line().spec_cursor() == spec_graphemes(a.spec_history()[0]).len(),
        b.spec_history() == a.spec_history(),
        r2 is Err,
        c.spec_line().spec_text() == a.spec_history()[0],
{
}

/// After a line is finished, it is the newest history entry.
pub proof fn law_finished_line_is_newest(history: Seq<Seq<char>>, line: Seq<char>)
    ensures
        ({
            let h = if history.len() == 0 || line != history.last() {
                history.push(line)
            } else {
                history
            };
            h.len() > 0 && h.last() == line
        }),
{
}

/// Searching backwards from the end finds the newest line containing the pattern: no later line
/// contains it.
pub proof fn law_search_prev_finds_newest(history: Seq<Seq<char>>, pattern: Seq<char>, end: int)
    requires
        0 <= end <= history.len(),
    ensures
        spec_last_match(history, pattern, end) matches Some(i) ==> {
            &&& i < end
            &&& spec_contains(history[i as int], pattern)
            &&& forall|j: int| i < j < end ==> !spec_contains(#[trigger] history[j], pattern)
        },
        spec_last_match(history, pattern, end) is None ==> forall|j: int|
            0 <= j < end ==> !spec_contains(#[trigger] history[j], pattern),
    decreases end,
{
    if end > 0 {
        law_search_prev_finds_newest(history, pattern, end - 1);
    }
}

/// Searching forwards finds the oldest line from `start` on that contains the pattern.
pub proof fn law_search_next_finds_oldest(history: Seq<Seq<char>>, pattern: Seq<char>, start: int)
    requires
        0 <= start <= history.len(),
    ensures
        spec_first_match(history, pattern, start) matches Some(i) ==> {
            &&& start <= i < history.len()
            &&& spec_contains(history[i as int], pattern)
            &&& forall|j: int| start <= j < i ==> !spec_contains(#[trigger] history[j], pattern)
        },
        spec_first_match(history, pattern, start) is None ==> forall|j: int|
            start <= j < history.len() ==> !spec_contains(#[trigger] history[j], pattern),
    decreases history.len() - start,
{
    if start < history.len() {
        law_search_next_finds_oldest(history, pattern, start + 1);
    }
}

} // verus!
