//! Common abstractions for things that react to input: scrolling, writing, navigating and
//! editing.
use vstd::prelude::*;

verus! {

/// The result of an operation such as scrolling or writing: `Ok(())` means the input was
/// processed and should be consumed; `Err(())` means it should be passed on.
pub type OperationResult = Result<(), ()>;

/// Something that can be scrolled.
pub trait Scrollable {
    /// Scroll one step backwards.
    fn scroll_backwards(&mut self) -> OperationResult;
    /// Scroll one step forwards.
    fn scroll_forwards(&mut self) -> OperationResult;
    /// Scroll to the very beginning.
    fn scroll_to_beginning(&mut self) -> OperationResult;
    /// Scroll to the very end.
    fn scroll_to_end(&mut self) -> OperationResult;
}

/// Something that can be written to in the sense of a text box or editor.
pub trait Writable {
    /// What writing the char `c` does: whether `new`, with the result `r`, is what writing it to
    /// `old` gives.
    spec fn spec_wrote(old: &Self, new: &Self, c: char, r: OperationResult) -> bool;

    /// Write a single char.
    fn write(&mut self, c: char) -> (r: OperationResult)
        ensures
            Self::spec_wrote(old(self), final(self), c, r),
    ;
}

/// Something that can be navigated like a cursor in a text editor.
pub trait Navigatable {
    /// Move up.
    fn move_up(&mut self) -> OperationResult;
    /// Move down.
    fn move_down(&mut self) -> OperationResult;
    /// Move left.
    fn move_left(&mut self) -> OperationResult;
    /// Move right.
    fn move_right(&mut self) -> OperationResult;
}

/// Something that acts like a text editor.
pub trait Editable: Navigatable + Writable {
    /// In the sense of pressing the "Delete" key.
    fn delete_forwards(&mut self) -> OperationResult;
    /// In the sense of pressing the "Backspace" key.
    fn delete_backwards(&mut self) -> OperationResult;
    /// In the sense of pressing the "Home" key.
    fn go_to_beginning_of_line(&mut self) -> OperationResult;
    /// In the sense of pressing the "End" key.
    fn go_to_end_of_line(&mut self) -> OperationResult;
    /// Clear the content.
    fn clear(&mut self) -> OperationResult;
}

/// The part of input handling that writes chars to a `Writable`.
pub struct WriteBehavior<'a, W: Writable + 'a> {
    pub writable: &'a mut W,
}

impl<'a, W: Writable + 'a> WriteBehavior<'a, W> {
    /// A behavior that writes to `writable`.
    pub fn new(writable: &'a mut W) -> (r: Self)
        ensures
            *r.writable == *old(writable),
            *final(writable) == *final(r.writable),
    {
        WriteBehavior { writable: writable }
    }

    /// Write the char of a key press to the target; the result says whether the input was
    /// consumed.
    pub fn write_char(self, c: char) -> (r: OperationResult)
        ensures
            W::spec_wrote(old(self.writable), final(self.writable), c, r),
    {
        self.writable.write(c)
    }
}

/// The input to pass on after an operation with result `res`: the input itself where the
/// operation failed, nothing (it is consumed) where it succeeded.
pub fn pass_on_if_err<I>(res: OperationResult, input: I) -> (r: Option<I>)
    ensures
        res is Err ==> r == Some(input),
        res is Ok ==> r is None,
{
    if res.is_err() {
        Some(input)
    } else {
        None
    }
}

/// The index of the first `true` in `on`, if there is one.
pub open spec fn spec_first_set(on: Seq<bool>) -> Option<int> {
    if exists|i: int| 0 <= i < on.len() && on[i] {
        Some(choose|i: int| 0 <= i < on.len() && on[i] && forall|j: int| 0 <= j < i ==> !on[j])
    } else {
        None
    }
}

fn first_set(on: &[bool]) -> (r: Option<usize>)
    ensures
        r matches Some(i) ==> i < on@.len() && on@[i as int] && forall|j: int| 0 <= j < i ==> !on@[j],
        r is None ==> forall|j: int| 0 <= j < on@.len() ==> !on@[j],
{
    let mut i: usize = 0;
    while i < on.len()
        invariant
            i <= on@.len(),
            forall|j: int| 0 <= j < i ==> !on@[j],
        decreases on@.len() - i,
    {
        if on[i] {
            return Some(i);
        }
        i = i + 1;
    }
    None
}

/// What a scroll behavior does with an input.
#[derive(Copy, Clone, Debug, PartialEq, Eq, Structural)]
pub enum ScrollAction {
    Forwards,
    Backwards,
    ToBeginning,
    ToEnd,
    PassOn,
}

/// The scroll action for an input, given whether its event is among the events for scrolling
/// forwards, backwards, to the beginning and to the end: the first of these that holds it, or
/// passing it on.
pub fn scroll_action(forwards: bool, backwards: bool, to_beginning: bool, to_end: bool) -> (r: ScrollAction)
    ensures
        r == if forwards {
            ScrollAction::Forwards
        } else if backwards {
            ScrollAction::Backwards
        } else if to_beginning {
            ScrollAction::ToBeginning
        } else if to_end {
            ScrollAction::ToEnd
        } else {
            ScrollAction::PassOn
        },
{
    match first_set(&[forwards, backwards, to_beginning, to_end]) {
        Some(0) => ScrollAction::Forwards,
        Some(1) => ScrollAction::Backwards,
        Some(2) => ScrollAction::ToBeginning,
        Some(_) => ScrollAction::ToEnd,
        None => ScrollAction::PassOn,
    }
}

/// What a navigate or edit behavior does with an input.
#[derive(Copy, Clone, Debug, PartialEq, Eq, Structural)]
pub enum EditAction {
    MoveUp,
    MoveDown,
    MoveLeft,
    MoveRight,
    DeleteForwards,
    DeleteBackwards,
    Clear,
    GoToBeginningOfLine,
    GoToEndOfLine,
    Write(char),
    PassOn,
}

/// The navigation for an input, given whether its event is among the events for moving up,
/// down, left and right: the first of these that holds it, or passing it on.
pub fn navigate_action(up: bool, down: bool, left: bool, right: bool) -> (r: EditAction)
    ensures
        r == if up {
            EditAction::MoveUp
        } else if down {
            EditAction::MoveDown
        } else if left {
            EditAction::MoveLeft
        } else if right {
            EditAction::MoveRight
        } else {
            EditAction::PassOn
        },
{
    match first_set(&[up, down, left, right]) {
        Some(0) => EditAction::MoveUp,
        Some(1) => EditAction::MoveDown,
        Some(2) => EditAction::MoveLeft,
        Some(_) => EditAction::MoveRight,
        None => EditAction::PassOn,
    }
}

/// The edit for an input, given whether its event is among the events of each operation (`on`
/// in the order: up, down, left, right, delete forwards, delete backwards, clear, beginning of
/// line, end of line) and the char of the key press that it is, if it is one: the first
/// operation whose events hold it, else writing the char, else passing it on.
pub fn edit_action(on: [bool; 9], key_char: Option<char>) -> (r: EditAction)
    ensures
        r == match spec_first_set(on@) {
            Some(i) => if i == 0 {
                EditAction::MoveUp
            } else if i == 1 {
                EditAction::MoveDown
            } else if i == 2 {
                EditAction::MoveLeft
            } else if i == 3 {
                EditAction::MoveRight
            } else if i == 4 {
                EditAction::DeleteForwards
            } else if i == 5 {
                EditAction::DeleteBackwards
            } else if i == 6 {
                EditAction::Clear
            } else if i == 7 {
                EditAction::GoToBeginningOfLine
            } else {
                EditAction::GoToEndOfLine
            },
            None => match key_char {
                Some(c) => EditAction::Write(c),
                None => EditAction::PassOn,
            },
        },
{
    let f = first_set(&on);
    proof {
        match f {
            Some(i) => {
                assert(0 <= i < on@.len() && on@[i as int]);
                let k = choose|k: int| 0 <= k < on@.len() && on@[k] && forall|j: int| 0 <= j < k ==> !on@[j];
                assert(k == i as int) by {
                    if k < i {
                        assert(!on@[k]);
                    } else if k > i {
                        assert(!on@[i as int]);
                    }
                }
            },
            None => {},
        }
    }
    match f {
        Some(0) => EditAction::MoveUp,
        Some(1) => EditAction::MoveDown,
        Some(2) => EditAction::MoveLeft,
        Some(3) => EditAction::MoveRight,
        Some(4) => EditAction::DeleteForwards,
        Some(5) => EditAction::DeleteBackwards,
        Some(6) => EditAction::Clear,
        Some(7) => EditAction::GoToBeginningOfLine,
        Some(_) => EditAction::GoToEndOfLine,
        None => match key_char {
            Some(c) => EditAction::Write(c),
            None => EditAction::PassOn,
        },
    }
}

} // verus!
