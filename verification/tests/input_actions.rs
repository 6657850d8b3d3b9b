use unsegen::input::{edit_action, navigate_action, scroll_action, EditAction, ScrollAction};

#[test]
fn edit_action_takes_the_first_matching_operation() {
    let mut on = [false; 9];
    assert_eq!(edit_action(on, None), EditAction::PassOn);
    assert_eq!(edit_action(on, Some('x')), EditAction::Write('x'));
    on[6] = true;
    on[8] = true;
    assert_eq!(edit_action(on, Some('x')), EditAction::Clear);
    on[2] = true;
    assert_eq!(edit_action(on, None), EditAction::MoveLeft);
    let mut only_last = [false; 9];
    only_last[8] = true;
    assert_eq!(edit_action(only_last, None), EditAction::GoToEndOfLine);
}

#[test]
fn scroll_and_navigate_actions_follow_the_order_of_checks() {
    assert_eq!(scroll_action(false, false, false, false), ScrollAction::PassOn);
    assert_eq!(scroll_action(false, true, true, false), ScrollAction::Backwards);
    assert_eq!(scroll_action(true, true, true, true), ScrollAction::Forwards);
    assert_eq!(scroll_action(false, false, false, true), ScrollAction::ToEnd);
    assert_eq!(navigate_action(false, false, true, true), EditAction::MoveLeft);
    assert_eq!(navigate_action(false, false, false, false), EditAction::PassOn);
    assert_eq!(navigate_action(false, true, false, false), EditAction::MoveDown);
}
