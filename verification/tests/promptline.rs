use unsegen::input::{Editable, Navigatable, Scrollable, Writable};
use unsegen::widget::builtin::promptline::{search_next, search_prev, text_contains};
use unsegen::widget::builtin::PromptLine;

#[test]
fn test_search_prev() {
    let history = vec![
        "".to_string(),
        "abc".to_string(),
        "foo".to_string(),
        "".to_string(),
        "foo".to_string(),
    ];

    assert_eq!(search_prev(Some(0), &history, ""), None);
    assert_eq!(search_prev(Some(1), &history, "a"), None);
    assert_eq!(search_prev(Some(5), &history, "foo"), Some(4));
    assert_eq!(search_prev(Some(4), &history, "foo"), Some(2));
    assert_eq!(search_prev(Some(2), &history, "foo"), None);
    assert_eq!(search_prev(Some(5), &history, "foo2"), None);
    assert_eq!(search_prev(None, &history, ""), None);
}

#[test]
fn test_search_next() {
    let history = vec![
        "".to_string(),
        "abc".to_string(),
        "foo".to_string(),
        "".to_string(),
        "foo".to_string(),
    ];

    assert_eq!(search_next(Some(4), &history, ""), None);
    assert_eq!(search_next(Some(0), &history, "a"), Some(1));
    assert_eq!(search_next(Some(0), &history, "foo"), Some(2));
    assert_eq!(search_next(Some(2), &history, "foo"), Some(4));
    assert_eq!(search_next(Some(4), &history, "foo"), None);
    assert_eq!(search_next(Some(0), &history, "foo2"), None);
    assert_eq!(search_next(None, &history, ""), None);
}

#[test]
fn contains_finds_substrings() {
    assert!(text_contains("hello world", "o w"));
    assert!(text_contains("abc", ""));
    assert!(text_contains("abc", "abc"));
    assert!(!text_contains("abc", "abcd"));
    assert!(!text_contains("abc", "ac"));
    assert!(text_contains("a沐b", "沐b"));
}

fn type_line(p: &mut PromptLine, s: &str) {
    for c in s.chars() {
        assert!(p.write(c).is_ok());
    }
}

#[test]
fn prompt_line_history_scrolling() {
    let mut p = PromptLine::with_prompt(" > ".to_owned());
    assert_eq!(p.label(), " > ");
    type_line(&mut p, "first");
    assert_eq!(p.finish_line(), "first");
    type_line(&mut p, "second");
    assert_eq!(p.finish_line(), "second");
    // Finishing the same line twice does not duplicate it.
    type_line(&mut p, "second");
    assert_eq!(p.finish_line(), "second");
    assert_eq!(p.history().len(), 2);
    assert_eq!(p.active_line(), "");

    type_line(&mut p, "new");
    assert!(p.scroll_backwards().is_ok());
    assert_eq!(p.active_line(), "second");
    assert!(p.scroll_backwards().is_ok());
    assert_eq!(p.active_line(), "first");
    assert!(p.scroll_backwards().is_err());
    assert!(p.scroll_forwards().is_ok());
    assert_eq!(p.active_line(), "second");
    // Scrolling past the newest entry restores the line being edited.
    assert!(p.scroll_forwards().is_ok());
    assert_eq!(p.active_line(), "new");
    assert!(p.scroll_forwards().is_err());
}

#[test]
fn prompt_line_previous_line() {
    let mut p = PromptLine::with_prompt("$ ".to_owned());
    assert_eq!(p.previous_line(1), None);
    type_line(&mut p, "a");
    p.finish_line();
    type_line(&mut p, "b");
    p.finish_line();
    assert_eq!(p.previous_line(0), None);
    assert_eq!(p.previous_line(1), Some("b"));
    assert_eq!(p.previous_line(2), Some("a"));
    assert_eq!(p.previous_line(3), Some("a"));
}

#[test]
fn prompt_line_search() {
    let mut p = PromptLine::with_prompt("$ ".to_owned());
    for l in ["foo 1", "bar", "foo 2"].iter() {
        type_line(&mut p, l);
        p.finish_line();
    }
    p.set_search_prompt("search".to_owned());
    p.enter_search();
    assert_eq!(p.label(), "search\"\": ");
    assert!(p.write('f').is_ok());
    assert_eq!(p.label(), "search\"f\": ");
    assert_eq!(p.active_line(), "foo 2");
    assert!(p.scroll_backwards().is_ok());
    assert_eq!(p.active_line(), "foo 1");
    assert!(p.scroll_backwards().is_err());
    assert_eq!(p.active_line(), "");
    assert!(p.scroll_to_end().is_ok());
    assert_eq!(p.active_line(), "foo 2");
    assert!(p.write('x').is_err());
    assert_eq!(p.active_line(), "");
    assert!(p.delete_backwards().is_ok());
    assert_eq!(p.active_line(), "foo 2");
    // Moving sideways ends the search.
    assert!(p.move_left().is_ok());
    assert_eq!(p.label(), "$ ");
    assert_eq!(p.active_line(), "foo 2");
}

#[test]
fn prompt_line_edit_ends_scrolling() {
    let mut p = PromptLine::with_prompt("> ".to_owned());
    type_line(&mut p, "ab");
    p.finish_line();
    p.set_scroll_prompt("^ ".to_owned());
    assert!(p.scroll_backwards().is_ok());
    assert_eq!(p.label(), "^ ");
    assert!(p.write('c').is_ok());
    assert_eq!(p.label(), "> ");
    assert_eq!(p.active_line(), "abc");
    assert!(p.clear().is_ok());
    assert_eq!(p.active_line(), "");
    assert!(p.clear().is_err());
}
