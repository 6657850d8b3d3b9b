use unsegen::base::LineIndex;
use unsegen::input::{pass_on_if_err, WriteBehavior};
use unsegen::widget::builtin::LineEdit;
use unsegen::widget::{LineStorage, MemoryLineStorage, StringLineStorage};

#[test]
fn test_string_line_storage_write_str() {
    let mut s = StringLineStorage::new();
    assert_eq!(s.num_lines_stored(), 0);
    s.write_str("ab");
    assert_eq!(s.lines, vec!["ab".to_string()]);
    s.write_str("c\nd\n");
    assert_eq!(
        s.lines,
        vec!["abc".to_string(), "d".to_string(), "".to_string()]
    );
    s.active_line_mut().push_str("e");
    assert_eq!(s.lines[2], "e");
    assert_eq!(s.view_line(LineIndex::new(1)), Some("d".to_string()));
    assert_eq!(s.view_line(LineIndex::new(3)), None);
}

#[test]
fn test_memory_line_storage_with_lines() {
    let s = MemoryLineStorage::with_lines(vec![1u32, 2, 3]);
    assert_eq!(s.num_lines_stored(), 3);
    assert_eq!(s.view_line(LineIndex::new(0)), Some(1));
    assert_eq!(s.view_line(LineIndex::new(2)), Some(3));
    assert_eq!(s.view_line(LineIndex::new(3)), None);
    let mut e = StringLineStorage::new();
    assert_eq!(e.active_line_mut().as_str(), "");
    assert_eq!(e.num_lines_stored(), 1);
}

#[test]
fn test_pass_on_if_err() {
    assert_eq!(pass_on_if_err(Err(()), 'x'), Some('x'));
    assert_eq!(pass_on_if_err(Ok(()), 'x'), None);
}

#[test]
fn test_write_behavior() {
    let mut l = LineEdit::new();
    assert!(WriteBehavior::new(&mut l).write_char('a').is_ok());
    assert!(WriteBehavior::new(&mut l).write_char('\n').is_err());
    assert_eq!(l.get(), "a");
}
