use unsegen::base::{ColIndex, CursorTarget, GraphemeCluster, Height, RowIndex, Width, Window, WindowBuffer};
use unsegen::input::{Editable, Navigatable, Writable};
use unsegen::widget::builtin::LineEdit;
use unsegen::widget::RenderingHints;

fn row_text(buf: &Window, y: i32) -> String {
    let mut s = String::new();
    for x in 0..buf.get_width().raw_value() {
        s.push_str(
            buf.get_cell(ColIndex::new(x), RowIndex::new(y))
                .unwrap()
                .grapheme_cluster
                .as_str(),
        );
    }
    s
}

#[test]
fn test_set_cursor_pos_doc_example() {
    let mut l = LineEdit::new();
    l.set("löl");
    assert!(l.set_cursor_pos(0).is_ok()); // |löl
    assert!(l.set_cursor_pos(1).is_ok()); // l|öl
    assert!(l.set_cursor_pos(2).is_err());
    assert!(l.set_cursor_pos(3).is_ok()); // lö|l
    assert!(l.set_cursor_pos(4).is_ok()); // löl|
    assert!(l.set_cursor_pos(5).is_err());
}

#[test]
fn test_cursor_pos_is_byte_position() {
    let mut l = LineEdit::new();
    l.set("löl");
    assert_eq!(l.cursor_pos(), 4);
    l.move_cursor_to_beginning_of_line();
    assert_eq!(l.cursor_pos(), 0);
    assert!(l.move_cursor_right().is_ok());
    assert!(l.move_cursor_right().is_ok());
    assert_eq!(l.cursor_pos(), 3);
    assert!(l.set_cursor_pos(1).is_ok());
    assert_eq!(l.cursor_pos(), 1);
}

#[test]
fn test_insert_and_move() {
    let mut l = LineEdit::new();
    assert_eq!(l.get(), "");
    l.insert("ac");
    assert_eq!(l.get(), "ac");
    // The cursor stays in front of the inserted text.
    assert_eq!(l.cursor_pos(), 0);
    assert!(l.move_cursor_right().is_ok());
    l.insert("b");
    assert_eq!(l.get(), "abc");
    l.move_cursor_to_end_of_line();
    assert!(l.move_cursor_right().is_err());
    l.move_cursor_to_beginning_of_line();
    assert!(l.move_cursor_left().is_err());
}

#[test]
fn test_write_and_delete() {
    let mut l = LineEdit::new();
    assert!(l.write('a').is_ok());
    assert!(l.write('b').is_ok());
    assert!(l.write('\n').is_err());
    assert_eq!(l.get(), "ab");
    assert!(l.delete_forwards().is_err());
    assert!(l.delete_backwards().is_ok());
    assert_eq!(l.get(), "a");
    assert!(l.go_to_beginning_of_line().is_ok());
    assert!(l.delete_backwards().is_err());
    assert!(l.delete_forwards().is_ok());
    assert_eq!(l.get(), "");
    assert!(l.clear().is_err());
    l.set("xyz");
    assert!(l.clear().is_ok());
    assert_eq!(l.get(), "");
}

#[test]
fn test_navigation() {
    let mut l = LineEdit::new();
    l.set("ab");
    assert!(l.move_up().is_err());
    assert!(l.move_down().is_err());
    assert!(l.move_left().is_ok());
    assert_eq!(l.cursor_pos(), 1);
    assert!(l.go_to_end_of_line().is_ok());
    assert_eq!(l.cursor_pos(), 2);
}

#[test]
fn test_layout_shifts_long_text() {
    let mut l = LineEdit::new();
    l.set("abcdef");
    let w = l.as_widget();
    let layout = w.layout(Width::new(4).unwrap());
    // "abcdef" plus the cursor cell needs 7 columns: shifted left by 3.
    assert_eq!(layout.start_col, ColIndex::new(-3));
    assert_eq!(layout.before_cursor, "abcdef");
    assert_eq!(layout.at_cursor, " ");
    assert_eq!(layout.after_cursor, "");

    l.move_cursor_to_beginning_of_line();
    let layout = l.as_widget().layout(Width::new(4).unwrap());
    assert_eq!(layout.start_col, ColIndex::new(0));
    assert_eq!(layout.before_cursor, "");
    assert_eq!(layout.at_cursor, "a");
    assert_eq!(layout.after_cursor, "bcdef");
}

#[test]
fn test_space_demand() {
    let mut l = LineEdit::new();
    l.set("a沐");
    let d = l.as_widget().space_demand();
    assert_eq!(d.width.min, Width::new(4).unwrap());
    assert_eq!(d.width.max, None);
    assert_eq!(d.height.min, Height::new(1).unwrap());
    assert_eq!(d.height.max, Some(Height::new(1).unwrap()));
}

#[test]
fn test_draw_marks_cursor_cell() {
    let mut l = LineEdit::new();
    l.set("abc");
    assert!(l.set_cursor_pos(1).is_ok());
    let mut buf_storage = WindowBuffer::new(Width::new(5).unwrap(), Height::new(1).unwrap());
    let mut buf = buf_storage.as_window();
    buf.fill(GraphemeCluster::try_from('_').unwrap());
    l.as_widget().draw(&mut buf, RenderingHints::new());
    assert_eq!(row_text(&buf, 0), "abc__");
    let at = |x: i32| {
        buf.get_cell(ColIndex::new(x), RowIndex::new(0))
            .unwrap()
            .style
            .format()
    };
    assert!(!at(0).invert);
    assert!(at(1).invert);
    assert!(!at(2).invert);

    let mut buf2_storage = WindowBuffer::new(Width::new(5).unwrap(), Height::new(1).unwrap());
    let mut buf2 = buf2_storage.as_window();
    l.as_widget()
        .draw(&mut buf2, RenderingHints::new().active(false));
    let f = buf2
        .get_cell(ColIndex::new(1), RowIndex::new(0))
        .unwrap()
        .style
        .format();
    assert!(f.underline);
    assert!(!f.invert);
}

#[test]
fn write_behavior_writes_to_its_target() {
    let mut l = LineEdit::new();
    l.set("ab");
    assert!(unsegen::input::WriteBehavior::new(&mut l).write_char('c').is_ok());
    assert_eq!(l.get(), "abc");
    assert!(unsegen::input::WriteBehavior::new(&mut l).write_char('\n').is_err());
    assert_eq!(l.get(), "abc");
}
