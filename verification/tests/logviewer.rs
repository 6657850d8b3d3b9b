use unsegen::base::{ColIndex, CursorTarget, Height, LineIndex, RowIndex, Width, Window, WindowBuffer};
use unsegen::input::Scrollable;
use unsegen::widget::builtin::LogViewer;

fn row_text(buf: &Window, y: i32) -> String {
    let mut s = String::new();
    for x in 0..buf.get_width().raw_value() {
        s.push_str(
            buf.get_cell(ColIndex::new(x), RowIndex::new(y))
                .unwrap()
                .grapheme_cluster
                .as_str(),
        );
    }
    s
}

#[test]
fn test_log_viewer_write_and_view() {
    let mut log = LogViewer::new();
    assert_eq!(log.num_lines_stored(), 1);
    log.write_str("a\nb");
    log.write_str("c\nd");
    assert_eq!(log.num_lines_stored(), 3);
    assert_eq!(log.lines(), &vec!["a".to_string(), "bc".to_string(), "d".to_string()]);
    assert_eq!(log.current_line_index(), LineIndex::new(2));
    let v = log.view(LineIndex::new(0), LineIndex::new(2));
    assert_eq!(v, &["a".to_string(), "bc".to_string()][..]);
}

#[test]
fn test_log_viewer_scrolling() {
    let mut log = LogViewer::new();
    log.write_str("a\nb\nc");
    assert!(log.scroll_forwards().is_err());
    assert!(log.scroll_backwards().is_ok());
    assert_eq!(log.current_line_index(), LineIndex::new(1));
    assert!(log.scroll_backwards().is_ok());
    assert_eq!(log.current_line_index(), LineIndex::new(0));
    assert!(log.scroll_backwards().is_err());
    assert!(log.scroll_forwards().is_ok());
    assert_eq!(log.current_line_index(), LineIndex::new(1));
    assert!(log.scroll_to_end().is_ok());
    assert_eq!(log.current_line_index(), LineIndex::new(2));
    assert!(log.scroll_to_end().is_err());
    assert!(log.scroll_to_beginning().is_ok());
    assert_eq!(log.current_line_index(), LineIndex::new(0));
    assert!(log.scroll_to_beginning().is_err());
    // New lines do not move a scrolled-back view.
    log.write_str("\nd");
    assert_eq!(log.current_line_index(), LineIndex::new(0));
}

#[test]
fn test_log_viewer_draw_bottom_up() {
    let mut log = LogViewer::new();
    log.write_str("a\nb\nc");
    let mut buf_storage = WindowBuffer::new(Width::new(3).unwrap(), Height::new(2).unwrap());
    let mut buf = buf_storage.as_window();
    log.draw(&mut buf);
    assert_eq!(row_text(&buf, 0), "b  ");
    assert_eq!(row_text(&buf, 1), "c  ");

    assert!(log.scroll_backwards().is_ok());
    let mut buf_storage = WindowBuffer::new(Width::new(3).unwrap(), Height::new(2).unwrap());
    let mut buf = buf_storage.as_window();
    log.draw(&mut buf);
    assert_eq!(row_text(&buf, 0), "a  ");
    assert_eq!(row_text(&buf, 1), "b  ");
}

#[test]
fn test_log_viewer_draw_wrapped_line() {
    let mut log = LogViewer::new();
    log.write_str("x\nabcd");
    let mut buf_storage = WindowBuffer::new(Width::new(3).unwrap(), Height::new(3).unwrap());
    let mut buf = buf_storage.as_window();
    log.draw(&mut buf);
    assert_eq!(row_text(&buf, 0), "x  ");
    assert_eq!(row_text(&buf, 1), "abc");
    assert_eq!(row_text(&buf, 2), "d  ");
}

#[test]
fn test_stored_lines_hold_no_newline() {
    let mut l = LogViewer::new();
    l.write_str("a\nb\n\nc");
    l.write_str("d\n");
    let lines = l.lines();
    assert!(lines.len() >= 1);
    assert!(lines.iter().all(|s| !s.contains('\n')));
    assert_eq!(lines.len(), 5);
}
