use unsegen::widget::builtin::{table_row_begin, TableCursor};

/// A table's active cell and the place where its active row was drawn last, as a table widget
/// keeps them between drawing passes.
struct Drawn {
    cursor: TableCursor,
    heights: Vec<Option<u32>>,
    separated: bool,
    window_height: u32,
    last: (u32, i32),
}

impl Drawn {
    fn new(heights: &[u32], separated: bool, window_height: u32) -> Self {
        Drawn {
            cursor: TableCursor::new(),
            heights: heights.iter().map(|h| Some(*h)).collect(),
            separated,
            window_height,
            last: (0, 0),
        }
    }

    /// Draw once (with at least one row of context): where the active row starts.
    fn draw(&mut self) -> i32 {
        let cur = self.cursor.row_pos;
        let begin = table_row_begin(
            self.last.0,
            self.last.1,
            cur,
            &self.heights,
            self.heights[cur as usize].unwrap(),
            self.separated,
            self.window_height,
            1,
        );
        self.last = (cur, begin);
        begin
    }

    fn move_down(&mut self) -> Result<(), ()> {
        let n = self.heights.len();
        self.cursor.move_down(n)
    }

    fn move_up(&mut self) -> Result<(), ()> {
        self.cursor.move_up()
    }

    fn scroll_to_end(&mut self) -> Result<(), ()> {
        let n = self.heights.len();
        self.cursor.scroll_to_end(n)
    }
}

#[test]
fn smaller_than_terminal() {
    // "0 1 2": the first row on top.
    let mut t = Drawn::new(&[1; 10], false, 3);
    assert_eq!(t.draw(), 0);
}

#[test]
fn scroll_down_simple() {
    let mut t = Drawn::new(&[1; 6], false, 4);
    assert_eq!(t.draw(), 0); // "*0* 1 2 3"
    t.move_down().unwrap();
    assert_eq!(t.draw(), 1); // "0 *1* 2 3"
    t.move_down().unwrap();
    assert_eq!(t.draw(), 2); // "0 1 *2* 3"
    t.move_down().unwrap();
    assert_eq!(t.draw(), 2); // "1 2 *3* 4"
    t.move_down().unwrap();
    assert_eq!(t.draw(), 2); // "2 3 *4* 5"
    t.move_down().unwrap();
    assert_eq!(t.draw(), 3); // "2 3 4 *5*"
    assert!(t.move_down().is_err());
    assert_eq!(t.cursor.row_pos, 5);
}

#[test]
fn scroll_down_sep() {
    let mut t = Drawn::new(&[1; 4], true, 4);
    assert_eq!(t.draw(), 0); // "*0* X 1 X"
    t.move_down().unwrap();
    assert_eq!(t.draw(), 2); // "0 X *1* X"
    t.move_down().unwrap();
    assert_eq!(t.draw(), 2); // "1 X *2* X"
    t.move_down().unwrap();
    assert_eq!(t.draw(), 3); // "X 2 X *3*"
    assert!(t.move_down().is_err());
}

#[test]
fn scroll_down_multiline() {
    // Rows "a\nb", "c", "d\ne\n", "f", "g\nh".
    let mut t = Drawn::new(&[2, 1, 2, 1, 2], false, 4);
    assert_eq!(t.draw(), 0); // "*ab* c d"
    t.move_down().unwrap();
    assert_eq!(t.draw(), 2); // "ab *c* d"
    t.move_down().unwrap();
    assert_eq!(t.draw(), 1); // "c *de* f"
    t.move_down().unwrap();
    assert_eq!(t.draw(), 2); // "de *f* g"
    t.move_down().unwrap();
    assert_eq!(t.draw(), 2); // "d f *gh*"
    assert!(t.move_down().is_err());
}

#[test]
fn scroll_down_multiline_sep() {
    // Rows "a\nb", "c", "d\ne\nf", "f", "g\nh".
    let mut t = Drawn::new(&[2, 1, 3, 1, 2], true, 4);
    assert_eq!(t.draw(), 0); // "*ab* X c"
    t.move_down().unwrap();
    assert_eq!(t.draw(), 2); // "a X *c* X"
    t.move_down().unwrap();
    assert_eq!(t.draw(), 1); // "X *def*"
    t.move_down().unwrap();
    assert_eq!(t.draw(), 2); // "d X *f* X"
    t.move_down().unwrap();
    assert_eq!(t.draw(), 2); // "f X *gh*"
    assert!(t.move_down().is_err());
}

#[test]
fn scroll_up_simple() {
    let mut t = Drawn::new(&[1; 6], false, 4);
    t.scroll_to_end().unwrap();
    assert_eq!(t.draw(), 3); // "2 3 4 *5*"
    t.move_up().unwrap();
    assert_eq!(t.draw(), 2); // "2 3 *4* 5"
    t.move_up().unwrap();
    assert_eq!(t.draw(), 1); // "2 *3* 4 5"
    t.move_up().unwrap();
    assert_eq!(t.draw(), 1); // "1 *2* 3 4"
    t.move_up().unwrap();
    assert_eq!(t.draw(), 1); // "0 *1* 2 3"
    t.move_up().unwrap();
    assert_eq!(t.draw(), 0); // "*0* 1 2 3"
    assert!(t.move_up().is_err());
}

#[test]
fn scroll_up_sep() {
    let mut t = Drawn::new(&[1; 4], true, 4);
    t.scroll_to_end().unwrap();
    assert_eq!(t.draw(), 3); // "X 2 X *3*"
    t.move_up().unwrap();
    assert_eq!(t.draw(), 1); // "X *2* X 3"
    t.move_up().unwrap();
    assert_eq!(t.draw(), 1); // "X *1* X 2"
    t.move_up().unwrap();
    assert_eq!(t.draw(), 0); // "*0* X 1 X"
    assert!(t.move_up().is_err());
}

#[test]
fn sep_alternate_rows() {
    // "0 *1* 2 *3*": no separator rows, the first row on top.
    let mut t = Drawn::new(&[1; 4], false, 4);
    assert_eq!(t.draw(), 0);
}

#[test]
fn sep_char() {
    // "0 X 1 X 2 X 3"
    let mut t = Drawn::new(&[1; 4], true, 7);
    assert_eq!(t.draw(), 0);
}

#[test]
fn sep_none() {
    // "0 1 2 3"
    let mut t = Drawn::new(&[1; 4], false, 4);
    assert_eq!(t.draw(), 0);
}

#[test]
fn table_cursor_columns_and_validation() {
    let mut c = TableCursor::new();
    assert!(c.move_left().is_err());
    assert!(c.move_right(3).is_ok());
    assert!(c.move_right(3).is_ok());
    assert!(c.move_right(3).is_err());
    assert_eq!(c.col_pos, 2);
    assert!(c.move_left().is_ok());
    assert_eq!(c.col_pos, 1);
    c.row_pos = 7;
    assert!(c.validate_row_pos(3).is_err());
    assert_eq!(c.row_pos, 2);
    assert!(c.validate_row_pos(3).is_ok());
    assert!(c.validate_col_pos(1).is_err());
    assert_eq!(c.col_pos, 0);
    assert!(c.scroll_to_beginning().is_ok());
    assert!(c.scroll_to_beginning().is_err());
    assert!(c.scroll_to_end(0).is_err());
}

#[test]
fn table_row_begin_unbounded_row_takes_the_window() {
    // A row above with an unbounded height counts as the whole window.
    let heights = vec![None, Some(1), Some(1)];
    assert_eq!(table_row_begin(0, 0, 2, &heights, 1, false, 5, 1), 4);
}
