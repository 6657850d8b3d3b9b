use unsegen::base::{
    BoolModifyMode,
    description_cells, ColIndex, Cursor, FakeTerminal, GraphemeCluster, RowIndex, Style,
    StyleModifier,
};

fn bold() -> Style {
    StyleModifier::new().bold(BoolModifyMode::True).apply(Style::plain())
}

#[test]
fn description_cells_toggle_bold_and_skip_blanks() {
    let cells = description_cells("*a* b\nc*d");
    let clusters: Vec<&str> = cells.iter().map(|c| c.grapheme_cluster.as_str()).collect();
    assert_eq!(clusters, vec!["a", "b", "c", "d"]);
    assert_eq!(cells[0].style, bold());
    assert_eq!(cells[1].style, Style::plain());
    assert_eq!(cells[2].style, Style::plain());
    assert_eq!(cells[3].style, bold());
}

#[test]
fn description_cells_of_blank_description_is_empty() {
    assert!(description_cells("  \n ").is_empty());
    assert!(description_cells("").is_empty());
}

#[test]
fn fake_terminal_from_str_fills_rows() {
    let term = FakeTerminal::from_str((2, 2), "ab\ncd").expect("fits");
    assert_eq!(term.looks_like(), "ab|cd");
}

#[test]
fn fake_terminal_from_str_renders_bold() {
    let term = FakeTerminal::from_str((3, 1), "*ab*c").expect("fits");
    assert_eq!(term.looks_like(), "*a**b*c");
}

#[test]
fn fake_terminal_from_str_wrong_size_is_error() {
    assert!(FakeTerminal::from_str((2, 2), "abc").is_err());
    assert!(FakeTerminal::from_str((1, 1), "ab").is_err());
}

#[test]
fn fake_terminal_with_size_is_blank() {
    let term = FakeTerminal::with_size((3, 2));
    assert_eq!(term.looks_like(), "   |   ");
}

#[test]
fn fake_terminal_root_window_writes_through() {
    let mut term = FakeTerminal::with_size((3, 2));
    {
        let mut window = term.create_root_window();
        window.fill(GraphemeCluster::try_from('_').unwrap());
        let mut cursor = Cursor::new(&mut window);
        cursor.move_to(ColIndex::new(1), RowIndex::new(1));
        cursor.write("x");
    }
    assert_eq!(term.looks_like(), "___|_x_");
}

#[test]
fn fake_terminal_drawn_equals_described() {
    let mut term = FakeTerminal::with_size((2, 2));
    {
        let mut window = term.create_root_window();
        let mut cursor = Cursor::new(&mut window);
        cursor.write("ab");
        cursor.move_to(ColIndex::new(0), RowIndex::new(1));
        cursor.write("cd");
    }
    assert!(term == FakeTerminal::from_str((2, 2), "ab cd").expect("fits"));
    assert!(term != FakeTerminal::from_str((2, 2), "ab c*d*").expect("fits"));
}

#[test]
fn fake_terminal_fill_doc_example() {
    let mut term = FakeTerminal::with_size((2, 3));
    {
        let mut win = term.create_root_window();
        win.fill(GraphemeCluster::try_from('_').unwrap());
    }
    assert_eq!(term.looks_like(), "__|__|__");
}
