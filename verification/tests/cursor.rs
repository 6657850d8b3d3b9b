use unsegen::base::{
    ColIndex, Cursor, CursorTarget, FakeTerminal, GraphemeCluster, Height, RowIndex, Style, StyledGraphemeCluster,
    Width, Window, WindowBuffer, WrappingMode,
};

fn test_cursor<S: Fn(&mut Cursor<Window>), F: Fn(&mut Cursor<Window>)>(
    window_dim: (u32, u32),
    after: &str,
    setup: S,
    action: F,
) {
    let mut term = FakeTerminal::with_size(window_dim);
    {
        let mut window = term.create_root_window();
        window.fill(GraphemeCluster::try_from('_').unwrap());
        let mut cursor = Cursor::new(&mut window);
        setup(&mut cursor);
        action(&mut cursor);
    }
    assert_eq!(term.looks_like(), after);
}

#[test]
fn test_cursor_simple() {
    test_cursor((5, 1), "_____", |_| {}, |c| c.write(""));
    test_cursor((5, 1), "t____", |_| {}, |c| c.write("t"));
    test_cursor((5, 1), "te___", |_| {}, |c| c.write("te"));
    test_cursor((5, 1), "tes__", |_| {}, |c| c.write("tes"));
    test_cursor((5, 1), "test_", |_| {}, |c| c.write("test"));
    test_cursor((5, 1), "testy", |_| {}, |c| c.write("testy"));
}

#[test]
fn test_cursor_no_wrap() {
    test_cursor((2, 2), "__|__", |_| {}, |c| c.write(""));
    test_cursor((2, 2), "t_|__", |_| {}, |c| c.write("t"));
    test_cursor((2, 2), "te|__", |_| {}, |c| c.write("te"));
    test_cursor((2, 2), "te|__", |_| {}, |c| c.write("tes"));
    test_cursor((2, 2), "te|__", |_| {}, |c| c.write("test"));
    test_cursor((2, 2), "te|__", |_| {}, |c| c.write("testy"));
}

#[test]
fn test_cursor_wrap() {
    test_cursor(
        (2, 2),
        "__|__",
        |c| c.set_wrapping_mode(WrappingMode::Wrap),
        |c| c.write(""),
    );
    test_cursor(
        (2, 2),
        "t_|__",
        |c| c.set_wrapping_mode(WrappingMode::Wrap),
        |c| c.write("t"),
    );
    test_cursor(
        (2, 2),
        "te|__",
        |c| c.set_wrapping_mode(WrappingMode::Wrap),
        |c| c.write("te"),
    );
    test_cursor(
        (2, 2),
        "te|s_",
        |c| c.set_wrapping_mode(WrappingMode::Wrap),
        |c| c.write("tes"),
    );
    test_cursor(
        (2, 2),
        "te|st",
        |c| c.set_wrapping_mode(WrappingMode::Wrap),
        |c| c.write("test"),
    );
    test_cursor(
        (2, 2),
        "te|st",
        |c| c.set_wrapping_mode(WrappingMode::Wrap),
        |c| c.write("testy"),
    );
}

#[test]
fn test_cursor_tabs() {
    test_cursor(
        (5, 1),
        "  x__",
        |c| c.set_tab_column_width(Width::new(2).unwrap()),
        |c| c.write("\tx"),
    );
    test_cursor(
        (5, 1),
        "x x__",
        |c| c.set_tab_column_width(Width::new(2).unwrap()),
        |c| c.write("x\tx"),
    );
    test_cursor(
        (5, 1),
        "xx  x",
        |c| c.set_tab_column_width(Width::new(2).unwrap()),
        |c| c.write("xx\tx"),
    );
    test_cursor(
        (5, 1),
        "xxx x",
        |c| c.set_tab_column_width(Width::new(2).unwrap()),
        |c| c.write("xxx\tx"),
    );
    test_cursor(
        (5, 1),
        "    x",
        |c| c.set_tab_column_width(Width::new(2).unwrap()),
        |c| c.write("\t\tx"),
    );
    test_cursor(
        (5, 1),
        "     ",
        |c| c.set_tab_column_width(Width::new(2).unwrap()),
        |c| c.write("\t\t\tx"),
    );
}

#[test]
fn test_cursor_wide_cluster() {
    test_cursor((5, 1), "沐___", |_| {}, |c| c.write("沐"));
    test_cursor((5, 1), "沐沐_", |_| {}, |c| c.write("沐沐"));
    test_cursor((5, 1), "沐沐 ", |_| {}, |c| c.write("沐沐沐"));

    test_cursor(
        (3, 2),
        "沐_|___",
        |c| c.set_wrapping_mode(WrappingMode::Wrap),
        |c| c.write("沐"),
    );
    test_cursor(
        (3, 2),
        "沐 |沐_",
        |c| c.set_wrapping_mode(WrappingMode::Wrap),
        |c| c.write("沐沐"),
    );
    test_cursor(
        (3, 2),
        "沐 |沐 ",
        |c| c.set_wrapping_mode(WrappingMode::Wrap),
        |c| c.write("沐沐沐"),
    );
    test_cursor(
        (2, 2),
        "  |沐",
        |c| c.set_wrapping_mode(WrappingMode::Wrap),
        |c| c.write(" 沐 沐"),
    );
}

#[test]
fn test_cursor_wide_cluster_overwrite() {
    test_cursor(
        (5, 1),
        "X ___",
        |_| {},
        |c| {
            c.write("沐");
            c.move_to(ColIndex::new(0), RowIndex::new(0));
            c.write("X");
        },
    );
    test_cursor(
        (5, 1),
        " X___",
        |_| {},
        |c| {
            c.write("沐");
            c.move_to(ColIndex::new(1), RowIndex::new(0));
            c.write("X");
        },
    );
    test_cursor(
        (5, 1),
        "XYZ _",
        |_| {},
        |c| {
            c.write("沐沐");
            c.move_to(ColIndex::new(0), RowIndex::new(0));
            c.write("XYZ");
        },
    );
    test_cursor(
        (5, 1),
        " XYZ_",
        |_| {},
        |c| {
            c.write("沐沐");
            c.move_to(ColIndex::new(1), RowIndex::new(0));
            c.write("XYZ");
        },
    );
    test_cursor(
        (5, 1),
        "沐XYZ",
        |_| {},
        |c| {
            c.write("沐沐沐");
            c.move_to(ColIndex::new(2), RowIndex::new(0));
            c.write("XYZ");
        },
    );
}

#[test]
fn test_cursor_tabs_overwrite() {
    test_cursor(
        (5, 1),
        "X   _",
        |c| c.set_tab_column_width(Width::new(4).unwrap()),
        |c| {
            c.write("\t");
            c.move_to(ColIndex::new(0), RowIndex::new(0));
            c.write("X");
        },
    );
    test_cursor(
        (5, 1),
        " X  _",
        |c| c.set_tab_column_width(Width::new(4).unwrap()),
        |c| {
            c.write("\t");
            c.move_to(ColIndex::new(1), RowIndex::new(0));
            c.write("X");
        },
    );
    test_cursor(
        (5, 1),
        "  X _",
        |c| c.set_tab_column_width(Width::new(4).unwrap()),
        |c| {
            c.write("\t");
            c.move_to(ColIndex::new(2), RowIndex::new(0));
            c.write("X");
        },
    );
    test_cursor(
        (5, 1),
        "   X_",
        |c| c.set_tab_column_width(Width::new(4).unwrap()),
        |c| {
            c.write("\t");
            c.move_to(ColIndex::new(3), RowIndex::new(0));
            c.write("X");
        },
    );
}

#[test]
fn test_cursor_writeln_and_carriage_return() {
    test_cursor((3, 2), "ab_|c__", |_| {}, |c| c.writeln("ab\nc"));
    test_cursor((3, 1), "xb_", |_| {}, |c| c.write("ab\rx"));
}

#[test]
fn test_cursor_line_start_column() {
    test_cursor(
        (4, 2),
        "_ab_|_c__",
        |c| {
            c.set_line_start_column(ColIndex::new(1));
            c.move_to(ColIndex::new(1), RowIndex::new(0));
        },
        |c| c.write("ab\nc"),
    );
}

#[test]
fn test_cursor_position_after_write() {
    let mut buf_storage = WindowBuffer::new(Width::new(3).unwrap(), Height::new(2).unwrap());
    let mut buf = buf_storage.as_window();
    let mut cursor = Cursor::new(&mut buf).wrapping_mode(WrappingMode::Wrap);
    cursor.write("abcd");
    assert_eq!(cursor.get_position(), (ColIndex::new(1), RowIndex::new(1)));
    cursor.write("xyz");
    // Nothing fits below the last row: the cursor stops there.
    assert_eq!(cursor.get_row(), RowIndex::new(2));
}

#[test]
fn test_cursor_num_expected_wraps() {
    let mut buf_storage = WindowBuffer::new(Width::new(4).unwrap(), Height::new(2).unwrap());
    let mut buf = buf_storage.as_window();
    let cursor = Cursor::new(&mut buf)
        .wrapping_mode(WrappingMode::Wrap)
        .position(ColIndex::new(3), RowIndex::new(0));
    assert_eq!(cursor.num_expected_wraps("abcdef"), 2);
    assert_eq!(cursor.num_expected_wraps(""), 0);
    let nowrap = cursor.wrapping_mode(WrappingMode::NoWrap);
    assert_eq!(nowrap.num_expected_wraps("abcdef"), 0);
}

#[test]
fn test_cursor_clear_line() {
    test_cursor(
        (4, 1),
        "a   ",
        |_| {},
        |c| {
            c.write("abcd");
            c.move_to(ColIndex::new(1), RowIndex::new(0));
            c.clear_line_right();
        },
    );
    test_cursor(
        (4, 1),
        "  cd",
        |_| {},
        |c| {
            c.write("abcd");
            c.move_to(ColIndex::new(1), RowIndex::new(0));
            c.clear_line_left();
        },
    );
    test_cursor(
        (4, 1),
        "    ",
        |_| {},
        |c| {
            c.write("abcd");
            c.clear_line();
        },
    );
}

#[test]
fn test_cursor_fill_and_wrap_line() {
    test_cursor(
        (4, 2),
        "ab  |x___",
        |_| {},
        |c| {
            c.write("ab");
            c.fill_and_wrap_line();
            c.write("x");
        },
    );
}

#[test]
fn test_cursor_move_left_right_skip_zero_width() {
    let mut buf_storage = WindowBuffer::new(Width::new(5).unwrap(), Height::new(2).unwrap());
    let mut buf = buf_storage.as_window();
    buf.fill(GraphemeCluster::try_from('_').unwrap());
    let mut cursor = Cursor::new(&mut buf);
    cursor.write("a沐b");
    assert_eq!(cursor.get_col().raw_value(), 4);
    // The wide cluster spans columns 1 and 2; column 2 holds an empty cluster that is skipped.
    cursor.move_left();
    assert_eq!(cursor.get_col().raw_value(), 3);
    cursor.move_left();
    assert_eq!(cursor.get_col().raw_value(), 1);
    cursor.move_left();
    assert_eq!(cursor.get_col().raw_value(), 0);
    cursor.move_right();
    assert_eq!(cursor.get_col().raw_value(), 1);
    cursor.move_right();
    assert_eq!(cursor.get_col().raw_value(), 3);
    assert_eq!(cursor.get_row().raw_value(), 0);
}

#[test]
fn test_cursor_move_left_right_wrapping() {
    let mut buf_storage = WindowBuffer::new(Width::new(3).unwrap(), Height::new(2).unwrap());
    let mut buf = buf_storage.as_window();
    buf.fill(GraphemeCluster::try_from('_').unwrap());
    let mut cursor = Cursor::new(&mut buf).wrapping_mode(WrappingMode::Wrap);
    cursor.move_to(ColIndex::new(0), RowIndex::new(1));
    cursor.move_left();
    assert_eq!(cursor.get_position(), (ColIndex::new(2), RowIndex::new(0)));
    cursor.move_left();
    cursor.move_left();
    cursor.move_left();
    // Moving left from the first cell of the first row leaves the grid upwards.
    assert_eq!(cursor.get_row().raw_value(), -1);

    // Moving right beyond the last column goes on in the row below.
    cursor.move_to(ColIndex::new(2), RowIndex::new(0));
    cursor.move_right();
    assert_eq!(cursor.get_position(), (ColIndex::new(0), RowIndex::new(1)));
}

#[test]
fn test_cursor_backspace() {
    test_cursor(
        (5, 1),
        "ab __",
        |c| c.write("abc"),
        |c| {
            c.backspace();
            assert_eq!(c.get_col().raw_value(), 2);
        },
    );
    test_cursor(
        (5, 2),
        "abc  |_____",
        |c| {
            c.set_wrapping_mode(WrappingMode::Wrap);
            c.write("abcde");
            c.move_to(ColIndex::new(0), RowIndex::new(1));
        },
        |c| {
            c.backspace();
            c.backspace();
            assert_eq!(c.get_position(), (ColIndex::new(3), RowIndex::new(0)));
        },
    );
}

#[test]
fn test_cursor_write_preformatted() {
    let cells = vec![
        StyledGraphemeCluster::new(GraphemeCluster::try_from('x').unwrap(), Style::plain()),
        StyledGraphemeCluster::new(GraphemeCluster::try_from('y').unwrap(), Style::plain()),
        StyledGraphemeCluster::new(GraphemeCluster::try_from('z').unwrap(), Style::plain()),
    ];
    test_cursor((5, 1), "_xyz_", |c| c.move_to_x(ColIndex::new(1)), |c| {
        c.write_preformatted(&cells);
        assert_eq!(c.get_col().raw_value(), 4);
    });
    // Writing stops at the right border where the cursor does not wrap.
    test_cursor((4, 1), "___x", |c| c.move_to_x(ColIndex::new(3)), |c| {
        c.write_preformatted(&cells);
        assert_eq!(c.get_col().raw_value(), 4);
    });
}

#[test]
fn test_cursor_get_current_cell_mut() {
    let mut term = FakeTerminal::with_size((3, 2));
    {
        let mut window = term.create_root_window();
        window.fill(GraphemeCluster::try_from('_').unwrap());
        let mut cursor = Cursor::new(&mut window);
        cursor.move_to(ColIndex::new(2), RowIndex::new(1));
        {
            let cell = cursor.get_current_cell_mut().expect("on a cell");
            assert_eq!(cell.grapheme_cluster.as_str(), "_");
            cell.grapheme_cluster = GraphemeCluster::try_from('k').unwrap();
        }
        cursor.move_to(ColIndex::new(3), RowIndex::new(1));
        assert!(cursor.get_current_cell_mut().is_none());
        cursor.move_to(ColIndex::new(-1), RowIndex::new(0));
        assert!(cursor.get_current_cell_mut().is_none());
    }
    assert_eq!(term.looks_like(), "___|__k");
}
