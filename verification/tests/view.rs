use ndarray::Array2;
use unsegen::base::{
    CellMatrixView, ColIndex, Color, Cursor, CursorTarget, GraphemeCluster, Height, RowIndex,
    StyleModifier, StyledGraphemeCluster, Width, Window, WindowBound,
};

fn matrix(w: usize, h: usize) -> Array2<StyledGraphemeCluster> {
    Array2::default((h, w))
}

fn window_of(values: &mut Array2<StyledGraphemeCluster>) -> Window {
    Window::new(CellMatrixView {
        values: values.view_mut(),
    })
    .unwrap()
}

/// The window's clusters, row by row, rows separated by '|'.
fn render(win: &Window) -> String {
    let mut s = String::new();
    let h = win.get_height().raw_value();
    for y in 0..h {
        for x in 0..win.get_width().raw_value() {
            let c = win.get_cell(ColIndex::new(x), RowIndex::new(y)).unwrap();
            s.push_str(c.grapheme_cluster.as_str());
        }
        if y != h - 1 {
            s.push('|');
        }
    }
    s
}

fn range(start: i32, end: i32) -> (WindowBound, WindowBound) {
    (WindowBound::Included(start), WindowBound::Excluded(end))
}

#[test]
fn test_window_dimensions() {
    let mut m = matrix(5, 3);
    let win = window_of(&mut m);
    assert_eq!(win.get_width(), Width::new(5).unwrap());
    assert_eq!(win.get_height(), Height::new(3).unwrap());
    assert_eq!(win.get_extent::<unsegen::base::ColDimension>().raw_value(), 5);
    assert_eq!(win.get_extent::<unsegen::base::RowDimension>().raw_value(), 3);
    assert!(win.get_cell(ColIndex::new(5), RowIndex::new(0)).is_none());
    assert!(win.get_cell(ColIndex::new(-1), RowIndex::new(0)).is_none());
    assert_eq!(
        win.get_cell(ColIndex::new(4), RowIndex::new(2))
            .unwrap()
            .grapheme_cluster
            .as_str(),
        " "
    );
}

#[test]
fn test_window_subwindows_fill() {
    let mut m = matrix(5, 5);
    {
        let mut win = window_of(&mut m);
        {
            let mut w = win.create_subwindow(range(0, 2), range(2, 4));
            w.fill(GraphemeCluster::try_from('A').unwrap());
        }
        {
            let mut w = win.create_subwindow(range(2, 4), range(0, 2));
            w.fill(GraphemeCluster::try_from('B').unwrap());
        }
    }
    let win = window_of(&mut m);
    assert_eq!(render(&win), "  BB |  BB |AA   |AA   |     ");
}

#[test]
fn test_window_subwindow_unbounded_and_included() {
    let mut m = matrix(4, 2);
    {
        let mut win = window_of(&mut m);
        let mut w = win.create_subwindow(
            (WindowBound::Unbounded, WindowBound::Included(3)),
            (WindowBound::Excluded(2), WindowBound::Unbounded),
        );
        // An included end counts one less, an excluded start too.
        assert_eq!(w.get_width().raw_value(), 2);
        assert_eq!(w.get_height().raw_value(), 1);
        w.fill(GraphemeCluster::try_from('x').unwrap());
    }
    assert_eq!(render(&window_of(&mut m)), "    |xx  ");
}

#[test]
fn test_window_split() {
    let mut m = matrix(5, 5);
    {
        let win = window_of(&mut m);
        let (w1, w2) = win.split(RowIndex::new(3)).unwrap();
        assert_eq!(w1.get_height(), Height::new(3).unwrap());
        assert_eq!(w1.get_width(), Width::new(5).unwrap());
        assert_eq!(w2.get_height(), Height::new(2).unwrap());
        assert_eq!(w2.get_width(), Width::new(5).unwrap());
    }
    {
        let win = window_of(&mut m);
        let (mut w1, w2) = win.split(ColIndex::new(3)).unwrap();
        assert_eq!(w1.get_height(), Height::new(5).unwrap());
        assert_eq!(w1.get_width(), Width::new(3).unwrap());
        assert_eq!(w2.get_height(), Height::new(5).unwrap());
        assert_eq!(w2.get_width(), Width::new(2).unwrap());
        w1.fill(GraphemeCluster::try_from('l').unwrap());
    }
    assert_eq!(render(&window_of(&mut m)), "lll  |lll  |lll  |lll  |lll  ");
    let win = window_of(&mut m);
    let win = win.split(RowIndex::new(6)).unwrap_err();
    assert_eq!(win.get_height().raw_value(), 5);
}

#[test]
fn test_window_fill_wide_cluster() {
    let mut m = matrix(5, 2);
    let mut win = window_of(&mut m);
    win.fill(GraphemeCluster::try_from('山').unwrap());
    assert_eq!(render(&win), "山山 |山山 ");
    win.clear();
    assert_eq!(render(&win), "     |     ");
}

#[test]
fn test_window_default_style() {
    let mut m = matrix(2, 1);
    let mut win = window_of(&mut m);
    win.set_default_style(
        StyleModifier::new()
            .fg_color(Color::Red)
            .bg_color(Color::Blue)
            .apply_to_default(),
    );
    win.modify_default_style(StyleModifier::new().bg_color(Color::Yellow));
    assert_eq!(
        win.default_style(),
        StyleModifier::new()
            .fg_color(Color::Red)
            .bg_color(Color::Yellow)
            .apply_to_default()
    );
    win.clear();
    let c = win.get_cell(ColIndex::new(1), RowIndex::new(0)).unwrap();
    assert_eq!(c.style.bg_color(), Color::Yellow);
}

#[test]
fn test_window_cursor_write() {
    let mut m = matrix(3, 2);
    {
        let mut win = window_of(&mut m);
        let mut cursor = Cursor::new(&mut win).wrapping_mode(unsegen::base::WrappingMode::Wrap);
        cursor.write("abcd");
    }
    assert_eq!(render(&window_of(&mut m)), "abc|d  ");
}
