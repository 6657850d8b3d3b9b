use unsegen::base::{
    BoolModifyMode, Color, ColDiff, ColIndex, Cursor, CursorTarget, ExtentEstimationWindow,
    GraphemeCluster, GraphemeClusterError, Height, RowDiff, RowIndex, Style, StyleModifier,
    StyledGraphemeCluster, Width, Window, WindowBuffer, WrappingMode, style_runs,
};

#[test]
fn test_grapheme_cluster_basics() {
    assert_eq!(GraphemeCluster::try_from('a').unwrap().as_str(), "a");
    assert_eq!(GraphemeCluster::space().as_str(), " ");
    let mut cluster = GraphemeCluster::try_from('a').unwrap();
    cluster.clear();
    assert_eq!(cluster.as_str(), " ");
    assert_eq!(GraphemeCluster::try_from('a').unwrap().width(), 1);
    assert_eq!(GraphemeCluster::try_from('沐').unwrap().width(), 2);
    assert_eq!(GraphemeCluster::empty().width(), 0);
}

#[test]
fn test_grapheme_cluster_all_from_str() {
    let clusters = GraphemeCluster::all_from_str("ab d");
    assert_eq!(
        clusters,
        vec![
            GraphemeCluster::try_from('a').unwrap(),
            GraphemeCluster::try_from('b').unwrap(),
            GraphemeCluster::try_from(' ').unwrap(),
            GraphemeCluster::try_from('d').unwrap(),
        ]
    );
    let clusters = GraphemeCluster::all_from_str("e\u{301}x");
    assert_eq!(clusters.len(), 2);
    assert_eq!(clusters[0].as_str(), "e\u{301}");
}

#[test]
fn test_grapheme_cluster_from_str() {
    assert_eq!(GraphemeCluster::from_str("x").unwrap().as_str(), "x");
    assert_eq!(
        GraphemeCluster::from_str("").unwrap_err(),
        GraphemeClusterError::NoGraphemeCluster
    );
    assert_eq!(
        GraphemeCluster::from_str("xy").unwrap_err(),
        GraphemeClusterError::MultipleGraphemeClusters
    );
    assert_eq!(GraphemeCluster::from_str("e\u{301}").unwrap().as_str(), "e\u{301}");
}

#[test]
fn test_grapheme_cluster_merge_zero_width() {
    let mut c = GraphemeCluster::try_from('e').unwrap();
    c.merge_zero_width(GraphemeCluster::from_str("\u{200b}").unwrap());
    assert_eq!(c.as_str(), "e\u{200b}");
}

#[test]
fn test_window_buffer_fill() {
    let mut wb_storage = WindowBuffer::new(Width::new(5).unwrap(), Height::new(2).unwrap());
    let mut wb = wb_storage.as_window();
    assert_eq!(wb.get_width(), Width::new(5).unwrap());
    assert_eq!(wb.get_height(), Height::new(2).unwrap());
    wb.fill(GraphemeCluster::try_from('X').unwrap());
    for y in 0..2 {
        for x in 0..5 {
            assert_eq!(
                wb.get_cell(ColIndex::new(x), RowIndex::new(y))
                    .unwrap()
                    .grapheme_cluster
                    .as_str(),
                "X"
            );
        }
    }
    wb.fill(GraphemeCluster::try_from('山').unwrap());
    let row: Vec<String> = (0..5)
        .map(|x| {
            wb.get_cell(ColIndex::new(x), RowIndex::new(1))
                .unwrap()
                .grapheme_cluster
                .as_str()
                .to_string()
        })
        .collect();
    assert_eq!(row, vec!["山", "", "山", "", " "]);
    assert!(wb.get_cell(ColIndex::new(5), RowIndex::new(0)).is_none());
    assert!(wb.get_cell(ColIndex::new(0), RowIndex::new(-1)).is_none());
}

#[test]
fn test_window_buffer_default_style() {
    let mut wb_storage = WindowBuffer::new(Width::new(2).unwrap(), Height::new(1).unwrap());
    let mut wb = wb_storage.as_window();
    wb.set_default_style(
        StyleModifier::new()
            .fg_color(Color::Red)
            .bg_color(Color::Blue)
            .apply_to_default(),
    );
    wb.clear();
    assert_eq!(
        wb.get_cell(ColIndex::new(1), RowIndex::new(0)).unwrap().style.bg_color(),
        Color::Blue
    );
    wb.modify_default_style(StyleModifier::new().bg_color(Color::Yellow));
    assert_eq!(
        wb.default_style(),
        StyleModifier::new()
            .fg_color(Color::Red)
            .bg_color(Color::Yellow)
            .apply_to_default()
    );
}

#[test]
fn test_window_buffer_set_cell() {
    let mut wb_storage = WindowBuffer::new(Width::new(3).unwrap(), Height::new(2).unwrap());
    let mut wb = wb_storage.as_window();
    let c = StyledGraphemeCluster::new(GraphemeCluster::try_from('q').unwrap(), Style::plain());
    assert!(wb.set_cell(ColIndex::new(2), RowIndex::new(1), c.clone()));
    assert!(!wb.set_cell(ColIndex::new(3), RowIndex::new(1), c));
    assert_eq!(
        wb.get_cell(ColIndex::new(2), RowIndex::new(1))
            .unwrap()
            .grapheme_cluster
            .as_str(),
        "q"
    );
    assert_eq!(
        wb.get_cell(ColIndex::new(2), RowIndex::new(0))
            .unwrap()
            .grapheme_cluster
            .as_str(),
        " "
    );
}

#[test]
fn test_style_runs() {
    let mut wb_storage = WindowBuffer::new(Width::new(4).unwrap(), Height::new(2).unwrap());
    let mut wb = wb_storage.as_window();
    let bold = StyleModifier::new()
        .bold(BoolModifyMode::True)
        .apply_to_default();
    {
        let mut cursor = Cursor::new(&mut wb);
        cursor.write("ab");
        cursor.set_style_modifier(StyleModifier::new().bold(BoolModifyMode::True));
        cursor.write("cd");
    }
    let (rows, end) = style_runs(&wb, Style::plain()).unwrap();
    assert_eq!(rows.len(), 2);
    assert_eq!(
        rows[0],
        vec![(Style::plain(), "ab".to_string()), (bold, "cd".to_string())]
    );
    // The bold style carries over to the next row, which starts with an empty bold run.
    assert_eq!(
        rows[1],
        vec![(bold, "".to_string()), (Style::plain(), "    ".to_string())]
    );
    assert_eq!(end, Style::plain());

    let mut wb_storage = WindowBuffer::new(Width::new(2).unwrap(), Height::new(1).unwrap());
    let mut wb = wb_storage.as_window();
    wb.set_cell(
        ColIndex::new(0),
        RowIndex::new(0),
        StyledGraphemeCluster::new(GraphemeCluster::from_str("\t").unwrap(), Style::plain()),
    );
    assert!(style_runs(&wb, Style::plain()).is_none());
}

#[test]
fn test_extent_estimation_move_by() {
    let mut w = ExtentEstimationWindow::with_width(Width::new(20).unwrap());
    let mut cursor = Cursor::new(&mut w).position(ColIndex::new(27), RowIndex::new(37));
    cursor.move_by(ColDiff::new(10), RowDiff::new(-10));
    assert_eq!(cursor.get_col(), ColIndex::new(37));
    assert_eq!(cursor.get_row(), RowIndex::new(27));
}

#[test]
fn test_extent_estimation_extents() {
    let mut w = ExtentEstimationWindow::with_width(Width::new(20).unwrap());
    assert_eq!(w.extent_x(), Width::new(0).unwrap());
    {
        let mut cursor = Cursor::new(&mut w).wrapping_mode(WrappingMode::Wrap);
        cursor.write("hello");
        cursor.wrap_line();
        cursor.write("hi");
    }
    assert_eq!(w.extent_x(), Width::new(5).unwrap());
    assert_eq!(w.extent_y(), Height::new(2).unwrap());
    assert_eq!(
        w.get_cell(ColIndex::new(1), RowIndex::new(1))
            .unwrap()
            .grapheme_cluster
            .as_str(),
        "i"
    );
    let u = ExtentEstimationWindow::unbounded();
    assert_eq!(u.get_width().raw_value(), i32::MAX);
}

#[test]
fn test_window_get_cell_mut() {
    let mut storage = WindowBuffer::new(Width::new(2).unwrap(), Height::new(2).unwrap());
    let mut w = storage.as_window();
    w.get_cell_mut(ColIndex::new(1), RowIndex::new(0))
        .expect("in bounds")
        .grapheme_cluster = GraphemeCluster::try_from('m').unwrap();
    assert!(w.get_cell_mut(ColIndex::new(2), RowIndex::new(0)).is_none());
    assert_eq!(
        w.get_cell(ColIndex::new(1), RowIndex::new(0)).unwrap().grapheme_cluster.as_str(),
        "m"
    );
    let mut e = ExtentEstimationWindow::with_width(Width::new(4).unwrap());
    e.get_cell_mut(ColIndex::new(1), RowIndex::new(2))
        .expect("in bounds")
        .grapheme_cluster = GraphemeCluster::try_from('m').unwrap();
    assert_eq!(
        e.get_cell(ColIndex::new(1), RowIndex::new(2)).unwrap().grapheme_cluster.as_str(),
        "m"
    );
    assert_eq!(e.extent_x(), Width::new(2).unwrap());
    assert_eq!(e.extent_y(), Height::new(3).unwrap());
}
