use unsegen::container::{container_hints, split_positions};
use unsegen::widget::RenderingHints;
use unsegen::base::{ColIndex, RowIndex, Width};
use unsegen::container::canvas::draw_separators;
use unsegen::container::{
    best_adjacent, HorizontalLine, Line, LineCell, LineSegment, LineType, MovementDirection,
    Rectangle, VerticalLine,
};

fn rect(x0: i32, x1: i32, y0: i32, y1: i32) -> Rectangle {
    Rectangle::new(
        ColIndex::new(x0)..ColIndex::new(x1),
        RowIndex::new(y0)..RowIndex::new(y1),
    )
}

#[test]
fn test_line_cell_chars() {
    assert_eq!(LineCell::empty().to_char(), ' ');
    let mut c = LineCell::empty();
    c.set(LineSegment::Up, LineType::Thin)
        .set(LineSegment::Down, LineType::Thin);
    assert_eq!(c.to_char(), '│');
    let mut c = LineCell::empty();
    c.set(LineSegment::Left, LineType::Thin)
        .set(LineSegment::Right, LineType::Thin);
    assert_eq!(c.to_char(), '─');
    let mut c = LineCell::empty();
    c.set(LineSegment::Up, LineType::Thick)
        .set(LineSegment::Down, LineType::Thick);
    assert_eq!(c.to_char(), '┃');
    c.set(LineSegment::Right, LineType::Thin);
    assert_eq!(c.to_char(), '┠');
    // Setting a segment again replaces its type; removing it goes back.
    c.set(LineSegment::Right, LineType::NoLine);
    assert_eq!(c.to_char(), '┃');
    let mut c = LineCell::empty();
    c.set(LineSegment::Up, LineType::Thin)
        .set(LineSegment::Down, LineType::Thin)
        .set(LineSegment::Left, LineType::Thin)
        .set(LineSegment::Right, LineType::Thin);
    assert_eq!(c.to_char(), '┼');
}

#[test]
fn test_rectangle_geometry() {
    let r = rect(1, 5, 2, 4);
    assert_eq!(r.width(), Width::new(4).unwrap());
    assert_eq!(r.height().raw_value(), 2);
    let s = r.slice_range_x(ColIndex::new(2)..ColIndex::new(3));
    assert_eq!(s.x_range, ColIndex::new(2)..ColIndex::new(3));
    assert_eq!(s.y_range, r.y_range);
    let l = r.slice_line_x(ColIndex::new(5));
    assert_eq!(l.x, ColIndex::new(5));
    assert_eq!(l.y_range, r.y_range);
    let v = r.slice_line_y(RowIndex::new(2));
    assert_eq!(v.y, RowIndex::new(2));
    assert_eq!(v.x_range, r.x_range);
}

#[test]
fn test_is_near_border() {
    let r = rect(1, 3, 1, 3);
    // The ring around the rectangle, with segments not pointing away from it.
    assert!(r.is_near_border(ColIndex::new(3), RowIndex::new(1), LineSegment::Up));
    assert!(r.is_near_border(ColIndex::new(3), RowIndex::new(1), LineSegment::Left));
    assert!(!r.is_near_border(ColIndex::new(3), RowIndex::new(1), LineSegment::Right));
    assert!(r.is_near_border(ColIndex::new(1), RowIndex::new(0), LineSegment::Right));
    assert!(!r.is_near_border(ColIndex::new(1), RowIndex::new(0), LineSegment::Up));
    // Inside and far away.
    assert!(!r.is_near_border(ColIndex::new(2), RowIndex::new(2), LineSegment::Up));
    assert!(!r.is_near_border(ColIndex::new(7), RowIndex::new(2), LineSegment::Up));
}

#[test]
fn test_best_adjacent() {
    // | left | right-top    |
    // |      |--------------|
    // |      | right-bottom |
    let left = rect(0, 4, 0, 10);
    let right_top = rect(5, 10, 0, 3);
    let right_bottom = rect(5, 10, 4, 10);
    let candidates = vec![left.clone(), right_top.clone(), right_bottom.clone()];
    let is_active = vec![true, false, false];
    // Right from the left one: both touch, the bottom one overlaps more.
    assert_eq!(
        best_adjacent(&left, &candidates, &is_active, MovementDirection::Right),
        Some(2)
    );
    assert_eq!(
        best_adjacent(&left, &candidates, &is_active, MovementDirection::Left),
        None
    );
    let is_active = vec![false, true, false];
    assert_eq!(
        best_adjacent(&right_top, &candidates, &is_active, MovementDirection::Down),
        Some(2)
    );
    assert_eq!(
        best_adjacent(&right_top, &candidates, &is_active, MovementDirection::Left),
        Some(0)
    );
    assert_eq!(
        best_adjacent(&right_top, &candidates, &is_active, MovementDirection::Up),
        None
    );
}

#[test]
fn test_best_adjacent_tie_takes_last() {
    let active = rect(0, 4, 0, 4);
    let a = rect(5, 9, 0, 2);
    let b = rect(5, 9, 2, 4);
    let candidates = vec![active.clone(), a, b];
    let is_active = vec![true, false, false];
    assert_eq!(
        best_adjacent(&active, &candidates, &is_active, MovementDirection::Right),
        Some(2)
    );
}

#[test]
fn test_draw_separators() {
    let lines = vec![Line::Horizontal(HorizontalLine {
        x: ColIndex::new(2),
        y_range: RowIndex::new(0)..RowIndex::new(3),
    })];
    let active = Some(rect(0, 2, 0, 3));
    let mut cells: Vec<(i32, i32, char)> = draw_separators(&lines, &active)
        .into_iter()
        .map(|((x, y), c)| (x, y, c.to_char()))
        .collect();
    cells.sort();
    assert_eq!(
        cells,
        vec![
            (2, -1, '╻'),
            (2, 0, '┃'),
            (2, 1, '┃'),
            (2, 2, '┃'),
            (2, 3, '╹'),
        ]
    );

    let thin: Vec<(i32, i32, char)> = draw_separators(&lines, &None)
        .into_iter()
        .map(|((x, y), c)| (x, y, c.to_char()))
        .filter(|(_, y, _)| *y == 1)
        .collect();
    assert_eq!(thin, vec![(2, 1, '│')]);
}

#[test]
fn test_draw_separators_crossing() {
    let lines = vec![
        Line::Horizontal(HorizontalLine {
            x: ColIndex::new(2),
            y_range: RowIndex::new(0)..RowIndex::new(5),
        }),
        Line::Vertical(VerticalLine {
            x_range: ColIndex::new(0)..ColIndex::new(5),
            y: RowIndex::new(2),
        }),
    ];
    let cells = draw_separators(&lines, &None);
    let crossing: Vec<char> = cells
        .iter()
        .filter(|((x, y), _)| *x == 2 && *y == 2)
        .map(|(_, c)| c.to_char())
        .collect();
    assert_eq!(crossing, vec!['┼']);
    // One cell per position.
    let mut positions: Vec<(i32, i32)> = cells.keys().copied().collect();
    let n = positions.len();
    positions.sort();
    positions.dedup();
    assert_eq!(positions.len(), n);
    // 7 cells of the vertical strokes, 7 of the horizontal ones, one shared.
    assert_eq!(n, 13);
}

#[test]
fn test_line_cell_grapheme_cluster() {
    let mut c = LineCell::empty();
    c.set(LineSegment::Up, LineType::Thin)
        .set(LineSegment::Right, LineType::Thin);
    assert_eq!(c.to_grapheme_cluster().as_str(), "└");
    assert_eq!(LineCell::empty().to_grapheme_cluster().as_str(), " ");
}

#[test]
fn test_split_positions() {
    // Parts of 2, 3 and 3 cells on 0..10: a separator after each part that ends before the end.
    let (ranges, seps) = split_positions(0, 10, &vec![2, 3, 3]).unwrap();
    assert_eq!(ranges, vec![(0, 2), (3, 6), (7, 10)]);
    assert_eq!(seps, vec![2, 6]);
    // A part that reaches past the end is refused.
    assert!(split_positions(0, 4, &vec![2, 3]).is_none());
    let (ranges, seps) = split_positions(5, 5, &vec![0]).unwrap();
    assert_eq!(ranges, vec![(5, 5)]);
    assert!(seps.is_empty());
}

#[test]
fn test_container_hints() {
    let h = RenderingHints::new().active(true);
    assert!(container_hints(h, true).active);
    assert!(!container_hints(h, false).active);
}
