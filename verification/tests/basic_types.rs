use unsegen::base::{
    ColDiff, ColIndex, Height, IndexRange, LineIndex, LineNumber, RowIndex, Width,
};

#[test]
fn test_index_diff_to_origin_and_positive_or_zero() {
    assert_eq!(ColIndex::new(27).diff_to_origin(), ColDiff::new(27));
    assert_eq!(ColIndex::new(27).positive_or_zero(), ColIndex::new(27));
    assert_eq!(ColIndex::new(0).positive_or_zero(), ColIndex::new(0));
    assert_eq!(ColIndex::new(-37).positive_or_zero(), ColIndex::new(0));
}

#[test]
fn test_diff_conversions() {
    assert_eq!(ColDiff::new(27).from_origin(), ColIndex::new(27));
    assert_eq!(ColDiff::new(27).try_into_positive(), Ok(Width::new(27).unwrap()));
    assert_eq!(ColDiff::new(0).try_into_positive(), Ok(Width::new(0).unwrap()));
    assert_eq!(ColDiff::new(-37).try_into_positive(), Err(ColDiff::new(-37)));
    assert_eq!(ColDiff::new(27).abs(), Width::new(27).unwrap());
    assert_eq!(ColDiff::new(0).abs(), Width::new(0).unwrap());
    assert_eq!(ColDiff::new(-37).abs(), Width::new(37).unwrap());
    assert_eq!(ColDiff::new(27).positive_or_zero(), Width::new(27).unwrap());
    assert_eq!(ColDiff::new(0).positive_or_zero(), Width::new(0).unwrap());
    assert_eq!(ColDiff::new(-37).positive_or_zero(), Width::new(0).unwrap());
}

#[test]
fn test_positive_diff() {
    assert!(Width::new(27).is_ok());
    assert!(Width::new(0).is_ok());
    assert!(Width::new(-37).is_err());
    assert_eq!(Width::new(27).unwrap().from_origin(), ColIndex::new(27));
    assert!(Width::new(37).unwrap().origin_range_contains(ColIndex::new(27)));
    assert!(Width::new(37).unwrap().origin_range_contains(ColIndex::new(0)));
    assert!(!Width::new(27).unwrap().origin_range_contains(ColIndex::new(27)));
    assert!(!Width::new(27).unwrap().origin_range_contains(ColIndex::new(37)));
    assert!(!Width::new(27).unwrap().origin_range_contains(ColIndex::new(-37)));
    assert_eq!(Width::new(37).unwrap().to_signed(), ColDiff::new(37));
    assert_eq!(
        Width::new(3).unwrap().plus(Width::new(4).unwrap()),
        Width::new(7).unwrap()
    );
    assert_eq!(
        Height::new(3).unwrap().max(Height::new(9).unwrap()),
        Height::new(9).unwrap()
    );
    assert_eq!(Width::from_usize(12), Width::new(12).unwrap());
}

#[test]
fn test_line_index_and_number() {
    assert_eq!(LineIndex::new(37).checked_sub(27), Some(LineIndex::new(10)));
    assert_eq!(LineIndex::new(27).checked_sub(37), None);
    assert_eq!(LineNumber::new(37).checked_sub(27), Some(LineNumber::new(10)));
    assert_eq!(LineNumber::new(27).checked_sub(37), None);
    assert_eq!(LineNumber::new(1).checked_sub(1), None);
    assert_eq!(LineNumber::new(2).checked_sub(1), Some(LineNumber::new(1)));
    assert_eq!(LineNumber::from_index(LineIndex::new(0)), LineNumber::new(1));
    assert_eq!(LineNumber::new(5).to_index(), LineIndex::new(4));
    assert_eq!(
        LineNumber::from_index(LineNumber::new(8).to_index()),
        LineNumber::new(8)
    );
}

#[test]
fn test_index_range() {
    let mut r = IndexRange(RowIndex::new(2)..RowIndex::new(5));
    assert_eq!(r.next(), Some(RowIndex::new(2)));
    assert_eq!(r.next(), Some(RowIndex::new(3)));
    assert_eq!(r.next(), Some(RowIndex::new(4)));
    assert_eq!(r.next(), None);
    let mut empty = IndexRange(ColIndex::new(3)..ColIndex::new(3));
    assert_eq!(empty.next(), None);
}
