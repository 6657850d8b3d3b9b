use unsegen::base::{ColDimension, Height, Width};
use unsegen::widget::{
    centered_range, demand_linear,
    checked_text_width, count_grapheme_clusters, text_width, Blink, ColDemand, Demand, Demand2D,
    LineLabel, RenderingHints, RowDemand,
};

fn w(v: i32) -> Width {
    Width::new(v).unwrap()
}
fn h(v: i32) -> Height {
    Height::new(v).unwrap()
}

#[test]
fn test_demand_max() {
    let d1 = Demand::<ColDimension>::exact(w(5));
    let d2 = Demand::<ColDimension>::at_least(w(0));
    assert_eq!(d1.max(d2), Demand::<ColDimension>::at_least(w(5)));

    let d3 = ColDemand::from_to(w(2), w(7));
    assert_eq!(d1.max(d3), ColDemand::from_to(w(5), w(7)));

    let mut d4 = ColDemand::exact(w(1));
    d4.max_assign(ColDemand::exact(w(3)));
    assert_eq!(d4, ColDemand::exact(w(3)));
}

#[test]
fn test_demand_plus_and_zero() {
    assert_eq!(
        ColDemand::exact(w(2)).plus(ColDemand::from_to(w(1), w(4))),
        ColDemand::from_to(w(3), w(6))
    );
    assert_eq!(
        ColDemand::exact(w(2)).plus(ColDemand::at_least(w(1))),
        ColDemand::at_least(w(3))
    );
    assert_eq!(ColDemand::zero(), ColDemand::exact(w(0)));
}

#[test]
fn test_demand2d_add_vertical() {
    let d1 = Demand2D {
        width: ColDemand::exact(w(5)),
        height: RowDemand::exact(h(5)),
    };
    let d2 = Demand2D {
        width: ColDemand::at_least(w(2)),
        height: RowDemand::from_to(h(3), h(5)),
    };
    assert_eq!(
        d1.add_vertical(d2),
        Demand2D {
            width: ColDemand::at_least(w(5)),
            height: RowDemand::from_to(h(8), h(10)),
        }
    );
}

#[test]
fn test_demand2d_add_horizontal() {
    let d1 = Demand2D {
        width: ColDemand::exact(w(5)),
        height: RowDemand::exact(h(5)),
    };
    let d2 = Demand2D {
        width: ColDemand::at_least(w(2)),
        height: RowDemand::from_to(h(3), h(5)),
    };
    assert_eq!(
        d1.add_horizontal(d2),
        Demand2D {
            width: ColDemand::at_least(w(7)),
            height: RowDemand::exact(h(5)),
        }
    );
}

#[test]
fn test_text_width() {
    assert_eq!(text_width("abc"), w(3));
    assert_eq!(text_width(""), w(0));
    assert_eq!(text_width("沐"), w(2));
    assert_eq!(text_width("a沐c"), w(4));
    assert_eq!(checked_text_width("ab"), Some(w(2)));
}

#[test]
fn test_count_grapheme_clusters() {
    assert_eq!(count_grapheme_clusters("abc"), 3);
    assert_eq!(count_grapheme_clusters(""), 0);
    assert_eq!(count_grapheme_clusters("e\u{301}x"), 2);
    assert_eq!(count_grapheme_clusters("\r\n"), 1);
}

#[test]
fn test_blink_and_hints() {
    assert_eq!(Blink::On.toggled(), Blink::Off);
    assert_eq!(Blink::Off.toggled(), Blink::On);
    let mut b = Blink::On;
    b.toggle();
    b.toggle();
    assert_eq!(b, Blink::On);

    let hints = RenderingHints::new();
    assert!(hints.active);
    assert_eq!(hints.blink, Blink::On);
    let hints = hints.active(false).blink(Blink::Off);
    assert!(!hints.active);
    assert_eq!(hints.blink, Blink::Off);
}

#[test]
fn test_line_label() {
    let mut label = LineLabel::new("foo 沐".to_string());
    assert_eq!(label.get(), "foo 沐");
    let d = label.space_demand();
    assert_eq!(d.width, ColDemand::exact(w(5)));
    assert_eq!(d.height, RowDemand::exact(h(1)));
    label.set("x".to_string());
    assert_eq!(label.get(), "x");
    assert_eq!(label.checked_space_demand().unwrap().width, ColDemand::exact(w(1)));
}

#[test]
fn test_centered_range() {
    let (s, e) = centered_range::<ColDimension>(w(10), Some(w(4)));
    assert_eq!((s.raw_value(), e.raw_value()), (3, 7));
    let (s, e) = centered_range::<ColDimension>(w(10), Some(w(3)));
    assert_eq!((s.raw_value(), e.raw_value()), (3, 6));
    let (s, e) = centered_range::<ColDimension>(w(4), Some(w(10)));
    assert_eq!((s.raw_value(), e.raw_value()), (0, 4));
    let (s, e) = centered_range::<ColDimension>(w(5), None);
    assert_eq!((s.raw_value(), e.raw_value()), (0, 5));
}

#[test]
fn test_demand_linear() {
    let a = Demand2D {
        width: Demand::exact(w(2)),
        height: Demand::from_to(h(1), h(3)),
    };
    let b = Demand2D {
        width: Demand::at_least(w(1)),
        height: Demand::exact(h(2)),
    };
    let d = demand_linear(&vec![a, b], true, 2).unwrap();
    assert_eq!(d.width.min.raw_value(), 5);
    assert_eq!(d.width.max, None);
    assert_eq!(d.height.min.raw_value(), 2);
    assert_eq!(d.height.max.map(|m| m.raw_value()), Some(3));
    let d = demand_linear(&vec![a, b], false, 0).unwrap();
    assert_eq!(d.height.min.raw_value(), 3);
    assert_eq!(d.height.max.map(|m| m.raw_value()), Some(5));
    assert_eq!(d.width.min.raw_value(), 2);
}
