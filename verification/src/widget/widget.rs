//! Space demands of widgets and hints on how to render them.
use crate::base::basic_types::{AxisDimension, AxisIndex, ColDimension, PositiveAxisDiff, RowDimension, Width};
use crate::widget::text::{spec_str_width, str_width};
use vstd::prelude::*;

verus! {

/// The display width of the text as a `Width`; the width must fit into an i32.
pub fn text_width(text: &str) -> (r: Width)
    requires
        spec_str_width(text@) <= i32::MAX,
    ensures
        r@ == spec_str_width(text@),
{
    let w = str_width(text);
    PositiveAxisDiff::new_unchecked(w as i32)
}

/// The display width of the text as a `Width`, or `None` where it does not fit into an i32.
pub fn checked_text_width(text: &str) -> (r: Option<Width>)
    ensures
        spec_str_width(text@) <= i32::MAX ==> (r matches Some(w) && w@ == spec_str_width(text@)),
        spec_str_width(text@) > i32::MAX ==> r is None,
{
    let w = str_width(text);
    if w <= 2147483647 {
        Some(text_width(text))
    } else {
        None
    }
}

/// Hints that tell widgets how to render, e.g., whether they receive input.
#[derive(Clone, Copy, Debug, PartialEq, Eq, Structural)]
#[non_exhaustive]
pub struct RenderingHints {
    /// Whether the widget is active, i.e., most of the time: whether it receives input.
    pub active: bool,
    /// Periodic signal that can be used to let a cursor blink.
    pub blink: Blink,
}

impl RenderingHints {
    /// Active, with blink on.
    pub fn new() -> (r: Self)
        ensures
            r.active && r.blink == Blink::On,
    {
        RenderingHints { active: true, blink: Blink::On }
    }

    /// Set whether the widget is active.
    pub fn active(self, val: bool) -> (r: Self)
        ensures
            r == (RenderingHints { active: val, ..self }),
    {
        RenderingHints { active: val, ..self }
    }

    /// Set the blink state.
    pub fn blink(self, val: Blink) -> (r: Self)
        ensures
            r == (RenderingHints { blink: val, ..self }),
    {
        RenderingHints { blink: val, ..self }
    }
}

impl Default for RenderingHints {
    fn default() -> (r: Self)
        ensures
            r.active && r.blink == Blink::On,
    {
        RenderingHints::new()
    }
}

/// A value of a periodic boolean signal, like the state of a blinking cursor.
#[derive(Clone, Copy, Debug, PartialEq, Eq, Structural)]
pub enum Blink {
    On,
    Off,
}

impl Blink {
    /// The alternate value.
    pub fn toggled(self) -> (r: Self)
        ensures
            r == (match self {
                Blink::On => Blink::Off,
                Blink::Off => Blink::On,
            }),
    {
        match self {
            Blink::On => Blink::Off,
            Blink::Off => Blink::On,
        }
    }

    /// Change to the alternate value.
    pub fn toggle(&mut self)
        ensures
            *final(self) == old(self).toggled_spec(),
    {
        *self = self.toggled();
    }

    /// The alternate value.
    pub open spec fn toggled_spec(self) -> Self {
        match self {
            Blink::On => Blink::Off,
            Blink::Off => Blink::On,
        }
    }
}

/// Toggling twice gives back the original value.
pub proof fn law_blink_toggle_involutive(b: Blink)
    ensures
        b.toggled_spec().toggled_spec() == b,
{
}

/// A one dimensional demand for space: a minimum and, possibly, a maximum that is not smaller than
/// the minimum.
#[derive(Clone, Copy, Debug, PartialEq, Eq, PartialOrd)]
pub struct Demand<T: AxisDimension> {
    pub min: PositiveAxisDiff<T>,
    pub max: Option<PositiveAxisDiff<T>>,
}

/// The sum of two optional maxima: unbounded if either is unbounded.
pub open spec fn add_max(a: Option<nat>, b: Option<nat>) -> Option<nat> {
    match (a, b) {
        (Some(l), Some(r)) => Some(l + r),
        _ => None,
    }
}

/// Whether the sum of two optional maxima fits into an i32.
pub open spec fn max_sum_fits(a: Option<nat>, b: Option<nat>) -> bool {
    match (a, b) {
        (Some(l), Some(r)) => l + r <= i32::MAX,
        _ => true,
    }
}

/// The larger of two optional maxima: unbounded if either is unbounded.
pub open spec fn max_max(a: Option<nat>, b: Option<nat>) -> Option<nat> {
    match (a, b) {
        (Some(l), Some(r)) => Some(if l >= r { l } else { r }),
        _ => None,
    }
}

impl<T: AxisDimension> View for Demand<T> {
    type V = (nat, Option<nat>);

    open spec fn view(&self) -> (nat, Option<nat>) {
        (
            self.min@,
            match self.max {
                Some(m) => Some(m@),
                None => None,
            },
        )
    }
}

impl<T: AxisDimension> Demand<T> {
    /// A minimum and maximum demand of exactly 0.
    pub fn zero() -> (r: Self)
        ensures
            r@ == (0nat, Some(0nat)),
    {
        Self::exact(PositiveAxisDiff::new_unchecked(0))
    }

    /// A minimum and maximum demand of exactly `size`.
    pub fn exact(size: PositiveAxisDiff<T>) -> (r: Self)
        ensures
            r@ == (size@, Some(size@)),
    {
        Demand { min: size, max: Some(size) }
    }

    /// A minimum demand of `size`, and no maximum.
    pub fn at_least(size: PositiveAxisDiff<T>) -> (r: Self)
        ensures
            r@ == (size@, None::<nat>),
    {
        Demand { min: size, max: None }
    }

    /// A demand between `min` and `max`; `min` must not exceed `max`.
    pub fn from_to(min: PositiveAxisDiff<T>, max: PositiveAxisDiff<T>) -> (r: Self)
        requires
            min@ <= max@,
        ensures
            r@ == (min@, Some(max@)),
    {
        Demand { min: min, max: Some(max) }
    }

    /// The componentwise maximum of two demands (unbounded if either is unbounded).
    pub fn max(&self, other: Self) -> (r: Self)
        ensures
            r@ == (
                if self@.0 >= other@.0 { self@.0 } else { other@.0 },
                max_max(self@.1, other@.1),
            ),
    {
        Demand {
            min: self.min.max(other.min),
            max: match (self.max, other.max) {
                (Some(l), Some(r)) => Some(l.max(r)),
                _ => None,
            },
        }
    }

    /// Replace `self` with the maximum of `self` and `other`.
    pub fn max_assign(&mut self, other: Self)
        ensures
            final(self)@ == (
                if old(self)@.0 >= other@.0 { old(self)@.0 } else { other@.0 },
                max_max(old(self)@.1, other@.1),
            ),
    {
        *self = self.max(other);
    }

    /// The sum of two demands (unbounded if either is unbounded); the sums must fit into an i32.
    pub fn plus(self, rhs: Self) -> (r: Self)
        requires
            self@.0 + rhs@.0 <= i32::MAX,
            max_sum_fits(self@.1, rhs@.1),
        ensures
            r@ == (self@.0 + rhs@.0, add_max(self@.1, rhs@.1)),
    {
        Demand {
            min: self.min.plus(rhs.min),
            max: match (self.max, rhs.max) {
                (Some(l), Some(r)) => Some(l.plus(r)),
                _ => None,
            },
        }
    }
}

/// Horizontal demand.
pub type ColDemand = Demand<ColDimension>;

/// Vertical demand.
pub type RowDemand = Demand<RowDimension>;

/// A two dimensional (rectangular) demand.
#[derive(Clone, Copy, Debug, PartialEq, Eq)]
pub struct Demand2D {
    pub width: ColDemand,
    pub height: RowDemand,
}

impl Demand2D {
    /// Combine two demands of widgets on top of each other: heights add up, the width
    /// accommodates both.
    pub fn add_vertical(self, other: Self) -> (r: Self)
        requires
            self.height@.0 + other.height@.0 <= i32::MAX,
            max_sum_fits(self.height@.1, other.height@.1),
        ensures
            r.width@ == (
                if self.width@.0 >= other.width@.0 { self.width@.0 } else { other.width@.0 },
                max_max(self.width@.1, other.width@.1),
            ),
            r.height@ == (self.height@.0 + other.height@.0, add_max(self.height@.1, other.height@.1)),
    {
        Demand2D { width: self.width.max(other.width), height: self.height.plus(other.height) }
    }

    /// Combine two demands of widgets side by side: widths add up, the height accommodates
    /// both.
    pub fn add_horizontal(self, other: Self) -> (r: Self)
        requires
            self.width@.0 + other.width@.0 <= i32::MAX,
            max_sum_fits(self.width@.1, other.width@.1),
        ensures
            r.width@ == (self.width@.0 + other.width@.0, add_max(self.width@.1, other.width@.1)),
            r.height@ == (
                if self.height@.0 >= other.height@.0 { self.height@.0 } else { other.height@.0 },
                max_max(self.height@.1, other.height@.1),
            ),
    {
        Demand2D { width: self.width.plus(other.width), height: self.height.max(other.height) }
    }
}

/// The sum of the demands `ds` (as views): the minima add up, and the maxima too, unless one is
/// unbounded.
pub open spec fn spec_demand_sum(ds: Seq<(nat, Option<nat>)>) -> (nat, Option<nat>)
    decreases ds.len(),
{
    if ds.len() == 0 {
        (0, Some(0))
    } else {
        let r = spec_demand_sum(ds.drop_last());
        (r.0 + ds.last().0, add_max(r.1, ds.last().1))
    }
}

/// Whether each partial sum of `spec_demand_sum` fits into an i32.
pub open spec fn spec_demand_sum_fits(ds: Seq<(nat, Option<nat>)>) -> bool
    decreases ds.len(),
{
    if ds.len() == 0 {
        true
    } else {
        let r = spec_demand_sum(ds.drop_last());
        &&& spec_demand_sum_fits(ds.drop_last())
        &&& r.0 + ds.last().0 <= i32::MAX
        &&& max_sum_fits(r.1, ds.last().1)
    }
}

/// The componentwise maximum of the demands `ds` (as views), starting from a demand of exactly 0.
pub open spec fn spec_demand_max(ds: Seq<(nat, Option<nat>)>) -> (nat, Option<nat>)
    decreases ds.len(),
{
    if ds.len() == 0 {
        (0, Some(0))
    } else {
        let r = spec_demand_max(ds.drop_last());
        (if r.0 >= ds.last().0 { r.0 } else { ds.last().0 }, max_max(r.1, ds.last().1))
    }
}

/// The demands along the axis of an arrangement of `n` elements, one cell between each two: the
/// elements' demands `ds` plus a demand of exactly `n - 1` cells (0 for no element).
pub open spec fn spec_separated(ds: Seq<(nat, Option<nat>)>) -> Seq<(nat, Option<nat>)> {
    let sep: nat = if ds.len() == 0 {
        0
    } else {
        (ds.len() - 1) as nat
    };
    ds.push((sep, Some(sep)))
}

fn sum_demands<T: AxisDimension>(ds: &Vec<Demand<T>>) -> (r: Option<Demand<T>>)
    ensures
        spec_demand_sum_fits(ds@.map_values(|d: Demand<T>| d@)) <==> r is Some,
        r matches Some(d) ==> d@ == spec_demand_sum(ds@.map_values(|d: Demand<T>| d@)),
{
    let ghost v = ds@.map_values(|d: Demand<T>| d@);
    let mut total = Demand::zero();
    let mut i: usize = 0;
    proof {
        assert(v.take(0) =~= Seq::<(nat, Option<nat>)>::empty());
    }
    while i < ds.len()
        invariant
            i <= ds@.len(),
            v == ds@.map_values(|d: Demand<T>| d@),
            spec_demand_sum_fits(v.take(i as int)),
            total@ == spec_demand_sum(v.take(i as int)),
        decreases ds@.len() - i,
    {
        proof {
            assert(v.take(i + 1).drop_last() =~= v.take(i as int));
            assert(v.take(i + 1).last() == ds@[i as int]@);
        }
        let d = ds[i];
        let min_fits = total.min.raw_value() as i64 + d.min.raw_value() as i64 <= 2147483647;
        let max_fits = match (total.max, d.max) {
            (Some(a), Some(b)) => a.raw_value() as i64 + b.raw_value() as i64 <= 2147483647,
            _ => true,
        };
        if !(min_fits && max_fits) {
            proof {
                lemma_demand_sum_fits_prefix(v, i + 1);
            }
            return None;
        }
        total = total.plus(d);
        i = i + 1;
    }
    proof {
        assert(v.take(ds@.len() as int) =~= v);
    }
    Some(total)
}

/// Where the partial sums of all demands fit, those of a prefix fit too.
proof fn lemma_demand_sum_fits_prefix(v: Seq<(nat, Option<nat>)>, k: int)
    requires
        0 <= k <= v.len(),
    ensures
        spec_demand_sum_fits(v) ==> spec_demand_sum_fits(v.take(k)),
    decreases v.len() - k,
{
    if k < v.len() {
        lemma_demand_sum_fits_prefix(v, k + 1);
        assert(v.take(k + 1).drop_last() =~= v.take(k));
    } else {
        assert(v.take(k) =~= v);
    }
}

fn max_demands<T: AxisDimension>(ds: &Vec<Demand<T>>) -> (r: Demand<T>)
    ensures
        r@ == spec_demand_max(ds@.map_values(|d: Demand<T>| d@)),
{
    let ghost v = ds@.map_values(|d: Demand<T>| d@);
    let mut total = Demand::zero();
    let mut i: usize = 0;
    proof {
        assert(v.take(0) =~= Seq::<(nat, Option<nat>)>::empty());
    }
    while i < ds.len()
        invariant
            i <= ds@.len(),
            v == ds@.map_values(|d: Demand<T>| d@),
            total@ == spec_demand_max(v.take(i as int)),
        decreases ds@.len() - i,
    {
        proof {
            assert(v.take(i + 1).drop_last() =~= v.take(i as int));
            assert(v.take(i + 1).last() == ds@[i as int]@);
        }
        total = total.max(ds[i]);
        i = i + 1;
    }
    proof {
        assert(v.take(ds@.len() as int) =~= v);
    }
    total
}

/// The widths of a sequence of two-dimensional demands.
pub open spec fn spec_widths(ds: Seq<Demand2D>) -> Seq<(nat, Option<nat>)> {
    ds.map_values(|d: Demand2D| d.width@)
}

/// The heights of a sequence of two-dimensional demands.
pub open spec fn spec_heights(ds: Seq<Demand2D>) -> Seq<(nat, Option<nat>)> {
    ds.map_values(|d: Demand2D| d.height@)
}

/// The space demand of elements side by side, one column between each two: the widths add up
/// (with one column per gap), and the height is that of the highest. `None` where a sum of
/// widths leaves the i32 range.
pub fn demand_side_by_side(demands: &Vec<Demand2D>) -> (r: Option<Demand2D>)
    ensures
        spec_demand_sum_fits(spec_separated(spec_widths(demands@))) <==> r is Some,
        r matches Some(d) ==> {
            &&& d.width@ == spec_demand_sum(spec_separated(spec_widths(demands@)))
            &&& d.height@ == spec_demand_max(spec_heights(demands@))
        },
{
    let mut widths: Vec<ColDemand> = Vec::new();
    let mut heights: Vec<RowDemand> = Vec::new();
    let mut i: usize = 0;
    while i < demands.len()
        invariant
            i <= demands@.len(),
            widths@.len() == i,
            heights@.len() == i,
            forall|k: int| 0 <= k < i ==> #[trigger] widths@[k] == demands@[k].width,
            forall|k: int| 0 <= k < i ==> #[trigger] heights@[k] == demands@[k].height,
        decreases demands@.len() - i,
    {
        widths.push(demands[i].width);
        heights.push(demands[i].height);
        i = i + 1;
    }
    proof {
        assert(widths@.map_values(|d: ColDemand| d@) =~= spec_widths(demands@));
        assert(heights@.map_values(|d: RowDemand| d@) =~= spec_heights(demands@));
    }
    let n = demands.len();
    let sep: usize = if n == 0 {
        0
    } else {
        n - 1
    };
    if sep > 2147483647 {
        proof {
            lemma_demand_sum_fits_last(spec_widths(demands@), sep as nat);
        }
        return None;
    }
    widths.push(Demand::exact(PositiveAxisDiff::new_unchecked(sep as i32)));
    proof {
        assert(widths@.map_values(|d: ColDemand| d@) =~= spec_separated(spec_widths(demands@)));
        assert(heights@.map_values(|d: RowDemand| d@) =~= spec_heights(demands@));
    }
    match sum_demands(&widths) {
        Some(w) => Some(Demand2D { width: w, height: max_demands(&heights) }),
        None => None,
    }
}

/// The space demand of elements on top of each other, one row between each two: the heights add
/// up (with one row per gap), and the width is that of the widest. `None` where a sum of heights
/// leaves the i32 range.
pub fn demand_stacked(demands: &Vec<Demand2D>) -> (r: Option<Demand2D>)
    ensures
        spec_demand_sum_fits(spec_separated(spec_heights(demands@))) <==> r is Some,
        r matches Some(d) ==> {
            &&& d.height@ == spec_demand_sum(spec_separated(spec_heights(demands@)))
            &&& d.width@ == spec_demand_max(spec_widths(demands@))
        },
{
    let mut widths: Vec<ColDemand> = Vec::new();
    let mut heights: Vec<RowDemand> = Vec::new();
    let mut i: usize = 0;
    while i < demands.len()
        invariant
            i <= demands@.len(),
            widths@.len() == i,
            heights@.len() == i,
            forall|k: int| 0 <= k < i ==> #[trigger] widths@[k] == demands@[k].width,
            forall|k: int| 0 <= k < i ==> #[trigger] heights@[k] == demands@[k].height,
        decreases demands@.len() - i,
    {
        widths.push(demands[i].width);
        heights.push(demands[i].height);
        i = i + 1;
    }
    proof {
        assert(widths@.map_values(|d: ColDemand| d@) =~= spec_widths(demands@));
        assert(heights@.map_values(|d: RowDemand| d@) =~= spec_heights(demands@));
    }
    let n = demands.len();
    let sep: usize = if n == 0 {
        0
    } else {
        n - 1
    };
    if sep > 2147483647 {
        proof {
            lemma_demand_sum_fits_last(spec_heights(demands@), sep as nat);
        }
        return None;
    }
    heights.push(Demand::exact(PositiveAxisDiff::new_unchecked(sep as i32)));
    proof {
        assert(heights@.map_values(|d: RowDemand| d@) =~= spec_separated(spec_heights(demands@)));
        assert(widths@.map_values(|d: ColDemand| d@) =~= spec_widths(demands@));
    }
    match sum_demands(&heights) {
        Some(h) => Some(Demand2D { width: max_demands(&widths), height: h }),
        None => None,
    }
}

/// Where every demand has a bounded maximum, so has their sum.
proof fn lemma_demand_sum_bounded(ds: Seq<(nat, Option<nat>)>)
    requires
        forall|i: int| 0 <= i < ds.len() ==> (#[trigger] ds[i]).1 is Some,
    ensures
        spec_demand_sum(ds).1 is Some,
    decreases ds.len(),
{
    if ds.len() > 0 {
        let init = ds.drop_last();
        assert forall|i: int| 0 <= i < init.len() implies (#[trigger] init[i]).1 is Some by {
            assert(init[i] == ds[i]);
        }
        lemma_demand_sum_bounded(init);
        assert(ds.last() == ds[ds.len() - 1]);
    }
}

/// Across the axis of a split, the demand is that of the most demanding part: its minimum is
/// the largest minimum (0 for no part), its maximum the largest maximum, unbounded exactly where
/// some part's maximum is.
pub proof fn law_demand_max_is_largest(ds: Seq<(nat, Option<nat>)>)
    ensures
        ({
            let m = spec_demand_max(ds);
            &&& forall|i: int| 0 <= i < ds.len() ==> (#[trigger] ds[i]).0 <= m.0
            &&& m.0 == 0 || exists|i: int| 0 <= i < ds.len() && (#[trigger] ds[i]).0 == m.0
            &&& m.1 is None <==> exists|i: int| 0 <= i < ds.len() && (#[trigger] ds[i]).1 is None
            &&& m.1 matches Some(mx) ==> forall|i: int| 0 <= i < ds.len() ==> ((#[trigger] ds[i]).1 matches Some(v) && v <= mx)
        }),
    decreases ds.len(),
{
    if ds.len() > 0 {
        let init = ds.drop_last();
        law_demand_max_is_largest(init);
        assert forall|i: int| 0 <= i < init.len() implies #[trigger] init[i] == ds[i] by {}
        assert(ds.last() == ds[ds.len() - 1]);
        let m = spec_demand_max(ds);
        let mi = spec_demand_max(init);
        if m.0 != 0 {
            if mi.0 >= ds.last().0 {
                if mi.0 != 0 {
                    let i = choose|i: int| 0 <= i < init.len() && (#[trigger] init[i]).0 == mi.0;
                    assert(ds[i].0 == m.0);
                }
            } else {
                assert(ds[ds.len() - 1].0 == m.0);
            }
        }
        if m.1 is None {
            if ds.last().1 is None {
                assert(ds[ds.len() - 1].1 is None);
            } else {
                let i = choose|i: int| 0 <= i < init.len() && (#[trigger] init[i]).1 is None;
                assert(ds[i].1 is None);
            }
        }
        if exists|i: int| 0 <= i < ds.len() && (#[trigger] ds[i]).1 is None {
            let i = choose|i: int| 0 <= i < ds.len() && (#[trigger] ds[i]).1 is None;
            if i < ds.len() - 1 {
                assert(init[i].1 is None);
            }
        }
        assert forall|i: int| 0 <= i < ds.len() implies (#[trigger] ds[i]).0 <= m.0 by {
            if i < ds.len() - 1 {
                assert(init[i].0 <= mi.0);
            }
        }
        if m.1 is Some {
            let mx = m.1->0;
            assert forall|i: int| 0 <= i < ds.len() implies ((#[trigger] ds[i]).1 matches Some(v) && v <= mx) by {
                if i < ds.len() - 1 {
                    assert(init[i] == ds[i]);
                    assert(init[i].1 matches Some(v) && v <= mi.1->0);
                }
            }
        }
    }
}

/// The separators between `n` parts add exactly `n - 1` cells along the axis of a split, to the
/// minimum and to the maximum: the minimum is the sum of the parts' minima plus `n - 1`; the
/// maximum is the sum of the parts' maxima plus `n - 1`, which is bounded wherever every part's
/// maximum is, and unbounded only where some part's maximum is.
pub proof fn law_separators_add_cells(ds: Seq<(nat, Option<nat>)>)
    ensures
        ({
            let sep: nat = if ds.len() == 0 {
                0
            } else {
                (ds.len() - 1) as nat
            };
            let whole = spec_demand_sum(spec_separated(ds));
            let parts = spec_demand_sum(ds);
            &&& whole.0 == parts.0 + sep
            &&& whole.1 == match parts.1 {
                Some(m) => Some(m + sep),
                None => None::<nat>,
            }
            &&& (forall|i: int| 0 <= i < ds.len() ==> (#[trigger] ds[i]).1 is Some) ==> whole.1 is Some
        }),
{
    let sep: nat = if ds.len() == 0 {
        0
    } else {
        (ds.len() - 1) as nat
    };
    assert(spec_separated(ds).drop_last() =~= ds);
    assert(spec_separated(ds).last() == (sep, Some(sep)));
    if forall|i: int| 0 <= i < ds.len() ==> (#[trigger] ds[i]).1 is Some {
        lemma_demand_sum_bounded(ds);
    }
}

/// The demands `ds` followed by a demand of exactly `sep` cells.
pub open spec fn spec_with_separators(ds: Seq<(nat, Option<nat>)>, sep: nat) -> Seq<(nat, Option<nat>)> {
    ds.push((sep, Some(sep)))
}

/// The space demand of widgets in a row (`horizontal`) or a column, with `separators` cells of
/// separators in all along that axis: along the axis the demands add up (plus the separators),
/// across it the largest demand counts. `None` where a sum along the axis leaves the i32 range.
pub fn demand_linear(demands: &Vec<Demand2D>, horizontal: bool, separators: usize) -> (r: Option<Demand2D>)
    ensures
        ({
            let along = if horizontal { spec_widths(demands@) } else { spec_heights(demands@) };
            let across = if horizontal { spec_heights(demands@) } else { spec_widths(demands@) };
            &&& spec_demand_sum_fits(spec_with_separators(along, separators as nat)) <==> r is Some
            &&& r matches Some(d) ==> {
                &&& (if horizontal { d.width@ } else { d.height@ }) == spec_demand_sum(
                    spec_with_separators(along, separators as nat),
                )
                &&& (if horizontal { d.height@ } else { d.width@ }) == spec_demand_max(across)
            }
        }),
{
    let mut widths: Vec<ColDemand> = Vec::new();
    let mut heights: Vec<RowDemand> = Vec::new();
    let mut i: usize = 0;
    while i < demands.len()
        invariant
            i <= demands@.len(),
            widths@.len() == i,
            heights@.len() == i,
            forall|k: int| 0 <= k < i ==> #[trigger] widths@[k] == demands@[k].width,
            forall|k: int| 0 <= k < i ==> #[trigger] heights@[k] == demands@[k].height,
        decreases demands@.len() - i,
    {
        widths.push(demands[i].width);
        heights.push(demands[i].height);
        i = i + 1;
    }
    proof {
        assert(widths@.map_values(|d: ColDemand| d@) =~= spec_widths(demands@));
        assert(heights@.map_values(|d: RowDemand| d@) =~= spec_heights(demands@));
    }
    if separators > 2147483647 {
        proof {
            let along = if horizontal { spec_widths(demands@) } else { spec_heights(demands@) };
            let s = spec_with_separators(along, separators as nat);
            assert(s.drop_last() =~= along);
        }
        return None;
    }
    if horizontal {
        widths.push(Demand::exact(PositiveAxisDiff::new_unchecked(separators as i32)));
        proof {
            assert(widths@.map_values(|d: ColDemand| d@) =~= spec_with_separators(
                spec_widths(demands@),
                separators as nat,
            ));
        }
        match sum_demands(&widths) {
            Some(w) => Some(Demand2D { width: w, height: max_demands(&heights) }),
            None => None,
        }
    } else {
        heights.push(Demand::exact(PositiveAxisDiff::new_unchecked(separators as i32)));
        proof {
            assert(heights@.map_values(|d: RowDemand| d@) =~= spec_with_separators(
                spec_heights(demands@),
                separators as nat,
            ));
        }
        match sum_demands(&heights) {
            Some(h) => Some(Demand2D { width: max_demands(&widths), height: h }),
            None => None,
        }
    }
}

/// A sum that ends with a demand of at least `i32::MAX` does not fit.
proof fn lemma_demand_sum_fits_last(ds: Seq<(nat, Option<nat>)>, sep: nat)
    requires
        sep > i32::MAX,
        sep == if ds.len() == 0 { 0 } else { (ds.len() - 1) as nat },
    ensures
        !spec_demand_sum_fits(spec_separated(ds)),
{
    let s = spec_separated(ds);
    assert(s.drop_last() =~= ds);
    assert(s.last() == (sep, Some(sep)));
}

/// Where content of at most `max` cells (all of the axis where unbounded) goes when centered on
/// an axis of `extent` cells: it starts half of the free space in (at 0 where there is none)
/// and ends `max` cells later, but at the end of the axis at the latest.
pub fn centered_range<T: AxisDimension>(extent: PositiveAxisDiff<T>, max: Option<PositiveAxisDiff<T>>) -> (r: (
    AxisIndex<T>,
    AxisIndex<T>,
))
    ensures
        ({
            let m = match max {
                Some(m) => m@,
                None => extent@,
            };
            let start = if extent@ - m < 0 {
                0
            } else {
                (extent@ - m) / 2
            };
            &&& r.0@ == start
            &&& r.1@ == if start + m < extent@ {
                start + m
            } else {
                extent@ as int
            }
        }),
{
    let e: i64 = extent.raw_value() as i64;
    let m: i64 = match max {
        Some(m) => m.raw_value() as i64,
        None => e,
    };
    let start: i64 = if e - m < 0 {
        0
    } else {
        (e - m) / 2
    };
    let end: i64 = if start + m < e {
        start + m
    } else {
        e
    };
    (AxisIndex::new(start as i32), AxisIndex::new(end as i32))
}

} // verus!
