//! Numeric wrapper types that give grid coordinates a dimension and a meaning.
use std::marker::PhantomData;
use std::ops::Range;
use vstd::prelude::*;

verus! {

/// Trait for all dimensions of a terminal grid. See `RowDimension` and `ColDimension`.
pub trait AxisDimension: Copy {
    /// The axis of a cell matrix stored rows first that the dimension runs along: 0 for rows,
    /// 1 for columns.
    spec fn spec_axis() -> nat;

    /// The axis of a cell matrix stored rows first that the dimension runs along.
    fn axis() -> (r: usize)
        ensures
            r == Self::spec_axis(),
            r < 2,
    ;
}

/// The horizontal (x-) dimension of a terminal grid.
#[derive(Copy, Clone, Debug, PartialEq, Eq, PartialOrd, Ord, Hash)]
pub struct ColDimension;

impl AxisDimension for ColDimension {
    open spec fn spec_axis() -> nat {
        1
    }

    fn axis() -> (r: usize) {
        1
    }
}

/// The vertical (y-) dimension of a terminal grid.
#[derive(Copy, Clone, Debug, PartialEq, Eq, PartialOrd, Ord, Hash)]
pub struct RowDimension;

impl AxisDimension for RowDimension {
    open spec fn spec_axis() -> nat {
        0
    }

    fn axis() -> (r: usize) {
        0
    }
}

/// A signed coordinate of a point on the terminal cell grid.
#[derive(Copy, Debug, PartialEq, Eq, PartialOrd, Ord, Hash)]
pub struct AxisIndex<T: AxisDimension> {
    val: i32,
    _dim: PhantomData<T>,
}

impl<T: AxisDimension> Clone for AxisIndex<T> {
    fn clone(&self) -> (r: Self)
        ensures
            r == *self,
    {
        *self
    }
}

impl<T: AxisDimension> View for AxisIndex<T> {
    type V = int;

    closed spec fn view(&self) -> int {
        self.val as int
    }
}

impl<T: AxisDimension> AxisIndex<T> {
    /// Two indices with the same value are the same index.
    pub proof fn lemma_view_injective(a: Self, b: Self)
        requires
            a@ == b@,
        ensures
            a == b,
    {
    }

    /// The index with value `v` (meaningful for a `v` in the range of an `i32`).
    pub closed spec fn spec_new(v: int) -> Self {
        AxisIndex { val: v as i32, _dim: PhantomData }
    }

    /// The value of an index lies in the range of an `i32`.
    pub proof fn lemma_view_bounds(a: Self)
        ensures
            i32::MIN <= a@ <= i32::MAX,
    {
    }

    /// Every index is the `spec_new` of its value.
    pub proof fn lemma_spec_new_of_view(a: Self)
        ensures
            Self::spec_new(a@) == a,
    {
    }

    /// Create a new index from an i32. Any value is valid.
    pub fn new(v: i32) -> (r: Self)
        ensures
            r@ == v as int,
    {
        AxisIndex { val: v, _dim: PhantomData }
    }

    /// The raw i32 value.
    pub fn raw_value(self) -> (r: i32)
        ensures
            r as int == self@,
    {
        self.val
    }

    /// The difference of this index to the origin of the grid (i.e., 0).
    pub fn diff_to_origin(self) -> (r: AxisDiff<T>)
        ensures
            r@ == self@,
    {
        AxisDiff::new(self.val)
    }

    /// Clamp the value into the range of non-negative values.
    pub fn positive_or_zero(self) -> (r: AxisIndex<T>)
        ensures
            r@ == if self@ < 0 { 0 } else { self@ },
    {
        if self.val < 0 {
            AxisIndex::new(0)
        } else {
            AxisIndex::new(self.val)
        }
    }
}

/// A signed difference between two points of the terminal grid.
#[derive(Copy, Debug, PartialEq, Eq, PartialOrd, Ord, Hash)]
pub struct AxisDiff<T: AxisDimension> {
    val: i32,
    _dim: PhantomData<T>,
}

impl<T: AxisDimension> Clone for AxisDiff<T> {
    fn clone(&self) -> (r: Self)
        ensures
            r == *self,
    {
        *self
    }
}

impl<T: AxisDimension> View for AxisDiff<T> {
    type V = int;

    closed spec fn view(&self) -> int {
        self.val as int
    }
}

impl<T: AxisDimension> AxisDiff<T> {
    /// Create a new difference from an i32. Any value is valid.
    pub fn new(v: i32) -> (r: Self)
        ensures
            r@ == v as int,
    {
        AxisDiff { val: v, _dim: PhantomData }
    }

    /// The raw i32 value.
    pub fn raw_value(self) -> (r: i32)
        ensures
            r as int == self@,
    {
        self.val
    }

    /// The index that has this difference to the origin (i.e., 0).
    pub fn from_origin(self) -> (r: AxisIndex<T>)
        ensures
            r@ == self@,
    {
        AxisIndex::new(self.val)
    }

    /// Convert into a non-negative difference; a negative value is handed back as the error.
    pub fn try_into_positive(self) -> (r: Result<PositiveAxisDiff<T>, Self>)
        ensures
            self@ >= 0 ==> (r matches Ok(p) && p@ == self@),
            self@ < 0 ==> (r matches Err(e) && e@ == self@),
    {
        match PositiveAxisDiff::new(self.val) {
            Ok(p) => Ok(p),
            Err(()) => Err(self),
        }
    }

    /// The absolute value of the difference.
    pub fn abs(self) -> (r: PositiveAxisDiff<T>)
        requires
            self@ > i32::MIN,
        ensures
            r@ == if self@ < 0 { -self@ } else { self@ },
    {
        if self.val < 0 {
            PositiveAxisDiff::new_unchecked(-self.val)
        } else {
            PositiveAxisDiff::new_unchecked(self.val)
        }
    }

    /// Clamp the value into the range of non-negative values.
    pub fn positive_or_zero(self) -> (r: PositiveAxisDiff<T>)
        ensures
            r@ == if self@ < 0 { 0 } else { self@ },
    {
        if self.val < 0 {
            PositiveAxisDiff::new_unchecked(0)
        } else {
            PositiveAxisDiff::new_unchecked(self.val)
        }
    }
}

/// A non-negative difference between two points of the terminal grid (a width or a height).
#[derive(Copy, Debug, PartialEq, Eq, PartialOrd, Ord, Hash)]
pub struct PositiveAxisDiff<T: AxisDimension> {
    val: i32,
    _dim: PhantomData<T>,
}

impl<T: AxisDimension> Clone for PositiveAxisDiff<T> {
    fn clone(&self) -> (r: Self)
        ensures
            r == *self,
    {
        *self
    }
}

impl<T: AxisDimension> View for PositiveAxisDiff<T> {
    type V = nat;

    closed spec fn view(&self) -> nat {
        self.val as nat
    }
}

impl<T: AxisDimension> PositiveAxisDiff<T> {
    #[verifier::type_invariant]
    spec fn non_negative(self) -> bool {
        self.val >= 0
    }

    /// The value `v` (meaningful for a `v` in the range of an `i32`).
    pub closed spec fn spec_new(v: nat) -> Self {
        PositiveAxisDiff { val: v as i32, _dim: PhantomData }
    }

    /// Create a new value; `v` must not be negative.
    pub fn new_unchecked(v: i32) -> (r: Self)
        requires
            v >= 0,
        ensures
            r@ == v as int,
            r == Self::spec_new(v as nat),
    {
        PositiveAxisDiff { val: v, _dim: PhantomData }
    }

    /// Create a new value, or fail if `v` is negative.
    pub fn new(v: i32) -> (r: Result<Self, ()>)
        ensures
            v >= 0 ==> (r matches Ok(p) && p@ == v as int),
            v < 0 ==> r is Err,
    {
        if v >= 0 {
            Ok(PositiveAxisDiff { val: v, _dim: PhantomData })
        } else {
            Err(())
        }
    }

    /// The raw i32 value.
    pub fn raw_value(self) -> (r: i32)
        ensures
            r as int == self@,
            r >= 0,
    {
        proof {
            use_type_invariant(self);
        }
        self.val
    }

    /// The index that has this difference to the origin (i.e., 0).
    pub fn from_origin(self) -> (r: AxisIndex<T>)
        ensures
            r@ == self@,
    {
        proof {
            use_type_invariant(self);
        }
        AxisIndex::new(self.val)
    }

    /// Whether `i` lies in the range `[0, self)`.
    pub fn origin_range_contains(self, i: AxisIndex<T>) -> (r: bool)
        ensures
            r == (0 <= i@ && i@ < self@),
    {
        proof {
            use_type_invariant(self);
        }
        0 <= i.val && i.val < self.val
    }

    /// Create a value from a count; the count must fit into an i32.
    pub fn from_usize(v: usize) -> (r: Self)
        requires
            v < i32::MAX,
        ensures
            r@ == v,
    {
        PositiveAxisDiff { val: v as i32, _dim: PhantomData }
    }

    /// The sum of two non-negative differences; the sum must fit into an i32.
    pub fn plus(self, rhs: Self) -> (r: Self)
        requires
            self@ + rhs@ <= i32::MAX,
        ensures
            r@ == self@ + rhs@,
    {
        proof {
            use_type_invariant(self);
            use_type_invariant(rhs);
        }
        PositiveAxisDiff { val: self.val + rhs.val, _dim: PhantomData }
    }

    /// The larger of two values.
    pub fn max(self, other: Self) -> (r: Self)
        ensures
            r@ == if self@ >= other@ { self@ } else { other@ },
    {
        proof {
            use_type_invariant(self);
            use_type_invariant(other);
        }
        if self.val >= other.val {
            self
        } else {
            other
        }
    }

    /// Convert into a signed difference.
    pub fn to_signed(self) -> (r: AxisDiff<T>)
        ensures
            r@ == self@,
    {
        proof {
            use_type_invariant(self);
        }
        AxisDiff::new(self.val)
    }
}

/// An index in x-dimension.
pub type ColIndex = AxisIndex<ColDimension>;

/// A difference in x-dimension.
pub type ColDiff = AxisDiff<ColDimension>;

/// A non-negative difference in x-dimension.
pub type Width = PositiveAxisDiff<ColDimension>;

/// An index in y-dimension.
pub type RowIndex = AxisIndex<RowDimension>;

/// A difference in y-dimension.
pub type RowDiff = AxisDiff<RowDimension>;

/// A non-negative difference in y-dimension.
pub type Height = PositiveAxisDiff<RowDimension>;

/// Line enumeration by index, i.e., starting from 0.
#[derive(Clone, Copy, Debug, PartialEq, Eq, PartialOrd, Ord, Hash)]
pub struct LineIndex(usize);

impl View for LineIndex {
    type V = nat;

    closed spec fn view(&self) -> nat {
        self.0 as nat
    }
}

impl LineIndex {
    /// Create a new line index from a raw value.
    pub fn new(val: usize) -> (r: Self)
        ensures
            r@ == val,
    {
        LineIndex(val)
    }

    /// The underlying value.
    pub fn raw_value(self) -> (r: usize)
        ensures
            r == self@,
    {
        self.0
    }

    /// Compute `self - rhs`, or `None` if that would be negative.
    pub fn checked_sub(&self, rhs: usize) -> (r: Option<LineIndex>)
        ensures
            rhs <= self@ ==> (r matches Some(l) && l@ == self@ - rhs),
            rhs > self@ ==> r is None,
    {
        if rhs <= self.0 {
            Some(LineIndex(self.0 - rhs))
        } else {
            None
        }
    }
}

/// Line enumeration by number, i.e., starting from 1.
#[derive(Clone, Copy, Debug, PartialEq, Eq, PartialOrd, Ord, Hash)]
pub struct LineNumber(usize);

impl View for LineNumber {
    type V = nat;

    closed spec fn view(&self) -> nat {
        self.0 as nat
    }
}

impl LineNumber {
    #[verifier::type_invariant]
    spec fn at_least_one(self) -> bool {
        self.0 >= 1
    }

    /// Create a new line number; line numbers start at 1.
    pub fn new(val: usize) -> (r: Self)
        requires
            val > 0,
        ensures
            r@ == val,
    {
        LineNumber(val)
    }

    /// The underlying value.
    pub fn raw_value(self) -> (r: usize)
        ensures
            r == self@,
    {
        self.0
    }

    /// Compute `self - rhs`, or `None` if the result would be smaller than 1.
    pub fn checked_sub(&self, rhs: usize) -> (r: Option<LineNumber>)
        ensures
            rhs < self@ ==> (r matches Some(l) && l@ == self@ - rhs),
            rhs >= self@ ==> r is None,
    {
        proof {
            use_type_invariant(self);
        }
        let index = self.0 - 1;
        if rhs <= index {
            Some(LineNumber(index - rhs + 1))
        } else {
            None
        }
    }

    /// The line number of the line with the given index.
    pub fn from_index(i: LineIndex) -> (r: LineNumber)
        requires
            i@ < usize::MAX,
        ensures
            r@ == i@ + 1,
    {
        LineNumber(i.raw_value() + 1)
    }

    /// The index of this line.
    pub fn to_index(self) -> (r: LineIndex)
        ensures
            r@ == self@ - 1,
    {
        proof {
            use_type_invariant(self);
        }
        LineIndex::new(self.0 - 1)
    }
}

/// An iterable range of indices, yielding `start, start + 1, ..., end - 1`.
pub struct IndexRange<T: AxisDimension>(pub Range<AxisIndex<T>>);

impl<T: AxisDimension> IndexRange<T> {
    /// Yield the next index of the range, if any.
    pub fn next(&mut self) -> (r: Option<AxisIndex<T>>)
        ensures
            old(self).0.start@ < old(self).0.end@ ==> (r matches Some(i) && i@ == old(self).0.start@
                && final(self).0.start@ == old(self).0.start@ + 1 && final(self).0.end@ == old(self).0.end@),
            old(self).0.start@ >= old(self).0.end@ ==> r is None && *final(self) == *old(self),
    {
        if self.0.start.raw_value() < self.0.end.raw_value() {
            let res = self.0.start;
            self.0.start = AxisIndex::new(res.raw_value() + 1);
            Some(res)
        } else {
            None
        }
    }
}

} // verus!
