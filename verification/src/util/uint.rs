//! Overflow-safe summation over unsigned integers.

use vstd::prelude::*;

verus! {

/// An unsigned integer type with overflow-checked addition.
pub trait CheckedAdd: Sized {
    /// The mathematical value of `self`.
    spec fn value(&self) -> int;

    /// The largest value representable in the type.
    spec fn max_value() -> int;

    /// Every value of the type lies between zero and the maximum.
    proof fn lemma_value_in_range(&self)
        ensures
            0 <= self.value() <= Self::max_value(),
    ;

    /// The additive identity.
    fn zero() -> (r: Self)
        ensures
            r.value() == 0,
    ;

    /// The sum of `self` and `other`, or `None` when it does not fit.
    fn checked_add(&self, other: Self) -> (r: Option<Self>)
        ensures
            match r {
                Some(sum) => sum.value() == self.value() + other.value() && self.value()
                    + other.value() <= Self::max_value(),
                None => self.value() + other.value() > Self::max_value(),
            },
    ;
}

impl CheckedAdd for u8 {
    open spec fn value(&self) -> int {
        *self as int
    }

    open spec fn max_value() -> int {
        u8::MAX as int
    }

    proof fn lemma_value_in_range(&self) {
    }

    fn zero() -> (r: Self) {
        0
    }

    fn checked_add(&self, other: Self) -> (r: Option<Self>) {
        u8::checked_add(*self, other)
    }
}

impl CheckedAdd for u16 {
    open spec fn value(&self) -> int {
        *self as int
    }

    open spec fn max_value() -> int {
        u16::MAX as int
    }

    proof fn lemma_value_in_range(&self) {
    }

    fn zero() -> (r: Self) {
        0
    }

    fn checked_add(&self, other: Self) -> (r: Option<Self>) {
        u16::checked_add(*self, other)
    }
}

impl CheckedAdd for u32 {
    open spec fn value(&self) -> int {
        *self as int
    }

    open spec fn max_value() -> int {
        u32::MAX as int
    }

    proof fn lemma_value_in_range(&self) {
    }

    fn zero() -> (r: Self) {
        0
    }

    fn checked_add(&self, other: Self) -> (r: Option<Self>) {
        u32::checked_add(*self, other)
    }
}

impl CheckedAdd for u64 {
    open spec fn value(&self) -> int {
        *self as int
    }

    open spec fn max_value() -> int {
        u64::MAX as int
    }

    proof fn lemma_value_in_range(&self) {
    }

    fn zero() -> (r: Self) {
        0
    }

    fn checked_add(&self, other: Self) -> (r: Option<Self>) {
        u64::checked_add(*self, other)
    }
}

impl CheckedAdd for u128 {
    open spec fn value(&self) -> int {
        *self as int
    }

    open spec fn max_value() -> int {
        u128::MAX as int
    }

    proof fn lemma_value_in_range(&self) {
    }

    fn zero() -> (r: Self) {
        0
    }

    fn checked_add(&self, other: Self) -> (r: Option<Self>) {
        u128::checked_add(*self, other)
    }
}

impl CheckedAdd for usize {
    open spec fn value(&self) -> int {
        *self as int
    }

    open spec fn max_value() -> int {
        usize::MAX as int
    }

    proof fn lemma_value_in_range(&self) {
    }

    fn zero() -> (r: Self) {
        0
    }

    fn checked_add(&self, other: Self) -> (r: Option<Self>) {
        usize::checked_add(*self, other)
    }
}

/// The sum of the mathematical values of the elements of `s`.
pub open spec fn sum_values<T: CheckedAdd>(s: Seq<T>) -> int
    decreases s.len(),
{
    if s.len() == 0 {
        0
    } else {
        sum_values(s.drop_last()) + s.last().value()
    }
}

/// The sum of a prefix never exceeds the sum of the whole sequence.
proof fn lemma_sum_values_prefix_le<T: CheckedAdd>(s: Seq<T>, i: int)
    requires
        0 <= i <= s.len(),
    ensures
        sum_values(s.subrange(0, i)) <= sum_values(s),
    decreases s.len() - i,
{
    if i == s.len() {
        assert(s.subrange(0, i) =~= s);
    } else {
        let next = s.subrange(0, i + 1);
        assert(next.drop_last() =~= s.subrange(0, i));
        assert(next.last() == s[i]);
        s[i].lemma_value_in_range();
        lemma_sum_values_prefix_le(s, i + 1);
    }
}

/// Sums the elements of `items`, returning `None` exactly when the total
/// does not fit in the element type.
pub fn checked_sum<T: CheckedAdd + Copy>(items: &Vec<T>) -> (r: Option<T>)
    ensures
        match r {
            Some(total) => total.value() == sum_values(items@) && sum_values(items@)
                <= T::max_value(),
            None => sum_values(items@) > T::max_value(),
        },
{
    let mut acc: T = T::zero();
    let mut i: usize = 0;
    while i < items.len()
        invariant
            i <= items@.len(),
            acc.value() == sum_values(items@.subrange(0, i as int)),
        decreases items@.len() - i,
    {
        let item = items[i];
        proof {
            let next = items@.subrange(0, i as int + 1);
            assert(next.drop_last() =~= items@.subrange(0, i as int));
            assert(next.last() == items@[i as int]);
        }
        match acc.checked_add(item) {
            Some(sum) => {
                acc = sum;
            },
            None => {
                proof {
                    lemma_sum_values_prefix_le(items@, i as int + 1);
                }
                return None;
            },
        }
        i += 1;
    }
    proof {
        assert(items@.subrange(0, i as int) =~= items@);
        acc.lemma_value_in_range();
    }
    Some(acc)
}

} // verus!
