//! The arithmetic capability the generic math helpers are written against:
//! ring operations with their own specification functions, a total order,
//! and a count-to-scalar conversion for averaging.

use vstd::prelude::*;
use vstd::wrapping::u64_specs;

verus! {

/// A scalar with total exec arithmetic pinned to per-type spec functions.
pub trait Numeric: Sized + Copy {
    spec fn add_spec(self, other: Self) -> Self;

    spec fn sub_spec(self, other: Self) -> Self;

    spec fn mul_spec(self, other: Self) -> Self;

    /// Total division: each impl fixes its value on a zero divisor.
    spec fn div_spec(self, other: Self) -> Self;

    spec fn zero_spec() -> Self;

    spec fn one_spec() -> Self;

    /// A total order used for comparisons and sorting.
    spec fn le_spec(self, other: Self) -> bool;

    /// The scalar standing for a collection size.
    spec fn from_count_spec(n: usize) -> Self;

    proof fn lemma_le_total(a: Self, b: Self)
        ensures
            a.le_spec(b) || b.le_spec(a),
    ;

    proof fn lemma_le_trans(a: Self, b: Self, c: Self)
        requires
            a.le_spec(b),
            b.le_spec(c),
        ensures
            a.le_spec(c),
    ;

    fn add(self, other: Self) -> (r: Self)
        ensures
            r == self.add_spec(other),
    ;

    fn sub(self, other: Self) -> (r: Self)
        ensures
            r == self.sub_spec(other),
    ;

    fn mul(self, other: Self) -> (r: Self)
        ensures
            r == self.mul_spec(other),
    ;

    fn div(self, other: Self) -> (r: Self)
        ensures
            r == self.div_spec(other),
    ;

    fn zero() -> (r: Self)
        ensures
            r == Self::zero_spec(),
    ;

    fn one() -> (r: Self)
        ensures
            r == Self::one_spec(),
    ;

    fn le(&self, other: &Self) -> (r: bool)
        ensures
            r == self.le_spec(*other),
    ;

    fn eq_val(&self, other: &Self) -> (r: bool)
        ensures
            r == (*self == *other),
    ;

    fn from_count(n: usize) -> (r: Self)
        ensures
            r == Self::from_count_spec(n),
    ;
}

/// Machine words as the ring of integers modulo the word size; division is
/// the unsigned quotient, with zero on a zero divisor.
impl Numeric for u64 {
    open spec fn add_spec(self, other: u64) -> u64 {
        u64_specs::wrapping_add(self, other)
    }

    open spec fn sub_spec(self, other: u64) -> u64 {
        u64_specs::wrapping_sub(self, other)
    }

    open spec fn mul_spec(self, other: u64) -> u64 {
        u64_specs::wrapping_mul(self, other)
    }

    open spec fn div_spec(self, other: u64) -> u64 {
        if other == 0 {
            0
        } else {
            (self as int / other as int) as u64
        }
    }

    open spec fn zero_spec() -> u64 {
        0
    }

    open spec fn one_spec() -> u64 {
        1
    }

    open spec fn le_spec(self, other: u64) -> bool {
        self <= other
    }

    open spec fn from_count_spec(n: usize) -> u64 {
        n as u64
    }

    proof fn lemma_le_total(a: u64, b: u64) {
    }

    proof fn lemma_le_trans(a: u64, b: u64, c: u64) {
    }

    fn add(self, other: u64) -> u64 {
        self.wrapping_add(other)
    }

    fn sub(self, other: u64) -> u64 {
        self.wrapping_sub(other)
    }

    fn mul(self, other: u64) -> u64 {
        self.wrapping_mul(other)
    }

    fn div(self, other: u64) -> (r: u64) {
        if other == 0 {
            0
        } else {
            self / other
        }
    }

    fn zero() -> u64 {
        0
    }

    fn one() -> u64 {
        1
    }

    fn le(&self, other: &u64) -> bool {
        *self <= *other
    }

    fn eq_val(&self, other: &u64) -> bool {
        *self == *other
    }

    fn from_count(n: usize) -> (r: u64) {
        n as u64
    }
}

} // verus!
