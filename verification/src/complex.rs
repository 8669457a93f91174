//! Complex numbers over any `Numeric` scalar: the ring operations. The
//! transcendental operations (magnitude, phase, roots, exponentials) need a
//! floating-point scalar and live with the host application.

use vstd::prelude::*;
use crate::scalar::Numeric;

verus! {

/// A complex number as a real and an imaginary part.
pub struct Complex<T> {
    pub real: T,
    pub imag: T,
}

impl<T: Numeric> Complex<T> {
    pub fn new(re: T, im: T) -> (r: Self)
        ensures
            r.real == re,
            r.imag == im,
    {
        Complex { real: re, imag: im }
    }

    pub fn real_part(&self) -> (r: T)
        ensures
            r == self.real,
    {
        self.real
    }

    pub fn imag_part(&self) -> (r: T)
        ensures
            r == self.imag,
    {
        self.imag
    }

    /// The imaginary unit.
    pub fn i() -> (r: Self)
        ensures
            r.real == T::zero_spec(),
            r.imag == T::one_spec(),
    {
        Complex { real: T::zero(), imag: T::one() }
    }

    pub fn zero() -> (r: Self)
        ensures
            r.real == T::zero_spec(),
            r.imag == T::zero_spec(),
    {
        Complex { real: T::zero(), imag: T::zero() }
    }

    pub fn one() -> (r: Self)
        ensures
            r.real == T::one_spec(),
            r.imag == T::zero_spec(),
    {
        Complex { real: T::one(), imag: T::zero() }
    }

    pub fn is_zero(&self) -> (r: bool)
        ensures
            r == (self.real == T::zero_spec() && self.imag == T::zero_spec()),
    {
        self.real.eq_val(&T::zero()) && self.imag.eq_val(&T::zero())
    }

    pub fn is_one(&self) -> (r: bool)
        ensures
            r == (self.real == T::one_spec() && self.imag == T::zero_spec()),
    {
        self.real.eq_val(&T::one()) && self.imag.eq_val(&T::zero())
    }

    /// The conjugate: the imaginary part negated.
    pub fn conjugate(&self) -> (r: Self)
        ensures
            r.real == self.real,
            r.imag == T::zero_spec().sub_spec(self.imag),
    {
        Complex { real: self.real, imag: T::zero().sub(self.imag) }
    }

    pub fn add(&self, other: &Self) -> (r: Self)
        ensures
            r.real == self.real.add_spec(other.real),
            r.imag == self.imag.add_spec(other.imag),
    {
        Complex { real: self.real.add(other.real), imag: self.imag.add(other.imag) }
    }

    pub fn sub(&self, other: &Self) -> (r: Self)
        ensures
            r.real == self.real.sub_spec(other.real),
            r.imag == self.imag.sub_spec(other.imag),
    {
        Complex { real: self.real.sub(other.real), imag: self.imag.sub(other.imag) }
    }

    pub fn mul(&self, other: &Self) -> (r: Self)
        ensures
            r.real == self.real.mul_spec(other.real).sub_spec(self.imag.mul_spec(other.imag)),
            r.imag == self.real.mul_spec(other.imag).add_spec(self.imag.mul_spec(other.real)),
    {
        Complex {
            real: self.real.mul(other.real).sub(self.imag.mul(other.imag)),
            imag: self.real.mul(other.imag).add(self.imag.mul(other.real)),
        }
    }

    pub fn neg(&self) -> (r: Self)
        ensures
            r.real == T::zero_spec().sub_spec(self.real),
            r.imag == T::zero_spec().sub_spec(self.imag),
    {
        Complex { real: T::zero().sub(self.real), imag: T::zero().sub(self.imag) }
    }

    /// The scalar seen as a complex number.
    pub fn from_scalar(value: T) -> (r: Self)
        ensures
            r.real == value,
            r.imag == T::zero_spec(),
    {
        Complex { real: value, imag: T::zero() }
    }
}

impl<T: Copy> Clone for Complex<T> {
    fn clone(&self) -> (r: Self) {
        Complex { real: self.real, imag: self.imag }
    }
}

impl<T: Copy> Copy for Complex<T> {

}

} // verus!
