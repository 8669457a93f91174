//! A structure-of-arrays vector of complex numbers: parallel real and
//! imaginary parts of equal length.

use vstd::prelude::*;
use crate::complex::Complex;
use crate::scalar::Numeric;

verus! {

/// Parallel real and imaginary parts.
pub struct ComplexVector<T> {
    real: Vec<T>,
    imag: Vec<T>,
}

impl<T: Numeric> ComplexVector<T> {
    pub closed spec fn real_seq(&self) -> Seq<T> {
        self.real@
    }

    pub closed spec fn imag_seq(&self) -> Seq<T> {
        self.imag@
    }

    /// The two parts have the same length.
    pub closed spec fn wf(&self) -> bool {
        self.real@.len() == self.imag@.len()
    }

    /// Pair a real part with an imaginary part; a missing imaginary part
    /// means zeros.
    pub fn new(re: Vec<T>, im: Option<Vec<T>>) -> (r: Self)
        requires
            im matches Some(v) ==> v@.len() == re@.len(),
        ensures
            r.wf(),
            r.real_seq() == re@,
            match im {
                Some(v) => r.imag_seq() == v@,
                None => r.imag_seq().len() == re@.len() && forall|i: int|
                    0 <= i < r.imag_seq().len() ==> r.imag_seq()[i] == T::zero_spec(),
            },
    {
        match im {
            Some(v) => ComplexVector { real: re, imag: v },
            None => {
                let n = re.len();
                let mut zeros: Vec<T> = Vec::new();
                let mut i: usize = 0;
                while i < n
                    invariant
                        i <= n,
                        zeros@.len() == i,
                        forall|j: int| 0 <= j < i ==> #[trigger] zeros@[j] == T::zero_spec(),
                    decreases n - i,
                {
                    zeros.push(T::zero());
                    i = i + 1;
                }
                ComplexVector { real: re, imag: zeros }
            },
        }
    }

    /// Split a vector of complex numbers into its two parts.
    pub fn from_complex_numbers(numbers: Vec<Complex<T>>) -> (r: Self)
        ensures
            r.wf(),
            r.real_seq().len() == numbers@.len(),
            forall|i: int|
                0 <= i < numbers@.len() ==> r.real_seq()[i] == (#[trigger] numbers@[i]).real
                    && r.imag_seq()[i] == numbers@[i].imag,
    {
        let n = numbers.len();
        let mut re_parts: Vec<T> = Vec::new();
        let mut im_parts: Vec<T> = Vec::new();
        let mut i: usize = 0;
        while i < n
            invariant
                i <= n,
                n == numbers@.len(),
                re_parts@.len() == i,
                im_parts@.len() == i,
                forall|j: int|
                    0 <= j < i ==> re_parts@[j] == (#[trigger] numbers@[j]).real && im_parts@[j]
                        == numbers@[j].imag,
            decreases n - i,
        {
            re_parts.push(numbers[i].real);
            im_parts.push(numbers[i].imag);
            i = i + 1;
        }
        ComplexVector { real: re_parts, imag: im_parts }
    }

    /// Zip the two parts back into complex numbers.
    pub fn to_complex_numbers(&self) -> (r: Vec<Complex<T>>)
        requires
            self.wf(),
        ensures
            r@.len() == self.real_seq().len(),
            forall|i: int|
                0 <= i < r@.len() ==> (#[trigger] r@[i]).real == self.real_seq()[i] && r@[i].imag
                    == self.imag_seq()[i],
    {
        let n = self.real.len();
        let mut out: Vec<Complex<T>> = Vec::new();
        let mut i: usize = 0;
        while i < n
            invariant
                i <= n,
                self.wf(),
                n == self.real_seq().len(),
                out@.len() == i,
                forall|j: int|
                    0 <= j < i ==> (#[trigger] out@[j]).real == self.real_seq()[j] && out@[j].imag
                        == self.imag_seq()[j],
            decreases n - i,
        {
            out.push(Complex::new(self.real[i], self.imag[i]));
            i = i + 1;
        }
        out
    }

    /// A vector of zeros of the given size.
    pub fn zeroed(size: usize) -> (r: Self)
        ensures
            r.wf(),
            r.real_seq().len() == size,
            forall|i: int|
                0 <= i < size ==> r.real_seq()[i] == T::zero_spec() && r.imag_seq()[i]
                    == T::zero_spec(),
    {
        let mut re_parts: Vec<T> = Vec::new();
        let mut im_parts: Vec<T> = Vec::new();
        let mut i: usize = 0;
        while i < size
            invariant
                i <= size,
                re_parts@.len() == i,
                im_parts@.len() == i,
                forall|j: int|
                    0 <= j < i ==> #[trigger] re_parts@[j] == T::zero_spec() && im_parts@[j]
                        == T::zero_spec(),
            decreases size - i,
        {
            re_parts.push(T::zero());
            im_parts.push(T::zero());
            i = i + 1;
        }
        ComplexVector { real: re_parts, imag: im_parts }
    }

    pub fn len(&self) -> (r: usize)
        ensures
            r == self.real_seq().len(),
    {
        self.real.len()
    }

    pub fn is_empty(&self) -> (r: bool)
        ensures
            r == (self.real_seq().len() == 0),
    {
        self.real.is_empty()
    }

    /// The element at an index, when it is in range.
    pub fn get(&self, index: usize) -> (r: Option<Complex<T>>)
        requires
            self.wf(),
        ensures
            index < self.real_seq().len() ==> (r matches Some(c) && c.real == self.real_seq()[
                index as int] && c.imag == self.imag_seq()[index as int]),
            index >= self.real_seq().len() ==> r is None,
    {
        if index < self.real.len() {
            Some(Complex::new(self.real[index], self.imag[index]))
        } else {
            None
        }
    }

    /// Append one complex number.
    pub fn push(&mut self, number: Complex<T>)
        requires
            old(self).wf(),
        ensures
            final(self).wf(),
            final(self).real_seq() == old(self).real_seq().push(number.real),
            final(self).imag_seq() == old(self).imag_seq().push(number.imag),
    {
        self.real.push(number.real);
        self.imag.push(number.imag);
    }

    /// Drop every element.
    pub fn clear(&mut self)
        ensures
            final(self).wf(),
            final(self).real_seq().len() == 0,
    {
        self.real.clear();
        self.imag.clear();
    }

    /// Grow or shrink to a size, filling with the given value.
    pub fn resize(&mut self, new_size: usize, value: Complex<T>)
        requires
            old(self).wf(),
        ensures
            final(self).wf(),
            final(self).real_seq().len() == new_size,
            forall|i: int|
                0 <= i < new_size && i < old(self).real_seq().len() ==> final(self).real_seq()[i]
                    == old(self).real_seq()[i] && final(self).imag_seq()[i] == old(
                    self,
                ).imag_seq()[i],
            forall|i: int|
                old(self).real_seq().len() <= i < new_size ==> final(self).real_seq()[i]
                    == value.real && final(self).imag_seq()[i] == value.imag,
    {
        if new_size <= self.real.len() {
            self.real.truncate(new_size);
            self.imag.truncate(new_size);
        } else {
            while self.real.len() < new_size
                invariant
                    self.wf(),
                    old(self).real_seq().len() == old(self).imag_seq().len(),
                    old(self).real_seq().len() <= self.real_seq().len() <= new_size,
                    self.real_seq().subrange(0, old(self).real_seq().len() as int) == old(
                        self,
                    ).real_seq(),
                    self.imag_seq().subrange(0, old(self).imag_seq().len() as int) == old(
                        self,
                    ).imag_seq(),
                    forall|i: int|
                        old(self).real_seq().len() <= i < self.real_seq().len()
                            ==> self.real_seq()[i] == value.real && self.imag_seq()[i]
                            == value.imag,
                decreases new_size - self.real_seq().len(),
            {
                self.real.push(value.real);
                self.imag.push(value.imag);
                proof {
                    assert(self.real_seq().subrange(0, old(self).real_seq().len() as int) =~= old(
                        self,
                    ).real_seq());
                    assert(self.imag_seq().subrange(0, old(self).imag_seq().len() as int) =~= old(
                        self,
                    ).imag_seq());
                }
            }
        }
    }

    /// Append clones of every element of a slice.
    pub fn extend_from_slice(&mut self, other: &[Complex<T>])
        requires
            old(self).wf(),
        ensures
            final(self).wf(),
            final(self).real_seq().len() == old(self).real_seq().len() + other@.len(),
            forall|i: int|
                0 <= i < old(self).real_seq().len() ==> final(self).real_seq()[i] == old(
                    self,
                ).real_seq()[i] && final(self).imag_seq()[i] == old(self).imag_seq()[i],
            forall|i: int|
                0 <= i < other@.len() ==> final(self).real_seq()[old(self).real_seq().len() + i]
                    == (#[trigger] other@[i]).real && final(self).imag_seq()[old(
                    self,
                ).imag_seq().len() + i] == other@[i].imag,
    {
        let n = other.len();
        let mut i: usize = 0;
        while i < n
            invariant
                i <= n,
                n == other@.len(),
                self.wf(),
                old(self).real_seq().len() == old(self).imag_seq().len(),
                self.real_seq().len() == old(self).real_seq().len() + i,
                forall|j: int|
                    0 <= j < old(self).real_seq().len() ==> self.real_seq()[j] == old(
                        self,
                    ).real_seq()[j] && self.imag_seq()[j] == old(self).imag_seq()[j],
                forall|j: int|
                    0 <= j < i ==> self.real_seq()[old(self).real_seq().len() + j] == (
                    #[trigger] other@[j]).real && self.imag_seq()[old(self).imag_seq().len() + j]
                        == other@[j].imag,
            decreases n - i,
        {
            let c = other[i];
            self.real.push(c.real);
            self.imag.push(c.imag);
            i = i + 1;
        }
    }

    /// Replace the contents with clones of a slice's elements.
    pub fn clone_from_slice(&mut self, other: &[Complex<T>])
        ensures
            final(self).wf(),
            final(self).real_seq().len() == other@.len(),
            forall|i: int|
                0 <= i < other@.len() ==> final(self).real_seq()[i] == (#[trigger] other@[i]).real
                    && final(self).imag_seq()[i] == other@[i].imag,
    {
        self.real.clear();
        self.imag.clear();
        self.extend_from_slice(other);
    }

    /// A fresh vector with a slice's elements.
    pub fn from_slice(other: &[Complex<T>]) -> (r: Self)
        ensures
            r.wf(),
            r.real_seq().len() == other@.len(),
            forall|i: int|
                0 <= i < other@.len() ==> r.real_seq()[i] == (#[trigger] other@[i]).real
                    && r.imag_seq()[i] == other@[i].imag,
    {
        let mut complex_vector = ComplexVector { real: Vec::new(), imag: Vec::new() };
        complex_vector.extend_from_slice(other);
        complex_vector
    }

    /// A deep copy.
    pub fn to_owned(&self) -> (r: Self)
        requires
            self.wf(),
        ensures
            r.wf(),
            r.real_seq() == self.real_seq(),
            r.imag_seq() == self.imag_seq(),
    {
        let n = self.real.len();
        let mut re_parts: Vec<T> = Vec::new();
        let mut im_parts: Vec<T> = Vec::new();
        let mut i: usize = 0;
        while i < n
            invariant
                i <= n,
                self.wf(),
                n == self.real_seq().len(),
                re_parts@.len() == i,
                im_parts@.len() == i,
                forall|j: int| 0 <= j < i ==> #[trigger] re_parts@[j] == self.real_seq()[j],
                forall|j: int| 0 <= j < i ==> #[trigger] im_parts@[j] == self.imag_seq()[j],
            decreases n - i,
        {
            re_parts.push(self.real[i]);
            im_parts.push(self.imag[i]);
            i = i + 1;
        }
        proof {
            assert(re_parts@ =~= self.real_seq());
            assert(im_parts@ =~= self.imag_seq());
        }
        ComplexVector { real: re_parts, imag: im_parts }
    }

    /// Negate every imaginary part in place.
    pub fn conjugate_inplace(&mut self)
        requires
            old(self).wf(),
        ensures
            final(self).wf(),
            final(self).real_seq() == old(self).real_seq(),
            final(self).imag_seq().len() == old(self).imag_seq().len(),
            forall|i: int|
                0 <= i < old(self).imag_seq().len() ==> final(self).imag_seq()[i]
                    == T::zero_spec().sub_spec(old(self).imag_seq()[i]),
    {
        let n = self.imag.len();
        let mut i: usize = 0;
        while i < n
            invariant
                i <= n,
                self.wf(),
                n == self.imag_seq().len(),
                self.real_seq() == old(self).real_seq(),
                self.imag_seq().len() == old(self).imag_seq().len(),
                forall|j: int|
                    i <= j < n ==> self.imag_seq()[j] == old(self).imag_seq()[j],
                forall|j: int|
                    0 <= j < i ==> self.imag_seq()[j] == T::zero_spec().sub_spec(
                        old(self).imag_seq()[j],
                    ),
            decreases n - i,
        {
            let v = T::zero().sub(self.imag[i]);
            self.imag[i] = v;
            i = i + 1;
        }
    }

    /// The conjugate as a fresh vector.
    pub fn conjugate(&self) -> (r: Self)
        requires
            self.wf(),
        ensures
            r.wf(),
            r.real_seq() == self.real_seq(),
            r.imag_seq().len() == self.imag_seq().len(),
            forall|i: int|
                0 <= i < self.imag_seq().len() ==> r.imag_seq()[i] == T::zero_spec().sub_spec(
                    self.imag_seq()[i],
                ),
    {
        let mut out = self.to_owned();
        out.conjugate_inplace();
        out
    }

    /// Multiply every part by a factor, in place.
    pub fn scale_inplace(&mut self, factor: T)
        requires
            old(self).wf(),
        ensures
            final(self).wf(),
            final(self).real_seq().len() == old(self).real_seq().len(),
            forall|i: int|
                0 <= i < old(self).real_seq().len() ==> final(self).real_seq()[i] == old(
                    self,
                ).real_seq()[i].mul_spec(factor) && final(self).imag_seq()[i] == old(
                    self,
                ).imag_seq()[i].mul_spec(factor),
    {
        let n = self.real.len();
        let mut i: usize = 0;
        while i < n
            invariant
                i <= n,
                self.wf(),
                n == self.real_seq().len(),
                self.real_seq().len() == old(self).real_seq().len(),
                forall|j: int|
                    i <= j < n ==> self.real_seq()[j] == old(self).real_seq()[j]
                        && self.imag_seq()[j] == old(self).imag_seq()[j],
                forall|j: int|
                    0 <= j < i ==> self.real_seq()[j] == old(self).real_seq()[j].mul_spec(factor)
                        && self.imag_seq()[j] == old(self).imag_seq()[j].mul_spec(factor),
            decreases n - i,
        {
            let rv = self.real[i].mul(factor);
            self.real[i] = rv;
            let iv = self.imag[i].mul(factor);
            self.imag[i] = iv;
            i = i + 1;
        }
    }

    /// The scaled vector, leaving this one untouched.
    pub fn scale(&self, factor: T) -> (r: Self)
        requires
            self.wf(),
        ensures
            r.wf(),
            r.real_seq().len() == self.real_seq().len(),
            forall|i: int|
                0 <= i < self.real_seq().len() ==> r.real_seq()[i] == self.real_seq()[i].mul_spec(
                    factor,
                ) && r.imag_seq()[i] == self.imag_seq()[i].mul_spec(factor),
    {
        let mut out = self.to_owned();
        out.scale_inplace(factor);
        out
    }
}

} // verus!
