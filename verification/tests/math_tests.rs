//! Math helpers: primes, factorization, combinatorics, matrices over the
//! word ring, statistics, and complex vectors.

use stream_engine::calculus::binomial_coefficient;
use stream_engine::calculus::factorial;
use stream_engine::calculus::factorize;
use stream_engine::calculus::fibonacci;
use stream_engine::calculus::gcd;
use stream_engine::calculus::get_primes_number;
use stream_engine::calculus::is_prime;
use stream_engine::calculus::lcm;
use stream_engine::complex::Complex;
use stream_engine::complex_vector::ComplexVector;
use stream_engine::matrix::Matrix;
use stream_engine::statistics::covariance;
use stream_engine::statistics::mean;
use stream_engine::statistics::median;
use stream_engine::statistics::square_mean;
use stream_engine::statistics::unique;
use stream_engine::statistics::variance;

#[test]
fn test_get_primes_number() {
    let primes = get_primes_number(30);
    assert_eq!(primes, vec![2, 3, 5, 7, 11, 13, 17, 19, 23, 29]);
}

#[test]
fn test_is_prime() {
    assert!(!is_prime(0));
    assert!(!is_prime(1));
    assert!(is_prime(2));
    assert!(is_prime(3));
    assert!(is_prime(7));
    assert!(!is_prime(9));
    assert!(is_prime(97));
    assert!(!is_prime(99));
}

#[test]
fn test_factorize() {
    assert_eq!(factorize(1), Vec::<u64>::new());
    assert_eq!(factorize(12), vec![2, 2, 3]);
    assert_eq!(factorize(10), vec![2, 5]);
    assert_eq!(factorize(97), vec![97]);
}

#[test]
fn test_gcd_lcm() {
    assert_eq!(gcd(12, 18), 6);
    assert_eq!(gcd(7, 0), 7);
    assert_eq!(lcm(4, 6), 12);
}

#[test]
fn test_fibonacci_factorial_binomial() {
    assert_eq!(fibonacci(0), 0);
    assert_eq!(fibonacci(1), 1);
    assert_eq!(fibonacci(10), 55);
    assert_eq!(factorial(0), 1);
    assert_eq!(factorial(5), 120);
    assert_eq!(binomial_coefficient(5, 2), 10);
    assert_eq!(binomial_coefficient(2, 5), 0);
}

#[test]
fn test_matrix_shape_and_transpose() {
    let m: Matrix<u64> = Matrix::from_vec(vec![vec![1, 2, 3], vec![4, 5, 6]]);
    assert_eq!(m.size(), (2, 3));
    assert!(!m.is_square());
    assert_eq!(m.get(1, 2), Some(&6));
    assert_eq!(m.get(2, 0), None);
    let t = m.transpose();
    assert_eq!(t.size(), (3, 2));
    assert_eq!(t.get(2, 1), Some(&6));
    assert_eq!(t.to_vec(), vec![vec![1, 4], vec![2, 5], vec![3, 6]]);
}

#[test]
fn test_matrix_identity_trace_determinant() {
    let id: Matrix<u64> = Matrix::identity(3);
    assert!(id.is_square());
    assert!(id.is_symmetric());
    assert_eq!(id.trace(), Some(3));
    assert_eq!(id.determinant(), Some(1));
    assert_eq!(id.is_singular(), Some(false));

    let m: Matrix<u64> = Matrix::from_vec(vec![vec![2, 0], vec![0, 3]]);
    assert_eq!(m.trace(), Some(5));
    assert_eq!(m.determinant(), Some(6));

    // In the word ring, 1*4 - 2*3 wraps around to two below zero.
    let w: Matrix<u64> = Matrix::from_vec(vec![vec![1, 2], vec![3, 4]]);
    assert_eq!(w.determinant(), Some(u64::MAX - 1));

    let rect: Matrix<u64> = Matrix::from_vec(vec![vec![1, 2, 3], vec![4, 5, 6]]);
    assert_eq!(rect.determinant(), None);
    assert_eq!(rect.trace(), None);
}

#[test]
fn test_matrix_set_and_zero_one() {
    let mut m: Matrix<u64> = Matrix::zero(2, 2);
    assert!(m.set(0, 1, 9).is_ok());
    assert!(m.set(5, 0, 1).is_err());
    assert_eq!(m.get(0, 1), Some(&9));
    let ones: Matrix<u64> = Matrix::one(2, 2);
    assert_eq!(ones.get(1, 1), Some(&1));
    assert_eq!(ones.determinant(), Some(0));
    assert_eq!(ones.is_singular(), Some(true));
    assert!(ones.inverse().is_none());
    let singular: Matrix<u64> = Matrix::zero(2, 2);
    assert!(singular.inverse().is_none());
    let id: Matrix<u64> = Matrix::identity(2);
    assert!(id.inverse().is_some());
}

#[test]
fn test_matrix_arithmetic() {
    let a: Matrix<u64> = Matrix::from_vec(vec![vec![1, 2], vec![3, 4]]);
    let b: Matrix<u64> = Matrix::from_vec(vec![vec![5, 6], vec![7, 8]]);
    assert_eq!(a.add(&b).to_vec(), vec![vec![6, 8], vec![10, 12]]);
    assert_eq!(b.sub(&a).to_vec(), vec![vec![4, 4], vec![4, 4]]);
    assert_eq!(a.mul(&b).to_vec(), vec![vec![19, 22], vec![43, 50]]);
    let id: Matrix<u64> = Matrix::identity(2);
    assert_eq!(a.mul(&id).to_vec(), a.to_vec());
    assert_eq!(a.div(&id).unwrap().to_vec(), a.to_vec());
    let singular: Matrix<u64> = Matrix::zero(2, 2);
    assert!(a.div(&singular).is_none());
}

#[test]
fn test_statistics_over_words() {
    assert_eq!(mean(vec![1u64, 2, 3]), 2);
    assert_eq!(mean(vec![10u64, 20]), 15);
    assert_eq!(square_mean(vec![3u64, 4]), 12);
    assert_eq!(variance(vec![2u64, 4, 6], 4), 2);
    assert_eq!(covariance(vec![1u64, 2, 3], vec![2u64, 4, 6]), 1);
    let mut odd = vec![5u64, 1, 3];
    assert_eq!(median(&mut odd), 3);
    assert_eq!(odd, vec![1, 3, 5]);
    let mut even = vec![4u64, 1, 3, 2];
    assert_eq!(median(&mut even), 2);
    assert_eq!(unique(&vec![3u64, 1, 3, 2, 1]), vec![3, 1, 2]);
}

#[test]
fn test_complex_ring_operations() {
    let a: Complex<u64> = Complex::new(2, 3);
    let b: Complex<u64> = Complex::new(5, 7);
    assert_eq!(a.real_part(), 2);
    assert_eq!(a.imag_part(), 3);
    let sum = a.add(&b);
    assert_eq!((sum.real_part(), sum.imag_part()), (7, 10));
    let prod = a.mul(&b);
    // (2+3i)(5+7i) = 10-21 + (14+15)i, in the word ring.
    assert_eq!(prod.real_part(), u64::MAX - 10);
    assert_eq!(prod.imag_part(), 29);
    let conj = a.conjugate();
    assert_eq!(conj.real_part(), 2);
    assert_eq!(conj.imag_part(), 0u64.wrapping_sub(3));
    assert!(Complex::<u64>::zero().is_zero());
    assert!(Complex::<u64>::one().is_one());
    assert_eq!(Complex::<u64>::i().imag_part(), 1);
}

#[test]
fn test_complex_vector_round_trip() {
    let numbers = vec![
        Complex::<u64>::new(1, 2),
        Complex::<u64>::new(3, 4),
        Complex::<u64>::new(5, 6),
    ];
    let v = ComplexVector::from_complex_numbers(numbers);
    assert_eq!(v.len(), 3);
    assert!(!v.is_empty());
    let back = v.to_complex_numbers();
    assert_eq!((back[1].real_part(), back[1].imag_part()), (3, 4));
    let got = v.get(2).unwrap();
    assert_eq!((got.real_part(), got.imag_part()), (5, 6));
    assert!(v.get(3).is_none());

    let conj = v.conjugate();
    let c = conj.get(0).unwrap();
    assert_eq!(c.imag_part(), 0u64.wrapping_sub(2));

    let scaled = v.scale(10);
    let s = scaled.get(1).unwrap();
    assert_eq!((s.real_part(), s.imag_part()), (30, 40));

    let mut grown = ComplexVector::<u64>::zeroed(1);
    grown.push(Complex::new(9, 9));
    assert_eq!(grown.len(), 2);
    grown.resize(4, Complex::new(1, 1));
    assert_eq!(grown.len(), 4);
    assert_eq!(grown.get(3).unwrap().real_part(), 1);
    grown.clear();
    assert!(grown.is_empty());
}
