//! Integer helpers: primes, factorization, gcd/lcm, Fibonacci numbers,
//! factorials and binomial coefficients.

use vstd::prelude::*;
use vstd::arithmetic::div_mod::lemma_fundamental_div_mod;
use vstd::arithmetic::div_mod::lemma_mod_multiples_basic;

verus! {

/// `factor` divides `candidate` exactly.
pub open spec fn divides(factor: nat, candidate: nat) -> bool
    recommends
        factor > 0,
{
    candidate % factor == 0
}

/// A prime: at least two, with no divisor strictly between one and itself.
pub open spec fn is_prime_spec(candidate: nat) -> bool {
    &&& candidate >= 2
    &&& forall|factor: nat| 1 < factor < candidate ==> !divides(factor, candidate)
}

/// Divisibility is transitive.
proof fn lemma_divides_trans(a: nat, b: nat, c: nat)
    requires
        a > 0,
        b > 0,
        divides(a, b),
        divides(b, c),
    ensures
        divides(a, c),
{
    lemma_fundamental_div_mod(c as int, b as int);
    lemma_fundamental_div_mod(b as int, a as int);
    let q = c as int / b as int;
    let p = b as int / a as int;
    assert(c as int == (p * q) * a as int) by (nonlinear_arith)
        requires
            c as int == b as int * q,
            b as int == a as int * p,
    ;
    lemma_mod_multiples_basic(p * q, a as int);
}

/// Every number from two upward has a prime divisor no larger than itself.
proof fn lemma_exists_prime_divisor(n: nat)
    requires
        n >= 2,
    ensures
        exists|p: nat|
            is_prime_spec(p) && #[trigger] divides(p, n) && p <= n,
    decreases n,
{
    if is_prime_spec(n) {
        assert(n % n == 0);
        assert(divides(n, n));
    } else {
        let f = choose|f: nat| 1 < f < n && divides(f, n);
        lemma_exists_prime_divisor(f);
        let p = choose|p: nat| is_prime_spec(p) && #[trigger] divides(p, f) && p <= f;
        lemma_divides_trans(p, f, n);
    }
}

/// An even number above two is not prime.
proof fn lemma_even_not_prime(n: nat)
    requires
        n > 2,
        n % 2 == 0,
    ensures
        !is_prime_spec(n),
{
    assert(divides(2, n));
}

/// The primes, in increasing order: two first, then every odd prime up to
/// `limit` found by trial division against the primes already found.
pub fn get_primes_number(limit: u64) -> (r: Vec<u64>)
    requires
        limit <= u64::MAX - 2,
    ensures
        r@.len() >= 1,
        r@[0] == 2u64,
        forall|i: int| 0 <= i < r@.len() ==> is_prime_spec(#[trigger] r@[i] as nat),
        forall|i: int| 1 <= i < r@.len() ==> 2 < #[trigger] r@[i] && r@[i] <= limit,
        forall|i: int, j: int| 0 <= i < j < r@.len() ==> r@[i] < r@[j],
        forall|p: u64| 2 < p <= limit && is_prime_spec(p as nat) ==> r@.contains(p),
{
    let mut primes: Vec<u64> = Vec::new();
    primes.push(2);
    proof {
        assert(primes@[0] == 2u64);
        assert(primes@.contains(2u64));
    }
    if limit < 3 {
        return primes;
    }
    let mut counter: u64 = 3;
    while counter <= limit
        invariant
            3 <= counter,
            counter % 2 == 1,
            counter <= limit + 2,
            limit <= u64::MAX - 2,
            primes@.len() >= 1,
            primes@[0] == 2u64,
            forall|i: int| 0 <= i < primes@.len() ==> is_prime_spec(#[trigger] primes@[i] as nat),
            forall|i: int|
                1 <= i < primes@.len() ==> 2 < #[trigger] primes@[i] && primes@[i] <= limit,
            forall|i: int| 0 <= i < primes@.len() ==> #[trigger] primes@[i] < counter,
            forall|i: int, j: int| 0 <= i < j < primes@.len() ==> primes@[i] < primes@[j],
            forall|p: u64|
                2 <= p < counter && is_prime_spec(p as nat) ==> primes@.contains(p),
        decreases limit + 2 - counter,
    {
        let n = primes.len();
        let mut k: usize = 0;
        let mut found_divisor = false;
        while k < n
            invariant
                k <= n,
                n == primes@.len(),
                counter >= 3,
                forall|i: int| 0 <= i < primes@.len() ==> #[trigger] primes@[i] >= 2,
                forall|i: int| 0 <= i < primes@.len() ==> #[trigger] primes@[i] < counter,
                !found_divisor ==> forall|j: int|
                    0 <= j < k ==> !(#[trigger] divides(primes@[j] as nat, counter as nat)),
                found_divisor ==> exists|j: int|
                    0 <= j < n && #[trigger] divides(primes@[j] as nat, counter as nat)
                        && primes@[j] < counter,
            decreases n - k,
        {
            if counter % primes[k] == 0 {
                found_divisor = true;
                proof {
                    assert(divides(primes@[k as int] as nat, counter as nat));
                    assert(primes@[k as int] < counter);
                }
            }
            k = k + 1;
        }
        let ghost prev = primes@;
        if !found_divisor {
            proof {
                assert forall|f: nat| 1 < f < counter implies !(#[trigger] divides(f, counter as nat)) by {
                    if divides(f, counter as nat) {
                        lemma_exists_prime_divisor(f);
                        let p = choose|p: nat|
                            is_prime_spec(p) && #[trigger] divides(p, f) && p <= f;
                        lemma_divides_trans(p, f, counter as nat);
                        assert(2 <= p < counter);
                        assert(prev.contains(p as u64));
                        let i = choose|i: int| 0 <= i < prev.len() && prev[i] == p as u64;
                        assert(!divides(prev[i] as nat, counter as nat));
                    }
                }
                assert(is_prime_spec(counter as nat));
            }
            primes.push(counter);
            proof {
                assert forall|p: u64|
                    2 <= p < counter + 2 && is_prime_spec(p as nat) implies primes@.contains(
                    p,
                ) by {
                    if p < counter {
                        let i = choose|i: int| 0 <= i < prev.len() && prev[i] == p;
                        assert(primes@[i] == p);
                    } else if p == counter {
                        assert(primes@[prev.len() as int] == p);
                    } else {
                        assert(p == counter + 1);
                        assert((counter + 1) % 2 == 0);
                        lemma_even_not_prime(p as nat);
                    }
                }
            }
        } else {
            proof {
                let j = choose|j: int|
                    0 <= j < n && #[trigger] divides(prev[j] as nat, counter as nat) && prev[j]
                        < counter;
                assert(1 < prev[j] < counter);
                assert(!is_prime_spec(counter as nat));
                assert forall|p: u64|
                    2 <= p < counter + 2 && is_prime_spec(p as nat) implies primes@.contains(
                    p,
                ) by {
                    if p < counter {
                    } else if p == counter {
                        assert(false);
                    } else {
                        assert(p == counter + 1);
                        assert((counter + 1) % 2 == 0);
                        lemma_even_not_prime(p as nat);
                    }
                }
            }
        }
        counter = counter + 2;
    }
    primes
}

/// Primality by trial division up to the square root.
pub fn is_prime(n: u64) -> (r: bool)
    ensures
        r == is_prime_spec(n as nat),
{
    if n < 2 {
        return false;
    }
    if n == 2 {
        return true;
    }
    if n % 2 == 0 {
        proof {
            assert(divides(2, n as nat));
        }
        return false;
    }
    let mut d: u64 = 3;
    while d <= n / d
        invariant
            n >= 3,
            n % 2 == 1,
            d >= 3,
            d % 2 == 1,
            forall|f: nat| 1 < f < d ==> !(#[trigger] divides(f, n as nat)),
        decreases n + 2 - d,
    {
        if n % d == 0 {
            proof {
                assert(d * d <= (n / d) * d <= n) by (nonlinear_arith)
                    requires
                        d <= n / d,
                        n / d == n as int / d as int,
                        d >= 3,
                        n >= 3,
                ;
                assert(d < n) by (nonlinear_arith)
                    requires
                        d * d <= n,
                        d >= 3,
                ;
                assert(divides(d as nat, n as nat));
            }
            return false;
        }
        proof {
            assert forall|f: nat| 1 < f < d + 2 implies !(#[trigger] divides(f, n as nat)) by {
                if f < d {
                } else if f == d {
                    assert(!divides(d as nat, n as nat));
                } else {
                    assert(f == d + 1);
                    assert(f % 2 == 0);
                    if divides(f, n as nat) {
                        assert(f == 2 * (f / 2));
                        lemma_mod_multiples_basic((f / 2) as int, 2);
                        assert(divides(2, f));
                        lemma_divides_trans(2, f, n as nat);
                    }
                }
            }
        }
        proof {
            lemma_fundamental_div_mod(n as int, d as int);
            assert(d * d <= n) by (nonlinear_arith)
                requires
                    d <= n as int / d as int,
                    n as int == d as int * (n as int / d as int) + n as int % d as int,
                    n as int % d as int >= 0,
                    d >= 3,
            ;
            assert(d <= 0x1_0000_0000u64) by (nonlinear_arith)
                requires
                    d * d <= n,
                    n <= u64::MAX,
                    d >= 3,
            ;
        }
        d = d + 2;
    }
    proof {
        assert(d > n / d);
        assert forall|f: nat| 1 < f < n implies !(#[trigger] divides(f, n as nat)) by {
            if f >= d && divides(f, n as nat) {
                lemma_fundamental_div_mod(n as int, f as int);
                let e = n as int / f as int;
                assert(n as int == f as int * e);
                assert(e >= 2) by (nonlinear_arith)
                    requires
                        n as int == f as int * e,
                        1 < f < n,
                ;
                assert(e < d) by (nonlinear_arith)
                    requires
                        n as int == f as int * e,
                        f >= d,
                        d > n as int / d as int,
                        n as int / d as int == n / d,
                        d >= 3,
                        e >= 2,
                        n >= 3,
                ;
                assert(n as int % e == 0) by {
                    lemma_mod_multiples_basic(f as int, e);
                    assert(f as int * e == e * f as int) by (nonlinear_arith);
                };
                assert(divides(e as nat, n as nat));
            }
        }
    }
    true
}

/// The product of a sequence of factors.
pub open spec fn seq_product(s: Seq<u64>) -> int
    decreases s.len(),
{
    if s.len() == 0 {
        1
    } else {
        seq_product(s.drop_last()) * s.last()
    }
}

/// The prime factorization in nondecreasing order; the factors multiply
/// back to the argument. Zero has no factorization and one's is empty.
pub fn factorize(n: u64) -> (r: Vec<u64>)
    requires
        n >= 1,
    ensures
        seq_product(r@) == n,
        forall|i: int| 0 <= i < r@.len() ==> is_prime_spec(#[trigger] r@[i] as nat),
        forall|i: int, j: int| 0 <= i < j < r@.len() ==> r@[i] <= r@[j],
{
    let mut factors: Vec<u64> = Vec::new();
    let mut m: u64 = n;
    let mut d: u64 = 2;
    while m > 1
        invariant
            1 <= m <= n,
            2 <= d,
            seq_product(factors@) * m == n,
            forall|i: int| 0 <= i < factors@.len() ==> is_prime_spec(#[trigger] factors@[i] as nat),
            forall|i: int, j: int| 0 <= i < j < factors@.len() ==> factors@[i] <= factors@[j],
            forall|i: int| 0 <= i < factors@.len() ==> #[trigger] factors@[i] <= d,
            forall|f: nat| 1 < f < d ==> !(#[trigger] divides(f, m as nat)),
        decreases m, n + 2 - d,
    {
        proof {
            if m < d {
                assert(m % m == 0);
                assert(divides(m as nat, m as nat));
                assert(false);
            }
        }
        if m % d == 0 {
            proof {
                assert forall|f: nat| 1 < f < d implies !(#[trigger] divides(f, d as nat)) by {
                    if divides(f, d as nat) {
                        assert(divides(d as nat, m as nat));
                        lemma_divides_trans(f, d as nat, m as nat);
                    }
                }
                assert(is_prime_spec(d as nat));
                assert(seq_product(factors@.push(d)) == seq_product(factors@) * d) by {
                    assert(factors@.push(d).drop_last() =~= factors@);
                }
            }
            let ghost m_prev = m;
            let ghost product_prev = seq_product(factors@);
            factors.push(d);
            m = m / d;
            proof {
                lemma_fundamental_div_mod(m_prev as int, d as int);
                assert(m_prev as int == d as int * m as int);
                assert(m >= 1) by (nonlinear_arith)
                    requires
                        m_prev as int == d as int * m as int,
                        m_prev >= d >= 2,
                ;
                assert(m < m_prev) by (nonlinear_arith)
                    requires
                        m_prev as int == d as int * m as int,
                        d >= 2,
                        m >= 1,
                ;
                assert(seq_product(factors@) * m == n) by (nonlinear_arith)
                    requires
                        seq_product(factors@) == product_prev * d,
                        product_prev * m_prev == n,
                        m_prev as int == d as int * m as int,
                ;
                assert(divides(m as nat, m_prev as nat)) by {
                    lemma_mod_multiples_basic(d as int, m as int);
                    assert(d as int * m as int == m as int * d as int) by (nonlinear_arith);
                }
                assert forall|f: nat| 1 < f < d implies !(#[trigger] divides(f, m as nat)) by {
                    if divides(f, m as nat) {
                        lemma_divides_trans(f, m as nat, m_prev as nat);
                    }
                }
            }
        } else {
            proof {
                assert forall|f: nat| 1 < f < d + 1 implies !(#[trigger] divides(f, m as nat)) by {
                    if f == d {
                        assert(!divides(d as nat, m as nat));
                    }
                }
            }
            d = d + 1;
        }
    }
    factors
}

/// The greatest common divisor, by Euclid's recursion.
pub open spec fn gcd_spec(a: nat, b: nat) -> nat
    decreases b,
{
    if b == 0 {
        a
    } else {
        gcd_spec(b, a % b)
    }
}

pub fn gcd(a: u64, b: u64) -> (r: u64)
    ensures
        r == gcd_spec(a as nat, b as nat),
    decreases b,
{
    if b == 0 {
        return a;
    }
    gcd(b, a % b)
}

/// The least common multiple; the product must fit the machine word.
pub fn lcm(a: u64, b: u64) -> (r: u64)
    requires
        a * b <= u64::MAX,
        a > 0 || b > 0,
    ensures
        r == (a * b) as int / gcd_spec(a as nat, b as nat) as int,
{
    proof {
        lemma_gcd_pos(a as nat, b as nat);
    }
    (a * b) / gcd(a, b)
}

/// The gcd of two numbers, not both zero, is positive.
proof fn lemma_gcd_pos(a: nat, b: nat)
    requires
        a > 0 || b > 0,
    ensures
        gcd_spec(a, b) > 0,
    decreases b,
{
    if b == 0 {
    } else {
        lemma_gcd_pos(b, a % b);
    }
}

/// The Fibonacci numbers.
pub open spec fn fib(n: nat) -> nat
    decreases n,
{
    if n == 0 {
        0
    } else if n == 1 {
        1
    } else {
        fib((n - 1) as nat) + fib((n - 2) as nat)
    }
}

proof fn lemma_fib_mono(i: nat, j: nat)
    requires
        i <= j,
    ensures
        fib(i) <= fib(j),
    decreases j - i,
{
    if i < j {
        lemma_fib_mono(i, (j - 1) as nat);
    }
}

pub fn fibonacci(n: u64) -> (r: u64)
    requires
        fib(n as nat) <= u64::MAX,
    ensures
        r == fib(n as nat),
{
    if n == 0 {
        return 0;
    }
    if n == 1 {
        return 1;
    }
    let mut a: u64 = 0;
    let mut b: u64 = 1;
    let mut c: u64 = 0;
    let mut idx: u64 = 1;
    while idx < n
        invariant
            1 <= idx <= n,
            a == fib((idx - 1) as nat),
            b == fib(idx as nat),
            fib(n as nat) <= u64::MAX,
            idx > 1 ==> c == fib(idx as nat),
        decreases n - idx,
    {
        proof {
            lemma_fib_mono((idx + 1) as nat, n as nat);
            assert(fib((idx + 1) as nat) == fib(idx as nat) + fib((idx - 1) as nat));
            assert(a + b <= u64::MAX);
        }
        c = a + b;
        a = b;
        b = c;
        idx = idx + 1;
    }
    c
}

/// The factorials.
pub open spec fn fact(n: nat) -> nat
    decreases n,
{
    if n == 0 {
        1
    } else {
        n * fact((n - 1) as nat)
    }
}

proof fn lemma_fact_pos(n: nat)
    ensures
        fact(n) >= 1,
    decreases n,
{
    if n > 0 {
        lemma_fact_pos((n - 1) as nat);
        assert(n * fact((n - 1) as nat) >= fact((n - 1) as nat)) by (nonlinear_arith)
            requires
                n >= 1,
                fact((n - 1) as nat) >= 1,
        ;
    }
}

proof fn lemma_fact_mono(i: nat, j: nat)
    requires
        i <= j,
    ensures
        fact(i) <= fact(j),
    decreases j - i,
{
    if i < j {
        lemma_fact_mono(i, (j - 1) as nat);
        lemma_fact_pos((j - 1) as nat);
        assert(fact((j - 1) as nat) <= j * fact((j - 1) as nat)) by (nonlinear_arith)
            requires
                j >= 1,
                fact((j - 1) as nat) >= 1,
        ;
    }
}

pub fn factorial(n: u64) -> (r: u64)
    requires
        fact(n as nat) <= u64::MAX,
    ensures
        r == fact(n as nat),
{
    if n == 0 {
        return 1;
    }
    let mut result: u64 = 1;
    let mut i: u64 = 0;
    while i < n
        invariant
            0 <= i <= n,
            result == fact(i as nat),
            fact(n as nat) <= u64::MAX,
        decreases n - i,
    {
        proof {
            lemma_fact_mono((i + 1) as nat, n as nat);
            assert(fact((i + 1) as nat) == (i + 1) * fact(i as nat));
            assert(result as int * (i + 1) as int == fact((i + 1) as nat)) by (nonlinear_arith)
                requires
                    result == fact(i as nat),
                    fact((i + 1) as nat) == (i + 1) * fact(i as nat),
            ;
        }
        i = i + 1;
        result = result * i;
    }
    result
}

/// The quotient the factorial formula gives; zero when `k` exceeds `n`.
pub fn binomial_coefficient(n: u64, k: u64) -> (r: u64)
    requires
        fact(n as nat) <= u64::MAX,
    ensures
        k > n ==> r == 0,
        k <= n ==> r == fact(n as nat) as int / (fact(k as nat) * fact((n - k) as nat)) as int,
{
    if k > n {
        return 0;
    }
    proof {
        lemma_fact_mono(k as nat, n as nat);
        lemma_fact_mono((n - k) as nat, n as nat);
        lemma_fact_pos(k as nat);
        lemma_fact_pos((n - k) as nat);
        lemma_fact_pos(n as nat);
        assert(fact(k as nat) * fact((n - k) as nat) >= 1) by (nonlinear_arith)
            requires
                fact(k as nat) >= 1,
                fact((n - k) as nat) >= 1,
        ;
    }
    let fk = factorial(k);
    let fnk = factorial(n - k);
    let fnn = factorial(n);
    proof {
        lemma_binomial_denominator(n as nat, k as nat);
    }
    fnn / (fk * fnk)
}

/// The denominator of the factorial formula fits below the numerator.
proof fn lemma_binomial_denominator(n: nat, k: nat)
    requires
        k <= n,
    ensures
        fact(k) * fact((n - k) as nat) <= fact(n),
    decreases n,
{
    lemma_fact_pos(k);
    lemma_fact_pos((n - k) as nat);
    if k == 0 {
        assert(fact(0) * fact(n) == fact(n)) by (nonlinear_arith)
            requires
                fact(0) == 1,
        ;
    } else if k == n {
        assert(fact(n) * fact(0) == fact(n)) by (nonlinear_arith)
            requires
                fact(0) == 1,
        ;
    } else {
        lemma_binomial_denominator((n - 1) as nat, (k - 1) as nat);
        lemma_binomial_denominator((n - 1) as nat, k);
        lemma_fact_pos((n - 1) as nat);
        lemma_fact_pos((k - 1) as nat);
        lemma_fact_pos(((n - 1) - k) as nat);
        assert(fact(k) * fact((n - k) as nat) <= n * fact((n - 1) as nat)) by (nonlinear_arith)
            requires
                fact(k) == k * fact((k - 1) as nat),
                fact((k - 1) as nat) * fact(((n - 1) - (k - 1)) as nat) <= fact((n - 1) as nat),
                ((n - 1) - (k - 1)) as nat == (n - k) as nat,
                1 <= k <= n,
                fact((n - k) as nat) >= 1,
                fact((k - 1) as nat) >= 1,
                fact((n - 1) as nat) >= 1,
        ;
    }
}

} // verus!
