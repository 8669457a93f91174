//! Statistics helpers over any `Numeric` scalar: sums, means, variance,
//! covariance, a sorting median, and duplicate removal.

use vstd::prelude::*;
use crate::scalar::Numeric;

verus! {

/// The statistics helpers' capability; any `Numeric` scalar qualifies.
pub trait StatisticsTrait: Numeric {

}

impl StatisticsTrait for u64 {

}

/// The ring sum of a sequence.
pub open spec fn sum_spec<T: Numeric>(s: Seq<T>) -> T
    decreases s.len(),
{
    if s.len() == 0 {
        T::zero_spec()
    } else {
        sum_spec(s.drop_last()).add_spec(s.last())
    }
}

/// The sum of reciprocals of a sequence.
pub open spec fn recip_sum_spec<T: Numeric>(s: Seq<T>) -> T
    decreases s.len(),
{
    if s.len() == 0 {
        T::zero_spec()
    } else {
        recip_sum_spec(s.drop_last()).add_spec(T::one_spec().div_spec(s.last()))
    }
}

/// The sum of squares of a sequence.
pub open spec fn square_sum_spec<T: Numeric>(s: Seq<T>) -> T
    decreases s.len(),
{
    if s.len() == 0 {
        T::zero_spec()
    } else {
        square_sum_spec(s.drop_last()).add_spec(s.last().mul_spec(s.last()))
    }
}

/// The sum of squared deviations from a center.
pub open spec fn dev_sum_spec<T: Numeric>(s: Seq<T>, center: T) -> T
    decreases s.len(),
{
    if s.len() == 0 {
        T::zero_spec()
    } else {
        dev_sum_spec(s.drop_last(), center).add_spec(
            s.last().sub_spec(center).mul_spec(s.last().sub_spec(center)),
        )
    }
}

/// The sum of products of paired deviations, over the paired prefix.
pub open spec fn cov_sum_spec<T: Numeric>(sx: Seq<T>, sy: Seq<T>, mx: T, my: T, n: int) -> T
    decreases n,
{
    if n <= 0 {
        T::zero_spec()
    } else {
        cov_sum_spec(sx, sy, mx, my, n - 1).add_spec(
            sx[n - 1].sub_spec(mx).mul_spec(sy[n - 1].sub_spec(my)),
        )
    }
}

/// The sequence is nondecreasing in the scalar's order.
pub open spec fn sorted_le<T: Numeric>(s: Seq<T>) -> bool {
    forall|i: int, j: int| 0 <= i < j < s.len() ==> s[i].le_spec(s[j])
}

/// The ring sum of a vector's elements.
fn sum_of<T: Numeric>(data: &Vec<T>) -> (r: T)
    ensures
        r == sum_spec(data@),
{
    let n = data.len();
    let mut acc = T::zero();
    let mut i: usize = 0;
    while i < n
        invariant
            i <= n,
            n == data@.len(),
            acc == sum_spec(data@.take(i as int)),
        decreases n - i,
    {
        proof {
            assert(data@.take(i + 1).drop_last() =~= data@.take(i as int));
            assert(data@.take(i + 1).last() == data@[i as int]);
        }
        acc = acc.add(data[i]);
        i = i + 1;
    }
    assert(data@.take(n as int) =~= data@);
    acc
}

/// The arithmetic mean: the ring sum divided by the element count.
pub fn mean<T: StatisticsTrait>(data: Vec<T>) -> (r: T)
    ensures
        r == sum_spec(data@).div_spec(T::from_count_spec(data@.len() as usize)),
{
    let total = sum_of(&data);
    total.div(T::from_count(data.len()))
}

/// The harmonic mean: the count divided by the sum of reciprocals.
pub fn harmonic_mean<T: StatisticsTrait>(data: Vec<T>) -> (r: T)
    ensures
        r == T::from_count_spec(data@.len() as usize).div_spec(recip_sum_spec(data@)),
{
    let n = data.len();
    let mut acc = T::zero();
    let mut i: usize = 0;
    while i < n
        invariant
            i <= n,
            n == data@.len(),
            acc == recip_sum_spec(data@.take(i as int)),
        decreases n - i,
    {
        proof {
            assert(data@.take(i + 1).drop_last() =~= data@.take(i as int));
            assert(data@.take(i + 1).last() == data@[i as int]);
        }
        acc = acc.add(T::one().div(data[i]));
        i = i + 1;
    }
    assert(data@.take(n as int) =~= data@);
    T::from_count(n).div(acc)
}

/// The quadratic mean's square: the sum of squares over the count.
pub fn square_mean<T: StatisticsTrait>(data: Vec<T>) -> (r: T)
    ensures
        r == square_sum_spec(data@).div_spec(T::from_count_spec(data@.len() as usize)),
{
    let n = data.len();
    let mut acc = T::zero();
    let mut i: usize = 0;
    while i < n
        invariant
            i <= n,
            n == data@.len(),
            acc == square_sum_spec(data@.take(i as int)),
        decreases n - i,
    {
        proof {
            assert(data@.take(i + 1).drop_last() =~= data@.take(i as int));
            assert(data@.take(i + 1).last() == data@[i as int]);
        }
        acc = acc.add(data[i].mul(data[i]));
        i = i + 1;
    }
    assert(data@.take(n as int) =~= data@);
    acc.div(T::from_count(n))
}

/// The population variance around a given center.
pub fn variance<T: StatisticsTrait>(data: Vec<T>, center: T) -> (r: T)
    ensures
        r == dev_sum_spec(data@, center).div_spec(T::from_count_spec(data@.len() as usize)),
{
    let n = data.len();
    let mut acc = T::zero();
    let mut i: usize = 0;
    while i < n
        invariant
            i <= n,
            n == data@.len(),
            acc == dev_sum_spec(data@.take(i as int), center),
        decreases n - i,
    {
        proof {
            assert(data@.take(i + 1).drop_last() =~= data@.take(i as int));
            assert(data@.take(i + 1).last() == data@[i as int]);
        }
        let diff = data[i].sub(center);
        acc = acc.add(diff.mul(diff));
        i = i + 1;
    }
    assert(data@.take(n as int) =~= data@);
    acc.div(T::from_count(n))
}

/// The covariance of the paired prefix, divided by the first vector's
/// count.
pub fn covariance<T: StatisticsTrait>(data_x: Vec<T>, data_y: Vec<T>) -> (r: T)
    ensures
        ({
            let mx = sum_spec(data_x@).div_spec(T::from_count_spec(data_x@.len() as usize));
            let my = sum_spec(data_y@).div_spec(T::from_count_spec(data_y@.len() as usize));
            let paired = if data_x@.len() <= data_y@.len() {
                data_x@.len() as int
            } else {
                data_y@.len() as int
            };
            r == cov_sum_spec(data_x@, data_y@, mx, my, paired).div_spec(
                T::from_count_spec(data_x@.len() as usize),
            )
        }),
{
    let nx = data_x.len();
    let ny = data_y.len();
    let n = if nx <= ny {
        nx
    } else {
        ny
    };
    let mean_x = sum_of(&data_x).div(T::from_count(nx));
    let mean_y = sum_of(&data_y).div(T::from_count(ny));
    let mut acc = T::zero();
    let mut i: usize = 0;
    while i < n
        invariant
            i <= n,
            nx == data_x@.len(),
            ny == data_y@.len(),
            n == if nx <= ny {
                nx as int
            } else {
                ny as int
            },
            mean_x == sum_spec(data_x@).div_spec(T::from_count_spec(nx)),
            mean_y == sum_spec(data_y@).div_spec(T::from_count_spec(ny)),
            acc == cov_sum_spec(data_x@, data_y@, mean_x, mean_y, i as int),
        decreases n - i,
    {
        let dx = data_x[i].sub(mean_x);
        let dy = data_y[i].sub(mean_y);
        acc = acc.add(dx.mul(dy));
        i = i + 1;
    }
    acc.div(T::from_count(nx))
}

/// Sort into a fresh vector by repeated minimum selection.
fn sort_vec<T: Numeric>(data: &mut Vec<T>)
    ensures
        final(data)@.to_multiset() == old(data)@.to_multiset(),
        final(data)@.len() == old(data)@.len(),
        sorted_le(final(data)@),
{
    broadcast use vstd::seq_lib::group_to_multiset_ensures;

    let ghost orig = data@;
    let mut out: Vec<T> = Vec::new();
    while data.len() > 0
        invariant
            out@.to_multiset().add(data@.to_multiset()) =~= orig.to_multiset(),
            out@.len() + data@.len() == orig.len(),
            sorted_le(out@),
            forall|i: int, j: int|
                #![trigger out@[i], data@[j]]
                0 <= i < out@.len() && 0 <= j < data@.len() ==> out@[i].le_spec(data@[j]),
        decreases data@.len(),
    {
        let n = data.len();
        proof {
            T::lemma_le_total(data@[0], data@[0]);
        }
        let mut min_idx: usize = 0;
        let mut k: usize = 1;
        while k < n
            invariant
                min_idx < k <= n,
                n == data@.len(),
                forall|j: int| 0 <= j < k ==> data@[min_idx as int].le_spec(#[trigger] data@[j]),
            decreases n - k,
        {
            if data[k].le(&data[min_idx]) {
                proof {
                    assert forall|j: int| 0 <= j < k + 1 implies data@[k as int].le_spec(
                        #[trigger] data@[j],
                    ) by {
                        if j < k {
                            T::lemma_le_trans(data@[k as int], data@[min_idx as int], data@[j]);
                        } else {
                            T::lemma_le_total(data@[k as int], data@[k as int]);
                        }
                    }
                }
                min_idx = k;
            } else {
                proof {
                    T::lemma_le_total(data@[k as int], data@[min_idx as int]);
                }
            }
            k = k + 1;
        }
        let ghost data_before = data@;
        let ghost out_before = out@;
        let picked = data.remove(min_idx);
        out.push(picked);
        proof {
            assert(data@ =~= data_before.remove(min_idx as int));
            assert(out@ =~= out_before.push(picked));
            assert(data_before[min_idx as int] == picked);
            assert(data_before.contains(picked));
            out_before.to_multiset_ensures();
            data_before.to_multiset_ensures();
            assert(out@.to_multiset() =~= out_before.to_multiset().insert(picked));
            assert(data@.to_multiset() =~= data_before.to_multiset().remove(picked));
            assert(data_before.to_multiset().count(picked) > 0);
            assert forall|x: T|
                #[trigger] out@.to_multiset().add(data@.to_multiset()).count(x)
                    == orig.to_multiset().count(x) by {
                assert(out_before.to_multiset().add(data_before.to_multiset()).count(x)
                    == orig.to_multiset().count(x));
            }
            assert(out@.to_multiset().add(data@.to_multiset()) =~= orig.to_multiset());
            assert forall|j2: int| 0 <= j2 < data@.len() implies picked.le_spec(
                #[trigger] data@[j2],
            ) by {
                if j2 < min_idx {
                    assert(data@[j2] == data_before[j2]);
                } else {
                    assert(data@[j2] == data_before[j2 + 1]);
                }
            }
            assert forall|i2: int, j2: int|
                #![trigger out@[i2], data@[j2]]
                0 <= i2 < out@.len() && 0 <= j2 < data@.len() implies out@[i2].le_spec(
                data@[j2],
            ) by {
                if i2 < out_before.len() {
                    if j2 < min_idx {
                        assert(data@[j2] == data_before[j2]);
                        assert(out_before[i2].le_spec(data_before[j2]));
                    } else {
                        assert(data@[j2] == data_before[j2 + 1]);
                        assert(out_before[i2].le_spec(data_before[j2 + 1]));
                    }
                } else {
                    assert(out@[i2] == picked);
                }
            }
            assert forall|i2: int, j2: int| 0 <= i2 < j2 < out@.len() implies out@[i2].le_spec(
                out@[j2],
            ) by {
                if j2 < out_before.len() {
                    assert(out@[i2] == out_before[i2] && out@[j2] == out_before[j2]);
                } else {
                    assert(out@[j2] == picked);
                    assert(out_before[i2].le_spec(data_before[min_idx as int]));
                }
            }
        }
    }
    proof {
        assert(out@.to_multiset() =~= orig.to_multiset());
        assert(data@.to_multiset().len() == 0);
    }
    *data = out;
}

/// Sort in place, then take the middle element; with an even count, the
/// average of the two middle elements.
pub fn median<T: StatisticsTrait>(data: &mut Vec<T>) -> (r: T)
    requires
        old(data)@.len() > 0,
    ensures
        final(data)@.to_multiset() == old(data)@.to_multiset(),
        final(data)@.len() == old(data)@.len(),
        sorted_le(final(data)@),
        ({
            let s = final(data)@;
            let len = s.len() as int;
            if len % 2 == 0 {
                r == s[len / 2 - 1].add_spec(s[len / 2]).div_spec(
                    T::one_spec().add_spec(T::one_spec()),
                )
            } else {
                r == s[len / 2]
            }
        }),
{
    sort_vec(data);
    let len = data.len();
    if len % 2 == 0 {
        let mid1 = data[len / 2 - 1];
        let mid2 = data[len / 2];
        mid1.add(mid2).div(T::one().add(T::one()))
    } else {
        data[len / 2]
    }
}

/// The distinct values in first-occurrence order, from this position on.
pub open spec fn dedup_spec<T>(s: Seq<T>, i: int) -> Seq<T>
    decreases s.len() - i,
{
    if i < 0 || i >= s.len() {
        Seq::empty()
    } else if s.take(i).contains(s[i]) {
        dedup_spec(s, i + 1)
    } else {
        seq![s[i]].add(dedup_spec(s, i + 1))
    }
}

/// The distinct values of a vector, keeping first occurrences in order.
pub fn unique<T: Numeric>(data: &Vec<T>) -> (r: Vec<T>)
    ensures
        r@ == dedup_spec(data@, 0),
{
    let n = data.len();
    let mut out: Vec<T> = Vec::new();
    let mut i: usize = n;
    let ghost s = data@;
    while i > 0
        invariant
            i <= n,
            n == data@.len(),
            s == data@,
            out@ == dedup_spec(s, i as int),
        decreases i,
    {
        i = i - 1;
        let x = data[i];
        let mut seen = false;
        let mut j: usize = 0;
        while j < i
            invariant
                j <= i,
                i < n,
                n == data@.len(),
                s == data@,
                x == s[i as int],
                seen <==> exists|t: int| 0 <= t < j && s[t] == x,
            decreases i - j,
        {
            if data[j].eq_val(&x) {
                seen = true;
            }
            j = j + 1;
        }
        if seen {
            proof {
                let t = choose|t: int| 0 <= t < i && s[t] == x;
                assert(s.take(i as int)[t] == x);
                assert(s.take(i as int).contains(x));
            }
        } else {
            proof {
                if s.take(i as int).contains(x) {
                    let t = choose|t: int| 0 <= t < i && s.take(i as int)[t] == x;
                    assert(s[t] == x);
                }
            }
            let mut fresh: Vec<T> = Vec::new();
            fresh.push(x);
            fresh.append(&mut out);
            out = fresh;
            proof {
                assert(out@ =~= seq![s[i as int]].add(dedup_spec(s, i as int + 1)));
            }
        }
    }
    out
}

} // verus!
