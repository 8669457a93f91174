//! The verifiable core of task monitoring: the bounded ring of recent
//! occupancy samples (the sampler itself reads CPU clocks and lives with
//! the host application), and the cadence counter that decides when the
//! rolling statistics are recomputed.

use vstd::prelude::*;

verus! {

/// The number of samples a task's ring retains.
pub const OCCUPANCY_RING_CAPACITY: usize = 100;

/// A bounded ring of the most recent samples: pushing beyond the capacity
/// evicts the oldest sample.
pub struct OccupancyRing<T> {
    items: Vec<T>,
    capacity: usize,
}

impl<T> OccupancyRing<T> {
    pub closed spec fn items_seq(&self) -> Seq<T> {
        self.items@
    }

    pub closed spec fn capacity_spec(&self) -> nat {
        self.capacity as nat
    }

    /// Never more samples than the capacity.
    pub closed spec fn wf(&self) -> bool {
        self.items@.len() <= self.capacity && self.capacity >= 1
    }

    pub fn new(capacity: usize) -> (r: Self)
        requires
            capacity >= 1,
        ensures
            r.wf(),
            r.capacity_spec() == capacity,
            r.items_seq() =~= Seq::<T>::empty(),
    {
        OccupancyRing { items: Vec::new(), capacity }
    }

    pub fn len(&self) -> (r: usize)
        ensures
            r == self.items_seq().len(),
    {
        self.items.len()
    }

    /// Append the newest sample; beyond the capacity the oldest leaves.
    pub fn push(&mut self, sample: T)
        requires
            old(self).wf(),
        ensures
            final(self).wf(),
            final(self).capacity_spec() == old(self).capacity_spec(),
            old(self).items_seq().len() < old(self).capacity_spec() ==> final(self).items_seq()
                =~= old(self).items_seq().push(sample),
            old(self).items_seq().len() == old(self).capacity_spec() ==> final(self).items_seq()
                =~= old(self).items_seq().push(sample).drop_first(),
    {
        self.items.push(sample);
        if self.items.len() > self.capacity {
            let _ = self.items.remove(0);
            proof {
                assert(self.items@ =~= old(self).items@.push(sample).drop_first());
            }
        }
    }

    /// The retained samples, oldest first.
    pub fn samples(&self) -> (r: &Vec<T>)
        ensures
            r@ == self.items_seq(),
    {
        &self.items
    }
}

/// The cadence counter: one tick per sampling round, firing every
/// `interval` rounds, when the rolling statistics are due.
pub struct StatisticsCadence {
    count_updates: usize,
    interval_statistics: usize,
}

impl StatisticsCadence {
    pub closed spec fn count_spec(&self) -> nat {
        self.count_updates as nat
    }

    pub closed spec fn interval_spec(&self) -> nat {
        self.interval_statistics as nat
    }

    pub closed spec fn wf(&self) -> bool {
        self.interval_statistics >= 1 && self.count_updates < self.interval_statistics
    }

    pub fn new(interval: usize) -> (r: Self)
        requires
            interval >= 1,
        ensures
            r.wf(),
            r.interval_spec() == interval,
            r.count_spec() == 0,
    {
        StatisticsCadence { count_updates: 0, interval_statistics: interval }
    }

    /// Count one sampling round; true exactly on every `interval`-th call,
    /// which resets the counter.
    pub fn tick(&mut self) -> (due: bool)
        requires
            old(self).wf(),
        ensures
            final(self).wf(),
            final(self).interval_spec() == old(self).interval_spec(),
            due <==> old(self).count_spec() + 1 == old(self).interval_spec(),
            due ==> final(self).count_spec() == 0,
            !due ==> final(self).count_spec() == old(self).count_spec() + 1,
    {
        self.count_updates = self.count_updates + 1;
        proof {
            if self.count_updates < self.interval_statistics {
                vstd::arithmetic::div_mod::lemma_small_mod(
                    self.count_updates as nat,
                    self.interval_statistics as nat,
                );
            } else {
                vstd::arithmetic::div_mod::lemma_mod_self_0(self.interval_statistics as int);
            }
        }
        if self.count_updates % self.interval_statistics == 0 {
            self.count_updates = 0;
            true
        } else {
            false
        }
    }
}

} // verus!
