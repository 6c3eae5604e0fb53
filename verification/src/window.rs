//! The rolling window of a sensor: its last readings, in order, with their
//! running sum, so that the mean of the window costs one division.

use std::collections::VecDeque;
use vstd::prelude::*;
use crate::clock::Timestamp;

verus! {

/// One raw reading and the time at which it was taken.
#[derive(Clone, Copy, Debug, PartialEq, Eq, Structural)]
pub struct Sample {
    /// The raw value.
    pub raw: u16,
    /// The time at which it was read.
    pub time: Timestamp,
}

/// The sum of the raw values of a run of samples.
pub open spec fn total(samples: Seq<Sample>) -> nat
    decreases samples.len(),
{
    if samples.len() == 0 {
        0
    } else {
        total(samples.drop_last()) + samples.last().raw as nat
    }
}

/// The window after one more sample: the sample joins at the end, and where
/// the window was full the oldest sample leaves at the front.
pub open spec fn slid(window: Seq<Sample>, capacity: nat, sample: Sample) -> Seq<Sample> {
    if window.len() < capacity {
        window.push(sample)
    } else {
        window.skip(1).push(sample)
    }
}

/// The sum of a run of samples is the first sample plus the sum of the rest.
proof fn total_from_front(samples: Seq<Sample>)
    requires
        samples.len() > 0,
    ensures
        total(samples) == samples[0].raw as nat + total(samples.skip(1)),
    decreases samples.len(),
{
    if samples.len() == 1 {
        assert(samples.drop_last() =~= Seq::<Sample>::empty());
        assert(samples.skip(1) =~= Seq::<Sample>::empty());
    } else {
        total_from_front(samples.drop_last());
        assert(samples.drop_last().skip(1) =~= samples.skip(1).drop_last());
        assert(samples.skip(1).last() == samples.last());
        assert(samples.drop_last()[0] == samples[0]);
    }
}

/// No sum exceeds what as many readings of the largest value add up to.
proof fn total_is_bounded(samples: Seq<Sample>)
    ensures
        total(samples) <= samples.len() * 65535,
    decreases samples.len(),
{
    if samples.len() > 0 {
        total_is_bounded(samples.drop_last());
    }
}

/// The last readings of one sensor, oldest first, never more than the
/// capacity the window was made with.
pub struct RollingWindow {
    samples: VecDeque<Sample>,
    capacity: u32,
    sum: u64,
}

impl RollingWindow {
    /// The samples in the window, oldest first.
    pub closed spec fn view(&self) -> Seq<Sample> {
        self.samples@
    }

    /// How many samples the window holds at most.
    pub closed spec fn capacity(&self) -> nat {
        self.capacity as nat
    }

    /// Whether the window is one that `new` made, whatever was pushed since:
    /// it holds room for one sample at least, no more samples than it has
    /// room for, and their sum.
    pub closed spec fn sound(&self) -> bool {
        &&& self.capacity > 0
        &&& self.samples@.len() <= self.capacity
        &&& self.sum == total(self.samples@)
    }

    /// An empty window that holds up to `capacity` samples; none where
    /// `capacity` is zero.
    pub fn new(capacity: u32) -> (window: Option<RollingWindow>)
        ensures
            capacity == 0 <==> window is None,
            window matches Some(w) ==> w.sound() && w.capacity() == capacity && w@
                == Seq::<Sample>::empty(),
    {
        if capacity == 0 {
            None
        } else {
            Some(RollingWindow { samples: VecDeque::new(), capacity, sum: 0 })
        }
    }

    /// Adds a sample at the end; the oldest leaves where the window was full.
    pub fn push(&mut self, sample: Sample)
        requires
            old(self).sound(),
        ensures
            final(self).sound(),
            final(self).capacity() == old(self).capacity(),
            final(self)@ == slid(old(self)@, old(self).capacity(), sample),
    {
        proof {
            total_is_bounded(self.samples@);
        }
        if self.samples.len() >= self.capacity as usize {
            proof {
                total_from_front(self.samples@);
            }
            let oldest = self.samples.pop_front();
            match oldest {
                Some(gone) => {
                    self.sum = self.sum - gone.raw as u64;
                },
                None => {},
            }
            assert(self.samples@ =~= old(self)@.skip(1));
        }
        proof {
            total_is_bounded(self.samples@);
            assert(self.samples@.push(sample).drop_last() =~= self.samples@);
        }
        self.samples.push_back(sample);
        self.sum = self.sum + sample.raw as u64;
    }

    /// How many samples are in the window.
    pub fn len(&self) -> (count: usize)
        ensures
            count == self@.len(),
    {
        self.samples.len()
    }

    /// The newest sample, if there is one.
    pub fn latest(&self) -> (sample: Option<Sample>)
        ensures
            self@.len() == 0 <==> sample is None,
            sample matches Some(s) ==> s == self@.last(),
    {
        let count = self.samples.len();
        if count == 0 {
            None
        } else {
            Some(self.samples[count - 1])
        }
    }

    /// The mean of the raw values in the window, rounded down; none for an
    /// empty window.
    pub fn mean(&self) -> (mean: Option<u16>)
        requires
            self.sound(),
        ensures
            self@.len() == 0 <==> mean is None,
            mean matches Some(m) ==> m as nat == total(self@) / self@.len(),
    {
        let count = self.samples.len();
        if count == 0 {
            None
        } else {
            proof {
                total_is_bounded(self.samples@);
                assert(total(self.samples@) / (count as nat) <= 65535) by (nonlinear_arith)
                    requires
                        total(self.samples@) <= count * 65535,
                        count > 0,
                ;
            }
            Some((self.sum / count as u64) as u16)
        }
    }
}

} // verus!
