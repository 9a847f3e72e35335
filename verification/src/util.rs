//! Utilities for aggregating metrics.

use vstd::prelude::*;

verus! {

/// What a counter shows after `accepted` samples: their number, or the
/// largest number it can show once there were more.
pub open spec fn counted(accepted: nat) -> u32 {
    if accepted <= u32::MAX {
        accepted as u32
    } else {
        u32::MAX
    }
}

/// What a counter that shows `count` shows after one more sample.
pub open spec fn count_after(count: u32) -> u32 {
    if count < u32::MAX {
        (count + 1) as u32
    } else {
        u32::MAX
    }
}

/// The number of samples that a running aggregate has taken in. It stops at
/// the largest number it can show instead of starting over from zero.
#[derive(Clone, Copy, Debug, PartialEq, Eq)]
pub struct SampleCount {
    count: u32,
}

impl View for SampleCount {
    type V = u32;

    closed spec fn view(&self) -> u32 {
        self.count
    }
}

impl SampleCount {
    /// A counter that has seen no sample.
    pub fn new() -> (fresh: SampleCount)
        ensures
            fresh@ == counted(0),
    {
        SampleCount { count: 0 }
    }

    /// A counter that has already seen `count` samples.
    pub fn from_count(count: u32) -> (resumed: SampleCount)
        ensures
            resumed@ == count,
    {
        SampleCount { count }
    }

    /// Counts one more sample and hands back how many were counted before
    /// it: the weight of the old mean when the new sample is folded in.
    pub fn accept(&mut self) -> (before: u32)
        ensures
            before == old(self)@,
            final(self)@ == count_after(old(self)@),
    {
        let before = self.count;
        self.count = before.saturating_add(1);
        before
    }

    /// The count of recorded samples.
    pub fn count(&self) -> (count: u32)
        ensures
            count == self@,
    {
        self.count
    }
}

/// The counter follows the number of samples until it can go no further:
/// one more sample takes it from what `accepted` samples amount to to what
/// `accepted + 1` amount to, which is their number as long as that fits.
pub proof fn lemma_count_follows_samples(accepted: nat)
    ensures
        count_after(counted(accepted)) == counted(accepted + 1),
        accepted <= u32::MAX ==> counted(accepted) == accepted,
        accepted >= u32::MAX ==> counted(accepted) == u32::MAX,
{
}

} // verus!
