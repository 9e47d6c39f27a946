use vstd::prelude::*;

use crate::sample::Sample;
use crate::Component;
use crate::ComponentMeta;
use crate::SampleMap;

verus! {

/// Apply voltage gain to every sample of a block, in place.
pub fn apply_gain<S: Sample>(gain: S, samples: &mut Vec<S>)
    ensures
        final(samples)@.len() == old(samples)@.len(),
        forall|i: int|
            0 <= i < old(samples)@.len() ==> #[trigger] final(samples)@[i] == old(
                samples,
            )@[i].mul_s(gain),
{
    let n = samples.len();
    let mut i: usize = 0;
    while i < n
        invariant
            n == samples@.len(),
            old(samples)@.len() == n,
            i <= n,
            forall|j: int| i <= j < n ==> samples@[j] == old(samples)@[j],
            forall|j: int|
                0 <= j < i ==> #[trigger] samples@[j] == old(samples)@[j].mul_s(gain),
        decreases n - i,
    {
        let v = samples[i];
        samples[i] = v.mul(gain);
        i = i + 1;
    }
}

/// A clean gain [`Component`]: multiplies every sample by a constant, with
/// no state.
#[derive(Debug, Copy, Clone)]
pub struct Gain<T>(pub T);

impl<T> ComponentMeta for Gain<T> {
    open spec fn wf(&self) -> bool {
        true
    }

    open spec fn latency_of(&self) -> int {
        0
    }

    open spec fn resets_to(&self, r: &Self) -> bool {
        r == self
    }

    fn reset(&mut self) {
    }

    fn latency(&self) -> (r: usize) {
        0
    }
}

impl<T: Sample> Component<T> for Gain<T> {
    open spec fn step(&self, x: T, next: &Self, out: T) -> bool {
        next == self && out == x.mul_s(self.0)
    }

    fn process(&mut self, sample: T) -> (out: T) {
        sample.mul(self.0)
    }
}

impl<T: Sample> SampleMap<T> for Gain<T> {
    open spec fn map_s(&self, x: T) -> T {
        x.mul_s(self.0)
    }

    fn map(&self, x: T) -> (r: T) {
        x.mul(self.0)
    }
}

} // verus!
