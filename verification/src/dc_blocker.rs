use vstd::prelude::*;

use crate::sample::Sample;
use crate::simper::high_pass_coeffs;
use crate::simper::Simper;
use crate::Component;
use crate::ComponentMeta;

verus! {

/// IEEE 754 double bits of `5.0`, the cutoff frequency of the DC blocker in
/// hertz.
pub const FIVE_BITS: u64 = 0x4014000000000000;

/// A [`Simper`] based DC blocker, which is just a 5 Hz high-pass filter.
#[derive(Debug, Copy, Clone)]
pub struct DcBlocker<T> {
    pub filter: Simper<T>,
}

impl<T: Sample> ComponentMeta for DcBlocker<T> {
    open spec fn wf(&self) -> bool {
        self.filter.wf()
    }

    open spec fn latency_of(&self) -> int {
        self.filter.latency_of()
    }

    open spec fn resets_to(&self, r: &Self) -> bool {
        self.filter.resets_to(&r.filter)
    }

    fn reset(&mut self) {
        self.filter.reset();
    }

    fn latency(&self) -> (r: usize) {
        self.filter.latency()
    }
}

impl<T: Sample> Component<T> for DcBlocker<T> {
    open spec fn step(&self, x: T, next: &Self, out: T) -> bool {
        self.filter.step(x, &next.filter, out)
    }

    fn process(&mut self, sample: T) -> (out: T) {
        self.filter.process(sample)
    }
}

impl<T: Sample> DcBlocker<T> {
    /// A 5 Hz Butterworth high-pass for the given sample rate, starting
    /// from silence.
    pub fn new(sample_rate: T) -> (r: Self)
        ensures
            r.filter.x == high_pass_coeffs(
                sample_rate,
                T::from_bits_s(FIVE_BITS),
                T::frac_1_sqrt_2_s(),
            ),
            r.filter.ic1eq == T::zero_s(),
            r.filter.ic2eq == T::zero_s(),
    {
        DcBlocker {
            filter: Simper::high_pass(
                sample_rate,
                T::from_bits(FIVE_BITS),
                Simper::butterworth_q(),
            ),
        }
    }

    /// Rebuild the 5 Hz high-pass for a new sample rate; the filter starts
    /// from silence again.
    pub fn set_sample_rate(&mut self, sample_rate: T)
        ensures
            final(self).filter.x == high_pass_coeffs(
                sample_rate,
                T::from_bits_s(FIVE_BITS),
                T::frac_1_sqrt_2_s(),
            ),
            final(self).filter.ic1eq == T::zero_s(),
            final(self).filter.ic2eq == T::zero_s(),
    {
        self.filter = Simper::high_pass(
            sample_rate,
            T::from_bits(FIVE_BITS),
            Simper::butterworth_q(),
        );
    }
}

/// Wraps a [`Component`] with a [`DcBlocker`] after it.
#[derive(Debug, Copy, Clone)]
pub struct DcBlocked<T, C> {
    pub blocker: DcBlocker<T>,
    pub inner: C,
}

impl<T: Sample, C: ComponentMeta> ComponentMeta for DcBlocked<T, C> {
    open spec fn wf(&self) -> bool {
        &&& self.blocker.wf()
        &&& self.inner.wf()
        &&& 0 <= self.inner.latency_of()
        &&& self.blocker.latency_of() + self.inner.latency_of() <= usize::MAX
    }

    open spec fn latency_of(&self) -> int {
        self.blocker.latency_of() + self.inner.latency_of()
    }

    open spec fn resets_to(&self, r: &Self) -> bool {
        self.blocker.resets_to(&r.blocker) && self.inner.resets_to(&r.inner)
    }

    fn reset(&mut self) {
        self.blocker.reset();
        self.inner.reset();
    }

    fn latency(&self) -> (r: usize) {
        self.blocker.latency() + self.inner.latency()
    }
}

impl<T: Sample, C: Component<T>> Component<T> for DcBlocked<T, C> {
    /// The inner component runs first; its output feeds the DC blocker.
    open spec fn step(&self, x: T, next: &Self, out: T) -> bool {
        exists|mid: T|
            #[trigger] self.inner.step(x, &next.inner, mid) && self.blocker.step(
                mid,
                &next.blocker,
                out,
            )
    }

    fn process(&mut self, sample: T) -> (out: T) {
        let mid = self.inner.process(sample);
        self.blocker.process(mid)
    }
}

} // verus!
