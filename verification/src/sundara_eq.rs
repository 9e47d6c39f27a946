use vstd::prelude::*;

use crate::cascade::stages_step;
use crate::cascade::Cascade;
use crate::sample::Sample;
use crate::simper::bell_coeffs;
use crate::simper::low_shelf_coeffs;
use crate::simper::Simper;
use crate::Component;
use crate::ComponentMeta;

verus! {

/// IEEE 754 double bits of the fixed correction curve's design parameters.
pub const C44100_BITS: u64 = 0x40E5888000000000;

pub const C5000_BITS: u64 = 0x40B3880000000000;

pub const C50_BITS: u64 = 0x4049000000000000;

pub const C1_BITS: u64 = 0x3FF0000000000000;

pub const C3_5_BITS: u64 = 0x400C000000000000;

pub const C2112_BITS: u64 = 0x40A0800000000000;

pub const C1_5_BITS: u64 = 0x3FF8000000000000;

pub const C2_5_BITS: u64 = 0x4004000000000000;

pub const C6300_BITS: u64 = 0x40B89C0000000000;

pub const CN3_BITS: u64 = 0xC008000000000000;

/// IEEE 754 double bits of `4.0`, the Q of the upper bell.
pub const C4_BITS_Q: u64 = 0x4010000000000000;

pub const CN4_BITS: u64 = 0xC010000000000000;

pub const C20_BITS: u64 = 0x4034000000000000;

pub const TEN_BITS: u64 = 0x4024000000000000;

pub const ZERO_BITS: u64 = 0x0000000000000000;

/// The preamp gain: `-4 dB`, that is `10^(-4/20)`, making room for the
/// boosting bands.
pub open spec fn preamp_of<T: Sample>() -> T {
    T::from_bits_s(TEN_BITS).pow_s(
        T::from_bits_s(CN4_BITS).div_s(T::from_bits_s(C20_BITS)),
    )
}

/// A fixed three-band correction EQ for one headphone model: a low shelf
/// and two bells behind a `-4 dB` preamp.
#[derive(Debug)]
pub struct SundaraEq<T> {
    pub filters: Cascade<Simper<T>>,
    pub preamp: T,
}

impl<T: Sample> SundaraEq<T> {
    fn preamp_value() -> (r: T)
        ensures
            r == preamp_of::<T>(),
    {
        T::from_bits(TEN_BITS).pow(T::from_bits(CN4_BITS).div(T::from_bits(C20_BITS)))
    }

    /// The correction curve for the given sample rate: a `+3.5 dB` low
    /// shelf at 50 Hz, a `+2.5 dB` bell at 2112 Hz and a `-3 dB` bell at
    /// 6300 Hz, each starting from silence.
    pub fn new(sample_rate: T) -> (r: Self)
        ensures
            r.wf(),
            r.preamp == preamp_of::<T>(),
            r.filters.0@.len() == 3,
            r.filters.0@[0].x == low_shelf_coeffs(
                sample_rate,
                T::from_bits_s(C50_BITS),
                T::from_bits_s(C1_BITS),
                T::from_bits_s(C3_5_BITS),
            ),
            r.filters.0@[1].x == bell_coeffs(
                sample_rate,
                T::from_bits_s(C2112_BITS),
                T::from_bits_s(C1_5_BITS),
                T::from_bits_s(C2_5_BITS),
            ),
            r.filters.0@[2].x == bell_coeffs(
                sample_rate,
                T::from_bits_s(C6300_BITS),
                T::from_bits_s(C4_BITS_Q),
                T::from_bits_s(CN3_BITS),
            ),
            forall|i: int|
                0 <= i < 3 ==> (#[trigger] r.filters.0@[i]).ic1eq == T::zero_s()
                    && r.filters.0@[i].ic2eq == T::zero_s(),
    {
        let mut v: Vec<Simper<T>> = Vec::new();
        v.push(
            Simper::low_shelf(
                sample_rate,
                T::from_bits(C50_BITS),
                T::from_bits(C1_BITS),
                T::from_bits(C3_5_BITS),
            ),
        );
        v.push(
            Simper::bell(
                sample_rate,
                T::from_bits(C2112_BITS),
                T::from_bits(C1_5_BITS),
                T::from_bits(C2_5_BITS),
            ),
        );
        v.push(
            Simper::bell(
                sample_rate,
                T::from_bits(C6300_BITS),
                T::from_bits(C4_BITS_Q),
                T::from_bits(CN3_BITS),
            ),
        );
        let r = SundaraEq { filters: Cascade(v), preamp: Self::preamp_value() };
        proof {
            assert forall|i: int| 0 <= i < r.filters.0@.len() implies (
            #[trigger] r.filters.0@[i]).latency_of() == 0 by {}
            crate::cascade::lemma_stages_latency_zero(r.filters.0@);
        }
        r
    }
}

impl<T: Sample> Default for SundaraEq<T> {
    /// Three flat bells at 5 kHz for the reference 44100 Hz rate, behind
    /// the fixed preamp: a neutral starting point awaiting `new`.
    fn default() -> (r: Self)
        ensures
            r.wf(),
            r.preamp == preamp_of::<T>(),
            r.filters.0@.len() == 3,
            forall|i: int|
                0 <= i < 3 ==> (#[trigger] r.filters.0@[i]).x == bell_coeffs(
                    T::from_bits_s(C44100_BITS),
                    T::from_bits_s(C5000_BITS),
                    T::frac_1_sqrt_2_s(),
                    T::from_bits_s(ZERO_BITS),
                ),
            forall|i: int|
                0 <= i < 3 ==> (#[trigger] r.filters.0@[i]).ic1eq == T::zero_s()
                    && r.filters.0@[i].ic2eq == T::zero_s(),
    {
        let mut v: Vec<Simper<T>> = Vec::new();
        let mut i: usize = 0;
        while i < 3
            invariant
                i <= 3,
                v@.len() == i,
                forall|j: int|
                    0 <= j < i ==> (#[trigger] v@[j]).x == bell_coeffs(
                        T::from_bits_s(C44100_BITS),
                        T::from_bits_s(C5000_BITS),
                        T::frac_1_sqrt_2_s(),
                        T::from_bits_s(ZERO_BITS),
                    ),
                forall|j: int|
                    0 <= j < i ==> (#[trigger] v@[j]).ic1eq == T::zero_s() && v@[j].ic2eq
                        == T::zero_s(),
            decreases 3 - i,
        {
            v.push(
                Simper::bell(
                    T::from_bits(C44100_BITS),
                    T::from_bits(C5000_BITS),
                    Simper::butterworth_q(),
                    T::from_bits(ZERO_BITS),
                ),
            );
            i = i + 1;
        }
        let r = SundaraEq { filters: Cascade(v), preamp: Self::preamp_value() };
        proof {
            assert forall|i: int| 0 <= i < r.filters.0@.len() implies (
            #[trigger] r.filters.0@[i]).latency_of() == 0 by {}
            crate::cascade::lemma_stages_latency_zero(r.filters.0@);
        }
        r
    }
}

impl<T: Sample> ComponentMeta for SundaraEq<T> {
    open spec fn wf(&self) -> bool {
        self.filters.wf()
    }

    open spec fn latency_of(&self) -> int {
        self.filters.latency_of()
    }

    open spec fn resets_to(&self, r: &Self) -> bool {
        self.filters.resets_to(&r.filters) && r.preamp == self.preamp
    }

    fn reset(&mut self) {
        self.filters.reset();
    }

    fn latency(&self) -> (r: usize) {
        self.filters.latency()
    }
}

impl<T: Sample> Component<T> for SundaraEq<T> {
    /// The preamp scales the sample, then the three bands run in order.
    open spec fn step(&self, x: T, next: &Self, out: T) -> bool {
        next.preamp == self.preamp && stages_step(
            self.filters.0@,
            self.preamp.mul_s(x),
            next.filters.0@,
            out,
        )
    }

    fn process(&mut self, sample: T) -> (out: T) {
        self.filters.process(self.preamp.mul(sample))
    }
}

} // verus!
