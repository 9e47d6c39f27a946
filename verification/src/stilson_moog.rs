use vstd::prelude::*;

use crate::sample::Sample;

verus! {

/// The constants of the ladder recurrence, as IEEE 754 double bits of the
/// single-precision values the design was tuned with.
pub const C1_8_BITS: u64 = 0x3FFCCCCCC0000000;

pub const P8_BITS: u64 = 0x3FE99999A0000000;

pub const TWO_BITS: u64 = 0x4000000000000000;

pub const C1386249_BITS: u64 = 0x3FF62E1360000000;

pub const C12_BITS: u64 = 0x4028000000000000;

pub const SIX_BITS: u64 = 0x4018000000000000;

pub const CLIP_BITS: u64 = 0x3FC5555820000000;

/** 24dB/oct slope low-pass filter.

A Stilson/Smith Moog-style ladder: four cascaded one-pole sections under a
resonance feedback loop, with a cubic soft clip on the last pole.  Cutoff
and resonance are arguments of every `process` call, so they can be swept
per sample.
**/
#[derive(Debug)]
pub struct LowPassSM<T> {
    pub israte: T,
    pub b0: T,
    pub b1: T,
    pub b2: T,
    pub b3: T,
    pub delay: (T, T, T, T),
}

/// The pole coefficient for a normalized cutoff: `c * (1.8 - 0.8 * c)`.
pub open spec fn sm_p<T: Sample>(c: T) -> T {
    c.mul_s(T::from_bits_s(C1_8_BITS).sub_s(T::from_bits_s(P8_BITS).mul_s(c)))
}

/// The pole feedback for a normalized cutoff:
/// `2 * sin(c * pi * 0.5) - 1`.
pub open spec fn sm_k<T: Sample>(c: T) -> T {
    T::from_bits_s(TWO_BITS).mul_s(c.mul_s(T::pi_s()).mul_s(T::half_s()).sin_s()).sub_s(
        T::one_s(),
    )
}

/// The corrected resonance: with `t1 = (1 - p) * 1.386249` and
/// `t2 = 12 + t1^2`, the knob value is scaled by
/// `(t2 + 6*t1) / (t2 - 6*t1)`.
pub open spec fn sm_res<T: Sample>(p: T, resonance: T) -> T {
    let t1 = T::one_s().sub_s(p).mul_s(T::from_bits_s(C1386249_BITS));
    let t2 = T::from_bits_s(C12_BITS).add_s(t1.mul_s(t1));
    resonance.mul_s(t2.add_s(T::from_bits_s(SIX_BITS).mul_s(t1))).div_s(
        t2.sub_s(T::from_bits_s(SIX_BITS).mul_s(t1)),
    )
}

impl<T: Sample> LowPassSM<T> {
    /// The filter state after one sample at the given cutoff and
    /// resonance.
    pub open spec fn next_s(self, sample: T, cutoff: T, resonance: T) -> LowPassSM<T> {
        let c = cutoff.mul_s(self.israte);
        let p = sm_p(c);
        let k = sm_k(c);
        let res = sm_res(p, resonance);
        let x = sample.sub_s(res.mul_s(self.b3));
        let b0 = x.mul_s(p).add_s(self.delay.0.mul_s(p)).sub_s(k.mul_s(self.b0));
        let b1 = b0.mul_s(p).add_s(self.delay.1.mul_s(p)).sub_s(k.mul_s(self.b1));
        let b2 = b1.mul_s(p).add_s(self.delay.2.mul_s(p)).sub_s(k.mul_s(self.b2));
        let b3a = b2.mul_s(p).add_s(self.delay.3.mul_s(p)).sub_s(k.mul_s(self.b3));
        let b3 = b3a.sub_s(b3a.mul_s(b3a).mul_s(b3a).mul_s(T::from_bits_s(CLIP_BITS)));
        LowPassSM { israte: self.israte, b0, b1, b2, b3, delay: (x, b0, b1, b2) }
    }

    pub fn new(sample_rate: T) -> (r: Self)
        ensures
            r.israte == T::one_s().div_s(sample_rate),
            r.b0 == T::zero_s(),
            r.b1 == T::zero_s(),
            r.b2 == T::zero_s(),
            r.b3 == T::zero_s(),
            r.delay == (T::zero_s(), T::zero_s(), T::zero_s(), T::zero_s()),
    {
        let z = T::zero();
        LowPassSM {
            israte: T::one().div(sample_rate),
            b0: z,
            b1: z,
            b2: z,
            b3: z,
            delay: (z, z, z, z),
        }
    }

    /// Advance the ladder by one sample; the output is the soft-clipped
    /// last pole.
    pub fn process(&mut self, sample: T, cutoff: T, resonance: T) -> (out: T)
        ensures
            *final(self) == old(self).next_s(sample, cutoff, resonance),
            out == old(self).next_s(sample, cutoff, resonance).b3,
    {
        let c = cutoff.mul(self.israte);
        let p = c.mul(T::from_bits(C1_8_BITS).sub(T::from_bits(P8_BITS).mul(c)));
        let k = T::from_bits(TWO_BITS).mul(c.mul(T::pi()).mul(T::half()).sin()).sub(
            T::one(),
        );
        let t1 = T::one().sub(p).mul(T::from_bits(C1386249_BITS));
        let t2 = T::from_bits(C12_BITS).add(t1.mul(t1));
        let res = resonance.mul(t2.add(T::from_bits(SIX_BITS).mul(t1))).div(
            t2.sub(T::from_bits(SIX_BITS).mul(t1)),
        );
        let x = sample.sub(res.mul(self.b3));
        self.b0 = x.mul(p).add(self.delay.0.mul(p)).sub(k.mul(self.b0));
        self.b1 = self.b0.mul(p).add(self.delay.1.mul(p)).sub(k.mul(self.b1));
        self.b2 = self.b1.mul(p).add(self.delay.2.mul(p)).sub(k.mul(self.b2));
        self.b3 = self.b2.mul(p).add(self.delay.3.mul(p)).sub(k.mul(self.b3));
        self.b3 = self.b3.sub(self.b3.mul(self.b3).mul(self.b3).mul(T::from_bits(CLIP_BITS)));
        self.delay = (x, self.b0, self.b1, self.b2);
        self.b3
    }

    pub fn reset(&mut self)
        ensures
            final(self).israte == old(self).israte,
            final(self).b0 == T::zero_s(),
            final(self).b1 == T::zero_s(),
            final(self).b2 == T::zero_s(),
            final(self).b3 == T::zero_s(),
            final(self).delay == (T::zero_s(), T::zero_s(), T::zero_s(), T::zero_s()),
    {
        let z = T::zero();
        self.b0 = z;
        self.b1 = z;
        self.b2 = z;
        self.b3 = z;
        self.delay = (z, z, z, z);
    }
}

} // verus!
