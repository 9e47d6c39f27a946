use vstd::prelude::*;

use crate::sample::Sample;
use crate::Component;
use crate::ComponentMeta;

verus! {

/// IEEE 754 double bits of `0.8`.
pub const P8_BITS: u64 = 0x3FE999999999999A;

/// IEEE 754 double bits of `5.6`.
pub const P56_BITS: u64 = 0x4016666666666666;

/// IEEE 754 double bits of `0.166667`, the soft-clipping cubic weight.
pub const CLIP_BITS: u64 = 0x3FC5555821294574;

/// IEEE 754 double bits of `3.0`, the band-pass output weight.
pub const THREE_BITS: u64 = 0x4008000000000000;

#[derive(Copy, Clone, Debug, Eq, PartialEq, Ord, PartialOrd, Hash, Structural)]
pub enum MoogType {
    LowPass,
    BandPass,
    HighPass,
}

/// A Moog-style four-pole ladder filter with resonance feedback and a cubic
/// soft clip on the last pole.
#[derive(Debug)]
pub struct Moog<T> {
    pub filter_type: MoogType,
    pub f: T,
    pub p: T,
    pub q: T,
    pub b: (T, T, T, T, T),
}

/// The normalized frequency `fq / (sample_rate * 0.5)`.
pub open spec fn moog_fq<T: Sample>(sample_rate: T, fq: T) -> T {
    fq.div_s(sample_rate.mul_s(T::half_s()))
}

/// The pole coefficient `p = fq + 0.8 * fq * (1 - fq)`.
pub open spec fn moog_p<T: Sample>(nfq: T) -> T {
    nfq.add_s(T::from_bits_s(P8_BITS).mul_s(nfq).mul_s(T::one_s().sub_s(nfq)))
}

/// The feedback shape `f = p + p - 1`.
pub open spec fn moog_f<T: Sample>(p: T) -> T {
    p.add_s(p).sub_s(T::one_s())
}

/// The resonance weight
/// `q = res * (1 + 0.5 * q0 * (1 - q0 + 5.6 * q0^2))` with `q0 = 1 - fq`.
pub open spec fn moog_q<T: Sample>(nfq: T, res: T) -> T {
    res.mul_s(
        T::one_s().add_s(
            T::half_s().mul_s(T::one_s().sub_s(nfq)).mul_s(
                T::one_s().sub_s(T::one_s().sub_s(nfq)).add_s(
                    T::from_bits_s(P56_BITS).mul_s(T::one_s().sub_s(nfq)).mul_s(
                        T::one_s().sub_s(nfq),
                    ),
                ),
            ),
        ),
    )
}

impl<T: Sample> Moog<T> {
    /// The feedback-compensated input: `sample - q * b4`.
    pub open spec fn in_s(self, sample: T) -> T {
        sample.sub_s(self.q.mul_s(self.b.4))
    }

    /// The ladder state after one sample: four cascaded poles, the last one
    /// soft-clipped by its own cube.
    pub open spec fn next_s(self, sample: T) -> Moog<T> {
        let x = self.in_s(sample);
        let b1 = x.add_s(self.b.0).mul_s(self.p).sub_s(self.b.1.mul_s(self.f));
        let b2 = b1.add_s(self.b.1).mul_s(self.p).sub_s(self.b.2.mul_s(self.f));
        let b3 = b2.add_s(self.b.2).mul_s(self.p).sub_s(self.b.3.mul_s(self.f));
        let b4a = b3.add_s(self.b.3).mul_s(self.p).sub_s(self.b.4.mul_s(self.f));
        let b4 = b4a.sub_s(b4a.mul_s(b4a).mul_s(b4a).mul_s(T::from_bits_s(CLIP_BITS)));
        Moog { filter_type: self.filter_type, f: self.f, p: self.p, q: self.q, b: (
            x,
            b1,
            b2,
            b3,
            b4,
        ) }
    }

    /// The emitted sample, read off the ladder according to the filter
    /// type.
    pub open spec fn out_s(self, sample: T) -> T {
        let n = self.next_s(sample);
        match self.filter_type {
            MoogType::LowPass => n.b.4,
            MoogType::HighPass => self.in_s(sample).sub_s(n.b.4),
            MoogType::BandPass => T::from_bits_s(THREE_BITS).mul_s(n.b.3.sub_s(n.b.4)),
        }
    }

    fn new(filter_type: MoogType, sample_rate: T, fq: T, res: T) -> (r: Self)
        ensures
            r.filter_type == filter_type,
            r.p == moog_p(moog_fq(sample_rate, fq)),
            r.f == moog_f(moog_p(moog_fq(sample_rate, fq))),
            r.q == moog_q(moog_fq(sample_rate, fq), res),
            r.b == (T::zero_s(), T::zero_s(), T::zero_s(), T::zero_s(), T::zero_s()),
    {
        let nfq = fq.div(sample_rate.mul(T::half()));
        let q0 = T::one().sub(nfq);
        let p = nfq.add(T::from_bits(P8_BITS).mul(nfq).mul(q0));
        let f = p.add(p).sub(T::one());
        let q = res.mul(
            T::one().add(
                T::half().mul(q0).mul(
                    T::one().sub(q0).add(T::from_bits(P56_BITS).mul(q0).mul(q0)),
                ),
            ),
        );
        let z = T::zero();
        Moog { filter_type, q, p, f, b: (z, z, z, z, z) }
    }

    /// Advance the ladder by one sample and return the
    /// feedback-compensated input.
    fn consume_sample(&mut self, sample: T) -> (r: T)
        ensures
            *final(self) == old(self).next_s(sample),
            r == old(self).in_s(sample),
    {
        let x = sample.sub(self.q.mul(self.b.4));
        let b1 = x.add(self.b.0).mul(self.p).sub(self.b.1.mul(self.f));
        let b2 = b1.add(self.b.1).mul(self.p).sub(self.b.2.mul(self.f));
        let b3 = b2.add(self.b.2).mul(self.p).sub(self.b.3.mul(self.f));
        let b4a = b3.add(self.b.3).mul(self.p).sub(self.b.4.mul(self.f));
        let b4 = b4a.sub(b4a.mul(b4a).mul(b4a).mul(T::from_bits(CLIP_BITS)));
        self.b = (x, b1, b2, b3, b4);
        x
    }

    pub fn low_pass(sample_rate: T, fq: T, res: T) -> (r: Self)
        ensures
            r.filter_type == MoogType::LowPass,
            r.p == moog_p(moog_fq(sample_rate, fq)),
            r.f == moog_f(moog_p(moog_fq(sample_rate, fq))),
            r.q == moog_q(moog_fq(sample_rate, fq), res),
            r.b == (T::zero_s(), T::zero_s(), T::zero_s(), T::zero_s(), T::zero_s()),
    {
        Self::new(MoogType::LowPass, sample_rate, fq, res)
    }

    pub fn high_pass(sample_rate: T, fq: T, res: T) -> (r: Self)
        ensures
            r.filter_type == MoogType::HighPass,
            r.p == moog_p(moog_fq(sample_rate, fq)),
            r.f == moog_f(moog_p(moog_fq(sample_rate, fq))),
            r.q == moog_q(moog_fq(sample_rate, fq), res),
            r.b == (T::zero_s(), T::zero_s(), T::zero_s(), T::zero_s(), T::zero_s()),
    {
        Self::new(MoogType::HighPass, sample_rate, fq, res)
    }

    pub fn band_pass(sample_rate: T, fq: T, res: T) -> (r: Self)
        ensures
            r.filter_type == MoogType::BandPass,
            r.p == moog_p(moog_fq(sample_rate, fq)),
            r.f == moog_f(moog_p(moog_fq(sample_rate, fq))),
            r.q == moog_q(moog_fq(sample_rate, fq), res),
            r.b == (T::zero_s(), T::zero_s(), T::zero_s(), T::zero_s(), T::zero_s()),
    {
        Self::new(MoogType::BandPass, sample_rate, fq, res)
    }
}

impl<T: Sample> ComponentMeta for Moog<T> {
    open spec fn wf(&self) -> bool {
        true
    }

    /// The four poles delay the signal by about four samples.
    open spec fn latency_of(&self) -> int {
        4
    }

    open spec fn resets_to(&self, r: &Self) -> bool {
        &&& r.filter_type == self.filter_type
        &&& r.f == self.f
        &&& r.p == self.p
        &&& r.q == self.q
        &&& r.b == (T::zero_s(), T::zero_s(), T::zero_s(), T::zero_s(), T::zero_s())
    }

    fn reset(&mut self) {
        let z = T::zero();
        self.b = (z, z, z, z, z);
    }

    fn latency(&self) -> (r: usize) {
        4
    }
}

impl<T: Sample> Component<T> for Moog<T> {
    open spec fn step(&self, x: T, next: &Self, out: T) -> bool {
        *next == self.next_s(x) && out == self.out_s(x)
    }

    fn process(&mut self, sample: T) -> (out: T) {
        let x = self.consume_sample(sample);
        match self.filter_type {
            MoogType::LowPass => self.b.4,
            MoogType::HighPass => x.sub(self.b.4),
            MoogType::BandPass => T::from_bits(THREE_BITS).mul(self.b.3.sub(self.b.4)),
        }
    }
}

} // verus!
