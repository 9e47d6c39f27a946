use vstd::prelude::*;

use crate::sample::Sample;
use crate::Component;
use crate::ComponentMeta;

verus! {

/// IEEE 754 double bits of `44100.0`, the reference sample rate.
pub const C44100_BITS: u64 = 0x40E5888000000000;

/// IEEE 754 double bits of `2.0`, `3.0` and `4.0`: the undersampling
/// thresholds.
pub const TWO_BITS: u64 = 0x4000000000000000;

pub const THREE_BITS: u64 = 0x4008000000000000;

pub const FOUR_BITS: u64 = 0x4010000000000000;

/// IEEE 754 double bits of `10.0`.
pub const TEN_BITS: u64 = 0x4024000000000000;

/// IEEE 754 double bits of the saturation weights `2^0 .. 2^-10`, selected
/// by `set_amount`.
pub const SW0_BITS: u64 = 0x3FF0000000000000;

pub const SW1_BITS: u64 = 0x3FE0000000000000;

pub const SW2_BITS: u64 = 0x3FD0000000000000;

pub const SW3_BITS: u64 = 0x3FC0000000000000;

pub const SW4_BITS: u64 = 0x3FB0000000000000;

pub const SW5_BITS: u64 = 0x3FA0000000000000;

pub const SW6_BITS: u64 = 0x3F90000000000000;

pub const SW7_BITS: u64 = 0x3F80000000000000;

pub const SW8_BITS: u64 = 0x3F70000000000000;

pub const SW9_BITS: u64 = 0x3F60000000000000;

pub const SW10_BITS: u64 = 0x3F50000000000000;

/// How many averaging stages run on each side of the nonlinearity: one per
/// doubling of the sample rate over the reference, capped at four.
pub open spec fn cycle_of<T: Sample>(scale: T) -> i32 {
    if scale.ge_s(T::from_bits_s(FOUR_BITS)) {
        4
    } else if scale.ge_s(T::from_bits_s(THREE_BITS)) {
        3
    } else if scale.ge_s(T::from_bits_s(TWO_BITS)) {
        2
    } else {
        1
    }
}

/// The saturation weight for ten times the amount knob: each whole step of
/// the knob doubles the weight, from `2^-10` at zero up to `1` at full.
pub open spec fn sweet_of<T: Sample>(a10: T) -> T {
    if a10.ge_s(T::from_bits_s(TEN_BITS)) {
        T::from_bits_s(SW0_BITS)
    } else if a10.ge_s(T::from_bits_s(0x4022000000000000)) {
        T::from_bits_s(SW1_BITS)
    } else if a10.ge_s(T::from_bits_s(0x4020000000000000)) {
        T::from_bits_s(SW2_BITS)
    } else if a10.ge_s(T::from_bits_s(0x401C000000000000)) {
        T::from_bits_s(SW3_BITS)
    } else if a10.ge_s(T::from_bits_s(0x4018000000000000)) {
        T::from_bits_s(SW4_BITS)
    } else if a10.ge_s(T::from_bits_s(0x4014000000000000)) {
        T::from_bits_s(SW5_BITS)
    } else if a10.ge_s(T::from_bits_s(FOUR_BITS)) {
        T::from_bits_s(SW6_BITS)
    } else if a10.ge_s(T::from_bits_s(THREE_BITS)) {
        T::from_bits_s(SW7_BITS)
    } else if a10.ge_s(T::from_bits_s(TWO_BITS)) {
        T::from_bits_s(SW8_BITS)
    } else if a10.ge_s(T::from_bits_s(SW0_BITS)) {
        T::from_bits_s(SW9_BITS)
    } else {
        T::from_bits_s(SW10_BITS)
    }
}

/// A subtle saturator that produces 2nd order harmonics: the input is
/// averaged, squared and scaled, averaged again, and the result subtracted
/// from the dry signal.
#[derive(Debug)]
pub struct Sweeten<T> {
    pub cycle_end: i32,
    pub sweet: T,
    pub savg: (T, T, T, T, T, T, T, T),
}

impl<T: Sample> Sweeten<T> {
    /// One sample through the saturator: the new state and the emitted
    /// sample.  Each active averaging stage replaces its register with the
    /// value it was shown and emits the mean of the two.
    pub open spec fn next_out_s(self, sample: T) -> (Sweeten<T>, T) {
        let h = T::half_s();
        let sv0 = sample;
        let s1 = sample.add_s(self.savg.0).mul_s(h);
        let (sv1, s2) = if self.cycle_end > 1 {
            (s1, s1.add_s(self.savg.1).mul_s(h))
        } else {
            (self.savg.1, s1)
        };
        let (sv2, s3) = if self.cycle_end > 2 {
            (s2, s2.add_s(self.savg.2).mul_s(h))
        } else {
            (self.savg.2, s2)
        };
        let (sv3, s4) = if self.cycle_end > 3 {
            (s3, s3.add_s(self.savg.3).mul_s(h))
        } else {
            (self.savg.3, s3)
        };
        let sn = s4.mul_s(s4).mul_s(self.sweet);
        let sv4 = sn;
        let t5 = sn.add_s(self.savg.4).mul_s(h);
        let (sv5, t6) = if self.cycle_end > 1 {
            (t5, t5.add_s(self.savg.5).mul_s(h))
        } else {
            (self.savg.5, t5)
        };
        let (sv6, t7) = if self.cycle_end > 2 {
            (t6, t6.add_s(self.savg.6).mul_s(h))
        } else {
            (self.savg.6, t6)
        };
        let (sv7, t8) = if self.cycle_end > 3 {
            (t7, t7.add_s(self.savg.7).mul_s(h))
        } else {
            (self.savg.7, t7)
        };
        (
            Sweeten {
                cycle_end: self.cycle_end,
                sweet: self.sweet,
                savg: (sv0, sv1, sv2, sv3, sv4, sv5, sv6, sv7),
            },
            sample.sub_s(t8),
        )
    }

    /// Create a new [`Sweeten`] for the given sample rate, at the default
    /// (lowest) saturation amount.
    pub fn new(sample_rate: T) -> (r: Self)
        ensures
            r.cycle_end == cycle_of(
                T::one_s().div_s(T::from_bits_s(C44100_BITS)).mul_s(sample_rate),
            ),
            r.sweet == T::from_bits_s(SW10_BITS),
            r.savg == (
                T::zero_s(),
                T::zero_s(),
                T::zero_s(),
                T::zero_s(),
                T::zero_s(),
                T::zero_s(),
                T::zero_s(),
                T::zero_s(),
            ),
    {
        let overall_scale = T::one().div(T::from_bits(C44100_BITS)).mul(sample_rate);
        let cycle_end: i32 = if overall_scale.all_ge(T::from_bits(FOUR_BITS)) {
            4
        } else if overall_scale.all_ge(T::from_bits(THREE_BITS)) {
            3
        } else if overall_scale.all_ge(T::from_bits(TWO_BITS)) {
            2
        } else {
            1
        };
        let z = T::zero();
        Sweeten {
            cycle_end,
            sweet: T::from_bits(SW10_BITS),
            savg: (z, z, z, z, z, z, z, z),
        }
    }

    /// Set saturation amount from `0` to `1`: each tenth of the knob
    /// doubles the second-harmonic weight.
    pub fn set_amount(&mut self, amount: T)
        ensures
            final(self).cycle_end == old(self).cycle_end,
            final(self).savg == old(self).savg,
            final(self).sweet == sweet_of(amount.mul_s(T::from_bits_s(TEN_BITS))),
    {
        let a10 = amount.mul(T::from_bits(TEN_BITS));
        self.sweet = if a10.all_ge(T::from_bits(TEN_BITS)) {
            T::from_bits(SW0_BITS)
        } else if a10.all_ge(T::from_bits(0x4022000000000000)) {
            T::from_bits(SW1_BITS)
        } else if a10.all_ge(T::from_bits(0x4020000000000000)) {
            T::from_bits(SW2_BITS)
        } else if a10.all_ge(T::from_bits(0x401C000000000000)) {
            T::from_bits(SW3_BITS)
        } else if a10.all_ge(T::from_bits(0x4018000000000000)) {
            T::from_bits(SW4_BITS)
        } else if a10.all_ge(T::from_bits(0x4014000000000000)) {
            T::from_bits(SW5_BITS)
        } else if a10.all_ge(T::from_bits(FOUR_BITS)) {
            T::from_bits(SW6_BITS)
        } else if a10.all_ge(T::from_bits(THREE_BITS)) {
            T::from_bits(SW7_BITS)
        } else if a10.all_ge(T::from_bits(TWO_BITS)) {
            T::from_bits(SW8_BITS)
        } else if a10.all_ge(T::from_bits(SW0_BITS)) {
            T::from_bits(SW9_BITS)
        } else {
            T::from_bits(SW10_BITS)
        };
    }
}

impl<T: Sample> ComponentMeta for Sweeten<T> {
    open spec fn wf(&self) -> bool {
        true
    }

    open spec fn latency_of(&self) -> int {
        0
    }

    open spec fn resets_to(&self, r: &Self) -> bool {
        &&& r.cycle_end == self.cycle_end
        &&& r.sweet == self.sweet
        &&& r.savg == (
            T::zero_s(),
            T::zero_s(),
            T::zero_s(),
            T::zero_s(),
            T::zero_s(),
            T::zero_s(),
            T::zero_s(),
            T::zero_s(),
        )
    }

    fn reset(&mut self) {
        let z = T::zero();
        self.savg = (z, z, z, z, z, z, z, z);
    }

    fn latency(&self) -> (r: usize) {
        0
    }
}

impl<T: Sample> Component<T> for Sweeten<T> {
    open spec fn step(&self, x: T, next: &Self, out: T) -> bool {
        *next == self.next_out_s(x).0 && out == self.next_out_s(x).1
    }

    fn process(&mut self, sample: T) -> (out: T) {
        let h = T::half();
        let mut sweet_sample = sample;
        let mut sv = sweet_sample;
        sweet_sample = sweet_sample.add(self.savg.0).mul(h);
        let sv0 = sv;
        let mut sv1 = self.savg.1;
        let mut sv2 = self.savg.2;
        let mut sv3 = self.savg.3;
        if self.cycle_end > 1 {
            sv = sweet_sample;
            sweet_sample = sweet_sample.add(self.savg.1).mul(h);
            sv1 = sv;
            if self.cycle_end > 2 {
                sv = sweet_sample;
                sweet_sample = sweet_sample.add(self.savg.2).mul(h);
                sv2 = sv;
                if self.cycle_end > 3 {
                    sv = sweet_sample;
                    sweet_sample = sweet_sample.add(self.savg.3).mul(h);
                    sv3 = sv;
                }
            }
        }
        sweet_sample = sweet_sample.mul(sweet_sample).mul(self.sweet);
        sv = sweet_sample;
        sweet_sample = sweet_sample.add(self.savg.4).mul(h);
        let sv4 = sv;
        let mut sv5 = self.savg.5;
        let mut sv6 = self.savg.6;
        let mut sv7 = self.savg.7;
        if self.cycle_end > 1 {
            sv = sweet_sample;
            sweet_sample = sweet_sample.add(self.savg.5).mul(h);
            sv5 = sv;
            if self.cycle_end > 2 {
                sv = sweet_sample;
                sweet_sample = sweet_sample.add(self.savg.6).mul(h);
                sv6 = sv;
                if self.cycle_end > 3 {
                    sv = sweet_sample;
                    sweet_sample = sweet_sample.add(self.savg.7).mul(h);
                    sv7 = sv;
                }
            }
        }
        self.savg = (sv0, sv1, sv2, sv3, sv4, sv5, sv6, sv7);
        sample.sub(sweet_sample)
    }
}

} // verus!
