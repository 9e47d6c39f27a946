use vstd::prelude::*;

use crate::sample::Sample;
use crate::Component;
use crate::ComponentMeta;

verus! {

/// IEEE 754 double bits of `190.0`, the leak frequency constant of the
/// one-pole DC blocker.
pub const C190_BITS: u64 = 0x4067C00000000000;

/// A one-pole DC blocker: `y = x - x_prev + r * y_prev` with the leak
/// coefficient `r = 1 - 190 / sample_rate`.
#[derive(Debug, Copy, Clone)]
pub struct DcBlocker<T> {
    pub x: T,
    pub y: T,
    pub r: T,
}

impl<T: Sample> DcBlocker<T> {
    /// The sample the blocker emits for input `s`.
    pub open spec fn out_s(self, s: T) -> T {
        s.sub_s(self.x).add_s(self.r.mul_s(self.y))
    }

    /// The blocker state after one sample.
    pub open spec fn next_s(self, s: T) -> DcBlocker<T> {
        DcBlocker { x: s, y: self.out_s(s), r: self.r }
    }

    pub fn new(sample_rate: T) -> (r: Self)
        ensures
            r.x == T::zero_s(),
            r.y == T::zero_s(),
            r.r == T::one_s().sub_s(T::from_bits_s(C190_BITS).div_s(sample_rate)),
    {
        DcBlocker {
            x: T::zero(),
            y: T::zero(),
            r: T::one().sub(T::from_bits(C190_BITS).div(sample_rate)),
        }
    }
}

impl<T: Sample> ComponentMeta for DcBlocker<T> {
    open spec fn wf(&self) -> bool {
        true
    }

    open spec fn latency_of(&self) -> int {
        0
    }

    open spec fn resets_to(&self, r: &Self) -> bool {
        r.x == T::zero_s() && r.y == T::zero_s() && r.r == self.r
    }

    fn reset(&mut self) {
        self.x = T::zero();
        self.y = T::zero();
    }

    fn latency(&self) -> (r: usize) {
        0
    }
}

impl<T: Sample> Component<T> for DcBlocker<T> {
    open spec fn step(&self, x: T, next: &Self, out: T) -> bool {
        *next == self.next_s(x) && out == self.out_s(x)
    }

    fn process(&mut self, sample: T) -> (out: T) {
        self.y = sample.sub(self.x).add(self.r.mul(self.y));
        self.x = sample;
        self.y
    }
}

} // verus!
