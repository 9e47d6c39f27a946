//! Verified real-time DSP building blocks: all-pass lattices, half-band
//! filters, a power-of-two multirate oversampler, state-variable filters, and
//! the adaptors that compose them into processing graphs.
//!
//! Every element implements the [`Component`] / [`ComponentMeta`] interface,
//! and every contract is stated over the abstract [`Sample`] arithmetic of
//! [`sample::Sample`], so the same verified code drives scalar and vector
//! number formats alike.

use vstd::prelude::*;

pub mod adaptors;
pub mod cascade;
pub mod dc_blocker;
pub mod deprecated;
pub mod dsp;
pub mod gain;
pub mod half_band;
pub mod oversample;
pub mod sample;
pub mod simper;
pub mod stilson_moog;
pub mod sundara_eq;
pub mod sweeten;

verus! {

/// Trait for describing components: every DSP element reports its latency and
/// can be returned to its power-on state.
///
/// `wf` is the element's well-formedness invariant, `latency_of` the latency
/// it reports, and `resets_to` says exactly which state `reset` leaves behind.
/// Each implementation pins `resets_to` down to one state, so "reset" is never
/// under-specified.
pub trait ComponentMeta: Sized {
    spec fn wf(&self) -> bool;

    spec fn latency_of(&self) -> int;

    spec fn resets_to(&self, r: &Self) -> bool;

    fn reset(&mut self)
        requires
            old(self).wf(),
        ensures
            final(self).wf(),
            old(self).resets_to(final(self)),
            final(self).latency_of() == old(self).latency_of(),
    ;

    fn latency(&self) -> (r: usize)
        requires
            self.wf(),
        ensures
            r == self.latency_of(),
    ;
}

/// Trait for per-sample audio processing components.
///
/// `step` relates the state before a call of `process` to the state after it
/// and to the emitted sample; each implementation defines it so that input and
/// starting state determine both exactly.
pub trait Component<T>: ComponentMeta {
    spec fn step(&self, x: T, next: &Self, out: T) -> bool;

    fn process(&mut self, sample: T) -> (out: T)
        requires
            old(self).wf(),
        ensures
            final(self).wf(),
            old(self).step(sample, final(self), out),
            final(self).latency_of() == old(self).latency_of(),
    ;
}

/// A pure per-sample transform: a function of the input sample alone, with no
/// state.  Where a host would hand a closure to a processing graph, a verified
/// graph takes a value of a type implementing this trait instead, so the
/// transform's meaning (`map_s`) is available to the contracts.
pub trait SampleMap<T>: Sized {
    spec fn map_s(&self, x: T) -> T;

    fn map(&self, x: T) -> (r: T)
        ensures
            r == self.map_s(x),
    ;
}

/// A [Component] that does nothing.
#[derive(Copy, Clone, Debug, Eq, PartialEq)]
pub struct Noop;

impl ComponentMeta for Noop {
    open spec fn wf(&self) -> bool {
        true
    }

    open spec fn latency_of(&self) -> int {
        0
    }

    open spec fn resets_to(&self, r: &Self) -> bool {
        r == self
    }

    fn reset(&mut self) {
    }

    fn latency(&self) -> (r: usize) {
        0
    }
}

impl<T> Component<T> for Noop {
    open spec fn step(&self, x: T, next: &Self, out: T) -> bool {
        next == self && out == x
    }

    fn process(&mut self, sample: T) -> (out: T) {
        sample
    }
}

} // verus!
