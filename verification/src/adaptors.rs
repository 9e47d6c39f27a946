use vstd::prelude::*;

use crate::Component;
use crate::ComponentMeta;
use crate::SampleMap;

verus! {

/// A wrapped pure per-sample transform, to implement [Component].
#[derive(Debug, Copy, Clone)]
pub struct Func<F>(pub F);

impl<F> ComponentMeta for Func<F> {
    open spec fn wf(&self) -> bool {
        true
    }

    open spec fn latency_of(&self) -> int {
        0
    }

    open spec fn resets_to(&self, r: &Self) -> bool {
        r == self
    }

    fn reset(&mut self) {
    }

    fn latency(&self) -> (r: usize) {
        0
    }
}

impl<T, F: SampleMap<T>> Component<T> for Func<F> {
    open spec fn step(&self, x: T, next: &Self, out: T) -> bool {
        next == self && out == self.0.map_s(x)
    }

    fn process(&mut self, sample: T) -> (out: T) {
        self.0.map(sample)
    }
}

/// Wraps 2 mono components, to process the two lanes of a stereo sample
/// pair.
#[derive(Debug, Copy, Clone)]
pub struct Stereo<L, R> {
    pub left: L,
    pub right: R,
}

/// An alias for [`Stereo`] where both the left and right channel components
/// are of the same type.
pub type DoubleMono<C> = Stereo<C, C>;

impl<L: ComponentMeta, R: ComponentMeta> ComponentMeta for Stereo<L, R> {
    open spec fn wf(&self) -> bool {
        self.left.wf() && self.right.wf()
    }

    /// The worst of the two channels' latencies.
    open spec fn latency_of(&self) -> int {
        if self.left.latency_of() >= self.right.latency_of() {
            self.left.latency_of()
        } else {
            self.right.latency_of()
        }
    }

    open spec fn resets_to(&self, r: &Self) -> bool {
        self.left.resets_to(&r.left) && self.right.resets_to(&r.right)
    }

    fn reset(&mut self) {
        self.left.reset();
        self.right.reset();
    }

    fn latency(&self) -> (r: usize) {
        let l = self.left.latency();
        let rr = self.right.latency();
        if l >= rr {
            l
        } else {
            rr
        }
    }
}

impl<T, L: Component<T>, R: Component<T>> Component<(T, T)> for Stereo<L, R> {
    open spec fn step(&self, x: (T, T), next: &Self, out: (T, T)) -> bool {
        self.left.step(x.0, &next.left, out.0) && self.right.step(x.1, &next.right, out.1)
    }

    fn process(&mut self, sample: (T, T)) -> (out: (T, T)) {
        let (l, r) = sample;
        (self.left.process(l), self.right.process(r))
    }
}

impl<C: Copy> Stereo<C, C> {
    /// Create a new [`DoubleMono<C>`][Self] from one component, used for
    /// both channels.
    pub fn double(component: C) -> (r: Self)
        ensures
            r.left == component,
            r.right == component,
    {
        Stereo { left: component, right: component }
    }
}

/// A [`Component`] that can be (manually) toggled on / off.
#[derive(Debug, Copy, Clone)]
pub struct Toggle<C> {
    pub active: bool,
    /// If set to `true`, when toggling from bypassed to enabled,
    /// `self.inner.reset()` will be invoked.
    pub reset_on_toggle: bool,
    /// The inner [`Component`].
    pub inner: C,
}

impl<C: ComponentMeta> ComponentMeta for Toggle<C> {
    open spec fn wf(&self) -> bool {
        self.inner.wf()
    }

    /// A bypassed toggle reports no latency.
    open spec fn latency_of(&self) -> int {
        if self.active {
            self.inner.latency_of()
        } else {
            0
        }
    }

    open spec fn resets_to(&self, r: &Self) -> bool {
        &&& r.active == self.active
        &&& r.reset_on_toggle == self.reset_on_toggle
        &&& self.inner.resets_to(&r.inner)
    }

    fn reset(&mut self) {
        self.inner.reset();
    }

    fn latency(&self) -> (r: usize) {
        if self.active {
            self.inner.latency()
        } else {
            0
        }
    }
}

impl<T, C: Component<T>> Component<T> for Toggle<C> {
    /// A bypassed toggle passes samples through untouched.
    open spec fn step(&self, x: T, next: &Self, out: T) -> bool {
        &&& next.active == self.active
        &&& next.reset_on_toggle == self.reset_on_toggle
        &&& if self.active {
            self.inner.step(x, &next.inner, out)
        } else {
            next.inner == self.inner && out == x
        }
    }

    fn process(&mut self, sample: T) -> (out: T) {
        if self.active {
            self.inner.process(sample)
        } else {
            sample
        }
    }
}

impl<C: ComponentMeta> Toggle<C> {
    /// Create a new [`Toggle<C>`][Self].
    pub fn new(inner: C, start_active: bool, reset_on_toggle: bool) -> (r: Self)
        ensures
            r.active == start_active,
            r.reset_on_toggle == reset_on_toggle,
            r.inner == inner,
    {
        Toggle { active: start_active, reset_on_toggle, inner }
    }

    /// Switch the component on or off.  Switching a `reset_on_toggle`
    /// component from bypassed to enabled resets the inner component, so it
    /// starts from silence; every other transition keeps its state.
    pub fn toggle(&mut self, active: bool)
        requires
            old(self).wf(),
        ensures
            final(self).wf(),
            final(self).active == active,
            final(self).reset_on_toggle == old(self).reset_on_toggle,
            if active && !old(self).active && old(self).reset_on_toggle {
                old(self).inner.resets_to(&final(self).inner)
            } else {
                final(self).inner == old(self).inner
            },
    {
        if active && !self.active && self.reset_on_toggle {
            self.inner.reset();
        }
        self.active = active;
    }
}

} // verus!
