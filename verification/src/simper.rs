use vstd::prelude::*;

use crate::sample::Sample;
use crate::Component;
use crate::ComponentMeta;

verus! {

/// [`Simper`] filter type.
#[derive(Copy, Clone, Debug, Eq, PartialEq, Structural)]
pub enum SimperType {
    LowPass,
    HighPass,
    BandPass,
    Notch,
    AllPass,
    Peaking,
    Bell,
    LowShelf,
    HighShelf,
}

/// Coefficients for a [`Simper`] filter: the mix coefficients `m0..m2` that
/// weight the input and the two integrator taps, and the filter coefficients
/// derived from sample rate, frequency and Q.
#[derive(Copy, Clone, Debug)]
pub struct SimperCoefficients<T> {
    pub kind: SimperType,
    pub m0: T,
    pub m1: T,
    pub m2: T,
    pub a1: T,
    pub a2: T,
    pub a3: T,
    pub g: T,
    pub k: T,
}

/// The warped frequency coefficient `tan(pi * fq / sample_rate)`.
pub open spec fn g_of<T: Sample>(sample_rate: T, fq: T) -> T {
    T::pi_s().mul_s(fq).div_s(sample_rate).tan_s()
}

/// `a1 = 1 / (1 + g * (g + k))`.
pub open spec fn a1_of<T: Sample>(g: T, k: T) -> T {
    T::one_s().div_s(T::one_s().add_s(g.mul_s(g.add_s(k))))
}

/// The bell and shelf amplitude `10^(db_gain / 40)`.
pub open spec fn amp_of<T: Sample>(db_gain: T) -> T {
    T::from_bits_s(TEN_BITS).pow_s(db_gain.div_s(T::from_bits_s(FORTY_BITS)))
}

/// IEEE 754 double bits of `10.0`.
pub const TEN_BITS: u64 = 0x4024000000000000;

/// IEEE 754 double bits of `40.0`.
pub const FORTY_BITS: u64 = 0x4044000000000000;

/// IEEE 754 double bits of `2.0`.
pub const TWO_BITS: u64 = 0x4000000000000000;

/// The coefficient set of each plain (no-gain) kind, as a function of the
/// design parameters alone.
pub open spec fn plain_coeffs<T: Sample>(
    kind: SimperType,
    sample_rate: T,
    fq: T,
    q: T,
    m0: T,
    m1: T,
    m2: T,
) -> SimperCoefficients<T> {
    SimperCoefficients {
        kind,
        m0,
        m1,
        m2,
        a1: a1_of(g_of(sample_rate, fq), T::one_s().div_s(q)),
        a2: g_of(sample_rate, fq).mul_s(a1_of(g_of(sample_rate, fq), T::one_s().div_s(q))),
        a3: g_of(sample_rate, fq).mul_s(
            g_of(sample_rate, fq).mul_s(a1_of(g_of(sample_rate, fq), T::one_s().div_s(q))),
        ),
        g: g_of(sample_rate, fq),
        k: T::one_s().div_s(q),
    }
}

pub open spec fn low_pass_coeffs<T: Sample>(sample_rate: T, fq: T, q: T) -> SimperCoefficients<T> {
    plain_coeffs(SimperType::LowPass, sample_rate, fq, q, T::zero_s(), T::zero_s(), T::one_s())
}

pub open spec fn high_pass_coeffs<T: Sample>(sample_rate: T, fq: T, q: T) -> SimperCoefficients<
    T,
> {
    plain_coeffs(
        SimperType::HighPass,
        sample_rate,
        fq,
        q,
        T::one_s(),
        T::one_s().div_s(q).neg_s(),
        T::one_s().neg_s(),
    )
}

pub open spec fn band_pass_coeffs<T: Sample>(sample_rate: T, fq: T, q: T) -> SimperCoefficients<
    T,
> {
    plain_coeffs(
        SimperType::BandPass,
        sample_rate,
        fq,
        q,
        T::zero_s(),
        T::one_s().div_s(q),
        T::zero_s(),
    )
}

pub open spec fn notch_coeffs<T: Sample>(sample_rate: T, fq: T, q: T) -> SimperCoefficients<T> {
    plain_coeffs(
        SimperType::Notch,
        sample_rate,
        fq,
        q,
        T::one_s(),
        T::one_s().div_s(q).neg_s(),
        T::zero_s(),
    )
}

pub open spec fn all_pass_coeffs<T: Sample>(sample_rate: T, fq: T, q: T) -> SimperCoefficients<
    T,
> {
    plain_coeffs(
        SimperType::AllPass,
        sample_rate,
        fq,
        q,
        T::one_s(),
        T::from_bits_s(TWO_BITS).neg_s().mul_s(T::one_s().div_s(q)),
        T::zero_s(),
    )
}

pub open spec fn peaking_coeffs<T: Sample>(sample_rate: T, fq: T, q: T) -> SimperCoefficients<
    T,
> {
    plain_coeffs(
        SimperType::Peaking,
        sample_rate,
        fq,
        q,
        T::one_s(),
        T::one_s().div_s(q).neg_s(),
        T::from_bits_s(TWO_BITS).neg_s(),
    )
}

/// The bell coefficient set: `k` is warped by the amplitude
/// `A = 10^(db_gain/40)` and the mid mix is `k * (A^2 - 1)`.
pub open spec fn bell_coeffs<T: Sample>(sample_rate: T, fq: T, q: T, db_gain: T) -> SimperCoefficients<
    T,
> {
    SimperCoefficients {
        kind: SimperType::Bell,
        m0: T::one_s(),
        m1: T::one_s().div_s(q.mul_s(amp_of(db_gain))).mul_s(
            amp_of(db_gain).mul_s(amp_of(db_gain)).sub_s(T::one_s()),
        ),
        m2: T::zero_s(),
        a1: a1_of(g_of(sample_rate, fq), T::one_s().div_s(q.mul_s(amp_of(db_gain)))),
        a2: g_of(sample_rate, fq).mul_s(
            a1_of(g_of(sample_rate, fq), T::one_s().div_s(q.mul_s(amp_of(db_gain)))),
        ),
        a3: g_of(sample_rate, fq).mul_s(
            g_of(sample_rate, fq).mul_s(
                a1_of(g_of(sample_rate, fq), T::one_s().div_s(q.mul_s(amp_of(db_gain)))),
            ),
        ),
        g: g_of(sample_rate, fq),
        k: T::one_s().div_s(q.mul_s(amp_of(db_gain))),
    }
}

/// The low-shelf coefficient set: `g` is scaled by `1/sqrt(A)`; the mixes
/// are `1`, `k * (A - 1)` and `A^2 - 1`.
pub open spec fn low_shelf_coeffs<T: Sample>(sample_rate: T, fq: T, q: T, db_gain: T) -> SimperCoefficients<
    T,
> {
    SimperCoefficients {
        kind: SimperType::LowShelf,
        m0: T::one_s(),
        m1: T::one_s().div_s(q).mul_s(amp_of(db_gain).sub_s(T::one_s())),
        m2: amp_of(db_gain).mul_s(amp_of(db_gain)).sub_s(T::one_s()),
        a1: a1_of(g_of(sample_rate, fq).div_s(amp_of(db_gain).sqrt_s()), T::one_s().div_s(q)),
        a2: g_of(sample_rate, fq).div_s(amp_of(db_gain).sqrt_s()).mul_s(
            a1_of(g_of(sample_rate, fq).div_s(amp_of(db_gain).sqrt_s()), T::one_s().div_s(q)),
        ),
        a3: g_of(sample_rate, fq).div_s(amp_of(db_gain).sqrt_s()).mul_s(
            g_of(sample_rate, fq).div_s(amp_of(db_gain).sqrt_s()).mul_s(
                a1_of(
                    g_of(sample_rate, fq).div_s(amp_of(db_gain).sqrt_s()),
                    T::one_s().div_s(q),
                ),
            ),
        ),
        g: g_of(sample_rate, fq).div_s(amp_of(db_gain).sqrt_s()),
        k: T::one_s().div_s(q),
    }
}

/// The high-shelf coefficient set: `g` is scaled by `sqrt(A)`; the mixes
/// are `A^2`, `k * (1 - A) * A` and `1 - A^2`.
pub open spec fn high_shelf_coeffs<T: Sample>(sample_rate: T, fq: T, q: T, db_gain: T) -> SimperCoefficients<
    T,
> {
    SimperCoefficients {
        kind: SimperType::HighShelf,
        m0: amp_of(db_gain).mul_s(amp_of(db_gain)),
        m1: T::one_s().div_s(q).mul_s(T::one_s().sub_s(amp_of(db_gain))).mul_s(amp_of(db_gain)),
        m2: T::one_s().sub_s(amp_of(db_gain).mul_s(amp_of(db_gain))),
        a1: a1_of(g_of(sample_rate, fq).mul_s(amp_of(db_gain).sqrt_s()), T::one_s().div_s(q)),
        a2: g_of(sample_rate, fq).mul_s(amp_of(db_gain).sqrt_s()).mul_s(
            a1_of(g_of(sample_rate, fq).mul_s(amp_of(db_gain).sqrt_s()), T::one_s().div_s(q)),
        ),
        a3: g_of(sample_rate, fq).mul_s(amp_of(db_gain).sqrt_s()).mul_s(
            g_of(sample_rate, fq).mul_s(amp_of(db_gain).sqrt_s()).mul_s(
                a1_of(
                    g_of(sample_rate, fq).mul_s(amp_of(db_gain).sqrt_s()),
                    T::one_s().div_s(q),
                ),
            ),
        ),
        g: g_of(sample_rate, fq).mul_s(amp_of(db_gain).sqrt_s()),
        k: T::one_s().div_s(q),
    }
}

impl<T: Sample> SimperCoefficients<T> {
    /// All-zero coefficients of the given kind, awaiting
    /// `set_coefficients`.
    fn new(kind: SimperType) -> (r: Self)
        ensures
            r == (SimperCoefficients {
                kind,
                m0: T::zero_s(),
                m1: T::zero_s(),
                m2: T::zero_s(),
                a1: T::zero_s(),
                a2: T::zero_s(),
                a3: T::zero_s(),
                g: T::zero_s(),
                k: T::zero_s(),
            }),
    {
        let z = T::zero();
        SimperCoefficients { kind, m0: z, m1: z, m2: z, a1: z, a2: z, a3: z, g: z, k: z }
    }

    /// Derive the filter coefficients from sample rate, frequency and Q:
    /// `g = tan(pi * fq / sample_rate)`, `k = 1 / q`,
    /// `a1 = 1 / (1 + g * (g + k))`, `a2 = g * a1`, `a3 = g * a2`.
    fn set_coefficients(&mut self, sample_rate: T, fq: T, q: T)
        ensures
            final(self).kind == old(self).kind,
            final(self).m0 == old(self).m0,
            final(self).m1 == old(self).m1,
            final(self).m2 == old(self).m2,
            final(self).g == g_of(sample_rate, fq),
            final(self).k == T::one_s().div_s(q),
            final(self).a1 == a1_of(g_of(sample_rate, fq), T::one_s().div_s(q)),
            final(self).a2 == g_of(sample_rate, fq).mul_s(final(self).a1),
            final(self).a3 == g_of(sample_rate, fq).mul_s(final(self).a2),
    {
        self.g = T::pi().mul(fq).div(sample_rate).tan();
        self.k = T::one().div(q);
        self.a1 = T::one().div(T::one().add(self.g.mul(self.g.add(self.k))));
        self.a2 = self.g.mul(self.a1);
        self.a3 = self.g.mul(self.a2);
    }

    pub fn low_pass(sample_rate: T, fq: T, q: T) -> (r: Self)
        ensures
            r == low_pass_coeffs(sample_rate, fq, q),
    {
        let mut x = Self::new(SimperType::LowPass);
        x.set_coefficients(sample_rate, fq, q);
        x.m0 = T::zero();
        x.m1 = T::zero();
        x.m2 = T::one();
        x
    }

    pub fn high_pass(sample_rate: T, fq: T, q: T) -> (r: Self)
        ensures
            r == high_pass_coeffs(sample_rate, fq, q),
    {
        let mut x = Self::new(SimperType::HighPass);
        x.set_coefficients(sample_rate, fq, q);
        x.m0 = T::one();
        x.m1 = x.k.neg();
        x.m2 = T::one().neg();
        x
    }

    pub fn band_pass(sample_rate: T, fq: T, q: T) -> (r: Self)
        ensures
            r == band_pass_coeffs(sample_rate, fq, q),
    {
        let mut x = Self::new(SimperType::BandPass);
        x.set_coefficients(sample_rate, fq, q);
        x.m0 = T::zero();
        x.m1 = x.k;
        x.m2 = T::zero();
        x
    }

    pub fn notch(sample_rate: T, fq: T, q: T) -> (r: Self)
        ensures
            r == notch_coeffs(sample_rate, fq, q),
    {
        let mut x = Self::new(SimperType::Notch);
        x.set_coefficients(sample_rate, fq, q);
        x.m0 = T::one();
        x.m1 = x.k.neg();
        x.m2 = T::zero();
        x
    }

    pub fn all_pass(sample_rate: T, fq: T, q: T) -> (r: Self)
        ensures
            r == all_pass_coeffs(sample_rate, fq, q),
    {
        let mut x = Self::new(SimperType::AllPass);
        x.set_coefficients(sample_rate, fq, q);
        x.m0 = T::one();
        x.m1 = T::from_bits(TWO_BITS).neg().mul(x.k);
        x.m2 = T::zero();
        x
    }

    pub fn peaking(sample_rate: T, fq: T, q: T) -> (r: Self)
        ensures
            r == peaking_coeffs(sample_rate, fq, q),
    {
        let mut x = Self::new(SimperType::Peaking);
        x.set_coefficients(sample_rate, fq, q);
        x.m0 = T::one();
        x.m1 = x.k.neg();
        x.m2 = T::from_bits(TWO_BITS).neg();
        x
    }

    /// The bell filter warps `k` by the amplitude: `k = 1 / (q * A)` with
    /// `A = 10^(db_gain / 40)`; its mid mix is `k * (A^2 - 1)`.
    pub fn bell(sample_rate: T, fq: T, q: T, db_gain: T) -> (r: Self)
        ensures
            r == bell_coeffs(sample_rate, fq, q, db_gain),
    {
        let mut x = Self::new(SimperType::Bell);
        let a = T::from_bits(TEN_BITS).pow(db_gain.div(T::from_bits(FORTY_BITS)));
        x.g = T::pi().mul(fq).div(sample_rate).tan();
        x.k = T::one().div(q.mul(a));
        x.a1 = T::one().div(T::one().add(x.g.mul(x.g.add(x.k))));
        x.a2 = x.g.mul(x.a1);
        x.a3 = x.g.mul(x.a2);
        x.m0 = T::one();
        x.m1 = x.k.mul(a.mul(a).sub(T::one()));
        x.m2 = T::zero();
        x
    }

    /// The low shelf scales `g` by `1 / sqrt(A)`; its mixes are `1`,
    /// `k * (A - 1)` and `A^2 - 1`.
    pub fn low_shelf(sample_rate: T, fq: T, q: T, db_gain: T) -> (r: Self)
        ensures
            r == low_shelf_coeffs(sample_rate, fq, q, db_gain),
    {
        let mut x = Self::new(SimperType::LowShelf);
        let a = T::from_bits(TEN_BITS).pow(db_gain.div(T::from_bits(FORTY_BITS)));
        x.g = T::pi().mul(fq).div(sample_rate).tan().div(a.sqrt());
        x.k = T::one().div(q);
        x.a1 = T::one().div(T::one().add(x.g.mul(x.g.add(x.k))));
        x.a2 = x.g.mul(x.a1);
        x.a3 = x.g.mul(x.a2);
        x.m0 = T::one();
        x.m1 = x.k.mul(a.sub(T::one()));
        x.m2 = a.mul(a).sub(T::one());
        x
    }

    /// The high shelf scales `g` by `sqrt(A)`; its mixes are `A^2`,
    /// `k * (1 - A) * A` and `1 - A^2`.
    pub fn high_shelf(sample_rate: T, fq: T, q: T, db_gain: T) -> (r: Self)
        ensures
            r == high_shelf_coeffs(sample_rate, fq, q, db_gain),
    {
        let mut x = Self::new(SimperType::HighShelf);
        let a = T::from_bits(TEN_BITS).pow(db_gain.div(T::from_bits(FORTY_BITS)));
        x.g = T::pi().mul(fq).div(sample_rate).tan().mul(a.sqrt());
        x.k = T::one().div(q);
        x.a1 = T::one().div(T::one().add(x.g.mul(x.g.add(x.k))));
        x.a2 = x.g.mul(x.a1);
        x.a3 = x.g.mul(x.a2);
        x.m0 = a.mul(a);
        x.m1 = x.k.mul(T::one().sub(a)).mul(a);
        x.m2 = T::one().sub(a.mul(a));
        x
    }
}

/**State variable filter (SVF), designed by Andrew Simper of Cytomic.

A second-order filter with a cutoff slope of 12 dB/octave; `q = 1/sqrt(2)`
means no resonant peaking.  The state lives in the two integrator
registers `ic1eq` and `ic2eq`.
**/
#[derive(Copy, Clone, Debug)]
pub struct Simper<T> {
    pub x: SimperCoefficients<T>,
    pub ic1eq: T,
    pub ic2eq: T,
}

impl<T: Sample> Simper<T> {
    /// The first integrator tap for input `v0`.
    pub open spec fn v1_s(self, v0: T) -> T {
        self.x.a1.mul_s(self.ic1eq).add_s(self.x.a2.mul_s(v0.sub_s(self.ic2eq)))
    }

    /// The second integrator tap for input `v0`.
    pub open spec fn v2_s(self, v0: T) -> T {
        self.ic2eq.add_s(self.x.a2.mul_s(self.ic1eq)).add_s(
            self.x.a3.mul_s(v0.sub_s(self.ic2eq)),
        )
    }

    /// The filter state after one sample: each integrator register is
    /// replaced by twice its tap minus its old value.
    pub open spec fn next_s(self, v0: T) -> Simper<T> {
        Simper {
            x: self.x,
            ic1eq: T::from_bits_s(TWO_BITS).mul_s(self.v1_s(v0)).sub_s(self.ic1eq),
            ic2eq: T::from_bits_s(TWO_BITS).mul_s(self.v2_s(v0)).sub_s(self.ic2eq),
        }
    }

    /// The emitted sample: the mix `m0*v0 + m1*v1 + m2*v2`.
    pub open spec fn out_s(self, v0: T) -> T {
        self.x.m0.mul_s(v0).add_s(self.x.m1.mul_s(self.v1_s(v0))).add_s(
            self.x.m2.mul_s(self.v2_s(v0)),
        )
    }

    /// The Q of a Butterworth response: `1/sqrt(2)`, no resonant peaking.
    pub fn butterworth_q() -> (r: T)
        ensures
            r == T::frac_1_sqrt_2_s(),
    {
        T::frac_1_sqrt_2()
    }

    pub fn low_pass(sample_rate: T, fq: T, q: T) -> (r: Self)
        ensures
            r.x == low_pass_coeffs(sample_rate, fq, q),
            r.ic1eq == T::zero_s(),
            r.ic2eq == T::zero_s(),
    {
        Self::new(SimperCoefficients::low_pass(sample_rate, fq, q))
    }

    pub fn high_pass(sample_rate: T, fq: T, q: T) -> (r: Self)
        ensures
            r.x == high_pass_coeffs(sample_rate, fq, q),
            r.ic1eq == T::zero_s(),
            r.ic2eq == T::zero_s(),
    {
        Self::new(SimperCoefficients::high_pass(sample_rate, fq, q))
    }

    pub fn band_pass(sample_rate: T, fq: T, q: T) -> (r: Self)
        ensures
            r.x == band_pass_coeffs(sample_rate, fq, q),
            r.ic1eq == T::zero_s(),
            r.ic2eq == T::zero_s(),
    {
        Self::new(SimperCoefficients::band_pass(sample_rate, fq, q))
    }

    pub fn notch(sample_rate: T, fq: T, q: T) -> (r: Self)
        ensures
            r.x == notch_coeffs(sample_rate, fq, q),
            r.ic1eq == T::zero_s(),
            r.ic2eq == T::zero_s(),
    {
        Self::new(SimperCoefficients::notch(sample_rate, fq, q))
    }

    pub fn all_pass(sample_rate: T, fq: T, q: T) -> (r: Self)
        ensures
            r.x == all_pass_coeffs(sample_rate, fq, q),
            r.ic1eq == T::zero_s(),
            r.ic2eq == T::zero_s(),
    {
        Self::new(SimperCoefficients::all_pass(sample_rate, fq, q))
    }

    pub fn peaking(sample_rate: T, fq: T, q: T) -> (r: Self)
        ensures
            r.x == peaking_coeffs(sample_rate, fq, q),
            r.ic1eq == T::zero_s(),
            r.ic2eq == T::zero_s(),
    {
        Self::new(SimperCoefficients::peaking(sample_rate, fq, q))
    }

    pub fn bell(sample_rate: T, fq: T, q: T, db_gain: T) -> (r: Self)
        ensures
            r.x == bell_coeffs(sample_rate, fq, q, db_gain),
            r.ic1eq == T::zero_s(),
            r.ic2eq == T::zero_s(),
    {
        Self {
            x: SimperCoefficients::bell(sample_rate, fq, q, db_gain),
            ic1eq: T::zero(),
            ic2eq: T::zero(),
        }
    }

    pub fn low_shelf(sample_rate: T, fq: T, q: T, db_gain: T) -> (r: Self)
        ensures
            r.x == low_shelf_coeffs(sample_rate, fq, q, db_gain),
            r.ic1eq == T::zero_s(),
            r.ic2eq == T::zero_s(),
    {
        Self {
            x: SimperCoefficients::low_shelf(sample_rate, fq, q, db_gain),
            ic1eq: T::zero(),
            ic2eq: T::zero(),
        }
    }

    pub fn high_shelf(sample_rate: T, fq: T, q: T, db_gain: T) -> (r: Self)
        ensures
            r.x == high_shelf_coeffs(sample_rate, fq, q, db_gain),
            r.ic1eq == T::zero_s(),
            r.ic2eq == T::zero_s(),
    {
        Self {
            x: SimperCoefficients::high_shelf(sample_rate, fq, q, db_gain),
            ic1eq: T::zero(),
            ic2eq: T::zero(),
        }
    }

    pub fn new(x: SimperCoefficients<T>) -> (r: Self)
        ensures
            r == (Simper { x, ic1eq: T::zero_s(), ic2eq: T::zero_s() }),
    {
        Simper { x, ic1eq: T::zero(), ic2eq: T::zero() }
    }

    pub fn filter_type(&self) -> (r: SimperType)
        ensures
            r == self.x.kind,
    {
        self.x.kind
    }

    /// Update coefficients without resetting state: the filter keeps its
    /// kind and rebuilds the matching coefficient set.  `db_gain` is used
    /// only by the bell and shelf kinds.
    pub fn update_parameters(&mut self, sample_rate: T, fq: T, q: T, db_gain: T)
        ensures
            final(self).ic1eq == old(self).ic1eq,
            final(self).ic2eq == old(self).ic2eq,
            final(self).x == (match old(self).x.kind {
                SimperType::LowPass => low_pass_coeffs(sample_rate, fq, q),
                SimperType::HighPass => high_pass_coeffs(sample_rate, fq, q),
                SimperType::BandPass => band_pass_coeffs(sample_rate, fq, q),
                SimperType::Notch => notch_coeffs(sample_rate, fq, q),
                SimperType::AllPass => all_pass_coeffs(sample_rate, fq, q),
                SimperType::Peaking => peaking_coeffs(sample_rate, fq, q),
                SimperType::Bell => bell_coeffs(sample_rate, fq, q, db_gain),
                SimperType::LowShelf => low_shelf_coeffs(sample_rate, fq, q, db_gain),
                SimperType::HighShelf => high_shelf_coeffs(sample_rate, fq, q, db_gain),
            }),
    {
        let sr = sample_rate;
        self.x = match self.filter_type() {
            SimperType::LowPass => SimperCoefficients::low_pass(sr, fq, q),
            SimperType::HighPass => SimperCoefficients::high_pass(sr, fq, q),
            SimperType::BandPass => SimperCoefficients::band_pass(sr, fq, q),
            SimperType::Notch => SimperCoefficients::notch(sr, fq, q),
            SimperType::AllPass => SimperCoefficients::all_pass(sr, fq, q),
            SimperType::Peaking => SimperCoefficients::peaking(sr, fq, q),
            SimperType::Bell => SimperCoefficients::bell(sr, fq, q, db_gain),
            SimperType::LowShelf => SimperCoefficients::low_shelf(sr, fq, q, db_gain),
            SimperType::HighShelf => SimperCoefficients::high_shelf(sr, fq, q, db_gain),
        };
    }

    /// Replace parameters without clearing state.
    pub fn set_parameters(&mut self, x: SimperCoefficients<T>)
        ensures
            final(self).x == x,
            final(self).ic1eq == old(self).ic1eq,
            final(self).ic2eq == old(self).ic2eq,
    {
        self.x = x;
    }
}

impl<T: Sample> ComponentMeta for Simper<T> {
    open spec fn wf(&self) -> bool {
        true
    }

    open spec fn latency_of(&self) -> int {
        0
    }

    open spec fn resets_to(&self, r: &Self) -> bool {
        r.x == self.x && r.ic1eq == T::zero_s() && r.ic2eq == T::zero_s()
    }

    fn reset(&mut self) {
        self.ic1eq = T::zero();
        self.ic2eq = T::zero();
    }

    fn latency(&self) -> (r: usize) {
        0
    }
}

impl<T: Sample> Component<T> for Simper<T> {
    open spec fn step(&self, x: T, next: &Self, out: T) -> bool {
        *next == self.next_s(x) && out == self.out_s(x)
    }

    fn process(&mut self, v0: T) -> (out: T) {
        let two = T::from_bits(TWO_BITS);
        let v3 = v0.sub(self.ic2eq);
        let v1 = self.x.a1.mul(self.ic1eq).add(self.x.a2.mul(v3));
        let v2 = self.ic2eq.add(self.x.a2.mul(self.ic1eq)).add(self.x.a3.mul(v3));
        self.ic1eq = two.mul(v1).sub(self.ic1eq);
        self.ic2eq = two.mul(v2).sub(self.ic2eq);
        self.x.m0.mul(v0).add(self.x.m1.mul(v1)).add(self.x.m2.mul(v2))
    }
}

} // verus!
