use vstd::prelude::*;

verus! {

/// Arithmetic capability that every DSP element in this crate is written
/// against.
///
/// A `Sample` is one audio sample, or a fixed set of lanes processed in
/// lockstep.  Each operation comes in an executable form (`add`, `mul`, ...)
/// and a specification form (`add_s`, `mul_s`, ...); the executable form must
/// return exactly what its specification form denotes, so every contract in
/// the crate can speak about sample values symbolically without fixing a
/// concrete number format.
///
/// Implementations for IEEE 754 floats live outside the verified core (their
/// arithmetic satisfies the zero and round-trip laws below exactly, and the
/// remaining algebra up to rounding); the crate itself provides an exact
/// integer instance on `i64` so that the laws demanded here are known to be
/// satisfiable and can be exercised by tests without rounding.
pub trait Sample: Copy + Sized {
    /// The narrower format in which blocks enter and leave the processing
    /// graph (`f32` for a double-precision sample, for instance).
    type Io: Copy;

    spec fn add_s(self, rhs: Self) -> Self;

    spec fn sub_s(self, rhs: Self) -> Self;

    spec fn mul_s(self, rhs: Self) -> Self;

    spec fn div_s(self, rhs: Self) -> Self;

    spec fn neg_s(self) -> Self;

    spec fn sqrt_s(self) -> Self;

    spec fn tan_s(self) -> Self;

    spec fn sin_s(self) -> Self;

    spec fn pow_s(self, e: Self) -> Self;

    spec fn ge_s(self, rhs: Self) -> bool;

    /// The sample denoted by an IEEE 754 double bit pattern (broadcast to
    /// every lane for vector instances).
    spec fn from_bits_s(bits: u64) -> Self;

    spec fn zero_s() -> Self;

    spec fn one_s() -> Self;

    spec fn half_s() -> Self;

    spec fn pi_s() -> Self;

    spec fn frac_1_sqrt_2_s() -> Self;

    /// The sample a boundary value widens to.
    spec fn from_io_s(io: Self::Io) -> Self;

    /// The boundary value a sample narrows to.
    spec fn to_io_s(self) -> Self::Io;

    spec fn io_zero_s() -> Self::Io;

    fn add(self, rhs: Self) -> (r: Self)
        ensures
            r == self.add_s(rhs),
    ;

    fn sub(self, rhs: Self) -> (r: Self)
        ensures
            r == self.sub_s(rhs),
    ;

    fn mul(self, rhs: Self) -> (r: Self)
        ensures
            r == self.mul_s(rhs),
    ;

    fn div(self, rhs: Self) -> (r: Self)
        ensures
            r == self.div_s(rhs),
    ;

    fn neg(self) -> (r: Self)
        ensures
            r == self.neg_s(),
    ;

    fn sqrt(self) -> (r: Self)
        ensures
            r == self.sqrt_s(),
    ;

    fn tan(self) -> (r: Self)
        ensures
            r == self.tan_s(),
    ;

    fn sin(self) -> (r: Self)
        ensures
            r == self.sin_s(),
    ;

    fn pow(self, e: Self) -> (r: Self)
        ensures
            r == self.pow_s(e),
    ;

    /// True when every lane of `self` is at least the matching lane of `rhs`.
    fn all_ge(self, rhs: Self) -> (r: bool)
        ensures
            r == self.ge_s(rhs),
    ;

    fn from_bits(bits: u64) -> (r: Self)
        ensures
            r == Self::from_bits_s(bits),
    ;

    fn zero() -> (r: Self)
        ensures
            r == Self::zero_s(),
    ;

    fn one() -> (r: Self)
        ensures
            r == Self::one_s(),
    ;

    fn half() -> (r: Self)
        ensures
            r == Self::half_s(),
    ;

    fn pi() -> (r: Self)
        ensures
            r == Self::pi_s(),
    ;

    fn frac_1_sqrt_2() -> (r: Self)
        ensures
            r == Self::frac_1_sqrt_2_s(),
    ;

    fn from_io(io: Self::Io) -> (r: Self)
        ensures
            r == Self::from_io_s(io),
    ;

    fn to_io(self) -> (r: Self::Io)
        ensures
            r == self.to_io_s(),
    ;

    fn io_zero() -> (r: Self::Io)
        ensures
            r == Self::io_zero_s(),
    ;

    /// The zero sample is inert: combining zeros yields zero, scaling zero by
    /// anything yields zero, and zero crosses the boundary as the boundary
    /// zero.  These are the facts that make an all-zero filter state stay
    /// all-zero.
    proof fn lemma_zero()
        ensures
            Self::zero_s().add_s(Self::zero_s()) == Self::zero_s(),
            Self::zero_s().sub_s(Self::zero_s()) == Self::zero_s(),
            Self::zero_s().neg_s() == Self::zero_s(),
            forall|a: Self| #[trigger] Self::zero_s().mul_s(a) == Self::zero_s(),
            forall|a: Self| #[trigger] a.mul_s(Self::zero_s()) == Self::zero_s(),
            Self::from_io_s(Self::io_zero_s()) == Self::zero_s(),
            Self::zero_s().to_io_s() == Self::io_zero_s(),
    ;

    /// Widening a boundary value and narrowing it again is exact.
    proof fn lemma_io_round_trip(io: Self::Io)
        ensures
            Self::from_io_s(io).to_io_s() == io,
    ;
}

/// Exact integer samples: every operation is wrapping two's-complement
/// arithmetic, so all the algebraic laws of [`Sample`] hold with no rounding.
/// The transcendental operations have no integer counterpart and are fixed as
/// the identity, and the fractional constants are pinned to nearby integers;
/// nothing in the crate's contracts assumes more of either.
impl Sample for i64 {
    type Io = i32;

    open spec fn add_s(self, rhs: Self) -> Self {
        self.wrapping_add(rhs)
    }

    open spec fn sub_s(self, rhs: Self) -> Self {
        self.wrapping_sub(rhs)
    }

    open spec fn mul_s(self, rhs: Self) -> Self {
        self.wrapping_mul(rhs)
    }

    open spec fn div_s(self, rhs: Self) -> Self {
        match self.checked_div(rhs) {
            Some(q) => q,
            None => 0,
        }
    }

    open spec fn neg_s(self) -> Self {
        (0i64).wrapping_sub(self)
    }

    open spec fn sqrt_s(self) -> Self {
        self
    }

    open spec fn tan_s(self) -> Self {
        self
    }

    open spec fn sin_s(self) -> Self {
        self
    }

    open spec fn pow_s(self, e: Self) -> Self {
        self
    }

    open spec fn ge_s(self, rhs: Self) -> bool {
        self >= rhs
    }

    open spec fn from_bits_s(bits: u64) -> Self {
        #[verifier::truncate]
        (bits as i64)
    }

    open spec fn zero_s() -> Self {
        0
    }

    open spec fn one_s() -> Self {
        1
    }

    open spec fn half_s() -> Self {
        0
    }

    open spec fn pi_s() -> Self {
        3
    }

    open spec fn frac_1_sqrt_2_s() -> Self {
        0
    }

    open spec fn from_io_s(io: i32) -> Self {
        io as i64
    }

    open spec fn to_io_s(self) -> i32 {
        #[verifier::truncate]
        (self as i32)
    }

    open spec fn io_zero_s() -> i32 {
        0
    }

    fn add(self, rhs: Self) -> (r: Self) {
        self.wrapping_add(rhs)
    }

    fn sub(self, rhs: Self) -> (r: Self) {
        self.wrapping_sub(rhs)
    }

    fn mul(self, rhs: Self) -> (r: Self) {
        self.wrapping_mul(rhs)
    }

    fn div(self, rhs: Self) -> (r: Self) {
        match self.checked_div(rhs) {
            Some(q) => q,
            None => 0,
        }
    }

    fn neg(self) -> (r: Self) {
        (0i64).wrapping_sub(self)
    }

    fn sqrt(self) -> (r: Self) {
        self
    }

    fn tan(self) -> (r: Self) {
        self
    }

    fn sin(self) -> (r: Self) {
        self
    }

    fn pow(self, e: Self) -> (r: Self) {
        self
    }

    fn all_ge(self, rhs: Self) -> (r: bool) {
        self >= rhs
    }

    fn from_bits(bits: u64) -> (r: Self) {
        #[verifier::truncate]
        (bits as i64)
    }

    fn zero() -> (r: Self) {
        0
    }

    fn one() -> (r: Self) {
        1
    }

    fn half() -> (r: Self) {
        0
    }

    fn pi() -> (r: Self) {
        3
    }

    fn frac_1_sqrt_2() -> (r: Self) {
        0
    }

    fn from_io(io: i32) -> (r: Self) {
        io as i64
    }

    fn to_io(self) -> (r: i32) {
        #[verifier::truncate]
        (self as i32)
    }

    fn io_zero() -> (r: i32) {
        0
    }

    proof fn lemma_zero() {
        assert forall|a: i64| #[trigger] (0i64).wrapping_mul(a) == 0i64 by {
            assert(0int * (a as int) == 0);
        }
        assert forall|a: i64| #[trigger] a.wrapping_mul(0i64) == 0i64 by {
            assert((a as int) * 0int == 0);
        }
    }

    proof fn lemma_io_round_trip(io: i32) {
    }
}

} // verus!
