//! The ladder filter on single-precision samples, held against a direct
//! transliteration of the reference routine.

use components::sample::Sample;
use components::stilson_moog::LowPassSM;

/// Single-precision scalar samples, the format the ladder design was tuned
/// in.
#[derive(Copy, Clone, Debug, PartialEq)]
struct S32(f32);

impl Sample for S32 {
    type Io = f32;

    fn add(self, rhs: Self) -> Self {
        S32(self.0 + rhs.0)
    }
    fn sub(self, rhs: Self) -> Self {
        S32(self.0 - rhs.0)
    }
    fn mul(self, rhs: Self) -> Self {
        S32(self.0 * rhs.0)
    }
    fn div(self, rhs: Self) -> Self {
        S32(self.0 / rhs.0)
    }
    fn neg(self) -> Self {
        S32(-self.0)
    }
    fn sqrt(self) -> Self {
        S32(self.0.sqrt())
    }
    fn tan(self) -> Self {
        S32(self.0.tan())
    }
    fn sin(self) -> Self {
        S32(self.0.sin())
    }
    fn pow(self, e: Self) -> Self {
        S32(self.0.powf(e.0))
    }
    fn all_ge(self, rhs: Self) -> bool {
        self.0 >= rhs.0
    }
    fn from_bits(bits: u64) -> Self {
        S32(f64::from_bits(bits) as f32)
    }
    fn zero() -> Self {
        S32(0.0)
    }
    fn one() -> Self {
        S32(1.0)
    }
    fn half() -> Self {
        S32(0.5)
    }
    fn pi() -> Self {
        S32(core::f32::consts::PI)
    }
    fn frac_1_sqrt_2() -> Self {
        S32(core::f32::consts::FRAC_1_SQRT_2)
    }
    fn from_io(io: f32) -> Self {
        S32(io)
    }
    fn to_io(self) -> f32 {
        self.0
    }
    fn io_zero() -> f32 {
        0.0
    }

    // The remaining trait items are specification-only; they are erased from
    // every executable path and can never be called at run time.
    fn add_s(self, _rhs: Self) -> Self {
        unreachable!()
    }
    fn sub_s(self, _rhs: Self) -> Self {
        unreachable!()
    }
    fn mul_s(self, _rhs: Self) -> Self {
        unreachable!()
    }
    fn div_s(self, _rhs: Self) -> Self {
        unreachable!()
    }
    fn neg_s(self) -> Self {
        unreachable!()
    }
    fn sqrt_s(self) -> Self {
        unreachable!()
    }
    fn tan_s(self) -> Self {
        unreachable!()
    }
    fn sin_s(self) -> Self {
        unreachable!()
    }
    fn pow_s(self, _e: Self) -> Self {
        unreachable!()
    }
    fn ge_s(self, _rhs: Self) -> bool {
        unreachable!()
    }
    fn from_bits_s(_bits: u64) -> Self {
        unreachable!()
    }
    fn zero_s() -> Self {
        unreachable!()
    }
    fn one_s() -> Self {
        unreachable!()
    }
    fn half_s() -> Self {
        unreachable!()
    }
    fn pi_s() -> Self {
        unreachable!()
    }
    fn frac_1_sqrt_2_s() -> Self {
        unreachable!()
    }
    fn from_io_s(_io: <Self as Sample>::Io) -> Self {
        unreachable!()
    }
    fn to_io_s(self) -> <Self as Sample>::Io {
        unreachable!()
    }
    fn io_zero_s() -> <Self as Sample>::Io {
        unreachable!()
    }
    fn lemma_zero() {
        unreachable!()
    }
    fn lemma_io_round_trip(_io: <Self as Sample>::Io) {
        unreachable!()
    }
}

#[allow(clippy::too_many_arguments)]
fn process_stilson_moog(
    input: f32,
    freq: f32,
    res: f32,
    israte: f32,
    b0: &mut f32,
    b1: &mut f32,
    b2: &mut f32,
    b3: &mut f32,
    delay: &mut [f32; 4],
) -> f32 {
    let cutoff = 2.0 * freq * israte;

    let p = cutoff * (1.8 - 0.8 * cutoff);
    let k = 2.0 * (cutoff * std::f32::consts::PI * 0.5).sin() - 1.0;

    let t1 = (1.0 - p) * 1.386249;
    let t2 = 12.0 + t1 * t1;

    let res = res * (t2 + 6.0 * t1) / (t2 - 6.0 * t1);

    let x = input - res * *b3;

    // Four cascaded one-pole filters (bilinear transform)
    *b0 = x * p + delay[0] * p - k * *b0;
    *b1 = *b0 * p + delay[1] * p - k * *b1;
    *b2 = *b1 * p + delay[2] * p - k * *b2;
    *b3 = *b2 * p + delay[3] * p - k * *b3;

    // Clipping band-limited sigmoid
    *b3 -= (*b3 * *b3 * *b3) * 0.166667;

    delay[0] = x;
    delay[1] = *b0;
    delay[2] = *b1;
    delay[3] = *b2;

    *b3
}

#[test]
fn test_same() {
    let fq = 10000.0;
    let sr = 48000.0;
    let res = 0.5;

    let mut f: LowPassSM<S32> = LowPassSM::new(S32(sr));
    let [mut b0, mut b1, mut b2, mut b3] = [0.0; 4];
    let mut delay = [0.0; 4];

    for i in 0..100000 {
        let sample = (i % 1000) as f32 / 1000.0 - 0.5;

        let a = f.process(S32(sample), S32(fq * 2.0), S32(res));
        let b = process_stilson_moog(
            sample, fq, res, f.israte.0, &mut b0, &mut b1, &mut b2, &mut b3, &mut delay,
        );

        assert_eq!(a.0, b);
        assert_eq!(
            [f.delay.0 .0, f.delay.1 .0, f.delay.2 .0, f.delay.3 .0],
            delay
        );
    }
}
