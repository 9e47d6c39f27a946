//! The same verified graph on two-lane SIMD samples: both stereo channels
//! run in lockstep through one oversampler.

use components::oversample::Oversampler;
use components::sample::Sample;
use components::Noop;
use wide::f64x2;

/// Two stereo lanes per sample, with a pair of single-precision lanes at
/// the boundary.
#[derive(Copy, Clone, Debug, PartialEq)]
struct W2(f64x2);

fn map1(v: f64x2, f: impl Fn(f64) -> f64) -> f64x2 {
    let a = v.to_array();
    f64x2::new([f(a[0]), f(a[1])])
}

impl Sample for W2 {
    type Io = [f32; 2];

    fn add(self, rhs: Self) -> Self {
        W2(self.0 + rhs.0)
    }
    fn sub(self, rhs: Self) -> Self {
        W2(self.0 - rhs.0)
    }
    fn mul(self, rhs: Self) -> Self {
        W2(self.0 * rhs.0)
    }
    fn div(self, rhs: Self) -> Self {
        W2(self.0 / rhs.0)
    }
    fn neg(self) -> Self {
        W2(-self.0)
    }
    fn sqrt(self) -> Self {
        W2(self.0.sqrt())
    }
    fn tan(self) -> Self {
        W2(map1(self.0, f64::tan))
    }
    fn sin(self) -> Self {
        W2(map1(self.0, f64::sin))
    }
    fn pow(self, e: Self) -> Self {
        let a = self.0.to_array();
        let b = e.0.to_array();
        W2(f64x2::new([a[0].powf(b[0]), a[1].powf(b[1])]))
    }
    fn all_ge(self, rhs: Self) -> bool {
        let a = self.0.to_array();
        let b = rhs.0.to_array();
        a[0] >= b[0] && a[1] >= b[1]
    }
    fn from_bits(bits: u64) -> Self {
        W2(f64x2::splat(f64::from_bits(bits)))
    }
    fn zero() -> Self {
        W2(f64x2::splat(0.0))
    }
    fn one() -> Self {
        W2(f64x2::splat(1.0))
    }
    fn half() -> Self {
        W2(f64x2::splat(0.5))
    }
    fn pi() -> Self {
        W2(f64x2::splat(std::f64::consts::PI))
    }
    fn frac_1_sqrt_2() -> Self {
        W2(f64x2::splat(std::f64::consts::FRAC_1_SQRT_2))
    }
    fn from_io(io: [f32; 2]) -> Self {
        W2(f64x2::new([io[0] as f64, io[1] as f64]))
    }
    fn to_io(self) -> [f32; 2] {
        let a = self.0.to_array();
        [a[0] as f32, a[1] as f32]
    }
    fn io_zero() -> [f32; 2] {
        [0.0, 0.0]
    }

    // The remaining trait items are specification-only; they are erased from
    // every executable path and can never be called at run time.
    fn add_s(self, _rhs: Self) -> Self {
        unreachable!()
    }
    fn sub_s(self, _rhs: Self) -> Self {
        unreachable!()
    }
    fn mul_s(self, _rhs: Self) -> Self {
        unreachable!()
    }
    fn div_s(self, _rhs: Self) -> Self {
        unreachable!()
    }
    fn neg_s(self) -> Self {
        unreachable!()
    }
    fn sqrt_s(self) -> Self {
        unreachable!()
    }
    fn tan_s(self) -> Self {
        unreachable!()
    }
    fn sin_s(self) -> Self {
        unreachable!()
    }
    fn pow_s(self, _e: Self) -> Self {
        unreachable!()
    }
    fn ge_s(self, _rhs: Self) -> bool {
        unreachable!()
    }
    fn from_bits_s(_bits: u64) -> Self {
        unreachable!()
    }
    fn zero_s() -> Self {
        unreachable!()
    }
    fn one_s() -> Self {
        unreachable!()
    }
    fn half_s() -> Self {
        unreachable!()
    }
    fn pi_s() -> Self {
        unreachable!()
    }
    fn frac_1_sqrt_2_s() -> Self {
        unreachable!()
    }
    fn from_io_s(_io: <Self as Sample>::Io) -> Self {
        unreachable!()
    }
    fn to_io_s(self) -> <Self as Sample>::Io {
        unreachable!()
    }
    fn io_zero_s() -> <Self as Sample>::Io {
        unreachable!()
    }
    fn lemma_zero() {
        unreachable!()
    }
    fn lemma_io_round_trip(_io: <Self as Sample>::Io) {
        unreachable!()
    }
}

#[test]
fn lanes_pass_through_identity() {
    let mut os: Oversampler<W2> = Oversampler::new(8, 2, 0);
    let original: Vec<[f32; 2]> = (0..30)
        .map(|i| {
            let t = i as f32 / 48.0;
            [(t * 3.1).sin() * 0.7, (t * 5.3).cos() * 0.4]
        })
        .collect();
    let mut buf = original.clone();
    os.process_block(&mut buf, &mut Noop);
    assert_eq!(buf, original);
}

#[test]
fn lanes_silence_stays_silence() {
    let mut os: Oversampler<W2> = Oversampler::new(8, 2, 2);
    let mut buf = vec![[0.0f32; 2]; 24];
    os.process_block(&mut buf, &mut Noop);
    assert!(buf.iter().all(|v| *v == [0.0, 0.0]));
}

/// Two lanes through one oversampler agree with two scalar runs: the lanes
/// never mix.
#[test]
fn lanes_match_two_mono_runs() {
    let left: Vec<f32> = (0..64).map(|i| ((i as f32) * 0.37).sin() * 0.8).collect();
    let right: Vec<f32> = (0..64).map(|i| ((i as f32) * 0.11).cos() * 0.6).collect();
    let mut stereo: Vec<[f32; 2]> = left
        .iter()
        .zip(right.iter())
        .map(|(l, r)| [*l, *r])
        .collect();
    let mut os: Oversampler<W2> = Oversampler::new(16, 2, 2);
    os.process_block(&mut stereo, &mut Noop);

    // Scalar reference: a wide vector with both lanes equal to one channel.
    for (channel, lane) in [(left, 0usize), (right, 1usize)] {
        let mut os1: Oversampler<W2> = Oversampler::new(16, 2, 2);
        let mut mono: Vec<[f32; 2]> = channel.iter().map(|v| [*v, *v]).collect();
        os1.process_block(&mut mono, &mut Noop);
        for i in 0..mono.len() {
            assert_eq!(stereo[i][lane], mono[i][lane], "lane {lane} sample {i}");
        }
    }
}
