//! Behavior tests on double-precision samples.

use components::adaptors::Func;
use components::adaptors::Stereo;
use components::adaptors::Toggle;
use components::cascade::Cascade;
use components::dc_blocker::DcBlocked;
use components::dc_blocker::DcBlocker;
use components::deprecated::dc_blocker::DcBlocker as OnePoleDcBlocker;
use components::deprecated::moog::Moog;
use components::gain::apply_gain;
use components::gain::Gain;
use components::half_band::AllPass;
use components::half_band::HalfBand;
use components::oversample::BlockProcessor;
use components::oversample::Oversampler;
use components::sample::Sample;
use components::simper::Simper;
use components::simper::SimperCoefficients;
use components::simper::SimperType;
use components::sundara_eq::SundaraEq;
use components::sweeten::Sweeten;
use components::Component;
use components::ComponentMeta;
use components::Noop;

/// Double-precision scalar samples with single-precision boundaries, the
/// production number format.
#[derive(Copy, Clone, Debug, PartialEq)]
struct S64(f64);

impl Sample for S64 {
    type Io = f32;

    fn add(self, rhs: Self) -> Self {
        S64(self.0 + rhs.0)
    }
    fn sub(self, rhs: Self) -> Self {
        S64(self.0 - rhs.0)
    }
    fn mul(self, rhs: Self) -> Self {
        S64(self.0 * rhs.0)
    }
    fn div(self, rhs: Self) -> Self {
        S64(self.0 / rhs.0)
    }
    fn neg(self) -> Self {
        S64(-self.0)
    }
    fn sqrt(self) -> Self {
        S64(self.0.sqrt())
    }
    fn tan(self) -> Self {
        S64(self.0.tan())
    }
    fn sin(self) -> Self {
        S64(self.0.sin())
    }
    fn pow(self, e: Self) -> Self {
        S64(self.0.powf(e.0))
    }
    fn all_ge(self, rhs: Self) -> bool {
        self.0 >= rhs.0
    }
    fn from_bits(bits: u64) -> Self {
        S64(f64::from_bits(bits))
    }
    fn zero() -> Self {
        S64(0.0)
    }
    fn one() -> Self {
        S64(1.0)
    }
    fn half() -> Self {
        S64(0.5)
    }
    fn pi() -> Self {
        S64(std::f64::consts::PI)
    }
    fn frac_1_sqrt_2() -> Self {
        S64(std::f64::consts::FRAC_1_SQRT_2)
    }
    fn from_io(io: f32) -> Self {
        S64(io as f64)
    }
    fn to_io(self) -> f32 {
        self.0 as f32
    }
    fn io_zero() -> f32 {
        0.0
    }

    // The remaining trait items are specification-only; they are erased from
    // every executable path and can never be called at run time.
    fn add_s(self, _rhs: Self) -> Self {
        unreachable!()
    }
    fn sub_s(self, _rhs: Self) -> Self {
        unreachable!()
    }
    fn mul_s(self, _rhs: Self) -> Self {
        unreachable!()
    }
    fn div_s(self, _rhs: Self) -> Self {
        unreachable!()
    }
    fn neg_s(self) -> Self {
        unreachable!()
    }
    fn sqrt_s(self) -> Self {
        unreachable!()
    }
    fn tan_s(self) -> Self {
        unreachable!()
    }
    fn sin_s(self) -> Self {
        unreachable!()
    }
    fn pow_s(self, _e: Self) -> Self {
        unreachable!()
    }
    fn ge_s(self, _rhs: Self) -> bool {
        unreachable!()
    }
    fn from_bits_s(_bits: u64) -> Self {
        unreachable!()
    }
    fn zero_s() -> Self {
        unreachable!()
    }
    fn one_s() -> Self {
        unreachable!()
    }
    fn half_s() -> Self {
        unreachable!()
    }
    fn pi_s() -> Self {
        unreachable!()
    }
    fn frac_1_sqrt_2_s() -> Self {
        unreachable!()
    }
    fn from_io_s(_io: <Self as Sample>::Io) -> Self {
        unreachable!()
    }
    fn to_io_s(self) -> <Self as Sample>::Io {
        unreachable!()
    }
    fn io_zero_s() -> <Self as Sample>::Io {
        unreachable!()
    }
    fn lemma_zero() {
        unreachable!()
    }
    fn lemma_io_round_trip(_io: <Self as Sample>::Io) {
        unreachable!()
    }
}

fn ap_state(f: &AllPass<S64>) -> (f64, [f64; 3], [f64; 3]) {
    (f.a.0, [f.x.0 .0, f.x.1 .0, f.x.2 .0], [f.y.0 .0, f.y.1 .0, f.y.2 .0])
}

fn hb_state(h: &HalfBand<S64>) -> (Vec<(f64, [f64; 3], [f64; 3])>, f64) {
    let mut v = Vec::new();
    for f in h.filter_a.0.iter() {
        v.push(ap_state(f));
    }
    for f in h.filter_b.0.iter() {
        v.push(ap_state(f));
    }
    (v, h.y0.0)
}

fn hb_cleared(h: &HalfBand<S64>) -> bool {
    let (sections, y0) = hb_state(h);
    y0 == 0.0 && sections.iter().all(|(_, x, y)| *x == [0.0; 3] && *y == [0.0; 3])
}

fn sine_block(n: usize, freq: f32, rate: f32, amp: f32) -> Vec<f32> {
    let mut v = Vec::new();
    for i in 0..n {
        let t = i as f32 / rate;
        v.push(amp * (2.0 * std::f32::consts::PI * freq * t).sin());
    }
    v
}

/// The documented latency values at a few factors.
#[test]
fn latency_literal_example() {
    let mut os: Oversampler<S64> = Oversampler::new(64, 3, 0);
    assert_eq!(os.latency(), 0);
    os.set_oversampling_factor(2);
    assert_eq!(os.latency(), 19);
    os.set_oversampling_factor(3);
    assert_eq!(os.latency(), 22);
    os.set_oversampling_factor(0);
    assert_eq!(os.latency(), 0);
}

#[test]
fn latency_whole_table() {
    let expected: [usize; 9] = [0, 13, 19, 22, 23, 24, 25, 25, 25];
    let mut os: Oversampler<S64> = Oversampler::new(16, 8, 0);
    for f in 0..=8u8 {
        os.set_oversampling_factor(f);
        assert_eq!(os.latency(), expected[f as usize]);
    }
}

/// With factor 0 and an identity inner process the block is unchanged
/// bit for bit (f32 -> f64 -> f32 is exact).
#[test]
fn pass_through_identity_factor0() {
    let mut os: Oversampler<S64> = Oversampler::new(8, 2, 0);
    let mut inner = Noop;
    let original = sine_block(37, 997.0, 48000.0, 0.8);
    let mut buf = original.clone();
    os.process_block(&mut buf, &mut inner);
    assert_eq!(buf, original);
}

/// An all-zero block stays all-zero through any factor, from silence.
#[test]
fn silence_stays_silence_all_factors() {
    for factor in 0..=3u8 {
        let mut os: Oversampler<S64> = Oversampler::new(16, 3, factor);
        let mut inner = Noop;
        let mut buf = vec![0.0f32; 50];
        os.process_block(&mut buf, &mut inner);
        os.process_block(&mut buf, &mut inner);
        for (i, v) in buf.iter().enumerate() {
            assert_eq!(*v, 0.0, "factor {factor} sample {i}");
        }
    }
}

/// A band-limited sine at unity gain comes back nearly unchanged after
/// upsample + identity + downsample, for each factor, once the pipeline
/// delay is accounted for.  (The `latency()` table is the fixed constant the
/// host is given for delay compensation; the delay used here is measured
/// from the signal itself.)
#[test]
fn round_trip_near_identity() {
    for factor in 1..=4u8 {
        let mut os: Oversampler<S64> = Oversampler::new(256, 4, factor);
        let mut inner = Noop;
        let n = 2048usize;
        let input = sine_block(n, 1000.0, 48000.0, 0.5);
        let mut buf = input.clone();
        os.process_block(&mut buf, &mut inner);
        let mut best = f32::INFINITY;
        for shift in 0..80usize {
            let mut worst = 0.0f32;
            for i in (shift + 256)..n {
                let err = (buf[i] - input[i - shift]).abs();
                if err > worst {
                    worst = err;
                }
            }
            if worst < best {
                best = worst;
            }
        }
        assert!(
            best < 0.05,
            "factor {factor}: best-aligned round-trip error {best} too large"
        );
    }
}

/// Chunking is transparent: the same signal split into different block
/// sizes produces bit-identical output, because every filter runs
/// sample-sequentially across chunk borders.
#[test]
fn chunking_is_transparent() {
    let input = sine_block(13, 2000.0, 48000.0, 0.7);
    let mut out_small = input.clone();
    let mut out_large = input.clone();
    let mut os_small: Oversampler<S64> = Oversampler::new(4, 2, 2);
    let mut os_large: Oversampler<S64> = Oversampler::new(13, 2, 2);
    os_small.process_block(&mut out_small, &mut Noop);
    os_large.process_block(&mut out_large, &mut Noop);
    assert_eq!(out_small, out_large);
}

/// The order-12 coefficient tables are the literal design values.
#[test]
fn table_fidelity_order12_coeffs() {
    let h: HalfBand<S64> = HalfBand::steep_order12();
    let ka = [
        0.036681502163648017,
        0.2746317593794541,
        0.5610989697879195,
        0.769741833862266,
        0.8922608180038789,
        0.962094548378084,
    ];
    let kb = [
        0.13654762463195771,
        0.42313861743656667,
        0.6775400499741616,
        0.839889624849638,
        0.9315419599631839,
        0.9878163707328971,
    ];
    assert_eq!(h.filter_a.0.len(), 6);
    assert_eq!(h.filter_b.0.len(), 6);
    for i in 0..6 {
        assert_eq!(h.filter_a.0[i].a.0, ka[i]);
        assert_eq!(h.filter_b.0[i].a.0, kb[i]);
    }
}

#[test]
fn table_fidelity_order10_coeffs() {
    let h: HalfBand<S64> = HalfBand::steep_order10();
    let ka = [
        0.051457617441190984,
        0.35978656070567017,
        0.6725475931034693,
        0.8590884928249939,
        0.9540209867860787,
    ];
    let kb = [
        0.18621906251989334,
        0.529951372847964,
        0.7810257527489514,
        0.9141815687605308,
        0.985475023014907,
    ];
    for i in 0..5 {
        assert_eq!(h.filter_a.0[i].a.0, ka[i]);
        assert_eq!(h.filter_b.0[i].a.0, kb[i]);
    }
}

/// A unit impulse through the order-12 filter reproduces the reference
/// impulse-response prefix exactly.
#[test]
fn impulse_response_prefix_order12() {
    let mut h: HalfBand<S64> = HalfBand::steep_order12();
    let expected: [f64; 16] = [
        0.0018675060322128473,
        0.015127691037798081,
        0.06097020279537417,
        0.15797322334890498,
        0.2847328921188249,
        0.3574934111767173,
        0.2810486000730083,
        0.06037948177387331,
        -0.15171678976982284,
        -0.1781943420488602,
        -0.016671081033778207,
        0.1340981184054935,
        0.0995830612838229,
        -0.05500495980336581,
        -0.115170258539976,
        -0.010323832223526244,
    ];
    for (i, e) in expected.iter().enumerate() {
        let x = if i == 0 { 1.0 } else { 0.0 };
        let y = h.process(S64(x));
        assert_eq!(y.0.to_bits(), e.to_bits(), "impulse response sample {i}");
    }
}

#[test]
fn half_band_latency_by_order() {
    let h12: HalfBand<S64> = HalfBand::steep_order12();
    let h10: HalfBand<S64> = HalfBand::steep_order10();
    assert_eq!(h12.latency(), 24);
    assert_eq!(h10.latency(), 20);
}

/// A cascade of k identical stages reports k times the stage latency,
/// and resetting it equals resetting every stage on its own.
#[test]
fn cascade_latency_and_reset() {
    for k in 0..6usize {
        let mut v = Vec::new();
        for _ in 0..k {
            v.push(AllPass::new(S64(0.25)));
        }
        let c = Cascade(v);
        assert_eq!(c.latency(), 2 * k);
    }
    let mut c = Cascade(vec![AllPass::new(S64(0.25)), AllPass::new(S64(0.5))]);
    c.process(S64(1.0));
    c.process(S64(-0.5));
    c.reset();
    for f in c.0.iter() {
        let (_, x, y) = ap_state(f);
        assert_eq!(x, [0.0; 3]);
        assert_eq!(y, [0.0; 3]);
    }
    assert_eq!(c.0[0].a.0, 0.25);
    assert_eq!(c.0[1].a.0, 0.5);
}

/// Lowering the factor leaves the filters that stay in the active path
/// bit-identical; raising it clears everything.
#[test]
fn factor_change_policy() {
    let mut os: Oversampler<S64> = Oversampler::new(64, 4, 4);
    let mut inner = Noop;
    let mut buf = sine_block(256, 1500.0, 48000.0, 0.9);
    os.process_block(&mut buf, &mut inner);
    let up_before: Vec<_> = os.inner.up_filters.iter().map(hb_state).collect();
    let down_before: Vec<_> = os.inner.down_filters.iter().map(hb_state).collect();
    os.set_oversampling_factor(2);
    // Active up-filters 0 and 1 keep their state; 2 and 3 are cleared.
    for i in 0..2 {
        assert_eq!(hb_state(&os.inner.up_filters[i]), up_before[i]);
    }
    for i in 2..4 {
        assert!(hb_cleared(&os.inner.up_filters[i]));
    }
    // The last two down-filters are cleared; the first two keep state.
    for i in 0..2 {
        assert_eq!(hb_state(&os.inner.down_filters[i]), down_before[i]);
    }
    for i in 2..4 {
        assert!(hb_cleared(&os.inner.down_filters[i]));
    }
    // Raising the factor clears every filter unconditionally.
    let mut buf2 = sine_block(64, 700.0, 48000.0, 0.5);
    os.process_block(&mut buf2, &mut inner);
    os.set_oversampling_factor(3);
    for h in os.inner.up_filters.iter().chain(os.inner.down_filters.iter()) {
        assert!(hb_cleared(h));
    }
}

#[test]
fn set_factor_clamps_to_max() {
    let mut os: Oversampler<S64> = Oversampler::new(32, 3, 0);
    os.set_oversampling_factor(9);
    assert_eq!(os.latency(), 22);
    os.set_oversampling_factor(0);
    assert_eq!(os.latency(), 0);
}

/// The inner process sees the signal at the raised rate: a clipper run at
/// 2x keeps its effect after decimation.
struct HardClip(f64);

impl BlockProcessor<S64> for HardClip {
    fn process_buffer(&mut self, buf: &mut Vec<S64>, len: usize) {
        for i in 0..len {
            let v = buf[i].0;
            buf[i] = S64(v.clamp(-self.0, self.0));
        }
    }

    // Specification-only trait item, never called at run time.
    fn block_step(
        &self,
        _buf: vstd::seq::Seq<S64>,
        _next: &Self,
        _out: vstd::seq::Seq<S64>,
    ) -> bool {
        unreachable!()
    }
}

#[test]
fn inner_process_shapes_signal() {
    let mut os: Oversampler<S64> = Oversampler::new(64, 2, 1);
    let mut clip = HardClip(0.25);
    let mut buf = sine_block(512, 1000.0, 48000.0, 1.0);
    os.process_block(&mut buf, &mut clip);
    let lat = os.latency();
    let peak = buf[(lat + 64)..]
        .iter()
        .fold(0.0f32, |m, v| m.max(v.abs()));
    assert!(peak < 0.30, "clipping at 2x left peak {peak}");
    assert!(peak > 0.20, "signal vanished, peak {peak}");
}

/// Simper process matches a direct transliteration of the design's
/// recurrence, bit for bit.
#[test]
fn simper_process_reference() {
    let sr = S64(48000.0);
    let mut f: Simper<S64> = Simper::low_pass(sr, S64(2000.0), S64(0.707));
    let g = (std::f64::consts::PI * 2000.0 / 48000.0).tan();
    let k = 1.0 / 0.707;
    let a1 = 1.0 / (1.0 + g * (g + k));
    let a2 = g * a1;
    let a3 = g * a2;
    let (m0, m1, m2) = (0.0, 0.0, 1.0);
    let mut ic1 = 0.0f64;
    let mut ic2 = 0.0f64;
    for i in 0..256 {
        let v0 = ((i * 37) % 100) as f64 / 100.0 - 0.5;
        let got = f.process(S64(v0));
        let v3 = v0 - ic2;
        let v1 = a1 * ic1 + a2 * v3;
        let v2 = ic2 + a2 * ic1 + a3 * v3;
        ic1 = 2.0 * v1 - ic1;
        ic2 = 2.0 * v2 - ic2;
        let want = m0 * v0 + m1 * v1 + m2 * v2;
        assert_eq!(got.0.to_bits(), want.to_bits(), "sample {i}");
    }
}

#[test]
fn simper_update_parameters_keeps_state() {
    let sr = S64(48000.0);
    let mut f: Simper<S64> = Simper::bell(sr, S64(500.0), S64(1.0), S64(6.0));
    for i in 0..32 {
        f.process(S64((i as f64 / 8.0).sin()));
    }
    let ic1 = f.ic1eq;
    let ic2 = f.ic2eq;
    f.update_parameters(sr, S64(800.0), S64(2.0), S64(-3.0));
    assert_eq!(f.filter_type(), SimperType::Bell);
    assert_eq!(f.ic1eq, ic1);
    assert_eq!(f.ic2eq, ic2);
    let repl = SimperCoefficients::notch(sr, S64(100.0), S64(0.5));
    f.set_parameters(repl);
    assert_eq!(f.filter_type(), SimperType::Notch);
    assert_eq!(f.ic1eq, ic1);
}

#[test]
fn simper_silence_stays_silence() {
    let mut f: Simper<S64> = Simper::high_pass(S64(44100.0), S64(20.0), S64(0.707));
    for _ in 0..16 {
        assert_eq!(f.process(S64(0.0)).0, 0.0);
    }
}

#[test]
fn dc_blocker_removes_offset() {
    let mut b: DcBlocker<S64> = DcBlocker::new(S64(48000.0));
    assert_eq!(b.latency(), 0);
    let mut last = 1.0f64;
    for _ in 0..48000 {
        last = b.process(S64(1.0)).0;
    }
    assert!(last.abs() < 0.02, "DC residue {last}");
}

#[test]
fn one_pole_dc_blocker_step() {
    let mut b: OnePoleDcBlocker<S64> = OnePoleDcBlocker::new(S64(48000.0));
    let r = 1.0 - 190.0 / 48000.0;
    assert_eq!(b.r.0, r);
    let y1 = b.process(S64(1.0)).0;
    assert_eq!(y1, 1.0);
    let y2 = b.process(S64(1.0)).0;
    assert_eq!(y2.to_bits(), (1.0f64 - 1.0 + r * 1.0).to_bits());
}

#[test]
fn moog_reference() {
    let mut m: Moog<S64> = Moog::low_pass(S64(48000.0), S64(4000.0), S64(0.3));
    assert_eq!(m.latency(), 4);
    let fq = 4000.0f64 / (48000.0 * 0.5);
    let q0 = 1.0 - fq;
    let p = fq + 0.8 * fq * q0;
    let fcoef = p + p - 1.0;
    let q = 0.3 * (1.0 + 0.5 * q0 * (1.0 - q0 + 5.6 * q0 * q0));
    let mut b = [0.0f64; 5];
    for i in 0..64 {
        let s = ((i % 7) as f64 - 3.0) / 4.0;
        let got = m.process(S64(s)).0;
        let x = s - q * b[4];
        let t1 = b[1];
        b[1] = (x + b[0]) * p - b[1] * fcoef;
        let t2 = b[2];
        b[2] = (b[1] + t1) * p - b[2] * fcoef;
        let t1b = b[3];
        b[3] = (b[2] + t2) * p - b[3] * fcoef;
        b[4] = (b[3] + t1b) * p - b[4] * fcoef;
        b[4] = b[4] - b[4] * b[4] * b[4] * 0.166667;
        b[0] = x;
        assert_eq!(got.to_bits(), b[4].to_bits(), "sample {i}");
    }
}

#[test]
fn sweeten_reference() {
    let mut s: Sweeten<S64> = Sweeten::new(S64(96000.0));
    assert_eq!(s.cycle_end, 2);
    s.set_amount(S64(0.5));
    assert_eq!(s.sweet.0, 0.03125);
    let sweet = 0.03125f64;
    let mut savg = [0.0f64; 8];
    for i in 0..64 {
        let sample = ((i % 9) as f64 - 4.0) / 5.0;
        let got = s.process(S64(sample)).0;
        let mut ss = sample;
        let mut sv = ss;
        ss = (ss + savg[0]) * 0.5;
        savg[0] = sv;
        sv = ss;
        ss = (ss + savg[1]) * 0.5;
        savg[1] = sv;
        ss = ss * ss * sweet;
        sv = ss;
        ss = (ss + savg[4]) * 0.5;
        savg[4] = sv;
        sv = ss;
        ss = (ss + savg[5]) * 0.5;
        savg[5] = sv;
        let want = sample - ss;
        assert_eq!(got.to_bits(), want.to_bits(), "sample {i}");
    }
}

#[test]
fn sweeten_amount_table() {
    let mut s: Sweeten<S64> = Sweeten::new(S64(44100.0));
    assert_eq!(s.cycle_end, 1);
    let expect = [
        (0.0, 0.0009765625),
        (0.05, 0.0009765625),
        (0.1, 0.001953125),
        (0.35, 0.0078125),
        (0.5, 0.03125),
        (0.95, 0.5),
        (1.0, 1.0),
    ];
    for (amount, sweet) in expect {
        s.set_amount(S64(amount));
        assert_eq!(s.sweet.0, sweet, "amount {amount}");
    }
}

#[test]
fn toggle_bypass_and_reset() {
    let inner: Simper<S64> = Simper::low_pass(S64(48000.0), S64(1000.0), S64(0.707));
    let mut t = Toggle::new(inner, false, true);
    assert_eq!(t.latency(), 0);
    assert_eq!(t.process(S64(0.75)).0, 0.75);
    for i in 0..8 {
        t.inner.process(S64(i as f64 / 8.0));
    }
    assert!(t.inner.ic1eq.0 != 0.0);
    t.toggle(true);
    assert_eq!(t.inner.ic1eq.0, 0.0);
    assert_eq!(t.inner.ic2eq.0, 0.0);
    let filtered = t.process(S64(0.75)).0;
    assert!(filtered != 0.75);
}

#[test]
fn stereo_pair_processes_lanes_independently() {
    let mut s = Stereo::double(Gain(S64(2.0)));
    s.right = Gain(S64(-1.0));
    let (l, r) = s.process((S64(0.25), S64(0.25)));
    assert_eq!(l.0, 0.5);
    assert_eq!(r.0, -0.25);
    assert_eq!(s.latency(), 0);
}

#[test]
fn func_and_gain_map() {
    let mut f = Func(Gain(S64(0.5)));
    assert_eq!(f.process(S64(0.5)).0, 0.25);
    let mut g = Gain(S64(3.0));
    assert_eq!(g.process(S64(0.5)).0, 1.5);
}

#[test]
fn apply_gain_block() {
    let mut v = vec![S64(1.0), S64(-2.0), S64(0.5)];
    apply_gain(S64(0.5), &mut v);
    assert_eq!(v, vec![S64(0.5), S64(-1.0), S64(0.25)]);
}

#[test]
fn noop_is_identity() {
    let mut n = Noop;
    assert_eq!(n.process(S64(0.7)).0, 0.7);
    assert_eq!(n.latency(), 0);
}

#[test]
fn sundara_eq_shape() {
    let mut eq: SundaraEq<S64> = SundaraEq::new(S64(48000.0));
    assert_eq!(eq.latency(), 0);
    assert_eq!(eq.filters.0.len(), 3);
    assert_eq!(eq.filters.0[0].filter_type(), SimperType::LowShelf);
    assert_eq!(eq.filters.0[1].filter_type(), SimperType::Bell);
    assert_eq!(eq.filters.0[2].filter_type(), SimperType::Bell);
    // The -4 dB preamp attenuates.
    assert!((eq.preamp.0 - 10.0f64.powf(-0.2)).abs() < 1e-15);
    let out = eq.process(S64(0.0)).0;
    assert_eq!(out, 0.0);
}

/// Resetting the oversampler silences all filters but keeps the factor.
#[test]
fn oversampler_reset_keeps_factor() {
    let mut os: Oversampler<S64> = Oversampler::new(32, 2, 2);
    let mut buf = sine_block(64, 3000.0, 48000.0, 1.0);
    os.process_block(&mut buf, &mut Noop);
    os.reset();
    assert_eq!(os.latency(), 19);
    for h in os.inner.up_filters.iter().chain(os.inner.down_filters.iter()) {
        assert!(hb_cleared(h));
    }
}

/// An empty buffer and a zero-stage configuration are both legal and do
/// nothing.
#[test]
fn degenerate_configurations() {
    let mut os: Oversampler<S64> = Oversampler::new(4, 0, 0);
    let mut empty: Vec<f32> = Vec::new();
    os.process_block(&mut empty, &mut Noop);
    assert!(empty.is_empty());
    let mut one = vec![0.125f32];
    os.process_block(&mut one, &mut Noop);
    assert_eq!(one, vec![0.125f32]);
    // A factor above max_factor clamps to 0 here.
    os.set_oversampling_factor(5);
    assert_eq!(os.latency(), 0);
}

/// `Cascade::from_fn` builds stage `i` from `f(i)`, and `apply` maps a
/// function over every stage.
#[test]
fn cascade_from_fn_and_apply() {
    let mut c: Cascade<Gain<S64>> = Cascade::from_fn(4, &|i: usize| Gain(S64(i as f64)));
    assert_eq!(c.0.len(), 4);
    for i in 0..4 {
        assert_eq!(c.0[i].0 .0, i as f64);
    }
    c.apply(&|g: Gain<S64>| Gain(S64(g.0 .0 + 10.0)));
    for i in 0..4 {
        assert_eq!(c.0[i].0 .0, i as f64 + 10.0);
    }
    // A cascade of gains multiplies them up.
    let out = c.process(S64(1.0));
    assert_eq!(out.0, 10.0 * 11.0 * 12.0 * 13.0);
}

/// `HalfBand::from_coeffs` builds one section per coefficient, at rest.
#[test]
fn half_band_from_coeffs() {
    let ka = vec![S64(0.1), S64(0.2)];
    let kb = vec![S64(0.3), S64(0.4)];
    let h = HalfBand::from_coeffs(&ka, &kb);
    assert_eq!(h.latency(), 8);
    assert_eq!(h.filter_a.0.len(), 2);
    assert_eq!(h.filter_b.0.len(), 2);
    assert_eq!(h.filter_a.0[1].a.0, 0.2);
    assert_eq!(h.filter_b.0[0].a.0, 0.3);
    assert!(hb_cleared(&h));
}

/// A single all-pass section follows its recurrence exactly.
#[test]
fn all_pass_recurrence() {
    let mut f = AllPass::new(S64(0.5));
    assert_eq!(f.latency(), 2);
    // Feed 1, 0, 0, ...: y_n = x_{n-2} + (x_n - y_{n-2}) * a.
    let y0 = f.process(S64(1.0)).0;
    assert_eq!(y0, 0.0 + (1.0 - 0.0) * 0.5);
    let y1 = f.process(S64(0.0)).0;
    assert_eq!(y1, 0.0);
    let y2 = f.process(S64(0.0)).0;
    assert_eq!(y2.to_bits(), (1.0f64 + (0.0 - y0) * 0.5).to_bits());
}

/// The decrease policy resets the *last* `new_factor` down-filters, exactly
/// as specified: with three stages, dropping from 3 to 2 clears down-filters
/// 2 and 1 and keeps down-filter 0.
#[test]
fn factor_decrease_policy_is_exact() {
    let mut os: Oversampler<S64> = Oversampler::new(32, 3, 3);
    let mut buf = sine_block(96, 2500.0, 48000.0, 0.8);
    os.process_block(&mut buf, &mut Noop);
    let up_before: Vec<_> = os.inner.up_filters.iter().map(hb_state).collect();
    let down_before: Vec<_> = os.inner.down_filters.iter().map(hb_state).collect();
    os.set_oversampling_factor(2);
    assert_eq!(hb_state(&os.inner.up_filters[0]), up_before[0]);
    assert_eq!(hb_state(&os.inner.up_filters[1]), up_before[1]);
    assert!(hb_cleared(&os.inner.up_filters[2]));
    assert_eq!(hb_state(&os.inner.down_filters[0]), down_before[0]);
    assert!(hb_cleared(&os.inner.down_filters[1]));
    assert!(hb_cleared(&os.inner.down_filters[2]));
}

/// The latency/reset composition law holds through arbitrary nesting: a
/// cascade of cascades sums the inner sums.
#[test]
fn nested_cascade_latency() {
    let inner = || Cascade(vec![AllPass::new(S64(0.1)), AllPass::new(S64(0.2))]);
    let outer = Cascade(vec![inner(), inner(), inner()]);
    assert_eq!(outer.latency(), 3 * (2 * 2));
    let mixed = Cascade(vec![Cascade(Vec::<AllPass<S64>>::new()), inner()]);
    assert_eq!(mixed.latency(), 4);
}

/// A stereo pair reports the worst channel's latency; a DC-blocked wrapper
/// adds its own.
#[test]
fn adaptor_latency_rules() {
    let left = Cascade(vec![AllPass::new(S64(0.1)), AllPass::new(S64(0.2))]);
    let right = Cascade(vec![AllPass::new(S64(0.3))]);
    let pair = Stereo { left, right };
    assert_eq!(pair.latency(), 4);
    let wrapped = DcBlocked {
        blocker: DcBlocker::new(S64(48000.0)),
        inner: Moog::low_pass(S64(48000.0), S64(800.0), S64(0.2)),
    };
    assert_eq!(wrapped.latency(), 4);
}

/// The bell and shelf coefficient formulas match the design document's
/// arithmetic, bit for bit.
#[test]
fn simper_bell_and_shelf_coefficients() {
    let (sr, fq, q, db) = (48000.0f64, 900.0f64, 1.3f64, 5.5f64);
    let f: Simper<S64> = Simper::bell(S64(sr), S64(fq), S64(q), S64(db));
    let a = 10.0f64.powf(db / 40.0);
    let g = (std::f64::consts::PI * fq / sr).tan();
    let k = 1.0 / (q * a);
    let a1 = 1.0 / (1.0 + g * (g + k));
    assert_eq!(f.x.g.0.to_bits(), g.to_bits());
    assert_eq!(f.x.k.0.to_bits(), k.to_bits());
    assert_eq!(f.x.a1.0.to_bits(), a1.to_bits());
    assert_eq!(f.x.a2.0.to_bits(), (g * a1).to_bits());
    assert_eq!(f.x.a3.0.to_bits(), (g * (g * a1)).to_bits());
    assert_eq!(f.x.m0.0, 1.0);
    assert_eq!(f.x.m1.0.to_bits(), (k * (a * a - 1.0)).to_bits());
    assert_eq!(f.x.m2.0, 0.0);

    let lo: Simper<S64> = Simper::low_shelf(S64(sr), S64(fq), S64(q), S64(db));
    let gl = (std::f64::consts::PI * fq / sr).tan() / a.sqrt();
    let kl = 1.0 / q;
    let a1l = 1.0 / (1.0 + gl * (gl + kl));
    assert_eq!(lo.x.g.0.to_bits(), gl.to_bits());
    assert_eq!(lo.x.a1.0.to_bits(), a1l.to_bits());
    assert_eq!(lo.x.m1.0.to_bits(), (kl * (a - 1.0)).to_bits());
    assert_eq!(lo.x.m2.0.to_bits(), (a * a - 1.0).to_bits());

    let hi: Simper<S64> = Simper::high_shelf(S64(sr), S64(fq), S64(q), S64(db));
    let gh = (std::f64::consts::PI * fq / sr).tan() * a.sqrt();
    let a1h = 1.0 / (1.0 + gh * (gh + kl));
    assert_eq!(hi.x.g.0.to_bits(), gh.to_bits());
    assert_eq!(hi.x.a1.0.to_bits(), a1h.to_bits());
    assert_eq!(hi.x.m0.0.to_bits(), (a * a).to_bits());
    assert_eq!(hi.x.m1.0.to_bits(), (kl * (1.0 - a) * a).to_bits());
    assert_eq!(hi.x.m2.0.to_bits(), (1.0 - a * a).to_bits());
}

/// The high-pass and band-pass ladder outputs follow their read-off
/// formulas.
#[test]
fn moog_output_modes() {
    let (sr, fq, res) = (S64(48000.0), S64(2000.0), S64(0.4));
    let mut lo: Moog<S64> = Moog::low_pass(sr, fq, res);
    let mut hi: Moog<S64> = Moog::high_pass(sr, fq, res);
    let mut bp: Moog<S64> = Moog::band_pass(sr, fq, res);
    for i in 0..32 {
        let s = ((i % 5) as f64 - 2.0) / 3.0;
        let l = lo.process(S64(s)).0;
        let h = hi.process(S64(s)).0;
        let b = bp.process(S64(s)).0;
        // All three share the same ladder state; check the read-offs.
        assert_eq!(l.to_bits(), lo.b.4 .0.to_bits());
        let x = hi.b.0 .0;
        assert_eq!(h.to_bits(), (x - hi.b.4 .0).to_bits());
        assert_eq!(b.to_bits(), (3.0 * (bp.b.3 .0 - bp.b.4 .0)).to_bits());
    }
}

/// The default correction curve is three flat bells behind the preamp.
#[test]
fn sundara_eq_default_is_flat() {
    let eq: SundaraEq<S64> = SundaraEq::default();
    assert_eq!(eq.filters.0.len(), 3);
    for f in eq.filters.0.iter() {
        assert_eq!(f.filter_type(), SimperType::Bell);
        assert_eq!(f.ic1eq.0, 0.0);
    }
    assert!((eq.preamp.0 - 10.0f64.powf(-0.2)).abs() < 1e-15);
}

/// At four times the reference rate every averaging stage is active.
#[test]
fn sweeten_reference_full_chain() {
    let mut s: Sweeten<S64> = Sweeten::new(S64(176400.0));
    assert_eq!(s.cycle_end, 4);
    let sweet = 0.0009765625f64;
    let mut savg = [0.0f64; 8];
    for i in 0..64 {
        let sample = ((i % 11) as f64 - 5.0) / 6.0;
        let got = s.process(S64(sample)).0;
        let mut ss = sample;
        let mut sv = ss;
        ss = (ss + savg[0]) * 0.5;
        savg[0] = sv;
        for k in 1..4 {
            sv = ss;
            ss = (ss + savg[k]) * 0.5;
            savg[k] = sv;
        }
        ss = ss * ss * sweet;
        sv = ss;
        ss = (ss + savg[4]) * 0.5;
        savg[4] = sv;
        for k in 5..8 {
            sv = ss;
            ss = (ss + savg[k]) * 0.5;
            savg[k] = sv;
        }
        let want = sample - ss;
        assert_eq!(got.to_bits(), want.to_bits(), "sample {i}");
    }
}
