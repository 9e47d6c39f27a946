use vstd::prelude::*;

use crate::cascade::stages_latency;
use crate::cascade::stages_step;
use crate::cascade::Cascade;
use crate::sample::Sample;
use crate::Component;
use crate::ComponentMeta;

verus! {

/// Specialized 2nd-order AllPass filter: one lattice coefficient `a` and
/// three-sample windows of past inputs and outputs.
#[derive(Debug)]
pub struct AllPass<T> {
    pub a: T,
    pub x: (T, T, T),
    pub y: (T, T, T),
}

impl<T: Sample> AllPass<T> {
    /// The sample the section emits for input `xin`:
    /// `oldest_input + coefficient * (new_input - oldest_output)`, where
    /// "oldest" is relative to the rotated windows, two samples back.
    pub open spec fn out_s(self, xin: T) -> T {
        self.x.1.add_s(xin.sub_s(self.y.1).mul_s(self.a))
    }

    /// The section state after processing `xin`: both windows shift by one,
    /// the new input and the new output enter at the front.
    pub open spec fn next_s(self, xin: T) -> AllPass<T> {
        AllPass {
            a: self.a,
            x: (xin, self.x.0, self.x.1),
            y: (self.out_s(xin), self.y.0, self.y.1),
        }
    }

    /// All six state samples are zero, as after construction or reset.
    pub open spec fn at_rest(self) -> bool {
        self.x == (T::zero_s(), T::zero_s(), T::zero_s()) && self.y == (
            T::zero_s(),
            T::zero_s(),
            T::zero_s(),
        )
    }

    pub fn new(a: T) -> (r: Self)
        ensures
            r.a == a,
            r.at_rest(),
    {
        let z = T::zero();
        AllPass { a, x: (z, z, z), y: (z, z, z) }
    }

    /// Admit `x` into the input window and rotate the output window; the
    /// freshly rotated-in output slot is overwritten by `process`.
    pub fn rotate_state(&mut self, x: T)
        ensures
            final(self).a == old(self).a,
            final(self).x == (x, old(self).x.0, old(self).x.1),
            final(self).y == (old(self).y.2, old(self).y.0, old(self).y.1),
    {
        let (x0, x1, _) = self.x;
        self.x = (x, x0, x1);
        let (y0, y1, y2) = self.y;
        self.y = (y2, y0, y1);
    }

    /// A section at rest maps a zero input to a zero output and stays at
    /// rest, whatever its coefficient.
    pub proof fn lemma_at_rest_step(self, xin: T)
        requires
            self.at_rest(),
            xin == T::zero_s(),
        ensures
            self.out_s(xin) == T::zero_s(),
            self.next_s(xin).at_rest(),
            self.next_s(xin).a == self.a,
    {
        T::lemma_zero();
    }
}

impl<T: Sample> ComponentMeta for AllPass<T> {
    open spec fn wf(&self) -> bool {
        true
    }

    /// Models the two-sample group delay inherent to the recursion; used for
    /// latency bookkeeping only.
    open spec fn latency_of(&self) -> int {
        2
    }

    open spec fn resets_to(&self, r: &Self) -> bool {
        r.a == self.a && r.at_rest()
    }

    fn reset(&mut self) {
        let z = T::zero();
        self.x = (z, z, z);
        self.y = (z, z, z);
    }

    fn latency(&self) -> (r: usize) {
        2
    }
}

impl<T: Sample> Component<T> for AllPass<T> {
    open spec fn step(&self, x: T, next: &Self, out: T) -> bool {
        *next == self.next_s(x) && out == self.out_s(x)
    }

    fn process(&mut self, x: T) -> (out: T) {
        self.rotate_state(x);
        let v = self.x.2.add(x.sub(self.y.2).mul(self.a));
        self.y = (v, self.y.1, self.y.2);
        v
    }
}

/// Every section of an all-pass cascade reports latency 2, so the cascade's
/// latency is twice its length.
pub proof fn lemma_allpass_bank_latency<T: Sample>(s: Seq<AllPass<T>>)
    ensures
        stages_latency(s) == 2 * s.len(),
    decreases s.len(),
{
    if s.len() > 0 {
        lemma_allpass_bank_latency(s.drop_first());
    }
}

/// An all-pass cascade whose sections are all at rest maps a zero input to a
/// zero output and stays at rest, keeping its coefficients.
pub proof fn lemma_bank_at_rest_step<T: Sample>(pre: Seq<AllPass<T>>, x: T, post: Seq<AllPass<T>>, out: T)
    requires
        stages_step(pre, x, post, out),
        forall|i: int| 0 <= i < pre.len() ==> (#[trigger] pre[i]).at_rest(),
        x == T::zero_s(),
    ensures
        out == T::zero_s(),
        forall|i: int| 0 <= i < post.len() ==> (#[trigger] post[i]).at_rest(),
        forall|i: int| 0 <= i < post.len() ==> (#[trigger] post[i]).a == pre[i].a,
    decreases pre.len(),
{
    if pre.len() == 0 {
    } else {
        let y = choose|y: T|
            stages_step(pre.drop_last(), x, post.drop_last(), y) && #[trigger] pre.last().step(
                y,
                &post.last(),
                out,
            );
        assert forall|i: int| 0 <= i < pre.drop_last().len() implies (#[trigger] pre.drop_last()[i]).at_rest() by {
            assert(pre.drop_last()[i] == pre[i]);
        }
        lemma_bank_at_rest_step(pre.drop_last(), x, post.drop_last(), y);
        pre.last().lemma_at_rest_step(y);
        assert forall|i: int| 0 <= i < post.len() implies (#[trigger] post[i]).at_rest() && post[i].a
            == pre[i].a by {
            if i < post.len() - 1 {
                assert(post.drop_last()[i] == post[i]);
                assert(pre.drop_last()[i] == pre[i]);
            } else {
                assert(post[i] == post.last());
            }
        }
    }
}

/// Half-band filter: two parallel all-pass cascades whose outputs are
/// averaged with a one-sample skew between the paths.
#[derive(Debug)]
pub struct HalfBand<T> {
    pub filter_a: Cascade<AllPass<T>>,
    pub filter_b: Cascade<AllPass<T>>,
    pub y0: T,
}

impl<T: Sample> HalfBand<T> {
    /// Both cascades and the delay register are in their power-on state.
    pub open spec fn at_rest(&self) -> bool {
        &&& forall|i: int| 0 <= i < self.filter_a.0@.len() ==> (#[trigger] self.filter_a.0@[i]).at_rest()
        &&& forall|i: int| 0 <= i < self.filter_b.0@.len() ==> (#[trigger] self.filter_b.0@[i]).at_rest()
        &&& self.y0 == T::zero_s()
    }

    /// The two filters' coefficient lists, which identify the design.
    pub open spec fn coeffs(&self) -> (Seq<T>, Seq<T>) {
        (
            self.filter_a.0@.map_values(|s: AllPass<T>| s.a),
            self.filter_b.0@.map_values(|s: AllPass<T>| s.a),
        )
    }
}

impl<T: Sample> ComponentMeta for HalfBand<T> {
    open spec fn wf(&self) -> bool {
        &&& self.filter_a.wf()
        &&& self.filter_b.wf()
        &&& self.filter_a.latency_of() + self.filter_b.latency_of() <= usize::MAX
    }

    /// The sum of both cascades' reported latencies.
    open spec fn latency_of(&self) -> int {
        self.filter_a.latency_of() + self.filter_b.latency_of()
    }

    open spec fn resets_to(&self, r: &Self) -> bool {
        &&& self.filter_a.resets_to(&r.filter_a)
        &&& self.filter_b.resets_to(&r.filter_b)
        &&& r.y0 == T::zero_s()
    }

    fn reset(&mut self) {
        self.filter_a.reset();
        self.filter_b.reset();
        self.y0 = T::zero();
    }

    fn latency(&self) -> (r: usize) {
        self.filter_a.latency() + self.filter_b.latency()
    }
}

impl<T: Sample> Component<T> for HalfBand<T> {
    /// One step feeds `x` to both paths; the output averages path A with the
    /// previous call's path-B output, and the fresh path-B output is held
    /// back for the next call.  The one-sample skew between the paths is what
    /// realizes the half-band response.
    open spec fn step(&self, x: T, next: &Self, out: T) -> bool {
        exists|ya: T, yb: T|
            {
                &&& #[trigger] stages_step(self.filter_a.0@, x, next.filter_a.0@, ya)
                &&& #[trigger] stages_step(self.filter_b.0@, x, next.filter_b.0@, yb)
                &&& out == ya.add_s(self.y0).mul_s(T::half_s())
                &&& next.y0 == yb
            }
    }

    fn process(&mut self, x: T) -> (out: T) {
        let ya = self.filter_a.process(x);
        let y = ya.add(self.y0).mul(T::half());
        self.y0 = self.filter_b.process(x);
        y
    }
}

impl<T: Sample> HalfBand<T> {
    /// One all-pass path: a cascade of fresh sections with the given lattice
    /// coefficients.
    fn bank(k: &Vec<T>) -> (r: Cascade<AllPass<T>>)
        ensures
            r.0@.len() == k@.len(),
            forall|i: int| 0 <= i < k@.len() ==> (#[trigger] r.0@[i]).a == k@[i],
            forall|i: int| 0 <= i < k@.len() ==> (#[trigger] r.0@[i]).at_rest(),
    {
        let mut v: Vec<AllPass<T>> = Vec::new();
        let mut i: usize = 0;
        let n = k.len();
        while i < n
            invariant
                n == k@.len(),
                i <= n,
                v@.len() == i,
                forall|j: int| 0 <= j < i ==> (#[trigger] v@[j]).a == k@[j],
                forall|j: int| 0 <= j < i ==> (#[trigger] v@[j]).at_rest(),
            decreases n - i,
        {
            v.push(AllPass::new(k[i]));
            i = i + 1;
        }
        Cascade(v)
    }

    /// Build a half-band filter from the two paths' lattice coefficient
    /// tables, every section at rest.
    pub fn from_coeffs(k_a: &Vec<T>, k_b: &Vec<T>) -> (r: Self)
        requires
            2 * k_a@.len() + 2 * k_b@.len() <= usize::MAX,
        ensures
            r.wf(),
            r.at_rest(),
            r.coeffs().0 == k_a@,
            r.coeffs().1 == k_b@,
            r.latency_of() == 2 * k_a@.len() + 2 * k_b@.len(),
    {
        let filter_a = Self::bank(k_a);
        let filter_b = Self::bank(k_b);
        proof {
            lemma_allpass_bank_latency(filter_a.0@);
            lemma_allpass_bank_latency(filter_b.0@);
            assert(filter_a.0@.map_values(|s: AllPass<T>| s.a) =~= k_a@);
            assert(filter_b.0@.map_values(|s: AllPass<T>| s.a) =~= k_b@);
        }
        HalfBand { filter_a, filter_b, y0: T::zero() }
    }

    /// The lattice coefficients of the steep 12th-order half-band design, as
    /// IEEE 754 double bit patterns: path A then path B.
    pub open spec fn steep12_bits() -> (Seq<u64>, Seq<u64>) {
        (
            seq![
                0x3FA2C7EAF8527168u64,
                0x3FD19391163E9295u64,
                0x3FE1F485D3A1DE77u64,
                0x3FE8A1B9A059A5DFu64,
                0x3FEC8D668F1A8616u64,
                0x3FEEC97A819E3349u64,
            ],
            seq![
                0x3FC17A647F1203D9u64,
                0x3FDB14B3FEE42432u64,
                0x3FE5AE68788BD0BBu64,
                0x3FEAE06034DF532Fu64,
                0x3FEDCF31159C9881u64,
                0x3FEF9C3113D809DEu64,
            ],
        )
    }

    /// The lattice coefficients of the steep 10th-order half-band design, as
    /// IEEE 754 double bit patterns: path A then path B.
    pub open spec fn steep10_bits() -> (Seq<u64>, Seq<u64>) {
        (
            seq![
                0x3FAA58A720147A28u64,
                0x3FD706BE35F15AE2u64,
                0x3FE5858287AC40D9u64,
                0x3FEB7DA726A1B477u64,
                0x3FEE8757053E3412u64,
            ],
            seq![
                0x3FC7D606B7B51596u64,
                0x3FE0F55C94DB461Bu64,
                0x3FE8FE29B82C7F35u64,
                0x3FED40F9B48DD6ACu64,
                0x3FEF8902EA5BF6C4u64,
            ],
        )
    }

    /// The coefficient lists of the steep 12th-order design, as samples.
    pub open spec fn steep12_coeffs() -> (Seq<T>, Seq<T>) {
        (
            Self::steep12_bits().0.map_values(|b: u64| T::from_bits_s(b)),
            Self::steep12_bits().1.map_values(|b: u64| T::from_bits_s(b)),
        )
    }

    /// The coefficient lists of the steep 10th-order design, as samples.
    pub open spec fn steep10_coeffs() -> (Seq<T>, Seq<T>) {
        (
            Self::steep10_bits().0.map_values(|b: u64| T::from_bits_s(b)),
            Self::steep10_bits().1.map_values(|b: u64| T::from_bits_s(b)),
        )
    }

    /// Construct a steep half-band filter of order 12 (six sections per
    /// path).  The coefficients are the literal values of a fixed
    /// elliptic half-band design; they encode its stopband attenuation and
    /// must not be re-derived.  Path A, in decimal: 0.036681502163648017,
    /// 0.2746317593794541, 0.5610989697879195, 0.769741833862266,
    /// 0.8922608180038789, 0.962094548378084; path B: 0.13654762463195771,
    /// 0.42313861743656667, 0.6775400499741616, 0.839889624849638,
    /// 0.9315419599631839, 0.9878163707328971.
    pub fn steep_order12() -> (r: Self)
        ensures
            r.wf(),
            r.at_rest(),
            r.coeffs() == Self::steep12_coeffs(),
            r.latency_of() == 24,
    {
        let mut k_a: Vec<T> = Vec::new();
        k_a.push(T::from_bits(0x3FA2C7EAF8527168u64));
        k_a.push(T::from_bits(0x3FD19391163E9295u64));
        k_a.push(T::from_bits(0x3FE1F485D3A1DE77u64));
        k_a.push(T::from_bits(0x3FE8A1B9A059A5DFu64));
        k_a.push(T::from_bits(0x3FEC8D668F1A8616u64));
        k_a.push(T::from_bits(0x3FEEC97A819E3349u64));
        let mut k_b: Vec<T> = Vec::new();
        k_b.push(T::from_bits(0x3FC17A647F1203D9u64));
        k_b.push(T::from_bits(0x3FDB14B3FEE42432u64));
        k_b.push(T::from_bits(0x3FE5AE68788BD0BBu64));
        k_b.push(T::from_bits(0x3FEAE06034DF532Fu64));
        k_b.push(T::from_bits(0x3FEDCF31159C9881u64));
        k_b.push(T::from_bits(0x3FEF9C3113D809DEu64));
        let r = Self::from_coeffs(&k_a, &k_b);
        proof {
            assert(k_a@ =~= Self::steep12_bits().0.map_values(|b: u64| T::from_bits_s(b)));
            assert(k_b@ =~= Self::steep12_bits().1.map_values(|b: u64| T::from_bits_s(b)));
        }
        r
    }

    /// Construct a steep half-band filter of order 10 (five sections per
    /// path).  As with the order-12 design, the coefficients are literal.
    /// Path A, in decimal: 0.051457617441190984, 0.35978656070567017,
    /// 0.6725475931034693, 0.8590884928249939, 0.9540209867860787; path B:
    /// 0.18621906251989334, 0.529951372847964, 0.7810257527489514,
    /// 0.9141815687605308, 0.985475023014907.
    pub fn steep_order10() -> (r: Self)
        ensures
            r.wf(),
            r.at_rest(),
            r.coeffs() == Self::steep10_coeffs(),
            r.latency_of() == 20,
    {
        let mut k_a: Vec<T> = Vec::new();
        k_a.push(T::from_bits(0x3FAA58A720147A28u64));
        k_a.push(T::from_bits(0x3FD706BE35F15AE2u64));
        k_a.push(T::from_bits(0x3FE5858287AC40D9u64));
        k_a.push(T::from_bits(0x3FEB7DA726A1B477u64));
        k_a.push(T::from_bits(0x3FEE8757053E3412u64));
        let mut k_b: Vec<T> = Vec::new();
        k_b.push(T::from_bits(0x3FC7D606B7B51596u64));
        k_b.push(T::from_bits(0x3FE0F55C94DB461Bu64));
        k_b.push(T::from_bits(0x3FE8FE29B82C7F35u64));
        k_b.push(T::from_bits(0x3FED40F9B48DD6ACu64));
        k_b.push(T::from_bits(0x3FEF8902EA5BF6C4u64));
        let r = Self::from_coeffs(&k_a, &k_b);
        proof {
            assert(k_a@ =~= Self::steep10_bits().0.map_values(|b: u64| T::from_bits_s(b)));
            assert(k_b@ =~= Self::steep10_bits().1.map_values(|b: u64| T::from_bits_s(b)));
        }
        r
    }
}

/// A half-band filter at rest maps a zero input to a zero output and stays at
/// rest, keeping its coefficients.
pub proof fn lemma_half_band_at_rest_step<T: Sample>(pre: HalfBand<T>, x: T, post: HalfBand<T>, out: T)
    requires
        pre.step(x, &post, out),
        pre.at_rest(),
        x == T::zero_s(),
    ensures
        out == T::zero_s(),
        post.at_rest(),
        post.coeffs() == pre.coeffs(),
{
    let (ya, yb) = choose|ya: T, yb: T|
        {
            &&& #[trigger] stages_step(pre.filter_a.0@, x, post.filter_a.0@, ya)
            &&& #[trigger] stages_step(pre.filter_b.0@, x, post.filter_b.0@, yb)
            &&& out == ya.add_s(pre.y0).mul_s(T::half_s())
            &&& post.y0 == yb
        };
    lemma_bank_at_rest_step(pre.filter_a.0@, x, post.filter_a.0@, ya);
    lemma_bank_at_rest_step(pre.filter_b.0@, x, post.filter_b.0@, yb);
    T::lemma_zero();
    assert(post.coeffs().0 =~= pre.coeffs().0);
    assert(post.coeffs().1 =~= pre.coeffs().1);
}

} // verus!
