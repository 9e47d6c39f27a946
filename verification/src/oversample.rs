use vstd::prelude::*;

use crate::cascade::stages_step;
use crate::half_band::AllPass;
use crate::half_band::HalfBand;
use crate::sample::Sample;
use crate::Component;
use crate::ComponentMeta;
use crate::Noop;

verus! {

/// `2^e` for a nonnegative exponent, the rate multiplier of `e` doubling
/// stages.
pub open spec fn pow2(e: int) -> int
    decreases e,
{
    if e <= 0 {
        1
    } else {
        2 * pow2(e - 1)
    }
}

/// `2^e` for `e <= 8`; the result fits comfortably in a machine word.
pub fn pow2_exec(e: u8) -> (r: usize)
    requires
        e <= 8,
    ensures
        r == pow2(e as int),
        1 <= r <= 256,
{
    let mut m: usize = 1;
    let mut i: u8 = 0;
    while i < e
        invariant
            i <= e <= 8,
            m == pow2(i as int),
            1 <= m <= 256,
        decreases e - i,
    {
        proof {
            assert(pow2(i as int + 1) == 2 * pow2(i as int));
            assert(pow2(8) == 256) by {
                reveal_with_fuel(pow2, 10);
            }
            assert(pow2(i as int + 1) <= pow2(8)) by {
                lemma_pow2_increases(i as int + 1, 8);
            }
        }
        m = m * 2;
        i = i + 1;
    }
    m
}

pub proof fn lemma_pow2_increases(a: int, b: int)
    requires
        a <= b,
    ensures
        pow2(a) <= pow2(b),
    decreases b - a,
{
    if a < b && b > 0 {
        lemma_pow2_increases(a, b - 1);
        assert(pow2(b) == 2 * pow2(b - 1));
        lemma_pow2_pos(b - 1);
    }
}

pub proof fn lemma_pow2_pos(e: int)
    ensures
        pow2(e) >= 1,
    decreases e,
{
    if e > 0 {
        lemma_pow2_pos(e - 1);
    }
}

/// The mathematical state of one half-band filter: the two all-pass paths and
/// the delay register, free of any container bookkeeping.
pub struct HbState<S> {
    pub a: Seq<AllPass<S>>,
    pub b: Seq<AllPass<S>>,
    pub y0: S,
}

pub open spec fn hb_state<S: Sample>(h: HalfBand<S>) -> HbState<S> {
    HbState { a: h.filter_a.0@, b: h.filter_b.0@, y0: h.y0 }
}

/// An all-pass path is deterministic, so a whole path has a transition
/// function: the pass of one sample through every section in order.
pub open spec fn bank_run<S: Sample>(s: Seq<AllPass<S>>, x: S) -> (Seq<AllPass<S>>, S)
    decreases s.len(),
{
    if s.len() == 0 {
        (s, x)
    } else {
        let (pre, y) = bank_run(s.drop_last(), x);
        (pre.push(s.last().next_s(y)), s.last().out_s(y))
    }
}

/// The relational cascade pass of `stages_step`, on all-pass sections, pins
/// exactly the states and output that `bank_run` computes.
pub proof fn lemma_bank_run_agrees<S: Sample>(pre: Seq<AllPass<S>>, x: S, post: Seq<AllPass<S>>, out: S)
    requires
        stages_step(pre, x, post, out),
    ensures
        post == bank_run(pre, x).0,
        out == bank_run(pre, x).1,
    decreases pre.len(),
{
    if pre.len() == 0 {
    } else {
        let y = choose|y: S|
            stages_step(pre.drop_last(), x, post.drop_last(), y) && #[trigger] pre.last().step(
                y,
                &post.last(),
                out,
            );
        lemma_bank_run_agrees(pre.drop_last(), x, post.drop_last(), y);
        assert(post =~= post.drop_last().push(post.last()));
    }
}

/// One sample through a half-band filter: the state afterwards.
pub open spec fn hb_next<S: Sample>(m: HbState<S>, x: S) -> HbState<S> {
    HbState { a: bank_run(m.a, x).0, b: bank_run(m.b, x).0, y0: bank_run(m.b, x).1 }
}

/// One sample through a half-band filter: the emitted sample, the average of
/// path A's output and the previous call's path-B output.
pub open spec fn hb_out<S: Sample>(m: HbState<S>, x: S) -> S {
    bank_run(m.a, x).1.add_s(m.y0).mul_s(S::half_s())
}

/// `HalfBand::process`'s relational step pins exactly `hb_next` and `hb_out`.
pub proof fn lemma_hb_agrees<S: Sample>(pre: HalfBand<S>, x: S, post: HalfBand<S>, out: S)
    requires
        pre.step(x, &post, out),
    ensures
        hb_state(post) == hb_next(hb_state(pre), x),
        out == hb_out(hb_state(pre), x),
{
    let (ya, yb) = choose|ya: S, yb: S|
        {
            &&& #[trigger] stages_step(pre.filter_a.0@, x, post.filter_a.0@, ya)
            &&& #[trigger] stages_step(pre.filter_b.0@, x, post.filter_b.0@, yb)
            &&& out == ya.add_s(pre.y0).mul_s(S::half_s())
            &&& post.y0 == yb
        };
    lemma_bank_run_agrees(pre.filter_a.0@, x, post.filter_a.0@, ya);
    lemma_bank_run_agrees(pre.filter_b.0@, x, post.filter_b.0@, yb);
}

/// A whole sequence of samples through a half-band filter: final state and
/// the sequence of outputs, one per input.
pub open spec fn hb_run<S: Sample>(m: HbState<S>, xs: Seq<S>) -> (HbState<S>, Seq<S>)
    decreases xs.len(),
{
    if xs.len() == 0 {
        (m, Seq::empty())
    } else {
        let (m1, ys) = hb_run(m, xs.drop_last());
        (hb_next(m1, xs.last()), ys.push(hb_out(m1, xs.last())))
    }
}

/// Zero-stuffing a block to twice its rate: every sample is doubled (to
/// preserve the signal level across the insertion) and followed by a zero.
pub open spec fn stuffed<S: Sample>(xs: Seq<S>) -> Seq<S> {
    Seq::new(
        (2 * xs.len()) as nat,
        |i: int| if i % 2 == 0 {
            xs[i / 2].add_s(xs[i / 2])
        } else {
            S::zero_s()
        },
    )
}

/// The even-indexed samples of a block: what decimation by two retains.
pub open spec fn evens<S>(xs: Seq<S>) -> Seq<S> {
    Seq::new(((xs.len() + 1) / 2) as nat, |i: int| xs[2 * i])
}

/// One upsampling stage: zero-stuff the block to twice its rate, then run the
/// stage's half-band filter over every stuffed sample.
pub open spec fn up_stage<S: Sample>(m: HbState<S>, xs: Seq<S>) -> (HbState<S>, Seq<S>) {
    hb_run(m, stuffed(xs))
}

/// Upsampling stages `stage..factor`, in ascending order, each doubling the
/// rate of the previous stage's output.
pub open spec fn up_from<S: Sample>(
    ups: Seq<HbState<S>>,
    stage: int,
    factor: int,
    xs: Seq<S>,
) -> (Seq<HbState<S>>, Seq<S>)
    decreases factor - stage,
{
    if stage < 0 || stage >= factor {
        (ups, xs)
    } else {
        let (m1, ys) = up_stage(ups[stage], xs);
        up_from(ups.update(stage, m1), stage + 1, factor, ys)
    }
}

/// One downsampling stage: run the stage's half-band filter over every
/// sample (its state must see the odd samples too), then keep the even
/// outputs.
pub open spec fn down_stage<S: Sample>(m: HbState<S>, xs: Seq<S>) -> (HbState<S>, Seq<S>) {
    let (m1, ys) = hb_run(m, xs);
    (m1, evens(ys))
}

/// Downsampling stages `stage` down to `0`, each halving the rate of the
/// stage above it.
pub open spec fn down_from<S: Sample>(
    downs: Seq<HbState<S>>,
    stage: int,
    xs: Seq<S>,
) -> (Seq<HbState<S>>, Seq<S>)
    decreases stage + 1,
{
    if stage < 0 {
        (downs, xs)
    } else {
        let (m1, ys) = down_stage(downs[stage], xs);
        down_from(downs.update(stage, m1), stage - 1, ys)
    }
}

/// A block of boundary samples, widened to working precision.
pub open spec fn promoted<S: Sample>(xs: Seq<<S as Sample>::Io>) -> Seq<S> {
    xs.map_values(|x: <S as Sample>::Io| S::from_io_s(x))
}

/// A block of working-precision samples, narrowed back to the boundary
/// format.
pub open spec fn demoted<S: Sample>(zs: Seq<S>) -> Seq<<S as Sample>::Io> {
    zs.map_values(|z: S| z.to_io_s())
}

/// The filter bank behind an [`Oversampler`]: one half-band filter per
/// doubling stage for each direction, and the single scratch buffer the
/// stages share.
#[derive(Debug)]
pub struct Inner<S: Sample> {
    pub max_factor: u8,
    pub buffer: Vec<S>,
    pub down_filters: Vec<HalfBand<S>>,
    pub up_filters: Vec<HalfBand<S>>,
}

impl<S: Sample> Inner<S> {
    pub open spec fn up_states(&self) -> Seq<HbState<S>> {
        self.up_filters@.map_values(|h: HalfBand<S>| hb_state(h))
    }

    pub open spec fn down_states(&self) -> Seq<HbState<S>> {
        self.down_filters@.map_values(|h: HalfBand<S>| hb_state(h))
    }

    pub open spec fn wf(&self) -> bool {
        &&& self.max_factor <= 8
        &&& self.up_filters@.len() == self.max_factor as int
        &&& self.down_filters@.len() == self.max_factor as int
        &&& forall|i: int|
            0 <= i < self.max_factor as int ==> (#[trigger] self.up_filters@[i]).wf()
        &&& forall|i: int|
            0 <= i < self.max_factor as int ==> (#[trigger] self.down_filters@[i]).wf()
    }

    /// A fresh bank: one steep order-12 half-band filter per stage and
    /// direction, all at rest, and a zeroed scratch buffer of
    /// `block_size * 2^max_factor` samples.
    pub fn new(block_size: usize, max_factor: u8) -> (r: Self)
        requires
            1 <= block_size,
            max_factor <= 8,
            block_size * pow2(max_factor as int) <= usize::MAX,
        ensures
            r.wf(),
            r.max_factor == max_factor,
            r.buffer@.len() == block_size * pow2(max_factor as int),
            forall|i: int|
                0 <= i < max_factor as int ==> (#[trigger] r.up_filters@[i]).at_rest(),
            forall|i: int|
                0 <= i < max_factor as int ==> (#[trigger] r.down_filters@[i]).at_rest(),
            forall|i: int|
                0 <= i < max_factor as int ==> (#[trigger] r.up_filters@[i]).coeffs()
                    == HalfBand::<S>::steep12_coeffs(),
            forall|i: int|
                0 <= i < max_factor as int ==> (#[trigger] r.down_filters@[i]).coeffs()
                    == HalfBand::<S>::steep12_coeffs(),
    {
        let n = block_size * pow2_exec(max_factor);
        let mut buffer: Vec<S> = Vec::new();
        let mut i: usize = 0;
        while i < n
            invariant
                i <= n,
                buffer@.len() == i,
            decreases n - i,
        {
            buffer.push(S::zero());
            i = i + 1;
        }
        let mut up_filters: Vec<HalfBand<S>> = Vec::new();
        let mut down_filters: Vec<HalfBand<S>> = Vec::new();
        let mut s: u8 = 0;
        while s < max_factor
            invariant
                s <= max_factor,
                up_filters@.len() == s as int,
                down_filters@.len() == s as int,
                forall|j: int| 0 <= j < s as int ==> (#[trigger] up_filters@[j]).wf(),
                forall|j: int| 0 <= j < s as int ==> (#[trigger] down_filters@[j]).wf(),
                forall|j: int| 0 <= j < s as int ==> (#[trigger] up_filters@[j]).at_rest(),
                forall|j: int| 0 <= j < s as int ==> (#[trigger] down_filters@[j]).at_rest(),
                forall|j: int|
                    0 <= j < s as int ==> (#[trigger] up_filters@[j]).coeffs()
                        == HalfBand::<S>::steep12_coeffs(),
                forall|j: int|
                    0 <= j < s as int ==> (#[trigger] down_filters@[j]).coeffs()
                        == HalfBand::<S>::steep12_coeffs(),
            decreases max_factor - s,
        {
            up_filters.push(HalfBand::steep_order12());
            down_filters.push(HalfBand::steep_order12());
            s = s + 1;
        }
        Inner { max_factor, buffer, down_filters, up_filters }
    }

    /// Reset every filter of the bank, both directions.
    pub fn reset(&mut self)
        requires
            old(self).wf(),
        ensures
            final(self).wf(),
            final(self).max_factor == old(self).max_factor,
            final(self).buffer@ == old(self).buffer@,
            final(self).up_states() == old(self).up_states().map_values(
                |m: HbState<S>| hb_reset(m),
            ),
            final(self).down_states() == old(self).down_states().map_values(
                |m: HbState<S>| hb_reset(m),
            ),
    {
        let n = self.up_filters.len();
        let mut i: usize = 0;
        while i < n
            invariant
                n == self.up_filters@.len(),
                old(self).up_filters@.len() == n,
                i <= n,
                self.max_factor == old(self).max_factor,
                self.buffer@ == old(self).buffer@,
                self.down_filters@ == old(self).down_filters@,
                forall|j: int| i <= j < n ==> self.up_filters@[j] == old(self).up_filters@[j],
                forall|j: int| 0 <= j < i ==> (#[trigger] self.up_filters@[j]).wf(),
                forall|j: int|
                    0 <= j < i ==> hb_state(#[trigger] self.up_filters@[j]) == hb_reset(
                        hb_state(old(self).up_filters@[j]),
                    ),
                forall|j: int| 0 <= j < n ==> (#[trigger] old(self).up_filters@[j]).wf(),
            decreases n - i,
        {
            proof {
                assert(self.up_filters@[i as int] == old(self).up_filters@[i as int]);
            }
            self.up_filters[i].reset();
            proof {
                lemma_hb_reset_agrees(
                    old(self).up_filters@[i as int],
                    self.up_filters@[i as int],
                );
            }
            i = i + 1;
        }
        let n2 = self.down_filters.len();
        let mut k: usize = 0;
        while k < n2
            invariant
                n2 == self.down_filters@.len(),
                old(self).down_filters@.len() == n2,
                k <= n2,
                self.max_factor == old(self).max_factor,
                self.buffer@ == old(self).buffer@,
                self.up_filters@.len() == old(self).up_filters@.len(),
                forall|j: int| 0 <= j < self.up_filters@.len() ==> (#[trigger] self.up_filters@[j]).wf(),
                self.up_states() == old(self).up_states().map_values(
                    |m: HbState<S>| hb_reset(m),
                ),
                forall|j: int| k <= j < n2 ==> self.down_filters@[j] == old(self).down_filters@[j],
                forall|j: int| 0 <= j < k ==> (#[trigger] self.down_filters@[j]).wf(),
                forall|j: int|
                    0 <= j < k ==> hb_state(#[trigger] self.down_filters@[j]) == hb_reset(
                        hb_state(old(self).down_filters@[j]),
                    ),
                forall|j: int| 0 <= j < n2 ==> (#[trigger] old(self).down_filters@[j]).wf(),
            decreases n2 - k,
        {
            proof {
                assert(self.down_filters@[k as int] == old(self).down_filters@[k as int]);
            }
            self.down_filters[k].reset();
            proof {
                lemma_hb_reset_agrees(
                    old(self).down_filters@[k as int],
                    self.down_filters@[k as int],
                );
            }
            k = k + 1;
        }
        proof {
            assert(self.up_states() =~= old(self).up_states().map_values(
                |m: HbState<S>| hb_reset(m),
            ));
            assert(self.down_states() =~= old(self).down_states().map_values(
                |m: HbState<S>| hb_reset(m),
            ));
        }
    }
}

pub proof fn lemma_hb_run_len<S: Sample>(m: HbState<S>, xs: Seq<S>)
    ensures
        hb_run(m, xs).1.len() == xs.len(),
    decreases xs.len(),
{
    if xs.len() > 0 {
        lemma_hb_run_len(m, xs.drop_last());
    }
}

pub proof fn lemma_up_from_len<S: Sample>(ups: Seq<HbState<S>>, stage: int, factor: int, xs: Seq<S>)
    requires
        0 <= stage <= factor <= ups.len(),
    ensures
        up_from(ups, stage, factor, xs).0.len() == ups.len(),
        up_from(ups, stage, factor, xs).1.len() == xs.len() * pow2(factor - stage),
    decreases factor - stage,
{
    if stage < factor {
        let (m1, ys) = up_stage(ups[stage], xs);
        lemma_hb_run_len(ups[stage], stuffed(xs));
        assert(ys.len() == 2 * xs.len());
        assert(ups.update(stage, m1).len() == ups.len());
        lemma_up_from_len(ups.update(stage, m1), stage + 1, factor, ys);
        assert(xs.len() * pow2(factor - stage) == (2 * xs.len()) * pow2(factor - stage - 1))
            by (nonlinear_arith)
            requires
                pow2(factor - stage) == 2 * pow2(factor - stage - 1),
        ;
    } else {
        assert(pow2(0) == 1);
    }
}

pub proof fn lemma_down_from_len<S: Sample>(downs: Seq<HbState<S>>, stage: int, xs: Seq<S>)
    requires
        stage < downs.len(),
    ensures
        down_from(downs, stage, xs).0.len() == downs.len(),
    decreases stage + 1,
{
    if stage >= 0 {
        let (m1, ys) = down_stage(downs[stage], xs);
        assert(downs.update(stage, m1).len() == downs.len());
        lemma_down_from_len(downs.update(stage, m1), stage - 1, ys);
    }
}

impl<S: Sample> Inner<S> {
    /// Zero-stuff the first `half` scratch samples in place to twice their
    /// count.  The span is walked backwards: every write lands at an index at
    /// least as large as the one it reads, so no sample is overwritten before
    /// it has been read — the buffer has only one backing store.
    fn stuff_double(&mut self, half: usize)
        requires
            2 * half <= old(self).buffer@.len(),
        ensures
            final(self).buffer@.len() == old(self).buffer@.len(),
            final(self).buffer@.take(2 * half as int) == stuffed(
                old(self).buffer@.take(half as int),
            ),
            final(self).buffer@.skip(2 * half as int) == old(self).buffer@.skip(2 * half as int),
            final(self).up_filters@ == old(self).up_filters@,
            final(self).down_filters@ == old(self).down_filters@,
            final(self).max_factor == old(self).max_factor,
    {
        let ghost prev = old(self).buffer@;
        let blen = self.buffer.len();
        let mut idx: usize = half;
        while idx > 0
            invariant
                2 * half <= blen,
                blen == self.buffer@.len(),
                idx <= half,
                self.buffer@.len() == prev.len(),
                self.up_filters@ == old(self).up_filters@,
                self.down_filters@ == old(self).down_filters@,
                self.max_factor == old(self).max_factor,
                forall|p: int| 0 <= p < 2 * idx ==> self.buffer@[p] == prev[p],
                forall|p: int| 2 * half <= p < prev.len() ==> self.buffer@[p] == prev[p],
                forall|j: int|
                    idx <= j < half ==> self.buffer@[2 * j] == prev[j].add_s(#[trigger] prev[j]),
                forall|j: int| idx <= j < half ==> #[trigger] self.buffer@[2 * j + 1] == S::zero_s(),
            decreases idx,
        {
            idx = idx - 1;
            let v = self.buffer[idx];
            let d = v.add(v);
            self.buffer[2 * idx] = d;
            let z = S::zero();
            self.buffer[2 * idx + 1] = z;
        }
        proof {
            let target = stuffed(prev.take(half as int));
            assert forall|p: int| 0 <= p < 2 * half implies self.buffer@.take(2 * half as int)[p]
                == target[p] by {
                let j = p / 2;
                assert(p == 2 * j + p % 2);
                assert(0 <= j < half);
                if p % 2 == 0 {
                    assert(p == 2 * j);
                    assert(self.buffer@[2 * j] == prev[j].add_s(prev[j]));
                    assert(prev.take(half as int)[j] == prev[j]);
                } else {
                    assert(p == 2 * j + 1);
                    assert(self.buffer@[2 * j + 1] == S::zero_s());
                }
            }
            assert(final(self).buffer@.take(2 * half as int) =~= target);
            assert(final(self).buffer@.skip(2 * half as int) =~= prev.skip(2 * half as int));
        }
    }

    /// Run up-filter `stage` over the first `m` scratch samples in place.
    fn filter_span_up(&mut self, stage: usize, m: usize)
        requires
            old(self).wf(),
            stage < old(self).max_factor as usize,
            m <= old(self).buffer@.len(),
        ensures
            final(self).wf(),
            final(self).max_factor == old(self).max_factor,
            final(self).down_filters@ == old(self).down_filters@,
            final(self).buffer@.len() == old(self).buffer@.len(),
            final(self).up_filters@.len() == old(self).up_filters@.len(),
            forall|j: int|
                0 <= j < old(self).up_filters@.len() && j != stage as int
                    ==> final(self).up_filters@[j] == old(self).up_filters@[j],
            hb_state(final(self).up_filters@[stage as int]) == hb_run(
                hb_state(old(self).up_filters@[stage as int]),
                old(self).buffer@.take(m as int),
            ).0,
            final(self).buffer@.take(m as int) == hb_run(
                hb_state(old(self).up_filters@[stage as int]),
                old(self).buffer@.take(m as int),
            ).1,
            final(self).buffer@.skip(m as int) == old(self).buffer@.skip(m as int),
    {
        let ghost zs = old(self).buffer@.take(m as int);
        let ghost m0 = hb_state(old(self).up_filters@[stage as int]);
        let mut i: usize = 0;
        while i < m
            invariant
                self.wf(),
                m <= self.buffer@.len(),
                stage < self.max_factor as usize,
                i <= m,
                zs == old(self).buffer@.take(m as int),
                m0 == hb_state(old(self).up_filters@[stage as int]),
                zs.len() == m,
                self.max_factor == old(self).max_factor,
                self.down_filters@ == old(self).down_filters@,
                self.buffer@.len() == old(self).buffer@.len(),
                self.up_filters@.len() == old(self).up_filters@.len(),
                forall|j: int|
                    0 <= j < old(self).up_filters@.len() && j != stage as int
                        ==> self.up_filters@[j] == old(self).up_filters@[j],
                hb_state(self.up_filters@[stage as int]) == hb_run(m0, zs.take(i as int)).0,
                self.buffer@.take(i as int) == hb_run(m0, zs.take(i as int)).1,
                forall|p: int| i <= p < self.buffer@.len() ==> self.buffer@[p] == old(
                    self,
                ).buffer@[p],
            decreases m - i,
        {
            let ghost pre_f = self.up_filters@[stage as int];
            let ghost buf_pre = self.buffer@;
            let x = self.buffer[i];
            let v = self.up_filters[stage].process(x);
            self.buffer[i] = v;
            proof {
                let gi = i as int;
                assert(x == buf_pre[gi]);
                assert(buf_pre[gi] == old(self).buffer@[gi]);
                assert(0 <= gi < m as int);
                assert(old(self).buffer@.take(m as int)[gi] == old(self).buffer@[gi]);
                assert(zs[gi] == old(self).buffer@[gi]);
                lemma_hb_agrees(pre_f, x, self.up_filters@[stage as int], v);
                assert(zs.take(gi + 1).drop_last() =~= zs.take(gi));
                assert(zs.take(gi + 1).last() == zs[gi]);
                lemma_hb_run_len(m0, zs.take(gi));
                assert(self.buffer@.take(gi + 1) =~= buf_pre.take(gi).push(v));
            }
            i = i + 1;
        }
        proof {
            assert(zs.take(m as int) =~= zs);
            assert(final(self).buffer@.skip(m as int) =~= old(self).buffer@.skip(m as int));
        }
    }
}

impl<S: Sample> Inner<S> {
    /// Upsample `input[start .. start + len]` by `2^factor` into the front of
    /// the scratch buffer.  Stage 0 zero-stuffs the widened input through the
    /// first up-filter; each further stage zero-stuffs the previous stage's
    /// output in place and filters the doubled span.
    pub fn upsample(&mut self, input: &Vec<<S as Sample>::Io>, start: usize, len: usize, factor: u8)
        requires
            old(self).wf(),
            1 <= factor <= old(self).max_factor,
            start + len <= input@.len(),
            len * pow2(factor as int) <= old(self).buffer@.len(),
        ensures
            final(self).wf(),
            final(self).max_factor == old(self).max_factor,
            final(self).down_filters@ == old(self).down_filters@,
            final(self).buffer@.len() == old(self).buffer@.len(),
            final(self).up_states() == up_from(
                old(self).up_states(),
                0,
                factor as int,
                promoted::<S>(input@.subrange(start as int, start as int + len as int)),
            ).0,
            final(self).buffer@.take(len as int * pow2(factor as int)) == up_from(
                old(self).up_states(),
                0,
                factor as int,
                promoted::<S>(input@.subrange(start as int, start as int + len as int)),
            ).1,
    {
        let ghost chunk = promoted::<S>(
            input@.subrange(start as int, start as int + len as int),
        );
        let ghost ups0 = old(self).up_states();
        let ghost goal = up_from(ups0, 0, factor as int, chunk);
        let ghost st0 = stuffed(chunk);
        let ghost m0 = ups0[0];
        let blen = self.buffer.len();
        let ilen = input.len();
        proof {
            assert(m0 == hb_state(old(self).up_filters@[0]));
            assert(pow2(0) == 1);
            assert(pow2(1) == 2);
            lemma_pow2_increases(1, factor as int);
            assert(len * 2 <= len * pow2(factor as int)) by (nonlinear_arith)
                requires
                    2 <= pow2(factor as int),
                    0 <= len,
            ;
            assert(st0.take(0) =~= Seq::<S>::empty());
            assert(self.buffer@.take(0) =~= Seq::<S>::empty());
        }
        let mut i: usize = 0;
        while i < len
            invariant
                self.wf(),
                i <= len,
                1 <= factor <= self.max_factor,
                chunk == promoted::<S>(
                    input@.subrange(start as int, start as int + len as int),
                ),
                st0 == stuffed(chunk),
                m0 == hb_state(old(self).up_filters@[0]),
                start + len <= ilen,
                ilen == input@.len(),
                blen == self.buffer@.len(),
                2 * len <= blen,
                self.max_factor == old(self).max_factor,
                self.down_filters@ == old(self).down_filters@,
                self.buffer@.len() == old(self).buffer@.len(),
                self.up_filters@.len() == old(self).up_filters@.len(),
                forall|j: int|
                    0 < j < old(self).up_filters@.len() ==> self.up_filters@[j] == old(
                        self,
                    ).up_filters@[j],
                hb_state(self.up_filters@[0]) == hb_run(m0, st0.take(2 * i as int)).0,
                self.buffer@.take(2 * i as int) == hb_run(m0, st0.take(2 * i as int)).1,
            decreases len - i,
        {
            let ghost buf_pre = self.buffer@;
            let ghost f_pre = self.up_filters@[0];
            let x = input[start + i];
            let s = S::from_io(x);
            let x2 = s.add(s);
            let v0 = self.up_filters[0].process(x2);
            self.buffer[2 * i] = v0;
            let ghost f_mid = self.up_filters@[0];
            let z = S::zero();
            let v1 = self.up_filters[0].process(z);
            self.buffer[2 * i + 1] = v1;
            proof {
                let gi = i as int;
                assert(chunk[gi] == S::from_io_s(input@[start as int + gi]));
                assert(st0[2 * gi] == chunk[gi].add_s(chunk[gi]));
                assert(st0[2 * gi + 1] == S::zero_s());
                assert(x2 == st0[2 * gi]);
                lemma_hb_agrees(f_pre, x2, f_mid, v0);
                lemma_hb_agrees(f_mid, z, self.up_filters@[0], v1);
                assert(st0.take(2 * gi + 1).drop_last() =~= st0.take(2 * gi));
                assert(st0.take(2 * gi + 2).drop_last() =~= st0.take(2 * gi + 1));
                assert(st0.take(2 * gi + 1).last() == st0[2 * gi]);
                assert(st0.take(2 * gi + 2).last() == st0[2 * gi + 1]);
                lemma_hb_run_len(m0, st0.take(2 * gi));
                lemma_hb_run_len(m0, st0.take(2 * gi + 1));
                assert(self.buffer@.take(2 * gi + 2) =~= buf_pre.take(2 * gi).push(v0).push(
                    v1,
                ));
            }
            i = i + 1;
        }
        proof {
            assert(st0.take(2 * len as int) =~= st0);
            assert(self.up_states() =~= ups0.update(0, hb_run(m0, st0).0));
            lemma_hb_run_len(m0, st0);
            assert(up_from(self.up_states(), 1, factor as int, self.buffer@.take(2 * len as int))
                == goal);
        }
        let mut stage: u8 = 1;
        let mut half: usize = 2 * len;
        while stage < factor
            invariant
                self.wf(),
                1 <= stage <= factor <= self.max_factor,
                goal == up_from(ups0, 0, factor as int, chunk),
                chunk.len() == len,
                blen == self.buffer@.len(),
                half == len * pow2(stage as int),
                len * pow2(factor as int) <= blen,
                half <= blen,
                self.max_factor == old(self).max_factor,
                self.down_filters@ == old(self).down_filters@,
                self.buffer@.len() == old(self).buffer@.len(),
                self.up_filters@.len() == old(self).up_filters@.len(),
                up_from(
                    self.up_states(),
                    stage as int,
                    factor as int,
                    self.buffer@.take(half as int),
                ) == goal,
            decreases factor - stage,
        {
            proof {
                assert(pow2(stage as int + 1) == 2 * pow2(stage as int));
                lemma_pow2_increases(stage as int + 1, factor as int);
                assert(2 * half <= len * pow2(factor as int) && 2 * half == len * pow2(
                    stage as int + 1,
                )) by (nonlinear_arith)
                    requires
                        half == len * pow2(stage as int),
                        pow2(stage as int + 1) <= pow2(factor as int),
                        pow2(stage as int + 1) == 2 * pow2(stage as int),
                        0 <= len,
                ;
                assert(2 * half <= blen);
            }
            let ghost states_pre = self.up_states();
            let ghost prefix_pre = self.buffer@.take(half as int);
            self.stuff_double(half);
            proof {
                assert(self.up_states() =~= states_pre);
            }
            let m2 = half * 2;
            let ghost stuffed_pre = self.buffer@.take(m2 as int);
            proof {
                assert(stuffed_pre == stuffed(prefix_pre));
            }
            let ghost f_before = self.up_filters@[stage as int];
            self.filter_span_up(stage as usize, m2);
            proof {
                let gs = stage as int;
                let run = hb_run(hb_state(f_before), stuffed_pre);
                assert(self.up_states() =~= states_pre.update(gs, run.0));
                assert(hb_state(f_before) == states_pre[gs]);
                assert(up_stage(states_pre[gs], prefix_pre) == run);
                assert(self.buffer@.take(m2 as int) == run.1);
                assert(up_from(states_pre, gs, factor as int, prefix_pre) == up_from(
                    states_pre.update(gs, run.0),
                    gs + 1,
                    factor as int,
                    run.1,
                ));
            }
            stage = stage + 1;
            half = m2;
        }
        proof {
            assert(half == len * pow2(factor as int));
            assert(up_from(
                self.up_states(),
                factor as int,
                factor as int,
                self.buffer@.take(half as int),
            ) == (self.up_states(), self.buffer@.take(half as int)));
            assert(final(self).up_states() == goal.0);
            assert(final(self).buffer@.take(len as int * pow2(factor as int)) == goal.1);
        }
    }
}

impl<S: Sample> Inner<S> {
    /// Decimate the first `2 * half` scratch samples by two through
    /// down-filter `stage`, writing the `half` retained samples to the front
    /// of the buffer.  The filter consumes the odd samples as well — its
    /// state must see every input — but only the outputs at even positions
    /// are kept.  Every write lands below the pair it reads, so nothing is
    /// overwritten before it is read.
    fn decimate_span(&mut self, stage: usize, half: usize)
        requires
            old(self).wf(),
            stage < old(self).max_factor as usize,
            2 * half <= old(self).buffer@.len(),
        ensures
            final(self).wf(),
            final(self).max_factor == old(self).max_factor,
            final(self).up_filters@ == old(self).up_filters@,
            final(self).buffer@.len() == old(self).buffer@.len(),
            final(self).down_filters@.len() == old(self).down_filters@.len(),
            forall|j: int|
                0 <= j < old(self).down_filters@.len() && j != stage as int
                    ==> final(self).down_filters@[j] == old(self).down_filters@[j],
            hb_state(final(self).down_filters@[stage as int]) == hb_run(
                hb_state(old(self).down_filters@[stage as int]),
                old(self).buffer@.take(2 * half as int),
            ).0,
            final(self).buffer@.take(half as int) == evens(
                hb_run(
                    hb_state(old(self).down_filters@[stage as int]),
                    old(self).buffer@.take(2 * half as int),
                ).1,
            ),
    {
        let ghost zin = old(self).buffer@.take(2 * half as int);
        let ghost m0 = hb_state(old(self).down_filters@[stage as int]);
        let blen = self.buffer.len();
        proof {
            assert(zin.take(0) =~= Seq::<S>::empty());
            assert(self.buffer@.take(0) =~= Seq::<S>::empty());
            assert(evens(Seq::<S>::empty()) =~= Seq::<S>::empty());
        }
        let mut i: usize = 0;
        while i < half
            invariant
                self.wf(),
                i <= half,
                stage < self.max_factor as usize,
                zin == old(self).buffer@.take(2 * half as int),
                m0 == hb_state(old(self).down_filters@[stage as int]),
                zin.len() == 2 * half,
                blen == self.buffer@.len(),
                2 * half <= blen,
                self.max_factor == old(self).max_factor,
                self.up_filters@ == old(self).up_filters@,
                self.buffer@.len() == old(self).buffer@.len(),
                self.down_filters@.len() == old(self).down_filters@.len(),
                forall|j: int|
                    0 <= j < old(self).down_filters@.len() && j != stage as int
                        ==> self.down_filters@[j] == old(self).down_filters@[j],
                hb_state(self.down_filters@[stage as int]) == hb_run(m0, zin.take(2 * i as int)).0,
                self.buffer@.take(i as int) == evens(hb_run(m0, zin.take(2 * i as int)).1),
                forall|p: int| i <= p < self.buffer@.len() ==> self.buffer@[p] == old(
                    self,
                ).buffer@[p],
            decreases half - i,
        {
            let ghost buf_pre = self.buffer@;
            let ghost f_pre = self.down_filters@[stage as int];
            let xe = self.buffer[2 * i];
            let v = self.down_filters[stage].process(xe);
            self.buffer[i] = v;
            let ghost f_mid = self.down_filters@[stage as int];
            // The filter must consume the odd sample too, to keep its state
            // accurate; only the even output is retained.
            let xo = self.buffer[2 * i + 1];
            let w = self.down_filters[stage].process(xo);
            proof {
                let gi = i as int;
                assert(xe == buf_pre[2 * gi]);
                assert(xe == zin[2 * gi]);
                assert(xo == zin[2 * gi + 1]);
                lemma_hb_agrees(f_pre, xe, f_mid, v);
                lemma_hb_agrees(f_mid, xo, self.down_filters@[stage as int], w);
                assert(zin.take(2 * gi + 1).drop_last() =~= zin.take(2 * gi));
                assert(zin.take(2 * gi + 2).drop_last() =~= zin.take(2 * gi + 1));
                assert(zin.take(2 * gi + 1).last() == zin[2 * gi]);
                assert(zin.take(2 * gi + 2).last() == zin[2 * gi + 1]);
                lemma_hb_run_len(m0, zin.take(2 * gi));
                lemma_hb_run_len(m0, zin.take(2 * gi + 1));
                lemma_hb_run_len(m0, zin.take(2 * gi + 2));
                assert(self.buffer@.take(gi + 1) =~= buf_pre.take(gi).push(v));
                let ys2 = hb_run(m0, zin.take(2 * gi + 2)).1;
                let ys0 = hb_run(m0, zin.take(2 * gi)).1;
                assert(ys2 == ys0.push(v).push(w));
                assert forall|q: int| 0 <= q < gi + 1 implies evens(ys2)[q] == evens(ys0).push(
                    v,
                )[q] by {
                    if q < gi {
                        assert(ys2[2 * q] == ys0[2 * q]);
                    } else {
                        assert(ys2[2 * q] == v);
                    }
                }
                assert(evens(ys2) =~= evens(ys0).push(v));
            }
            i = i + 1;
        }
        proof {
            assert(zin.take(2 * half as int) =~= zin);
        }
    }

    /// Downsample the first `len * 2^factor` scratch samples by `2^factor`
    /// into `output[start .. start + len]`: each stage halves the rate
    /// through its down-filter, and the last stage narrows to the boundary
    /// format as it writes.
    pub fn downsample(
        &mut self,
        output: &mut Vec<<S as Sample>::Io>,
        start: usize,
        len: usize,
        factor: u8,
    )
        requires
            old(self).wf(),
            1 <= factor <= old(self).max_factor,
            start + len <= old(output)@.len(),
            len * pow2(factor as int) <= old(self).buffer@.len(),
        ensures
            final(self).wf(),
            final(self).max_factor == old(self).max_factor,
            final(self).up_filters@ == old(self).up_filters@,
            final(self).buffer@.len() == old(self).buffer@.len(),
            final(output)@.len() == old(output)@.len(),
            final(output)@.subrange(0, start as int) == old(output)@.subrange(0, start as int),
            final(output)@.skip(start as int + len as int) == old(output)@.skip(
                start as int + len as int,
            ),
            final(self).down_states() == down_from(
                old(self).down_states(),
                factor as int - 1,
                old(self).buffer@.take(len as int * pow2(factor as int)),
            ).0,
            final(output)@.subrange(start as int, start as int + len as int) == demoted(
                down_from(
                    old(self).down_states(),
                    factor as int - 1,
                    old(self).buffer@.take(len as int * pow2(factor as int)),
                ).1,
            ),
    {
        let ghost zs0 = old(self).buffer@.take(len as int * pow2(factor as int));
        let ghost downs0 = old(self).down_states();
        let ghost goal = down_from(downs0, factor as int - 1, zs0);
        let blen = self.buffer.len();
        let olen = output.len();
        proof {
            assert(pow2(0) == 1);
            assert(pow2(1) == 2);
        }
        let mut s: u8 = factor;
        while s > 1
            invariant
                self.wf(),
                1 <= s <= factor <= self.max_factor,
                goal == down_from(downs0, factor as int - 1, zs0),
                blen == self.buffer@.len(),
                len * pow2(factor as int) <= blen,
                self.max_factor == old(self).max_factor,
                self.up_filters@ == old(self).up_filters@,
                self.buffer@.len() == old(self).buffer@.len(),
                self.down_filters@.len() == old(self).down_filters@.len(),
                down_from(
                    self.down_states(),
                    s as int - 1,
                    self.buffer@.take(len as int * pow2(s as int)),
                ) == goal,
            decreases s,
        {
            s = s - 1;
            proof {
                assert(pow2(s as int + 1) == 2 * pow2(s as int));
                lemma_pow2_increases(s as int + 1, factor as int);
                assert(2 * (len * pow2(s as int)) <= len * pow2(factor as int) && 2 * (len * pow2(
                    s as int,
                )) == len * pow2(s as int + 1)) by (nonlinear_arith)
                    requires
                        pow2(s as int + 1) <= pow2(factor as int),
                        pow2(s as int + 1) == 2 * pow2(s as int),
                        0 <= len,
                ;
                lemma_pow2_pos(s as int);
                assert(len * pow2(s as int) <= len * pow2(factor as int)) by (nonlinear_arith)
                    requires
                        pow2(s as int) <= pow2(factor as int),
                        0 <= len,
                ;
                assert(pow2(s as int) <= pow2(factor as int)) by {
                    lemma_pow2_increases(s as int, factor as int);
                }
            }
            let half = len * pow2_exec(s);
            let ghost states_pre = self.down_states();
            let ghost zin_pre = self.buffer@.take(2 * half as int);
            let ghost f_before = self.down_filters@[s as int];
            self.decimate_span(s as usize, half);
            proof {
                let gs = s as int;
                let run = hb_run(hb_state(f_before), zin_pre);
                assert(hb_state(f_before) == states_pre[gs]);
                assert(self.down_states() =~= states_pre.update(gs, run.0));
                assert(down_stage(states_pre[gs], zin_pre) == (run.0, evens(run.1)));
                assert(self.buffer@.take(half as int) == evens(run.1));
                assert(2 * half as int == len as int * pow2(gs + 1));
                assert(down_from(states_pre, gs, zin_pre) == down_from(
                    states_pre.update(gs, run.0),
                    gs - 1,
                    evens(run.1),
                ));
            }
        }
        proof {
            assert(pow2(1) == 2);
            lemma_pow2_increases(1, factor as int);
            assert(2 * len <= len * pow2(factor as int)) by (nonlinear_arith)
                requires
                    2 <= pow2(factor as int),
                    0 <= len,
            ;
        }
        let ghost zfin = self.buffer@.take(2 * len as int);
        let ghost mf = hb_state(self.down_filters@[0]);
        let ghost dstates = self.down_states();
        let ghost dmid = self.down_filters@;
        proof {
            assert(len as int * pow2(1) == 2 * len as int);
            assert(down_from(dstates, 0, zfin) == goal);
        }
        let mut i: usize = 0;
        proof {
            assert(zfin.take(0) =~= Seq::<S>::empty());
            assert(evens(Seq::<S>::empty()) =~= Seq::<S>::empty());
            assert(output@.subrange(start as int, start as int) =~= demoted(
                evens(hb_run(mf, zfin.take(0)).1),
            ));
            assert(dstates.update(0, mf) =~= dstates);
        }
        while i < len
            invariant
                self.wf(),
                i <= len,
                1 <= factor <= self.max_factor,
                zfin == self.buffer@.take(2 * len as int),
                zfin.len() == 2 * len,
                2 * len <= blen,
                blen == self.buffer@.len(),
                olen == output@.len(),
                start + len <= olen,
                self.max_factor == old(self).max_factor,
                self.up_filters@ == old(self).up_filters@,
                self.buffer@.len() == old(self).buffer@.len(),
                self.down_filters@.len() == old(self).down_filters@.len(),
                self.down_filters@.len() == dmid.len(),
                dstates == dmid.map_values(|h: HalfBand<S>| hb_state(h)),
                forall|j: int| 0 < j < dmid.len() ==> self.down_filters@[j] == dmid[j],
                hb_state(self.down_filters@[0]) == hb_run(mf, zfin.take(2 * i as int)).0,
                output@.subrange(start as int, start as int + i as int) == demoted(
                    evens(hb_run(mf, zfin.take(2 * i as int)).1),
                ),
                output@.subrange(0, start as int) == old(output)@.subrange(0, start as int),
                output@.skip(start as int + len as int) == old(output)@.skip(
                    start as int + len as int,
                ),
            decreases len - i,
        {
            let ghost f_pre = self.down_filters@[0];
            let xe = self.buffer[2 * i];
            let v = self.down_filters[0].process(xe);
            let io = v.to_io();
            output[start + i] = io;
            let ghost f_mid = self.down_filters@[0];
            // As above: the final filter consumes the odd sample as well.
            let xo = self.buffer[2 * i + 1];
            let w = self.down_filters[0].process(xo);
            proof {
                let gi = i as int;
                assert(xe == zfin[2 * gi]);
                assert(xo == zfin[2 * gi + 1]);
                lemma_hb_agrees(f_pre, xe, f_mid, v);
                lemma_hb_agrees(f_mid, xo, self.down_filters@[0], w);
                assert(zfin.take(2 * gi + 1).drop_last() =~= zfin.take(2 * gi));
                assert(zfin.take(2 * gi + 2).drop_last() =~= zfin.take(2 * gi + 1));
                assert(zfin.take(2 * gi + 1).last() == zfin[2 * gi]);
                assert(zfin.take(2 * gi + 2).last() == zfin[2 * gi + 1]);
                lemma_hb_run_len(mf, zfin.take(2 * gi));
                lemma_hb_run_len(mf, zfin.take(2 * gi + 1));
                lemma_hb_run_len(mf, zfin.take(2 * gi + 2));
                let ys2 = hb_run(mf, zfin.take(2 * gi + 2)).1;
                let ys0 = hb_run(mf, zfin.take(2 * gi)).1;
                assert(ys2 == ys0.push(v).push(w));
                assert forall|q: int| 0 <= q < gi + 1 implies evens(ys2)[q] == evens(ys0).push(
                    v,
                )[q] by {
                    if q < gi {
                        assert(ys2[2 * q] == ys0[2 * q]);
                    } else {
                        assert(ys2[2 * q] == v);
                    }
                }
                assert(evens(ys2) =~= evens(ys0).push(v));
                assert(output@.subrange(start as int, start as int + gi + 1) =~= output@.subrange(
                    start as int,
                    start as int + gi,
                ).push(io));
                assert(demoted(evens(ys2)) =~= demoted(evens(ys0)).push(v.to_io_s()));
            }
            i = i + 1;
        }
        proof {
            assert(zfin.take(2 * len as int) =~= zfin);
            let run = hb_run(mf, zfin);
            assert(dstates[0] == mf);
            assert(down_from(dstates.update(0, run.0), -1, evens(run.1)) == (
                dstates.update(0, run.0),
                evens(run.1),
            ));
            assert(down_from(dstates, 0, zfin) == (
                dstates.update(0, run.0),
                evens(run.1),
            ));
            assert forall|j: int| 0 <= j < dmid.len() implies self.down_states()[j]
                == dstates.update(0, run.0)[j] by {
                if j != 0 {
                    assert(self.down_filters@[j] == dmid[j]);
                }
            }
            assert(final(self).down_states() =~= dstates.update(0, run.0));
            assert(final(output)@.subrange(0, start as int) =~= old(output)@.subrange(
                0,
                start as int,
            ));
            assert(final(output)@.skip(start as int + len as int) =~= old(output)@.skip(
                start as int + len as int,
            ));
        }
    }
}

/// The state a single all-pass section resets to: same coefficient, silent
/// windows.
pub open spec fn ap_reset<S: Sample>(p: AllPass<S>) -> AllPass<S> {
    AllPass {
        a: p.a,
        x: (S::zero_s(), S::zero_s(), S::zero_s()),
        y: (S::zero_s(), S::zero_s(), S::zero_s()),
    }
}

/// The state a half-band filter resets to: same coefficients, every section
/// silent, delay register zero.
pub open spec fn hb_reset<S: Sample>(m: HbState<S>) -> HbState<S> {
    HbState {
        a: m.a.map_values(|p: AllPass<S>| ap_reset(p)),
        b: m.b.map_values(|p: AllPass<S>| ap_reset(p)),
        y0: S::zero_s(),
    }
}

/// `HalfBand::reset`'s relational contract pins exactly the `hb_reset` state.
pub proof fn lemma_hb_reset_agrees<S: Sample>(pre: HalfBand<S>, post: HalfBand<S>)
    requires
        pre.resets_to(&post),
    ensures
        hb_state(post) == hb_reset(hb_state(pre)),
{
    assert(hb_state(post).a =~= hb_reset(hb_state(pre)).a);
    assert(hb_state(post).b =~= hb_reset(hb_state(pre)).b);
}

/// The process a host hands to [`Oversampler::process_block`], run once per
/// chunk on the oversampled signal.  `block_step` relates the processor's
/// state and the buffer prefix it was shown to the state afterwards and the
/// prefix it wrote; `process_buffer` must leave the rest of the buffer alone.
pub trait BlockProcessor<S>: Sized {
    spec fn block_step(&self, buf: Seq<S>, next: &Self, out: Seq<S>) -> bool;

    fn process_buffer(&mut self, buf: &mut Vec<S>, len: usize)
        requires
            len <= old(buf)@.len(),
        ensures
            final(buf)@.len() == old(buf)@.len(),
            final(buf)@.skip(len as int) == old(buf)@.skip(len as int),
            old(self).block_step(
                old(buf)@.take(len as int),
                final(self),
                final(buf)@.take(len as int),
            ),
    ;
}

impl<S> BlockProcessor<S> for Noop {
    open spec fn block_step(&self, buf: Seq<S>, next: &Self, out: Seq<S>) -> bool {
        next == self && out == buf
    }

    fn process_buffer(&mut self, buf: &mut Vec<S>, len: usize) {
    }
}

/// A per-sample inner process, the shape hosts usually supply: arbitrary
/// state, one sample in, one sample out.  No behavior is promised of it, so
/// an unverified host can implement it freely.
pub trait InnerSample<S>: Sized {
    fn call(&mut self, v: S) -> S;
}

/// Adapter: runs a per-sample [`InnerSample`] over the buffer prefix, the
/// way a host's closure would be mapped over the oversampled block.
#[derive(Debug)]
pub struct PerSample<M>(pub M);

impl<S: Copy, M: InnerSample<S>> BlockProcessor<S> for PerSample<M> {
    /// Nothing is known of the host's process but that it writes one
    /// sample per sample.
    open spec fn block_step(&self, buf: Seq<S>, next: &Self, out: Seq<S>) -> bool {
        out.len() == buf.len()
    }

    fn process_buffer(&mut self, buf: &mut Vec<S>, len: usize) {
        let mut i: usize = 0;
        while i < len
            invariant
                i <= len,
                len <= buf@.len(),
                buf@.len() == old(buf)@.len(),
                forall|j: int| len <= j < buf@.len() ==> buf@[j] == old(buf)@[j],
            decreases len - i,
        {
            let v = buf[i];
            let w = self.0.call(v);
            buf[i] = w;
            i = i + 1;
        }
        proof {
            assert(final(buf)@.skip(len as int) =~= old(buf)@.skip(len as int));
        }
    }
}

/// One chunk of at most `block_size` boundary samples through the
/// oversampler: upsampled through the active up-filters, handed to the inner
/// processor at the raised rate, and decimated back through the active
/// down-filters.  With factor 0 the chunk only crosses the precision
/// boundary around the inner processor.
pub open spec fn chunk_rel<S: Sample, P: BlockProcessor<S>>(
    factor: int,
    ups: Seq<HbState<S>>,
    downs: Seq<HbState<S>>,
    p: P,
    xs: Seq<<S as Sample>::Io>,
    ups2: Seq<HbState<S>>,
    downs2: Seq<HbState<S>>,
    p2: P,
    ys: Seq<<S as Sample>::Io>,
) -> bool {
    if factor <= 0 {
        ups2 == ups && downs2 == downs && exists|zs: Seq<S>|
            {
                &&& #[trigger] p.block_step(promoted::<S>(xs), &p2, zs)
                &&& zs.len() == xs.len()
                &&& ys == demoted(zs)
            }
    } else {
        let up = up_from(ups, 0, factor, promoted::<S>(xs));
        ups2 == up.0 && exists|zs: Seq<S>|
            {
                &&& #[trigger] p.block_step(up.1, &p2, zs)
                &&& zs.len() == up.1.len()
                &&& downs2 == down_from(downs, factor - 1, zs).0
                &&& ys == demoted(down_from(downs, factor - 1, zs).1)
            }
    }
}

/// The number of samples in the next chunk of a buffer of `len` samples cut
/// into chunks of `block_size`.
pub open spec fn chunk_len(len: int, block_size: int) -> int {
    if len < block_size {
        len
    } else {
        block_size
    }
}

/// A whole buffer through the oversampler: split into chunks of `block_size`
/// (a final partial chunk handled like any other), each chunk passed through
/// [`chunk_rel`] in order.
pub open spec fn blocks_rel<S: Sample, P: BlockProcessor<S>>(
    factor: int,
    block_size: int,
    ups: Seq<HbState<S>>,
    downs: Seq<HbState<S>>,
    p: P,
    xs: Seq<<S as Sample>::Io>,
    ups2: Seq<HbState<S>>,
    downs2: Seq<HbState<S>>,
    p2: P,
    ys: Seq<<S as Sample>::Io>,
) -> bool
    decreases xs.len(),
{
    if xs.len() == 0 || block_size <= 0 {
        ups2 == ups && downs2 == downs && p2 == p && ys == xs
    } else {
        ys.len() == xs.len() && exists|u1: Seq<HbState<S>>, d1: Seq<HbState<S>>, pm: P|
            {
                &&& #[trigger] chunk_rel(
                    factor,
                    ups,
                    downs,
                    p,
                    xs.take(chunk_len(xs.len() as int, block_size)),
                    u1,
                    d1,
                    pm,
                    ys.take(chunk_len(xs.len() as int, block_size)),
                )
                &&& blocks_rel(
                    factor,
                    block_size,
                    u1,
                    d1,
                    pm,
                    xs.skip(chunk_len(xs.len() as int, block_size)),
                    ups2,
                    downs2,
                    p2,
                    ys.skip(chunk_len(xs.len() as int, block_size)),
                )
            }
    }
}

/// Whether a factor change from `old_factor` to `nf` resets up-filter `i`:
/// raising the factor resets every filter, lowering it resets the up-filters
/// from stage `nf` on, which fall out of the active path.
pub open spec fn up_filter_cleared(old_factor: int, nf: int, i: int) -> bool {
    old_factor < nf || (old_factor > nf && i >= nf)
}

/// Whether a factor change from `old_factor` to `nf` resets down-filter `i`:
/// raising the factor resets every filter, lowering it resets the last `nf`
/// down-filters.
pub open spec fn down_filter_cleared(old_factor: int, nf: int, max_factor: int, i: int) -> bool {
    old_factor < nf || (old_factor > nf && i >= max_factor - nf)
}

/// A minimum phase oversampler using half-band filters: drives the
/// [`Inner`] bank through a runtime-adjustable number of power-of-two
/// stages.
#[derive(Debug)]
pub struct Oversampler<S: Sample> {
    pub max_factor: u8,
    pub factor: u8,
    pub block_size: usize,
    pub inner: Inner<S>,
}

/// The fixed per-factor latency of this half-band cascade, in samples.  The
/// curve was measured for this specific design; it levels off at 25 and is
/// a literal table, not derived from the filter order.
pub open spec fn latency_table(factor: int) -> int {
    if factor <= 0 {
        0
    } else if factor == 1 {
        13
    } else if factor == 2 {
        19
    } else if factor == 3 {
        22
    } else if factor == 4 {
        23
    } else if factor == 5 {
        24
    } else {
        25
    }
}

impl<S: Sample> Oversampler<S> {
    pub open spec fn wf(&self) -> bool {
        &&& 1 <= self.block_size
        &&& self.factor <= self.max_factor
        &&& self.max_factor <= 8
        &&& self.inner.wf()
        &&& self.inner.max_factor == self.max_factor
        &&& self.inner.buffer@.len() == self.block_size * pow2(self.max_factor as int)
    }

    pub open spec fn up_states(&self) -> Seq<HbState<S>> {
        self.inner.up_states()
    }

    pub open spec fn down_states(&self) -> Seq<HbState<S>> {
        self.inner.down_states()
    }

    /// Create a new `Oversampler` with every filter a steep order-12
    /// half-band design at rest.
    ///
    /// Construction demands `block_size >= 1`, `max_factor <= 8` (beyond
    /// eight doublings the memory cost is prohibitive and the latency gain
    /// negligible), `initial_factor <= max_factor`, and a scratch buffer
    /// size that fits the machine word.
    pub fn new(block_size: usize, max_factor: u8, initial_factor: u8) -> (r: Self)
        requires
            1 <= block_size,
            max_factor <= 8,
            initial_factor <= max_factor,
            block_size * pow2(max_factor as int) <= usize::MAX,
        ensures
            r.wf(),
            r.block_size == block_size,
            r.max_factor == max_factor,
            r.factor == initial_factor,
            forall|i: int|
                0 <= i < max_factor as int ==> (#[trigger] r.inner.up_filters@[i]).at_rest(),
            forall|i: int|
                0 <= i < max_factor as int ==> (#[trigger] r.inner.down_filters@[i]).at_rest(),
            forall|i: int|
                0 <= i < max_factor as int ==> (#[trigger] r.inner.up_filters@[i]).coeffs()
                    == HalfBand::<S>::steep12_coeffs(),
            forall|i: int|
                0 <= i < max_factor as int ==> (#[trigger] r.inner.down_filters@[i]).coeffs()
                    == HalfBand::<S>::steep12_coeffs(),
    {
        Oversampler {
            factor: initial_factor,
            max_factor,
            block_size,
            inner: Inner::new(block_size, max_factor),
        }
    }

    /// Get the latency of this `Oversampler`, in samples.
    pub fn latency(&self) -> (r: usize)
        requires
            self.wf(),
        ensures
            r == latency_table(self.factor as int),
    {
        match self.factor {
            0 => 0,
            1 => 13,
            2 => 19,
            3 => 22,
            4 => 23,
            5 => 24,
            _ => 25,
        }
    }

    /// Reset all filter state associated with this `Oversampler`; the
    /// configured factor is untouched.
    pub fn reset(&mut self)
        requires
            old(self).wf(),
        ensures
            final(self).wf(),
            final(self).factor == old(self).factor,
            final(self).max_factor == old(self).max_factor,
            final(self).block_size == old(self).block_size,
            final(self).up_states() == old(self).up_states().map_values(
                |m: HbState<S>| hb_reset(m),
            ),
            final(self).down_states() == old(self).down_states().map_values(
                |m: HbState<S>| hb_reset(m),
            ),
    {
        self.inner.reset();
    }

    /// Set the active oversampling factor; the final oversampling ratio
    /// will be `2^factor`.  A factor above the configured maximum is clamped
    /// to it.
    ///
    /// Raising the factor brings previously idle stages into the active
    /// path, so every filter is reset to start clean.  Lowering it resets
    /// only filters that leave the active path — the up-filters from the new
    /// factor on and the last `new factor` down-filters — and leaves the
    /// rest untouched to preserve the signal still inside them.
    pub fn set_oversampling_factor(&mut self, factor: u8)
        requires
            old(self).wf(),
        ensures
            final(self).wf(),
            final(self).factor == (if factor <= old(self).max_factor {
                factor as int
            } else {
                old(self).max_factor as int
            }),
            final(self).max_factor == old(self).max_factor,
            final(self).block_size == old(self).block_size,
            final(self).inner.buffer@.len() == old(self).inner.buffer@.len(),
            final(self).up_states().len() == old(self).up_states().len(),
            final(self).down_states().len() == old(self).down_states().len(),
            forall|i: int|
                0 <= i < old(self).max_factor as int ==> final(self).up_states()[i] == (
                if up_filter_cleared(
                    old(self).factor as int,
                    final(self).factor as int,
                    i,
                ) {
                    hb_reset(#[trigger] old(self).up_states()[i])
                } else {
                    old(self).up_states()[i]
                }),
            forall|i: int|
                0 <= i < old(self).max_factor as int ==> final(self).down_states()[i] == (
                if down_filter_cleared(
                    old(self).factor as int,
                    final(self).factor as int,
                    old(self).max_factor as int,
                    i,
                ) {
                    hb_reset(#[trigger] old(self).down_states()[i])
                } else {
                    old(self).down_states()[i]
                }),
    {
        let factor = if factor < self.max_factor {
            factor
        } else {
            self.max_factor
        };
        if self.factor < factor {
            self.inner.reset();
        } else if self.factor > factor {
            // Only reset the now-inactive filters, preserving continuity in
            // the ones that stay active.
            let max = self.inner.max_factor;
            let mut i: usize = factor as usize;
            while i < max as usize
                invariant
                    old(self).wf(),
                    factor as usize <= i <= max as usize,
                    max == old(self).max_factor,
                    self.max_factor == old(self).max_factor,
                    self.factor == old(self).factor,
                    self.block_size == old(self).block_size,
                    self.inner.max_factor == old(self).inner.max_factor,
                    self.inner.buffer@ == old(self).inner.buffer@,
                    self.inner.down_filters@ == old(self).inner.down_filters@,
                    self.inner.up_filters@.len() == old(self).inner.up_filters@.len(),
                    forall|j: int|
                        0 <= j < old(self).up_states().len() && !(factor as int <= j < i as int)
                            ==> self.inner.up_filters@[j] == old(self).inner.up_filters@[j],
                    forall|j: int|
                        factor as int <= j < i as int ==> (#[trigger] self.inner.up_filters@[j]).wf()
                            && hb_state(self.inner.up_filters@[j]) == hb_reset(
                            hb_state(old(self).inner.up_filters@[j]),
                        ),
                decreases max as usize - i,
            {
                proof {
                    assert(self.inner.up_filters@[i as int] == old(self).inner.up_filters@[i as int]);
                    assert(old(self).inner.up_filters@[i as int].wf());
                }
                self.inner.up_filters[i].reset();
                proof {
                    lemma_hb_reset_agrees(
                        old(self).inner.up_filters@[i as int],
                        self.inner.up_filters@[i as int],
                    );
                }
                i = i + 1;
            }
            let mut k: usize = 0;
            while k < factor as usize
                invariant
                    old(self).wf(),
                    k <= factor as usize,
                    factor <= max,
                    max == old(self).max_factor,
                    self.max_factor == old(self).max_factor,
                    self.factor == old(self).factor,
                    self.block_size == old(self).block_size,
                    self.inner.max_factor == old(self).inner.max_factor,
                    self.inner.buffer@ == old(self).inner.buffer@,
                    self.inner.down_filters@.len() == old(self).inner.down_filters@.len(),
                    self.inner.up_filters@.len() == old(self).inner.up_filters@.len(),
                    forall|j: int|
                        0 <= j < old(self).up_states().len() && !(factor as int <= j
                            < max as int) ==> self.inner.up_filters@[j] == old(
                            self,
                        ).inner.up_filters@[j],
                    forall|j: int|
                        factor as int <= j < max as int ==> (#[trigger] self.inner.up_filters@[j]).wf()
                            && hb_state(self.inner.up_filters@[j]) == hb_reset(
                            hb_state(old(self).inner.up_filters@[j]),
                        ),
                    forall|j: int|
                        0 <= j < old(self).down_states().len() && !(max as int - k as int <= j
                            < max as int) ==> self.inner.down_filters@[j] == old(
                            self,
                        ).inner.down_filters@[j],
                    forall|j: int|
                        max as int - k as int <= j < max as int ==> (
                        #[trigger] self.inner.down_filters@[j]).wf() && hb_state(
                            self.inner.down_filters@[j],
                        ) == hb_reset(hb_state(old(self).inner.down_filters@[j])),
                decreases factor as usize - k,
            {
                let idx = max as usize - 1 - k;
                proof {
                    assert(self.inner.down_filters@[idx as int] == old(
                        self,
                    ).inner.down_filters@[idx as int]);
                    assert(old(self).inner.down_filters@[idx as int].wf());
                }
                self.inner.down_filters[idx].reset();
                proof {
                    lemma_hb_reset_agrees(
                        old(self).inner.down_filters@[idx as int],
                        self.inner.down_filters@[idx as int],
                    );
                }
                k = k + 1;
            }
        }
        self.factor = factor;
    }
}

pub proof fn lemma_blocks_rel_len<S: Sample, P: BlockProcessor<S>>(
    factor: int,
    block_size: int,
    ups: Seq<HbState<S>>,
    downs: Seq<HbState<S>>,
    p: P,
    xs: Seq<<S as Sample>::Io>,
    ups2: Seq<HbState<S>>,
    downs2: Seq<HbState<S>>,
    p2: P,
    ys: Seq<<S as Sample>::Io>,
)
    requires
        blocks_rel(factor, block_size, ups, downs, p, xs, ups2, downs2, p2, ys),
    ensures
        ys.len() == xs.len(),
{
}

/// Every section of an all-pass bank is silent.
pub open spec fn bank_quiet<S: Sample>(s: Seq<AllPass<S>>) -> bool {
    forall|i: int| 0 <= i < s.len() ==> (#[trigger] s[i]).at_rest()
}

/// A half-band filter holds no signal: both paths silent, delay register
/// zero.
pub open spec fn hb_quiet<S: Sample>(m: HbState<S>) -> bool {
    bank_quiet(m.a) && bank_quiet(m.b) && m.y0 == S::zero_s()
}

/// Every filter of a bank holds no signal.
pub open spec fn all_quiet<S: Sample>(ms: Seq<HbState<S>>) -> bool {
    forall|i: int| 0 <= i < ms.len() ==> hb_quiet(#[trigger] ms[i])
}

/// Every sample of a working-precision block is zero.
pub open spec fn all_zero<S: Sample>(zs: Seq<S>) -> bool {
    forall|i: int| 0 <= i < zs.len() ==> #[trigger] zs[i] == S::zero_s()
}

/// Every sample of a boundary block is the boundary zero.
pub open spec fn all_io_zero<S: Sample>(xs: Seq<<S as Sample>::Io>) -> bool {
    forall|i: int| 0 <= i < xs.len() ==> #[trigger] xs[i] == S::io_zero_s()
}

/// Widening then narrowing a boundary block is exact.
pub proof fn lemma_round_trip_block<S: Sample>(xs: Seq<<S as Sample>::Io>)
    ensures
        demoted(promoted::<S>(xs)) == xs,
{
    assert forall|i: int| 0 <= i < xs.len() implies demoted(promoted::<S>(xs))[i] == xs[i] by {
        S::lemma_io_round_trip(xs[i]);
    }
    assert(demoted(promoted::<S>(xs)) =~= xs);
}

proof fn lemma_bank_run_quiet<S: Sample>(s: Seq<AllPass<S>>, x: S)
    requires
        bank_quiet(s),
        x == S::zero_s(),
    ensures
        bank_run(s, x).1 == S::zero_s(),
        bank_run(s, x).0.len() == s.len(),
        bank_quiet(bank_run(s, x).0),
    decreases s.len(),
{
    if s.len() == 0 {
    } else {
        assert forall|i: int| 0 <= i < s.drop_last().len() implies (
        #[trigger] s.drop_last()[i]).at_rest() by {
            assert(s.drop_last()[i] == s[i]);
        }
        lemma_bank_run_quiet(s.drop_last(), x);
        let (pre, y) = bank_run(s.drop_last(), x);
        assert(s.last().at_rest());
        s.last().lemma_at_rest_step(y);
        assert forall|i: int| 0 <= i < bank_run(s, x).0.len() implies (
        #[trigger] bank_run(s, x).0[i]).at_rest() by {
            if i < pre.len() {
                assert(bank_run(s, x).0[i] == pre[i]);
            } else {
                assert(bank_run(s, x).0[i] == s.last().next_s(y));
            }
        }
    }
}

proof fn lemma_hb_run_quiet<S: Sample>(m: HbState<S>, zs: Seq<S>)
    requires
        hb_quiet(m),
        all_zero(zs),
    ensures
        hb_quiet(hb_run(m, zs).0),
        all_zero(hb_run(m, zs).1),
    decreases zs.len(),
{
    if zs.len() == 0 {
    } else {
        assert forall|i: int| 0 <= i < zs.drop_last().len() implies #[trigger] zs.drop_last()[i]
            == S::zero_s() by {
            assert(zs.drop_last()[i] == zs[i]);
        }
        lemma_hb_run_quiet(m, zs.drop_last());
        let (m1, ys) = hb_run(m, zs.drop_last());
        assert(zs.last() == S::zero_s());
        lemma_bank_run_quiet(m1.a, zs.last());
        lemma_bank_run_quiet(m1.b, zs.last());
        lemma_zero_algebra::<S>();
        assert(hb_out(m1, zs.last()) == S::zero_s());
        assert forall|i: int| 0 <= i < hb_run(m, zs).1.len() implies #[trigger] hb_run(m, zs).1[i]
            == S::zero_s() by {
            if i < ys.len() {
                assert(hb_run(m, zs).1[i] == ys[i]);
            } else {
                assert(hb_run(m, zs).1[i] == hb_out(m1, zs.last()));
            }
        }
    }
}

/// The zero algebra of [`Sample`], packaged for use at a generic call site.
proof fn lemma_zero_algebra<S: Sample>()
    ensures
        S::zero_s().add_s(S::zero_s()) == S::zero_s(),
        S::zero_s().sub_s(S::zero_s()) == S::zero_s(),
        forall|a: S| #[trigger] S::zero_s().mul_s(a) == S::zero_s(),
        forall|a: S| #[trigger] a.mul_s(S::zero_s()) == S::zero_s(),
        S::from_io_s(S::io_zero_s()) == S::zero_s(),
        S::zero_s().to_io_s() == S::io_zero_s(),
{
    S::lemma_zero();
}

proof fn lemma_stuffed_zero<S: Sample>(xs: Seq<S>)
    requires
        all_zero(xs),
    ensures
        all_zero(stuffed(xs)),
{
    lemma_zero_algebra::<S>();
    assert forall|i: int| 0 <= i < stuffed(xs).len() implies #[trigger] stuffed(xs)[i]
        == S::zero_s() by {
        if i % 2 == 0 {
            assert(xs[i / 2] == S::zero_s());
        }
    }
}

proof fn lemma_evens_zero<S: Sample>(zs: Seq<S>)
    requires
        all_zero(zs),
    ensures
        all_zero(evens(zs)),
{
    assert forall|i: int| 0 <= i < evens(zs).len() implies #[trigger] evens(zs)[i]
        == S::zero_s() by {
        assert(zs[2 * i] == S::zero_s());
    }
}

proof fn lemma_up_from_quiet<S: Sample>(ups: Seq<HbState<S>>, stage: int, factor: int, xs: Seq<S>)
    requires
        0 <= stage,
        factor <= ups.len(),
        all_quiet(ups),
        all_zero(xs),
    ensures
        all_quiet(up_from(ups, stage, factor, xs).0),
        all_zero(up_from(ups, stage, factor, xs).1),
    decreases factor - stage,
{
    if stage >= factor {
    } else {
        lemma_stuffed_zero(xs);
        lemma_hb_run_quiet(ups[stage], stuffed(xs));
        let (m1, ys) = up_stage(ups[stage], xs);
        assert forall|i: int| 0 <= i < ups.update(stage, m1).len() implies hb_quiet(
            #[trigger] ups.update(stage, m1)[i],
        ) by {
            if i != stage {
                assert(ups.update(stage, m1)[i] == ups[i]);
            }
        }
        lemma_up_from_quiet(ups.update(stage, m1), stage + 1, factor, ys);
    }
}

proof fn lemma_down_from_quiet<S: Sample>(downs: Seq<HbState<S>>, stage: int, xs: Seq<S>)
    requires
        stage < downs.len(),
        all_quiet(downs),
        all_zero(xs),
    ensures
        all_quiet(down_from(downs, stage, xs).0),
        all_zero(down_from(downs, stage, xs).1),
    decreases stage + 1,
{
    if stage < 0 {
    } else {
        lemma_hb_run_quiet(downs[stage], xs);
        lemma_evens_zero(hb_run(downs[stage], xs).1);
        let (m1, ys) = down_stage(downs[stage], xs);
        assert forall|i: int| 0 <= i < downs.update(stage, m1).len() implies hb_quiet(
            #[trigger] downs.update(stage, m1)[i],
        ) by {
            if i != stage {
                assert(downs.update(stage, m1)[i] == downs[i]);
            }
        }
        lemma_down_from_quiet(downs.update(stage, m1), stage - 1, ys);
    }
}

proof fn lemma_promoted_zero<S: Sample>(xs: Seq<<S as Sample>::Io>)
    requires
        all_io_zero::<S>(xs),
    ensures
        all_zero(promoted::<S>(xs)),
{
    lemma_zero_algebra::<S>();
    assert forall|i: int| 0 <= i < promoted::<S>(xs).len() implies #[trigger] promoted::<S>(xs)[i]
        == S::zero_s() by {
        assert(xs[i] == S::io_zero_s());
    }
}

proof fn lemma_demoted_zero<S: Sample>(zs: Seq<S>)
    requires
        all_zero(zs),
    ensures
        all_io_zero::<S>(demoted(zs)),
{
    lemma_zero_algebra::<S>();
    assert forall|i: int| 0 <= i < demoted(zs).len() implies #[trigger] demoted(zs)[i]
        == S::io_zero_s() by {
        assert(zs[i] == S::zero_s());
    }
}

/// Law: with the oversampler bypassed (factor 0) and an inner process that
/// hands its buffer back unchanged, a block comes out exactly as it went in
/// — the promotion to working precision and back is exact — and no filter
/// state moves.
pub proof fn lemma_pass_through_identity<S: Sample>(
    block_size: int,
    ups: Seq<HbState<S>>,
    downs: Seq<HbState<S>>,
    xs: Seq<<S as Sample>::Io>,
    ups2: Seq<HbState<S>>,
    downs2: Seq<HbState<S>>,
    p2: Noop,
    ys: Seq<<S as Sample>::Io>,
)
    requires
        blocks_rel(0, block_size, ups, downs, Noop, xs, ups2, downs2, p2, ys),
    ensures
        ys == xs,
        ups2 == ups,
        downs2 == downs,
    decreases xs.len(),
{
    if xs.len() == 0 || block_size <= 0 {
    } else {
        let c = chunk_len(xs.len() as int, block_size);
        let (u1, d1, pm): (Seq<HbState<S>>, Seq<HbState<S>>, Noop) = choose|
            u1: Seq<HbState<S>>,
            d1: Seq<HbState<S>>,
            pm: Noop,
        |
            {
                &&& #[trigger] chunk_rel(0, ups, downs, Noop, xs.take(c), u1, d1, pm, ys.take(c))
                &&& blocks_rel(0, block_size, u1, d1, pm, xs.skip(c), ups2, downs2, p2, ys.skip(c))
            };
        let zs = choose|zs: Seq<S>|
            {
                &&& #[trigger] Noop.block_step(promoted::<S>(xs.take(c)), &pm, zs)
                &&& zs.len() == xs.take(c).len()
                &&& ys.take(c) == demoted(zs)
            };
        lemma_round_trip_block::<S>(xs.take(c));
        assert(ys.take(c) == xs.take(c));
        lemma_pass_through_identity(
            block_size,
            u1,
            d1,
            xs.skip(c),
            ups2,
            downs2,
            p2,
            ys.skip(c),
        );
        assert(ys =~= ys.take(c) + ys.skip(c));
        assert(xs =~= xs.take(c) + xs.skip(c));
    }
}

/// Law: a bank holding no signal and fed only silence emits only silence and
/// still holds no signal afterwards, whatever the factor — the system has no
/// spontaneous state.
pub proof fn lemma_silence_stays_silence<S: Sample>(
    factor: int,
    block_size: int,
    ups: Seq<HbState<S>>,
    downs: Seq<HbState<S>>,
    xs: Seq<<S as Sample>::Io>,
    ups2: Seq<HbState<S>>,
    downs2: Seq<HbState<S>>,
    p2: Noop,
    ys: Seq<<S as Sample>::Io>,
)
    requires
        blocks_rel(factor, block_size, ups, downs, Noop, xs, ups2, downs2, p2, ys),
        all_quiet(ups),
        all_quiet(downs),
        all_io_zero::<S>(xs),
        factor <= ups.len(),
        factor <= downs.len(),
    ensures
        all_io_zero::<S>(ys),
        all_quiet(ups2),
        all_quiet(downs2),
    decreases xs.len(),
{
    if xs.len() == 0 || block_size <= 0 {
    } else {
        let c = chunk_len(xs.len() as int, block_size);
        let (u1, d1, pm): (Seq<HbState<S>>, Seq<HbState<S>>, Noop) = choose|
            u1: Seq<HbState<S>>,
            d1: Seq<HbState<S>>,
            pm: Noop,
        |
            {
                &&& #[trigger] chunk_rel(
                    factor,
                    ups,
                    downs,
                    Noop,
                    xs.take(c),
                    u1,
                    d1,
                    pm,
                    ys.take(c),
                )
                &&& blocks_rel(
                    factor,
                    block_size,
                    u1,
                    d1,
                    pm,
                    xs.skip(c),
                    ups2,
                    downs2,
                    p2,
                    ys.skip(c),
                )
            };
        assert forall|i: int| 0 <= i < xs.take(c).len() implies #[trigger] xs.take(c)[i]
            == S::io_zero_s() by {
            assert(xs.take(c)[i] == xs[i]);
        }
        lemma_promoted_zero::<S>(xs.take(c));
        if factor <= 0 {
            let zs = choose|zs: Seq<S>|
                {
                    &&& #[trigger] Noop.block_step(promoted::<S>(xs.take(c)), &pm, zs)
                    &&& zs.len() == xs.take(c).len()
                    &&& ys.take(c) == demoted(zs)
                };
            lemma_demoted_zero::<S>(zs);
        } else {
            let up = up_from(ups, 0, factor, promoted::<S>(xs.take(c)));
            lemma_up_from_quiet(ups, 0, factor, promoted::<S>(xs.take(c)));
            let zs = choose|zs: Seq<S>|
                {
                    &&& #[trigger] Noop.block_step(up.1, &pm, zs)
                    &&& zs.len() == up.1.len()
                    &&& d1 == down_from(downs, factor - 1, zs).0
                    &&& ys.take(c) == demoted(down_from(downs, factor - 1, zs).1)
                };
            assert(zs == up.1);
            lemma_down_from_quiet(downs, factor - 1, zs);
            lemma_demoted_zero::<S>(down_from(downs, factor - 1, zs).1);
            lemma_up_from_len(ups, 0, factor, promoted::<S>(xs.take(c)));
            lemma_down_from_len(downs, factor - 1, zs);
        }
        assert forall|i: int| 0 <= i < xs.skip(c).len() implies #[trigger] xs.skip(c)[i]
            == S::io_zero_s() by {
            assert(xs.skip(c)[i] == xs[c + i]);
        }
        lemma_silence_stays_silence(
            factor,
            block_size,
            u1,
            d1,
            xs.skip(c),
            ups2,
            downs2,
            p2,
            ys.skip(c),
        );
        assert forall|i: int| 0 <= i < ys.len() implies #[trigger] ys[i] == S::io_zero_s() by {
            lemma_blocks_rel_len(
                factor,
                block_size,
                u1,
                d1,
                pm,
                xs.skip(c),
                ups2,
                downs2,
                p2,
                ys.skip(c),
            );
            if i < c {
                assert(ys.take(c)[i] == ys[i]);
                assert(ys.take(c)[i] == S::io_zero_s());
            } else {
                assert(ys.skip(c)[i - c] == ys[i]);
                assert(ys.skip(c)[i - c] == S::io_zero_s());
            }
        }
    }
}

/// Law: when the factor is lowered to `nf`, the filters that stay in the
/// active path keep their state untouched: no up-filter below `nf` is
/// cleared, and — whenever `nf` is at most half the stage count — no active
/// down-filter is cleared either.  Together with the exact ensures of
/// [`Oversampler::set_oversampling_factor`], those filters are bit-identical
/// to their state before the change.
pub proof fn lemma_decrease_preserves_active(old_factor: int, nf: int, max_factor: int, i: int)
    requires
        nf < old_factor <= max_factor,
    ensures
        0 <= i < nf ==> !up_filter_cleared(old_factor, nf, i),
        0 <= i < nf && 2 * nf <= max_factor ==> !down_filter_cleared(old_factor, nf, max_factor, i),
{
}

/// Prepending one processed chunk to a processed remainder yields the whole
/// processed buffer.
pub proof fn lemma_blocks_rel_cons<S: Sample, P: BlockProcessor<S>>(
    factor: int,
    block_size: int,
    ups: Seq<HbState<S>>,
    downs: Seq<HbState<S>>,
    p: P,
    xs: Seq<<S as Sample>::Io>,
    u1: Seq<HbState<S>>,
    d1: Seq<HbState<S>>,
    pm: P,
    ys1: Seq<<S as Sample>::Io>,
    ups2: Seq<HbState<S>>,
    downs2: Seq<HbState<S>>,
    p2: P,
    ys2: Seq<<S as Sample>::Io>,
)
    requires
        block_size >= 1,
        xs.len() > 0,
        ys1.len() == chunk_len(xs.len() as int, block_size),
        chunk_rel(
            factor,
            ups,
            downs,
            p,
            xs.take(chunk_len(xs.len() as int, block_size)),
            u1,
            d1,
            pm,
            ys1,
        ),
        blocks_rel(
            factor,
            block_size,
            u1,
            d1,
            pm,
            xs.skip(chunk_len(xs.len() as int, block_size)),
            ups2,
            downs2,
            p2,
            ys2,
        ),
    ensures
        blocks_rel(factor, block_size, ups, downs, p, xs, ups2, downs2, p2, ys1 + ys2),
{
    let c = chunk_len(xs.len() as int, block_size);
    lemma_blocks_rel_len(factor, block_size, u1, d1, pm, xs.skip(c), ups2, downs2, p2, ys2);
    let ys = ys1 + ys2;
    assert(ys.take(c) =~= ys1);
    assert(ys.skip(c) =~= ys2);
    assert(ys.len() == xs.len());
    assert(chunk_rel(factor, ups, downs, p, xs.take(c), u1, d1, pm, ys.take(c)));
    assert(blocks_rel(factor, block_size, u1, d1, pm, xs.skip(c), ups2, downs2, p2, ys.skip(c)));
}

impl<S: Sample> Oversampler<S> {
    /// Process a block of samples, applying the inner processor to the
    /// oversampled signal transparently.
    ///
    /// The buffer is split into chunks of `block_size` (the final chunk may
    /// be shorter).  Each chunk is upsampled through the active stages, the
    /// inner processor runs on the raised-rate signal — where its nonlinear
    /// products stay below the raised Nyquist and are filtered off on the
    /// way down — and the chunk is decimated back in place.  With factor 0
    /// the chunk still crosses the scratch buffer, so the inner processor
    /// always sees the working precision.
    pub fn process_block<P: BlockProcessor<S>>(&mut self, samples: &mut Vec<<S as Sample>::Io>, inner: &mut P)
        requires
            old(self).wf(),
        ensures
            final(self).wf(),
            final(self).factor == old(self).factor,
            final(self).max_factor == old(self).max_factor,
            final(self).block_size == old(self).block_size,
            final(samples)@.len() == old(samples)@.len(),
            blocks_rel(
                old(self).factor as int,
                old(self).block_size as int,
                old(self).up_states(),
                old(self).down_states(),
                *old(inner),
                old(samples)@,
                final(self).up_states(),
                final(self).down_states(),
                *final(inner),
                final(samples)@,
            ),
    {
        let ghost f = old(self).factor as int;
        let ghost bs = old(self).block_size as int;
        let ghost u0 = old(self).up_states();
        let ghost d0 = old(self).down_states();
        let ghost p0 = *old(inner);
        let ghost x0 = old(samples)@;
        let n = samples.len();
        let bsz = self.block_size;
        proof {
            assert(x0.skip(0) =~= x0);
            assert(samples@.take(0) =~= Seq::<<S as Sample>::Io>::empty());
            assert(samples@.take(0) + x0 =~= x0);
        }
        let mut start: usize = 0;
        while start < n
            invariant
                self.wf(),
                start <= n,
                n == samples@.len(),
                x0.len() == n,
                bsz == self.block_size,
                f == self.factor as int,
                bs == self.block_size as int,
                self.factor == old(self).factor,
                self.max_factor == old(self).max_factor,
                self.block_size == old(self).block_size,
                samples@.skip(start as int) == x0.skip(start as int),
                forall|u2: Seq<HbState<S>>, d2: Seq<HbState<S>>, q2: P, ys2: Seq<<S as Sample>::Io>|
                    #[trigger] blocks_rel(
                        f,
                        bs,
                        self.up_states(),
                        self.down_states(),
                        *inner,
                        x0.skip(start as int),
                        u2,
                        d2,
                        q2,
                        ys2,
                    ) ==> blocks_rel(
                        f,
                        bs,
                        u0,
                        d0,
                        p0,
                        x0,
                        u2,
                        d2,
                        q2,
                        samples@.take(start as int) + ys2,
                    ),
            decreases n - start,
        {
            let rem = n - start;
            let clen = if rem < bsz {
                rem
            } else {
                bsz
            };
            let ghost chunk_in = x0.subrange(start as int, start as int + clen as int);
            let ghost ups_a = self.up_states();
            let ghost downs_a = self.down_states();
            let ghost p_a = *inner;
            let ghost samples_pre = samples@;
            proof {
                lemma_pow2_pos(self.max_factor as int);
                assert(bsz * 1 <= bsz * pow2(self.max_factor as int)) by (nonlinear_arith)
                    requires
                        1 <= pow2(self.max_factor as int),
                        0 <= bsz,
                ;
                assert(clen <= self.inner.buffer@.len());
                assert(samples_pre.subrange(start as int, start as int + clen as int)
                    =~= x0.skip(start as int).subrange(0, clen as int));
                assert(x0.skip(start as int).subrange(0, clen as int) =~= x0.subrange(
                    start as int,
                    start as int + clen as int,
                ));
            }
            if self.factor == 0 {
                let blen = self.inner.buffer.len();
                let mut i: usize = 0;
                while i < clen
                    invariant
                        i <= clen,
                        start + clen <= n,
                        n == samples@.len(),
                        blen == self.inner.buffer@.len(),
                        clen <= blen,
                        samples@ == samples_pre,
                        self.up_states() == ups_a,
                        self.down_states() == downs_a,
                        self.wf(),
                        bsz == self.block_size,
                        f == self.factor as int,
                        self.factor == old(self).factor,
                        self.max_factor == old(self).max_factor,
                        self.block_size == old(self).block_size,
                        forall|j: int|
                            0 <= j < i as int ==> #[trigger] self.inner.buffer@[j]
                                == S::from_io_s(samples@[start as int + j]),
                    decreases clen - i,
                {
                    let x = samples[start + i];
                    let s = S::from_io(x);
                    self.inner.buffer[i] = s;
                    i = i + 1;
                }
                proof {
                    assert(self.inner.buffer@.take(clen as int) =~= promoted::<S>(chunk_in));
                }
                inner.process_buffer(&mut self.inner.buffer, clen);
                let ghost zs = self.inner.buffer@.take(clen as int);
                let ghost p_b = *inner;
                proof {
                    assert(p_a.block_step(promoted::<S>(chunk_in), &p_b, zs));
                }
                let mut k: usize = 0;
                while k < clen
                    invariant
                        k <= clen,
                        start + clen <= n,
                        n == samples@.len(),
                        blen == self.inner.buffer@.len(),
                        clen <= blen,
                        zs == self.inner.buffer@.take(clen as int),
                        zs.len() == clen,
                        samples@.take(start as int) == samples_pre.take(start as int),
                        samples@.skip(start as int + clen as int) == samples_pre.skip(
                            start as int + clen as int,
                        ),
                        self.up_states() == ups_a,
                        self.down_states() == downs_a,
                        self.wf(),
                        bsz == self.block_size,
                        f == self.factor as int,
                        self.factor == old(self).factor,
                        self.max_factor == old(self).max_factor,
                        self.block_size == old(self).block_size,
                        forall|j: int|
                            0 <= j < k as int ==> #[trigger] samples@[start as int + j]
                                == zs[j].to_io_s(),
                    decreases clen - k,
                {
                    let v = self.inner.buffer[k];
                    let io = v.to_io();
                    samples[start + k] = io;
                    k = k + 1;
                }
                proof {
                    assert forall|j: int| 0 <= j < clen as int implies samples@[start as int + j]
                        == demoted(zs)[j] by {
                        assert(samples@[start as int + j] == zs[j].to_io_s());
                        assert(demoted(zs)[j] == zs[j].to_io_s());
                    }
                    assert(samples@.subrange(start as int, start as int + clen as int)
                        =~= demoted(zs));
                    assert(chunk_rel(
                        f,
                        ups_a,
                        downs_a,
                        p_a,
                        chunk_in,
                        self.up_states(),
                        self.down_states(),
                        p_b,
                        samples@.subrange(start as int, start as int + clen as int),
                    ));
                }
            } else {
                let fac = self.factor;
                let blen2 = self.inner.buffer.len();
                proof {
                    lemma_pow2_increases(fac as int, self.max_factor as int);
                    lemma_pow2_pos(fac as int);
                    assert(clen * pow2(fac as int) <= bsz * pow2(self.max_factor as int))
                        by (nonlinear_arith)
                        requires
                            0 <= clen <= bsz,
                            1 <= pow2(fac as int) <= pow2(self.max_factor as int),
                    ;
                    assert(clen * pow2(fac as int) <= blen2);
                }
                self.inner.upsample(&*samples, start, clen, fac);
                let up_len = clen * pow2_exec(fac);
                let ghost up = up_from(ups_a, 0, f, promoted::<S>(chunk_in));
                proof {
                    lemma_up_from_len(ups_a, 0, f, promoted::<S>(chunk_in));
                    assert(self.inner.buffer@.take(up_len as int) == up.1);
                    assert(self.up_states() == up.0);
                }
                inner.process_buffer(&mut self.inner.buffer, up_len);
                let ghost zs = self.inner.buffer@.take(up_len as int);
                let ghost p_b = *inner;
                proof {
                    assert(p_a.block_step(up.1, &p_b, zs));
                    assert(zs.len() == up.1.len());
                    assert(self.up_states() == up.0);
                }
                self.inner.downsample(samples, start, clen, fac);
                proof {
                    assert(self.up_states() == up.0);
                    assert(self.down_states() == down_from(downs_a, f - 1, zs).0);
                    assert(samples@.subrange(start as int, start as int + clen as int) == demoted(
                        down_from(downs_a, f - 1, zs).1,
                    ));
                    assert(chunk_rel(
                        f,
                        ups_a,
                        downs_a,
                        p_a,
                        chunk_in,
                        self.up_states(),
                        self.down_states(),
                        p_b,
                        samples@.subrange(start as int, start as int + clen as int),
                    ));
                }
            }
            proof {
                let gs = start as int;
                let c = clen as int;
                let ups_b = self.up_states();
                let downs_b = self.down_states();
                let p_b2 = *inner;
                let ys_c = samples@.subrange(gs, gs + c);
                assert(samples@.take(gs) =~= samples_pre.take(gs));
                assert(samples@.skip(gs + c) =~= samples_pre.skip(gs + c));
                assert(samples@.skip(gs + c) =~= x0.skip(gs + c)) by {
                    assert forall|q: int| 0 <= q < x0.len() - gs - c implies #[trigger] samples@.skip(
                        gs + c,
                    )[q] == x0.skip(gs + c)[q] by {
                        assert(samples_pre.skip(gs)[c + q] == x0.skip(gs)[c + q]);
                    }
                }
                assert(x0.skip(gs).take(c) =~= chunk_in);
                assert forall|u2: Seq<HbState<S>>, d2: Seq<HbState<S>>, q2: P, ys2: Seq<
                    <S as Sample>::Io,
                >|
                    #[trigger] blocks_rel(
                        f,
                        bs,
                        ups_b,
                        downs_b,
                        p_b2,
                        x0.skip(gs + c),
                        u2,
                        d2,
                        q2,
                        ys2,
                    ) implies blocks_rel(
                    f,
                    bs,
                    u0,
                    d0,
                    p0,
                    x0,
                    u2,
                    d2,
                    q2,
                    samples@.take(gs + c) + ys2,
                ) by {
                    lemma_blocks_rel_len(
                        f,
                        bs,
                        ups_b,
                        downs_b,
                        p_b2,
                        x0.skip(gs + c),
                        u2,
                        d2,
                        q2,
                        ys2,
                    );
                    let ys_all = ys_c + ys2;
                    assert(x0.skip(gs).skip(c) =~= x0.skip(gs + c));
                    assert(ys_all.take(c) =~= ys_c);
                    assert(ys_all.skip(c) =~= ys2);
                    let c_def = chunk_len(x0.skip(gs).len() as int, bs);
                    assert(c == c_def);
                    assert(x0.skip(gs).len() > 0);
                    assert(bs > 0);
                    assert(ys_all.len() == x0.skip(gs).len());
                    assert(chunk_rel(
                        f,
                        ups_a,
                        downs_a,
                        p_a,
                        x0.skip(gs).take(c_def),
                        ups_b,
                        downs_b,
                        p_b2,
                        ys_all.take(c_def),
                    ));
                    assert(blocks_rel(
                        f,
                        bs,
                        ups_b,
                        downs_b,
                        p_b2,
                        x0.skip(gs).skip(c_def),
                        u2,
                        d2,
                        q2,
                        ys_all.skip(c_def),
                    ));
                    assert(ys_c.len() == c_def);
                    lemma_blocks_rel_cons(
                        f,
                        bs,
                        ups_a,
                        downs_a,
                        p_a,
                        x0.skip(gs),
                        ups_b,
                        downs_b,
                        p_b2,
                        ys_c,
                        u2,
                        d2,
                        q2,
                        ys2,
                    );
                    assert(blocks_rel(
                        f,
                        bs,
                        ups_a,
                        downs_a,
                        p_a,
                        x0.skip(gs),
                        u2,
                        d2,
                        q2,
                        ys_all,
                    ));
                    assert(samples_pre.take(gs) + ys_all =~= samples@.take(gs + c) + ys2);
                }
            }
            start = start + clen;
        }
        proof {
            assert(x0.skip(n as int) =~= Seq::<<S as Sample>::Io>::empty());
            assert(blocks_rel(
                f,
                bs,
                self.up_states(),
                self.down_states(),
                *inner,
                x0.skip(n as int),
                self.up_states(),
                self.down_states(),
                *inner,
                Seq::<<S as Sample>::Io>::empty(),
            ));
            assert(samples@.take(n as int) + Seq::<<S as Sample>::Io>::empty() =~= samples@);
        }
    }
}

} // verus!
