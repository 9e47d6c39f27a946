use vstd::prelude::*;

use crate::Component;
use crate::ComponentMeta;

verus! {

/// Cascade a [Component] several times: the stages are run in order, each one
/// fed the previous stage's output.
#[derive(Debug, Clone)]
pub struct Cascade<C>(pub Vec<C>);

/// Total latency of a sequence of stages: the sum of the stages' latencies.
pub open spec fn stages_latency<C: ComponentMeta>(s: Seq<C>) -> int
    decreases s.len(),
{
    if s.len() == 0 {
        0
    } else {
        s[0].latency_of() + stages_latency(s.drop_first())
    }
}

/// One pass of a sample through a sequence of stages: `post` are the stage
/// states after the pass and `out` the sample that emerges, when `x` is fed to
/// the first stage of `pre` and every stage's output is fed to the next.
pub open spec fn stages_step<T, C: Component<T>>(pre: Seq<C>, x: T, post: Seq<C>, out: T) -> bool
    decreases pre.len(),
{
    if pre.len() == 0 {
        post == pre && out == x
    } else {
        post.len() == pre.len() && exists|y: T|
            stages_step(pre.drop_last(), x, post.drop_last(), y) && #[trigger] pre.last().step(
                y,
                &post.last(),
                out,
            )
    }
}

proof fn lemma_stages_latency_nonneg<C: ComponentMeta>(s: Seq<C>)
    requires
        forall|i: int| 0 <= i < s.len() ==> 0 <= #[trigger] s[i].latency_of(),
    ensures
        0 <= stages_latency(s),
    decreases s.len(),
{
    if s.len() > 0 {
        lemma_stages_latency_nonneg(s.drop_first());
    }
}

proof fn lemma_stages_latency_skip<C: ComponentMeta>(s: Seq<C>, i: int)
    requires
        0 <= i < s.len(),
    ensures
        stages_latency(s.skip(i)) == s[i].latency_of() + stages_latency(s.skip(i + 1)),
{
    assert(s.skip(i).len() > 0);
    assert(s.skip(i).drop_first() =~= s.skip(i + 1));
    assert(s.skip(i)[0] == s[i]);
}

proof fn lemma_stages_latency_pointwise<C: ComponentMeta>(s1: Seq<C>, s2: Seq<C>)
    requires
        s1.len() == s2.len(),
        forall|i: int|
            0 <= i < s1.len() ==> #[trigger] s1[i].latency_of() == s2[i].latency_of(),
    ensures
        stages_latency(s1) == stages_latency(s2),
    decreases s1.len(),
{
    if s1.len() > 0 {
        assert(s1.drop_first().len() == s2.drop_first().len());
        assert forall|i: int| 0 <= i < s1.drop_first().len() implies #[trigger] s1.drop_first()[i].latency_of()
            == s2.drop_first()[i].latency_of() by {
            assert(s1.drop_first()[i] == s1[i + 1]);
            assert(s2.drop_first()[i] == s2[i + 1]);
        }
        lemma_stages_latency_pointwise(s1.drop_first(), s2.drop_first());
    }
}

/// A cascade of latency-free stages is itself latency-free.
pub proof fn lemma_stages_latency_zero<C: ComponentMeta>(s: Seq<C>)
    requires
        forall|i: int| 0 <= i < s.len() ==> (#[trigger] s[i]).latency_of() == 0,
    ensures
        stages_latency(s) == 0,
    decreases s.len(),
{
    if s.len() > 0 {
        assert forall|i: int| 0 <= i < s.drop_first().len() implies (
        #[trigger] s.drop_first()[i]).latency_of() == 0 by {
            assert(s.drop_first()[i] == s[i + 1]);
        }
        lemma_stages_latency_zero(s.drop_first());
    }
}

/// Law: a cascade of `k` identical stages reports `k` times the stage's
/// latency.
pub proof fn lemma_cascade_latency_repeated<C: ComponentMeta>(s: Seq<C>, c: C)
    requires
        forall|i: int| 0 <= i < s.len() ==> #[trigger] s[i] == c,
    ensures
        stages_latency(s) == s.len() * c.latency_of(),
    decreases s.len(),
{
    if s.len() == 0 {
        assert(0int * c.latency_of() == 0);
    } else {
        assert forall|i: int| 0 <= i < s.drop_first().len() implies #[trigger] s.drop_first()[i]
            == c by {
            assert(s.drop_first()[i] == s[i + 1]);
        }
        lemma_cascade_latency_repeated(s.drop_first(), c);
        assert(s[0] == c);
        assert((s.len() - 1) * c.latency_of() + c.latency_of() == s.len() * c.latency_of())
            by (nonlinear_arith);
    }
}

impl<C: ComponentMeta> ComponentMeta for Cascade<C> {
    /// Every stage is well formed, reports a nonnegative latency, and the
    /// total latency fits the machine word.
    open spec fn wf(&self) -> bool {
        &&& forall|i: int| 0 <= i < self.0@.len() ==> (#[trigger] self.0@[i]).wf()
        &&& forall|i: int| 0 <= i < self.0@.len() ==> 0 <= (#[trigger] self.0@[i]).latency_of()
        &&& stages_latency(self.0@) <= usize::MAX
    }

    open spec fn latency_of(&self) -> int {
        stages_latency(self.0@)
    }

    /// Resetting the cascade resets each stage in place, independently of the
    /// others.
    open spec fn resets_to(&self, r: &Self) -> bool {
        &&& r.0@.len() == self.0@.len()
        &&& forall|i: int|
            0 <= i < self.0@.len() ==> (#[trigger] self.0@[i]).resets_to(&r.0@[i])
    }

    fn reset(&mut self) {
        let ghost s0 = self.0@;
        let n = self.0.len();
        let mut i: usize = 0;
        while i < n
            invariant
                n == self.0@.len(),
                s0.len() == n,
                i <= n,
                forall|j: int| i <= j < n ==> self.0@[j] == s0[j],
                forall|j: int| 0 <= j < i ==> s0[j].resets_to(&(#[trigger] self.0@[j])),
                forall|j: int| 0 <= j < i ==> (#[trigger] self.0@[j]).wf(),
                forall|j: int|
                    0 <= j < i ==> (#[trigger] self.0@[j]).latency_of() == s0[j].latency_of(),
                forall|j: int| 0 <= j < n ==> (#[trigger] s0[j]).wf(),
                forall|j: int| 0 <= j < n ==> 0 <= (#[trigger] s0[j]).latency_of(),
                stages_latency(s0) <= usize::MAX,
            decreases n - i,
        {
            proof {
                assert(self.0@[i as int] == s0[i as int]);
                assert(s0[i as int].wf());
            }
            self.0[i].reset();
            i = i + 1;
        }
        proof {
            lemma_stages_latency_pointwise(self.0@, s0);
        }
    }

    fn latency(&self) -> (r: usize) {
        let ghost s = self.0@;
        let n = self.0.len();
        let mut acc: usize = 0;
        let mut i: usize = 0;
        proof {
            assert(s.skip(0) =~= s);
        }
        while i < n
            invariant
                n == self.0@.len(),
                s == self.0@,
                self.wf(),
                i <= n,
                acc + stages_latency(s.skip(i as int)) == stages_latency(s),
            decreases n - i,
        {
            proof {
                lemma_stages_latency_skip(s, i as int);
                lemma_stages_latency_nonneg(s.skip(i as int + 1));
            }
            let l = self.0[i].latency();
            acc = acc + l;
            i = i + 1;
        }
        proof {
            assert(s.skip(n as int) =~= Seq::<C>::empty());
        }
        acc
    }
}

impl<T, C: Component<T>> Component<T> for Cascade<C> {
    /// The cascade's transition is the stage-by-stage pass of
    /// [`stages_step`].
    open spec fn step(&self, x: T, next: &Self, out: T) -> bool {
        stages_step(self.0@, x, next.0@, out)
    }

    fn process(&mut self, sample: T) -> (out: T) {
        let ghost s0 = self.0@;
        let n = self.0.len();
        let mut cur = sample;
        let mut i: usize = 0;
        proof {
            assert(s0.take(0) =~= Seq::<C>::empty());
            assert(self.0@.take(0) =~= Seq::<C>::empty());
        }
        while i < n
            invariant
                n == self.0@.len(),
                s0.len() == n,
                i <= n,
                forall|j: int| i <= j < n ==> self.0@[j] == s0[j],
                forall|j: int| 0 <= j < i ==> (#[trigger] self.0@[j]).wf(),
                forall|j: int|
                    0 <= j < i ==> (#[trigger] self.0@[j]).latency_of() == s0[j].latency_of(),
                forall|j: int| 0 <= j < n ==> (#[trigger] s0[j]).wf(),
                forall|j: int| 0 <= j < n ==> 0 <= (#[trigger] s0[j]).latency_of(),
                stages_latency(s0) <= usize::MAX,
                stages_step(s0.take(i as int), sample, self.0@.take(i as int), cur),
            decreases n - i,
        {
            let ghost pre_elems = self.0@;
            let ghost cur0 = cur;
            proof {
                assert(self.0@[i as int] == s0[i as int]);
                assert(s0[i as int].wf());
            }
            cur = self.0[i].process(cur);
            proof {
                let gi = i as int;
                assert(s0.take(gi + 1).drop_last() =~= s0.take(gi));
                assert(self.0@.take(gi + 1).drop_last() =~= pre_elems.take(gi));
                assert(pre_elems.take(gi) =~= self.0@.take(gi));
                assert(s0.take(gi + 1).last() == s0[gi]);
                assert(self.0@.take(gi + 1).last() == self.0@[gi]);
                assert(s0[gi].step(cur0, &self.0@[gi], cur));
                assert(stages_step(s0.take(gi + 1), sample, self.0@.take(gi + 1), cur));
            }
            i = i + 1;
        }
        proof {
            assert(s0.take(n as int) =~= s0);
            assert(self.0@.take(n as int) =~= self.0@);
            lemma_stages_latency_pointwise(self.0@, s0);
        }
        cur
    }
}

impl<C: Copy> Cascade<C> {
    /// Apply `f` to every item in this [`Cascade`].
    pub fn apply<F: Fn(C) -> C>(&mut self, f: &F)
        requires
            forall|i: int|
                0 <= i < old(self).0@.len() ==> #[trigger] call_requires(*f, (old(self).0@[i],)),
        ensures
            final(self).0@.len() == old(self).0@.len(),
            forall|i: int|
                0 <= i < old(self).0@.len() ==> call_ensures(
                    *f,
                    (old(self).0@[i],),
                    #[trigger] final(self).0@[i],
                ),
    {
        let n = self.0.len();
        let mut i: usize = 0;
        while i < n
            invariant
                n == self.0@.len(),
                old(self).0@.len() == n,
                i <= n,
                forall|j: int| i <= j < n ==> self.0@[j] == old(self).0@[j],
                forall|j: int|
                    0 <= j < i ==> call_ensures(*f, (old(self).0@[j],), #[trigger] self.0@[j]),
                forall|j: int|
                    0 <= j < old(self).0@.len() ==> #[trigger] call_requires(
                        *f,
                        (old(self).0@[j],),
                    ),
            decreases n - i,
        {
            let c = self.0[i];
            let c2 = f(c);
            self.0[i] = c2;
            i = i + 1;
        }
    }
}

impl<C> Cascade<C> {
    /// Create a [`Cascade`] of `n` stages, the `i`-th built by `f(i)`.
    pub fn from_fn<F: Fn(usize) -> C>(n: usize, f: &F) -> (r: Self)
        requires
            forall|i: usize| i < n ==> call_requires(*f, (i,)),
        ensures
            r.0@.len() == n,
            forall|i: int| 0 <= i < n ==> call_ensures(*f, (i as usize,), #[trigger] r.0@[i]),
    {
        let mut v: Vec<C> = Vec::new();
        let mut i: usize = 0;
        while i < n
            invariant
                i <= n,
                v@.len() == i,
                forall|j: int| 0 <= j < i ==> call_ensures(*f, (j as usize,), #[trigger] v@[j]),
                forall|j: usize| j < n ==> call_requires(*f, (j,)),
            decreases n - i,
        {
            let c = f(i);
            v.push(c);
            i = i + 1;
        }
        Cascade(v)
    }
}

} // verus!
