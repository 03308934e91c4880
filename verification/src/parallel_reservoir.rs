//! The parallel coordinator: a family of sequential reservoirs filled
//! independently, reduced to one sample by pairwise statistical merges that
//! weight each side by its population.

use vstd::prelude::*;

verus! {

use vstd::multiset::Multiset;

use crate::simple_reservoir::ReservoirSampler;
use crate::simple_reservoir::SampleError;
use crate::simple_reservoir::SampleResult;
use crate::simple_reservoir::Sampler;
use crate::simple_reservoir::sample_step;

/// Total number of elements ever offered to a family of reservoirs.
pub open spec fn sum_populations<T: Copy>(s: Seq<ReservoirSampler<T>>) -> int
    decreases s.len(),
{
    if s.len() == 0 {
        0
    } else {
        sum_populations(s.drop_last()) + s.last().population()
    }
}

/// Everything resident in a family of reservoirs, as one multiset.
pub open spec fn combined_samples<T: Copy>(s: Seq<ReservoirSampler<T>>) -> Multiset<T>
    decreases s.len(),
{
    if s.len() == 0 {
        Multiset::empty()
    } else {
        combined_samples(s.drop_last()).add(s.last().samples().to_multiset())
    }
}

/// Total population claimed by a sequence of snapshots.
pub open spec fn results_population<T>(s: Seq<SampleResult<T>>) -> int
    decreases s.len(),
{
    if s.len() == 0 {
        0
    } else {
        results_population(s.drop_last()) + s.last().population
    }
}

/// Everything resident in a sequence of snapshots, as one multiset.
pub open spec fn results_samples<T>(s: Seq<SampleResult<T>>) -> Multiset<T>
    decreases s.len(),
{
    if s.len() == 0 {
        Multiset::empty()
    } else {
        results_samples(s.drop_last()).add(s.last().samples@.to_multiset())
    }
}

proof fn lemma_results_population_nonneg<T>(s: Seq<SampleResult<T>>)
    ensures
        results_population(s) >= 0,
    decreases s.len(),
{
    if s.len() > 0 {
        lemma_results_population_nonneg(s.drop_last());
    }
}

proof fn lemma_results_population_split<T>(s: Seq<SampleResult<T>>, m: int)
    requires
        0 <= m <= s.len(),
    ensures
        results_population(s) == results_population(s.subrange(0, m)) + results_population(
            s.subrange(m, s.len() as int),
        ),
    decreases s.len(),
{
    if m == s.len() {
        assert(s.subrange(0, m) =~= s);
        assert(s.subrange(m, s.len() as int) =~= Seq::<SampleResult<T>>::empty());
    } else {
        lemma_results_population_split(s.drop_last(), m);
        assert(s.drop_last().subrange(0, m) =~= s.subrange(0, m));
        assert(s.drop_last().subrange(m, s.len() - 1) =~= s.subrange(m, s.len() as int).drop_last());
        assert(s.subrange(m, s.len() as int).last() == s.last());
    }
}

proof fn lemma_results_population_front<T>(s: Seq<SampleResult<T>>)
    requires
        s.len() >= 1,
    ensures
        results_population(s) == s[0].population + results_population(s.drop_first()),
    decreases s.len(),
{
    if s.len() == 1 {
        assert(s.drop_last() =~= Seq::<SampleResult<T>>::empty());
        assert(s.drop_first() =~= Seq::<SampleResult<T>>::empty());
    } else {
        lemma_results_population_front(s.drop_last());
        assert(s.drop_last()[0] == s[0]);
        assert(s.drop_last().drop_first() =~= s.drop_first().drop_last());
        assert(s.drop_first().last() == s.last());
    }
}

proof fn lemma_results_samples_front<T>(s: Seq<SampleResult<T>>)
    requires
        s.len() >= 1,
    ensures
        results_samples(s) == s[0].samples@.to_multiset().add(results_samples(s.drop_first())),
    decreases s.len(),
{
    broadcast use vstd::multiset::group_multiset_axioms;

    if s.len() == 1 {
        assert(s.drop_last() =~= Seq::<SampleResult<T>>::empty());
        assert(s.drop_first() =~= Seq::<SampleResult<T>>::empty());
        assert(results_samples(s) =~= s[0].samples@.to_multiset().add(results_samples(s.drop_first())));
    } else {
        lemma_results_samples_front(s.drop_last());
        assert(s.drop_last()[0] == s[0]);
        assert(s.drop_last().drop_first() =~= s.drop_first().drop_last());
        assert(s.drop_first().last() == s.last());
        assert(results_samples(s) =~= s[0].samples@.to_multiset().add(results_samples(s.drop_first())));
    }
}

/// Removes and returns the element at position `i`, in constant time; only
/// the multiset of resident elements is preserved, not their order.
fn take_at<T: Copy>(v: &mut Vec<T>, i: usize) -> (e: T)
    requires
        i < old(v)@.len(),
    ensures
        e == old(v)@[i as int],
        final(v)@.len() == old(v)@.len() - 1,
        old(v)@.to_multiset().count(e) >= 1,
        final(v)@.to_multiset() == old(v)@.to_multiset().remove(e),
{
    let e = v.swap_remove(i);
    proof {
        lemma_take_at_multiset(old(v)@, i as int);
    }
    e
}

proof fn lemma_take_at_multiset<T>(s: Seq<T>, i: int)
    requires
        0 <= i < s.len(),
    ensures
        s.update(i, s.last()).drop_last().to_multiset() == s.to_multiset().remove(s[i]),
        s.to_multiset().count(s[i]) >= 1,
{
    broadcast use vstd::multiset::group_multiset_axioms;
    broadcast use vstd::seq_lib::group_to_multiset_ensures;

    let last = s.len() - 1;
    let u = s.update(i, s.last());
    assert(s.contains(s[i]));
    assert(s.to_multiset().count(s[i]) >= 1);
    if i == last {
        assert(u =~= s);
        assert(u.drop_last() =~= s.remove(last));
    } else {
        assert(u.to_multiset() == s.to_multiset().insert(s.last()).remove(s[i]));
        assert(u.drop_last() =~= u.remove(last));
        assert(u[last] == s.last());
        assert(u.remove(last).to_multiset() == u.to_multiset().remove(s.last()));
        assert(s.contains(s.last()));
        assert(u.drop_last().to_multiset() =~= s.to_multiset().remove(s[i]));
    }
}

/// Law: a merge does not duplicate. An element is selected into the merged
/// sample at most as often as it resides in the two inputs together; one that
/// resides once in one input and not in the other fills at most one output
/// slot.
pub proof fn lemma_merge_no_duplication<T>(
    a: Multiset<T>,
    b: Multiset<T>,
    merged: Multiset<T>,
    x: T,
)
    requires
        merged.subset_of(a.add(b)),
    ensures
        merged.count(x) <= a.count(x) + b.count(x),
        a.count(x) + b.count(x) == 1 ==> merged.count(x) <= 1,
{
    broadcast use vstd::multiset::group_multiset_axioms;
}

proof fn lemma_population_bridge<T: Copy>(
    handles: Seq<ReservoirSampler<T>>,
    results: Seq<SampleResult<T>>,
)
    requires
        results.len() == handles.len(),
        forall|i: int|
            0 <= i < handles.len() ==> (#[trigger] results[i]).population
                == handles[i].population(),
    ensures
        results_population(results) == sum_populations(handles),
    decreases handles.len(),
{
    if handles.len() > 0 {
        assert forall|i: int| 0 <= i < handles.len() - 1 implies (#[trigger] results.drop_last()[i]).population
            == handles.drop_last()[i].population() by {
            assert(results.drop_last()[i] == results[i]);
            assert(handles.drop_last()[i] == handles[i]);
        }
        lemma_population_bridge(handles.drop_last(), results.drop_last());
        assert(results.last() == results[handles.len() - 1]);
        assert(handles.last() == handles[handles.len() - 1]);
    }
}

proof fn lemma_samples_bridge<T: Copy>(
    handles: Seq<ReservoirSampler<T>>,
    results: Seq<SampleResult<T>>,
)
    requires
        results.len() == handles.len(),
        forall|i: int|
            0 <= i < handles.len() ==> (#[trigger] results[i]).samples@ == handles[i].samples(),
    ensures
        results_samples(results) == combined_samples(handles),
    decreases handles.len(),
{
    if handles.len() > 0 {
        assert forall|i: int| 0 <= i < handles.len() - 1 implies (#[trigger] results.drop_last()[i]).samples@
            == handles.drop_last()[i].samples() by {
            assert(results.drop_last()[i] == results[i]);
            assert(handles.drop_last()[i] == handles[i]);
        }
        lemma_samples_bridge(handles.drop_last(), results.drop_last());
        assert(results.last() == results[handles.len() - 1]);
        assert(handles.last() == handles[handles.len() - 1]);
    }
}

/// The parallel reservoir coordinator: it owns one sequential reservoir per
/// registered producer, all of the same target capacity, and reduces their
/// snapshots to one merged sample on request.
pub struct ParallelReservoirSampler<T> where T: Copy {
    sample_size: usize,
    samplers: Vec<ReservoirSampler<T>>,
}

impl<T: Copy> ParallelReservoirSampler<T> {
    /// Target sample size shared by every managed reservoir.
    pub closed spec fn capacity(&self) -> int {
        self.sample_size as int
    }

    /// The managed reservoirs, in registration order.
    pub closed spec fn handles(&self) -> Seq<ReservoirSampler<T>> {
        self.samplers@
    }

    /// Well-formedness: a positive shared capacity, and every managed
    /// reservoir well-formed at that same capacity.
    pub open spec fn inv(&self) -> bool {
        &&& self.capacity() > 0
        &&& forall|i: int|
            0 <= i < self.handles().len() ==> (#[trigger] self.handles()[i]).inv()
                && self.handles()[i].capacity() == self.capacity()
    }

    /// Sum of the populations of all managed reservoirs.
    pub open spec fn total_population(&self) -> int {
        sum_populations(self.handles())
    }

    /// Every managed reservoir has reached its capacity.
    pub open spec fn all_ready(&self) -> bool {
        forall|i: int|
            0 <= i < self.handles().len() ==> (#[trigger] self.handles()[i]).population()
                >= self.handles()[i].capacity()
    }

    /// Creates a coordinator whose reservoirs will each keep `sample_size`
    /// elements; a capacity of zero is not meaningful.
    pub fn new(sample_size: usize) -> (r: ParallelReservoirSampler<T>)
        requires
            sample_size > 0,
        ensures
            r.inv(),
            r.capacity() == sample_size,
            r.handles().len() == 0,
    {
        ParallelReservoirSampler { sample_size, samplers: Vec::new() }
    }

    /// Registers one more reservoir and hands back its handle, through which
    /// exactly one producer is expected to offer elements.
    pub fn get_sampler_handle(&mut self) -> (handle: usize)
        requires
            old(self).inv(),
        ensures
            final(self).inv(),
            final(self).capacity() == old(self).capacity(),
            handle == old(self).handles().len(),
            final(self).handles().len() == old(self).handles().len() + 1,
            forall|i: int|
                0 <= i < old(self).handles().len() ==> final(self).handles()[i] == old(
                    self,
                ).handles()[i],
            final(self).handles()[handle as int].population() == 0,
            final(self).handles()[handle as int].samples() == Seq::<T>::empty(),
            final(self).handles()[handle as int].capacity() == old(self).capacity(),
    {
        let sampler = ReservoirSampler::<T>::new(self.sample_size);
        self.samplers.push(sampler);
        self.samplers.len() - 1
    }

    /// Offers one element to the reservoir behind `handle`; reports whether
    /// it now resides in that reservoir's sample.
    pub fn try_sample_at(&mut self, handle: usize, element: &T) -> (accepted: bool)
        requires
            old(self).inv(),
            handle < old(self).handles().len(),
            old(self).handles()[handle as int].population() < usize::MAX,
        ensures
            final(self).inv(),
            final(self).capacity() == old(self).capacity(),
            final(self).handles().len() == old(self).handles().len(),
            forall|i: int|
                0 <= i < old(self).handles().len() && i != handle ==> final(self).handles()[i]
                    == old(self).handles()[i],
            final(self).handles()[handle as int].population() == old(self).handles()[
                handle as int
            ].population() + 1,
            sample_step(
                old(self).capacity(),
                old(self).handles()[handle as int].population(),
                old(self).handles()[handle as int].samples(),
                final(self).handles()[handle as int].samples(),
                *element,
                accepted,
            ),
    {
        let sampler = handle_at_mut(&mut self.samplers, handle);
        sampler.try_sample(element)
    }

    /// Merges two snapshots of equally sized samples into one of the same
    /// size: each output slot draws its source with probability proportional
    /// to that source's population, then takes a uniformly chosen element out
    /// of it, without replacement. No source element can be selected twice,
    /// so the merged sample is contained in the union of the inputs.
    pub fn merge(a: SampleResult<T>, b: SampleResult<T>) -> (merged: SampleResult<T>)
        requires
            a.samples@.len() == b.samples@.len(),
            a.population >= a.samples@.len(),
            b.population >= b.samples@.len(),
            a.population + b.population <= usize::MAX,
        ensures
            merged.population == a.population + b.population,
            merged.samples@.len() == a.samples@.len(),
            merged.samples@.to_multiset().subset_of(
                a.samples@.to_multiset().add(b.samples@.to_multiset()),
            ),
    {
        let mut a = a;
        let mut b = b;
        let ghost a0 = a.samples@;
        let ghost b0 = b.samples@;
        let sample_size = a.samples.len();
        let population = a.population + b.population;
        let mut rng = crate::rng::fresh_rng();

        let mut merged_samples: Vec<T> = Vec::new();
        proof {
            broadcast use vstd::multiset::group_multiset_axioms;
            broadcast use vstd::seq_lib::group_to_multiset_ensures;

            assert(merged_samples@.to_multiset().add(a0.to_multiset()).add(b0.to_multiset())
                =~= a0.to_multiset().add(b0.to_multiset())) by {
                assert(forall|x: T|
                    #![trigger merged_samples@.to_multiset().count(x)]
                    !merged_samples@.contains(x));
            }
        }

        for k in 0..sample_size
            invariant
                merged_samples@.len() == k,
                a.samples@.len() >= sample_size - k,
                b.samples@.len() >= sample_size - k,
                a.samples@.len() + b.samples@.len() == 2 * sample_size - k,
                a.population >= sample_size,
                b.population >= sample_size,
                a.population + b.population <= usize::MAX,
                merged_samples@.to_multiset().add(a.samples@.to_multiset()).add(
                    b.samples@.to_multiset(),
                ) == a0.to_multiset().add(b0.to_multiset()),
        {
            proof {
                broadcast use vstd::multiset::group_multiset_axioms;
                broadcast use vstd::seq_lib::group_to_multiset_ensures;
            }
            let total = a.population + b.population;
            let coin = crate::rng::draw_below(&mut rng, total);
            let e = if coin < a.population {
                let idx = crate::rng::draw_below(&mut rng, a.samples.len());
                take_at(&mut a.samples, idx)
            } else {
                let idx = crate::rng::draw_below(&mut rng, b.samples.len());
                take_at(&mut b.samples, idx)
            };
            merged_samples.push(e);
            proof {
                broadcast use vstd::multiset::group_multiset_axioms;
                broadcast use vstd::seq_lib::group_to_multiset_ensures;

                assert(merged_samples@.to_multiset().add(a.samples@.to_multiset()).add(
                    b.samples@.to_multiset(),
                ) =~= a0.to_multiset().add(b0.to_multiset()));
            }
        }
        proof {
            broadcast use vstd::multiset::group_multiset_axioms;
        }
        SampleResult::new(merged_samples, population)
    }

    /// Reduces a non-empty collection of snapshots of equally sized full
    /// samples to one snapshot by pairwise merges, each snapshot consumed
    /// exactly once: the merged population is the sum of all populations, the
    /// merged sample keeps the shared size, and every merged element stems
    /// from one of the snapshots.
    pub fn merge_all(results: Vec<SampleResult<T>>) -> (merged: SampleResult<T>)
        requires
            results@.len() >= 1,
            forall|i: int|
                0 <= i < results@.len() ==> (#[trigger] results@[i]).samples@.len()
                    == results@[0].samples@.len(),
            forall|i: int|
                0 <= i < results@.len() ==> (#[trigger] results@[i]).population
                    >= results@[i].samples@.len(),
            results_population(results@) <= usize::MAX,
        ensures
            merged.population == results_population(results@),
            merged.samples@.len() == results@[0].samples@.len(),
            merged.samples@.to_multiset().subset_of(results_samples(results@)),
    {
        let ghost all = results@;
        let mut rest = results;
        let mut acc = match rest.pop() {
            Some(last) => last,
            None => unreached(),
        };
        proof {
            broadcast use vstd::multiset::group_multiset_axioms;

            assert(rest@.len() == all.len() - 1);
            assert(rest@ =~= all.subrange(0, rest@.len() as int));
            let suffix = all.subrange(rest@.len() as int, all.len() as int);
            assert(suffix.len() == 1);
            assert(suffix.drop_last() =~= Seq::<SampleResult<T>>::empty());
            assert(suffix.last() == acc);
            assert(results_population(Seq::<SampleResult<T>>::empty()) == 0);
            assert(results_samples(Seq::<SampleResult<T>>::empty()) == Multiset::<T>::empty());
            assert(results_population(suffix) == acc.population);
            assert(results_samples(suffix) == Multiset::<T>::empty().add(
                acc.samples@.to_multiset(),
            ));
            assert(acc.samples@.to_multiset().subset_of(results_samples(suffix)));
        }

        while rest.len() > 0
            invariant
                all.len() >= 1,
                rest@.len() < all.len(),
                rest@ == all.subrange(0, rest@.len() as int),
                forall|i: int|
                    0 <= i < all.len() ==> (#[trigger] all[i]).samples@.len()
                        == all[0].samples@.len(),
                forall|i: int|
                    0 <= i < all.len() ==> (#[trigger] all[i]).population
                        >= all[i].samples@.len(),
                results_population(all) <= usize::MAX,
                acc.population == results_population(
                    all.subrange(rest@.len() as int, all.len() as int),
                ),
                acc.samples@.len() == all[0].samples@.len(),
                acc.population >= acc.samples@.len(),
                acc.samples@.to_multiset().subset_of(
                    results_samples(all.subrange(rest@.len() as int, all.len() as int)),
                ),
            decreases rest@.len(),
        {
            let ghost n = rest@.len() as int;
            let b = match rest.pop() {
                Some(last) => last,
                None => unreached(),
            };
            proof {
                broadcast use vstd::multiset::group_multiset_axioms;

                let prev_suffix = all.subrange(n, all.len() as int);
                let suffix = all.subrange(n - 1, all.len() as int);
                assert(rest@ =~= all.subrange(0, n - 1));
                assert(b == all[n - 1]);
                assert(suffix[0] == b);
                assert(suffix.drop_first() =~= prev_suffix);
                lemma_results_population_front(suffix);
                lemma_results_samples_front(suffix);
                lemma_results_population_split(all, n - 1);
                lemma_results_population_nonneg(all.subrange(0, n - 1));
                assert(acc.population + b.population == results_population(suffix));
            }
            let ghost prev_acc = acc;
            acc = Self::merge(acc, b);
            proof {
                broadcast use vstd::multiset::group_multiset_axioms;

                let prev_suffix = all.subrange(n, all.len() as int);
                let suffix = all.subrange(n - 1, all.len() as int);
                assert(results_samples(suffix) == b.samples@.to_multiset().add(
                    results_samples(prev_suffix),
                ));
                assert(acc.samples@.to_multiset().subset_of(
                    prev_acc.samples@.to_multiset().add(b.samples@.to_multiset()),
                ));
                assert(acc.samples@.to_multiset().subset_of(results_samples(suffix)));
            }
        }
        proof {
            assert(all.subrange(0, all.len() as int) =~= all);
        }
        acc
    }

    /// True exactly when every registered reservoir is ready; vacuously true
    /// while no handle has been registered.
    pub fn have_sample_result(&self) -> (ready: bool)
        requires
            self.inv(),
        ensures
            ready <==> self.all_ready(),
    {
        let n = self.samplers.len();
        for i in 0..n
            invariant
                self.inv(),
                n == self.handles().len(),
                forall|j: int|
                    0 <= j < i ==> (#[trigger] self.handles()[j]).population()
                        >= self.handles()[j].capacity(),
        {
            if !self.samplers[i].have_sample_result() {
                return false;
            }
        }
        true
    }

    /// Checks readiness, snapshots every reservoir, and reduces the
    /// snapshots to one merged result; while any handle is underfilled it
    /// fails with the readiness error instead, a recoverable outcome.
    pub fn get_sample_result(&self) -> (r: Result<SampleResult<T>, SampleError>)
        requires
            self.inv(),
            self.handles().len() >= 1,
            self.total_population() <= usize::MAX,
        ensures
            r matches Ok(res) ==> self.all_ready() && res.population == self.total_population()
                && res.samples@.len() == self.capacity() && res.samples@.to_multiset().subset_of(
                combined_samples(self.handles()),
            ),
            r matches Err(e) ==> !self.all_ready() && e == SampleError::NotEnoughElements,
    {
        if !self.have_sample_result() {
            return Err(SampleError::NotEnoughElements);
        }

        let n = self.samplers.len();
        let mut results: Vec<SampleResult<T>> = Vec::new();
        for i in 0..n
            invariant
                self.inv(),
                self.all_ready(),
                n == self.handles().len(),
                results@.len() == i,
                forall|j: int|
                    0 <= j < i ==> (#[trigger] results@[j]).population
                        == self.handles()[j].population() && results@[j].samples@
                        == self.handles()[j].samples(),
        {
            let snapshot = match self.samplers[i].get_sample_result() {
                Ok(res) => res,
                Err(_) => unreached(),
            };
            results.push(snapshot);
        }

        proof {
            assert forall|i: int|
                0 <= i < results@.len() implies (#[trigger] results@[i]).samples@.len()
                == results@[0].samples@.len() by {
                self.handles()[i].inv_implies_shape();
                self.handles()[0].inv_implies_shape();
            }
            assert forall|i: int|
                0 <= i < results@.len() implies (#[trigger] results@[i]).population
                >= results@[i].samples@.len() by {
                self.handles()[i].inv_implies_shape();
            }
            lemma_population_bridge(self.handles(), results@);
            lemma_samples_bridge(self.handles(), results@);
            assert(results@[0].samples@.len() == self.capacity()) by {
                self.handles()[0].inv_implies_shape();
            }
        }

        Ok(Self::merge_all(results))
    }
}

/// Mutable access to one reservoir of a family.
fn handle_at_mut<T: Copy>(v: &mut Vec<ReservoirSampler<T>>, i: usize) -> (sampler: &mut ReservoirSampler<T>)
    requires
        i < old(v)@.len(),
    ensures
        *sampler == old(v)@[i as int],
        final(v)@ == old(v)@.update(i as int, *final(sampler)),
{
    &mut v[i]
}

} // verus!
