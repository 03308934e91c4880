//! The sequential reservoir: one bounded buffer and a running population
//! counter, updated per offered element as Algorithm R prescribes.

use vstd::prelude::*;

verus! {

use vstd::pervasive::VecAdditionalExecFns;

/// The one recoverable failure: a snapshot was requested while the sample was
/// not yet representative (population still below capacity).
#[derive(Clone, Copy, Debug, PartialEq, Eq, Structural)]
pub enum SampleError {
    NotEnoughElements,
}

/// An immutable snapshot of a reservoir: the resident sample together with
/// how many elements the reservoir had been offered when it was taken.
#[derive(Clone, Debug)]
pub struct SampleResult<T> {
    pub samples: Vec<T>,
    pub population: usize,
}

impl<T> SampleResult<T> {
    pub fn new(samples: Vec<T>, population: usize) -> (r: SampleResult<T>)
        ensures
            r.samples@ == samples@,
            r.population == population,
    {
        SampleResult { samples, population }
    }
}

/// What one `try_sample` call does to the resident sample: below capacity the
/// element is appended and accepted, at or above capacity it either replaces
/// one resident slot or leaves the sample unchanged.
pub open spec fn sample_step<T>(
    cap: int,
    pre_pop: int,
    pre: Seq<T>,
    post: Seq<T>,
    element: T,
    accepted: bool,
) -> bool {
    &&& pre_pop < cap ==> accepted && post == pre.push(element)
    &&& pre_pop >= cap && accepted ==> exists|i: int|
        0 <= i < cap && post == pre.update(i, element)
    &&& pre_pop >= cap && !accepted ==> post == pre
}

/// What a `get_sample_result` call returns: a snapshot of the resident sample
/// exactly when the sampler is ready, and the readiness error otherwise.
pub open spec fn snapshot_outcome<T>(
    cap: int,
    pop: int,
    samples: Seq<T>,
    r: Result<SampleResult<T>, SampleError>,
) -> bool {
    match r {
        Ok(res) => pop >= cap && res.samples@ == samples && res.population == pop,
        Err(e) => pop < cap && e == SampleError::NotEnoughElements,
    }
}

/// The capability every sampler offers: elements are offered one at a time,
/// readiness can be probed, and a ready sampler yields a snapshot.
pub trait Sampler<T>: Sized {
    /// Target sample size, fixed at construction.
    spec fn capacity(&self) -> int;

    /// How many elements have ever been offered, accepted or not.
    spec fn population(&self) -> int;

    /// The resident sample.
    spec fn samples(&self) -> Seq<T>;

    /// Well-formedness, established at construction and preserved by every
    /// operation.
    spec fn inv(&self) -> bool;

    /// Law: a well-formed sampler has a positive capacity, a non-negative
    /// population, and a resident sample of exactly
    /// `min(population, capacity)` elements.
    proof fn inv_implies_shape(&self)
        requires
            self.inv(),
        ensures
            self.capacity() > 0,
            self.population() >= 0,
            self.samples().len() == vstd::math::min(self.population(), self.capacity()),
    ;

    /// Offers one element; reports whether it now resides in the sample.
    fn try_sample(&mut self, element: &T) -> (accepted: bool)
        requires
            old(self).inv(),
            old(self).population() < usize::MAX,
        ensures
            final(self).inv(),
            final(self).capacity() == old(self).capacity(),
            final(self).population() == old(self).population() + 1,
            sample_step(
                old(self).capacity(),
                old(self).population(),
                old(self).samples(),
                final(self).samples(),
                *element,
                accepted,
            ),
    ;

    /// True exactly when the sample is representative: the population has
    /// reached the capacity.
    fn have_sample_result(&self) -> (ready: bool)
        requires
            self.inv(),
        ensures
            ready <==> self.population() >= self.capacity(),
    ;

    /// Takes a snapshot of the current sample, or reports that the sampler
    /// has not seen enough elements yet.
    fn get_sample_result(&self) -> (r: Result<SampleResult<T>, SampleError>)
        requires
            self.inv(),
        ensures
            snapshot_outcome(self.capacity(), self.population(), self.samples(), r),
    ;

    /// Offers every element of a slice in order.
    fn try_sample_from(&mut self, elements: &[T])
        requires
            old(self).inv(),
            old(self).population() + elements@.len() <= usize::MAX,
        ensures
            final(self).inv(),
            final(self).capacity() == old(self).capacity(),
            final(self).population() == old(self).population() + elements@.len(),
    {
        let ghost orig = *self;
        for i in 0..elements.len()
            invariant
                self.inv(),
                self.capacity() == orig.capacity(),
                self.population() == orig.population() + i,
                orig.population() + elements@.len() <= usize::MAX,
                orig == *old(self),
        {
            self.try_sample(&elements[i]);
        }
    }
}

/// Law: no loss under capacity. While the population has not reached the
/// capacity, an offered element is always accepted, the sample merely grows
/// by it, and it resides in the sample afterwards.
pub proof fn lemma_no_loss_under_capacity<T>(
    cap: int,
    pre_pop: int,
    pre: Seq<T>,
    post: Seq<T>,
    element: T,
    accepted: bool,
)
    requires
        pre_pop < cap,
        sample_step(cap, pre_pop, pre, post, element, accepted),
    ensures
        accepted,
        post == pre.push(element),
        post.contains(element),
{
    assert(post[post.len() - 1] == element);
}

/// Law: the readiness gate. A sampler whose readiness probe answers `ready`
/// yields a snapshot exactly when `ready` is true, and the readiness error
/// exactly when it is false.
pub proof fn lemma_readiness_gate<T>(
    cap: int,
    pop: int,
    samples: Seq<T>,
    ready: bool,
    r: Result<SampleResult<T>, SampleError>,
)
    requires
        ready <==> pop >= cap,
        snapshot_outcome(cap, pop, samples, r),
    ensures
        ready <==> r matches Ok(_),
        !ready <==> r == Err::<SampleResult<T>, SampleError>(SampleError::NotEnoughElements),
{
}

/// Law: snapshots are idempotent. Two outcomes drawn from the same unmutated
/// sampler state are identical: same population, same resident sample, or
/// twice the same readiness error.
pub proof fn lemma_snapshot_idempotent<T>(
    cap: int,
    pop: int,
    samples: Seq<T>,
    r1: Result<SampleResult<T>, SampleError>,
    r2: Result<SampleResult<T>, SampleError>,
)
    requires
        snapshot_outcome(cap, pop, samples, r1),
        snapshot_outcome(cap, pop, samples, r2),
    ensures
        r1 matches Ok(a) ==> r2 matches Ok(b) && a.samples@ == b.samples@ && a.population
            == b.population,
        r1 matches Err(_) ==> r1 == r2,
{
}

/// The sequential reservoir sampler: Algorithm R over a stream of elements of
/// a duplicable type.
pub struct ReservoirSampler<T> where T: Copy {
    sample_size: usize,
    population: usize,
    samples: Vec<T>,
    rng: rand::rngs::StdRng,
}

impl<T: Copy> ReservoirSampler<T> {
    /// Creates a reservoir that will keep a uniform sample of `sample_size`
    /// elements; a capacity of zero is not meaningful.
    pub fn new(sample_size: usize) -> (r: ReservoirSampler<T>)
        requires
            sample_size > 0,
        ensures
            r.inv(),
            r.capacity() == sample_size,
            r.population() == 0,
            r.samples() == Seq::<T>::empty(),
    {
        ReservoirSampler {
            sample_size,
            population: 0,
            samples: Vec::new(),
            rng: crate::rng::fresh_rng(),
        }
    }

    /// The population counter, readable by unverified callers that must guard
    /// `try_sample`'s precondition.
    pub fn population_count(&self) -> (r: usize)
        ensures
            r == self.population(),
    {
        self.population
    }

    /// The fixed target sample size.
    pub fn sample_capacity(&self) -> (r: usize)
        ensures
            r == self.capacity(),
    {
        self.sample_size
    }

    /// How many elements are resident right now.
    pub fn sample_len(&self) -> (r: usize)
        ensures
            r == self.samples().len(),
    {
        self.samples.len()
    }
}

/// Copies a vector of duplicable elements, element by element.
fn duplicate_samples<T: Copy>(v: &Vec<T>) -> (r: Vec<T>)
    ensures
        r@ == v@,
{
    let mut r: Vec<T> = Vec::new();
    for i in 0..v.len()
        invariant
            r@ == v@.subrange(0, i as int),
    {
        r.push(v[i]);
    }
    proof {
        assert(r@ =~= v@);
    }
    r
}

impl<T: Copy> Sampler<T> for ReservoirSampler<T> {
    closed spec fn capacity(&self) -> int {
        self.sample_size as int
    }

    closed spec fn population(&self) -> int {
        self.population as int
    }

    closed spec fn samples(&self) -> Seq<T> {
        self.samples@
    }

    closed spec fn inv(&self) -> bool {
        self.sample_size > 0 && self.samples@.len() == vstd::math::min(
            self.population as int,
            self.sample_size as int,
        )
    }

    proof fn inv_implies_shape(&self) {
    }

    fn try_sample(&mut self, element: &T) -> (accepted: bool) {
        if self.population < self.sample_size {
            // Append phase: the buffer is not full yet, the element is kept
            // with certainty.
            self.samples.push(*element);
            self.population = self.population + 1;
            return true;
        }

        // The element counts as seen before the acceptance draw, so the
        // acceptance probability is capacity / population for the updated
        // population.
        self.population = self.population + 1;

        let coin = crate::rng::draw_below(&mut self.rng, self.population);
        if coin < self.sample_size {
            // Keep the new element in a uniformly chosen slot.
            let idx = crate::rng::draw_below(&mut self.rng, self.sample_size);
            self.samples.set(idx, *element);
            proof {
                let pre = old(self).samples();
                assert(self.samples() == pre.update(idx as int, *element));
                assert(exists|i: int|
                    0 <= i < old(self).capacity() && self.samples() == pre.update(i, *element));
            }
            return true;
        }

        false
    }

    fn have_sample_result(&self) -> (ready: bool) {
        self.population >= self.sample_size
    }

    fn get_sample_result(&self) -> (r: Result<SampleResult<T>, SampleError>) {
        if !self.have_sample_result() {
            return Err(SampleError::NotEnoughElements);
        }
        Ok(SampleResult::new(duplicate_samples(&self.samples), self.population))
    }
}

} // verus!
