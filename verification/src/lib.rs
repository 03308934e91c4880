//! Uniform random sampling of a fixed-size subset from a stream of unknown
//! length (Algorithm R), together with a coordinator that merges several
//! independently filled reservoirs into one statistically equivalent sample.

use vstd::prelude::*;

pub mod parallel_reservoir;
mod rng;
pub mod simple_reservoir;

use crate::simple_reservoir::ReservoirSampler;
use crate::simple_reservoir::Sampler;

verus! {

const ONE_THREAD: usize = 100_000;

const THREAD_COUNT: usize = 16;

const SEQ_COUNT: usize = ONE_THREAD * THREAD_COUNT;

const SAMPLE_COUNT: usize = 10_000;

/// Feeds a whole stream of consecutive integers through one sequential
/// reservoir and takes the final snapshot.
pub fn sequencial_run() {
    let mut sr = ReservoirSampler::<usize>::new(SAMPLE_COUNT);

    for i in 0..SEQ_COUNT
        invariant
            sr.inv(),
            sr.capacity() == SAMPLE_COUNT,
            sr.population() == i,
    {
        sr.try_sample(&i);
    }

    let _result = sr.get_sample_result();
}

} // verus!
