use reservoir_in_rust::parallel_reservoir::ParallelReservoirSampler;
use reservoir_in_rust::sequencial_run;
use reservoir_in_rust::simple_reservoir::ReservoirSampler;
use reservoir_in_rust::simple_reservoir::SampleError;
use reservoir_in_rust::simple_reservoir::SampleResult;
use reservoir_in_rust::simple_reservoir::Sampler;

#[test]
pub fn simple_reservoir_quick_test() {
    sequencial_run();
}

/// Builds a reservoir of the given capacity and feeds it `count` consecutive
/// integers starting at `start`.
fn fed_reservoir(capacity: usize, start: usize, count: usize) -> ReservoirSampler<usize> {
    let mut sr = ReservoirSampler::new(capacity);
    for x in start..start + count {
        sr.try_sample(&x);
    }
    sr
}

/// The sample always holds exactly `min(population, capacity)` elements.
#[test]
pub fn capacity_invariant_after_every_call() {
    let capacity: usize = 5;
    let mut sr = ReservoirSampler::new(capacity);
    assert_eq!(sr.sample_capacity(), capacity);
    assert_eq!(sr.population_count(), 0);
    assert_eq!(sr.sample_len(), 0);
    for x in 0..12usize {
        sr.try_sample(&x);
        assert_eq!(sr.population_count(), x + 1);
        assert_eq!(sr.sample_len(), (x + 1).min(capacity));
    }
}

/// While the population is at most the capacity, every offered element is
/// accepted and resides in the sample.
#[test]
pub fn no_loss_under_capacity() {
    let capacity: usize = 8;
    let mut sr = ReservoirSampler::new(capacity);
    for x in 0..capacity {
        assert!(sr.try_sample(&x));
    }
    let result = sr.get_sample_result().unwrap();
    assert_eq!(result.population, capacity);
    let mut samples = result.samples;
    samples.sort();
    assert_eq!(samples, (0..capacity).collect::<Vec<usize>>());
}

/// Feeding through the slice-based trait method behaves like feeding one by
/// one.
#[test]
pub fn sample_from_slice() {
    let elements: Vec<usize> = (100..110).collect();
    let mut sr = ReservoirSampler::new(10);
    sr.try_sample_from(&elements);
    assert_eq!(sr.population_count(), 10);
    let mut samples = sr.get_sample_result().unwrap().samples;
    samples.sort();
    assert_eq!(samples, elements);
}

/// Readiness flips exactly when the population reaches the capacity, and
/// snapshots fail exactly while readiness is false.
#[test]
pub fn readiness_gate() {
    let capacity: usize = 4;
    let mut sr = ReservoirSampler::new(capacity);
    for x in 0..10usize {
        let ready = sr.have_sample_result();
        assert_eq!(ready, x >= capacity);
        match sr.get_sample_result() {
            Ok(result) => {
                assert!(ready);
                assert_eq!(result.population, x);
            }
            Err(e) => {
                assert!(!ready);
                assert_eq!(e, SampleError::NotEnoughElements);
            }
        }
        sr.try_sample(&x);
    }
}

/// Two snapshots of the same unmutated reservoir are identical.
#[test]
pub fn idempotent_snapshot() {
    let mut sr = fed_reservoir(10, 0, 10);
    let first = sr.get_sample_result().unwrap();
    let second = sr.get_sample_result().unwrap();
    assert_eq!(first.population, second.population);
    assert_eq!(first.samples, second.samples);

    // Same again once the resident sample is no longer the full prefix.
    for x in 10..200usize {
        sr.try_sample(&x);
    }
    let third = sr.get_sample_result().unwrap();
    let fourth = sr.get_sample_result().unwrap();
    assert_eq!(third.population, fourth.population);
    assert_eq!(third.samples, fourth.samples);
}

/// Once the population exceeds the capacity, elements are retained with
/// empirical frequency near capacity / population: over many trials, the
/// number of stream elements 0..1000 found in the final sample of a
/// capacity-100 reservoir fed 10,000 elements approximates trials * 10.
#[test]
pub fn rejection_frequency() {
    let trials = 100usize;
    let capacity = 100usize;
    let stream = 10_000usize;
    let mut hits = 0usize;
    for _ in 0..trials {
        let sr = fed_reservoir(capacity, 0, stream);
        for x in sr.get_sample_result().unwrap().samples {
            if x < 1000 {
                hits += 1;
            }
        }
    }
    // Expected value 1000, standard deviation about 31: these bounds sit
    // more than six standard deviations out.
    assert!(hits > 800, "inclusion frequency far too low: {}", hits);
    assert!(hits < 1200, "inclusion frequency far too high: {}", hits);
}

/// Merging conserves population and keeps the shared sample size.
#[test]
pub fn merge_population_conservation() {
    let a = fed_reservoir(50, 0, 200).get_sample_result().unwrap();
    let b = fed_reservoir(50, 1000, 75).get_sample_result().unwrap();
    let merged = ParallelReservoirSampler::merge(a, b);
    assert_eq!(merged.population, 275);
    assert_eq!(merged.samples.len(), 50);
}

/// No source element is selected into more than one output slot of a merge.
#[test]
pub fn merge_no_duplication() {
    let a = fed_reservoir(60, 0, 60).get_sample_result().unwrap();
    let b = fed_reservoir(60, 1000, 60).get_sample_result().unwrap();
    let merged = ParallelReservoirSampler::merge(a, b);
    assert_eq!(merged.samples.len(), 60);
    let mut samples = merged.samples;
    samples.sort();
    for w in samples.windows(2) {
        assert!(w[0] < w[1], "element {} selected twice", w[0]);
    }
    for x in samples {
        assert!(x < 60 || (1000..1060).contains(&x));
    }
}

/// Reducing several snapshots keeps the total population and the shared size.
#[test]
pub fn merge_all_snapshots() {
    let results: Vec<SampleResult<usize>> = vec![
        fed_reservoir(20, 0, 40).get_sample_result().unwrap(),
        fed_reservoir(20, 100, 20).get_sample_result().unwrap(),
        fed_reservoir(20, 200, 31).get_sample_result().unwrap(),
    ];
    let merged = ParallelReservoirSampler::merge_all(results);
    assert_eq!(merged.population, 91);
    assert_eq!(merged.samples.len(), 20);
}

/// The coordinator is ready only once every handle is ready, and fails with
/// the readiness error until then.
#[test]
pub fn coordinator_readiness_gate() {
    let mut pr: ParallelReservoirSampler<usize> = ParallelReservoirSampler::new(3);
    let first = pr.get_sampler_handle();
    let second = pr.get_sampler_handle();
    for x in 0..3usize {
        pr.try_sample_at(first, &x);
    }
    assert!(!pr.have_sample_result());
    assert_eq!(pr.get_sample_result().unwrap_err(), SampleError::NotEnoughElements);
    for x in 0..3usize {
        pr.try_sample_at(second, &x);
    }
    assert!(pr.have_sample_result());
    let merged = pr.get_sample_result().unwrap();
    assert_eq!(merged.population, 6);
    assert_eq!(merged.samples.len(), 3);
}

/// Four producers feed one million distinct, non-overlapping integers each;
/// the merged result accounts for the whole population, keeps the target
/// size, and its mean approximates the stream's true mean.
#[test]
pub fn parallel_end_to_end() {
    let capacity = 1000usize;
    let producers = 4usize;
    let per_producer = 1_000_000usize;
    let mut pr: ParallelReservoirSampler<usize> = ParallelReservoirSampler::new(capacity);
    for t in 0..producers {
        let handle = pr.get_sampler_handle();
        let start = t * per_producer;
        for x in start..start + per_producer {
            pr.try_sample_at(handle, &x);
        }
    }
    let result = pr.get_sample_result().unwrap();
    assert_eq!(result.population, producers * per_producer);
    assert_eq!(result.samples.len(), capacity);
    let sum: u64 = result.samples.iter().map(|x| *x as u64).sum();
    let mean = sum / capacity as u64;
    // True mean 1,999,999.5; the sample mean's standard deviation is about
    // 36,500, so these bounds sit five standard deviations out.
    assert!(mean > 1_817_000, "sample mean far too low: {}", mean);
    assert!(mean < 2_183_000, "sample mean far too high: {}", mean);
}
