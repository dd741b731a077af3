use prime_pool::{
    collect_primes, find_primes, is_prime, run, Aggregator, ConfigError, HarvestError, Pool,
    PoolConfig, PrimeVerification,
};

const PRIMES_TO_ONE_HUNDRED: [u32; 25] = [
    2, 3, 5, 7, 11, 13, 17, 19, 23, 29, 31, 37, 41, 43, 47, 53, 59, 61, 67, 71, 73, 79, 83, 89, 97,
];

fn config(lower: u32, upper: u32, width: usize) -> PoolConfig {
    PoolConfig::new(lower, upper, width).expect("valid configuration")
}

#[test]
fn primes_to_one_hundred_with_width_eight() {
    let mut primes = find_primes(&config(0, 100, 8));
    primes.sort();
    assert_eq!(primes, PRIMES_TO_ONE_HUNDRED.to_vec());
}

#[test]
fn empty_range_gives_no_primes() {
    let c = config(5, 4, 8);
    assert!(run(&c).is_empty());
    assert!(find_primes(&c).is_empty());
    let mut pool = Pool::new(&c);
    assert_eq!(pool.submit(), None);
    assert!(pool.is_finished());
}

#[test]
fn primes_from_two_to_thirty_with_width_four() {
    let mut primes = find_primes(&config(2, 30, 4));
    primes.sort();
    assert_eq!(primes, vec![2, 3, 5, 7, 11, 13, 17, 19, 23, 29]);
}

#[test]
fn run_yields_every_value_once() {
    let results = run(&config(10, 60, 3));
    let mut counts = vec![0u32; 61];
    for r in &results {
        counts[r.value as usize] += 1;
        assert_eq!(r.is_prime, is_prime(r.value).is_prime);
    }
    for v in 0..61usize {
        assert_eq!(counts[v], if v >= 10 { 1 } else { 0 });
    }
}

#[test]
fn in_flight_never_exceeds_width() {
    let width: usize = 3;
    let mut pool = Pool::new(&config(0, 40, width));
    let mut submitted = vec![0u32; 41];
    let mut harvested = vec![0u32; 41];
    let mut turn: usize = 0;
    while !pool.is_finished() {
        while let Some(v) = pool.submit() {
            submitted[v as usize] += 1;
        }
        assert!(pool.in_flight_len() <= width);
        // Harvest a different position each pass, as completions come in any order.
        let index = turn % pool.in_flight_len();
        let value = pool.pending(index).expect("handle in flight");
        pool.harvest(index, is_prime(value)).expect("matching verdict");
        harvested[value as usize] += 1;
        turn += 1;
    }
    assert!(submitted.iter().all(|&c| c == 1));
    assert!(harvested.iter().all(|&c| c == 1));
    let results = pool.into_results();
    assert_eq!(results.len(), 41);
}

#[test]
fn fill_phase_stops_at_width() {
    let mut pool = Pool::new(&config(0, 100, 4));
    assert_eq!(pool.submit(), Some(0));
    assert_eq!(pool.submit(), Some(1));
    assert_eq!(pool.submit(), Some(2));
    assert_eq!(pool.submit(), Some(3));
    assert_eq!(pool.submit(), None);
    assert_eq!(pool.in_flight_len(), 4);
    assert!(!pool.is_finished());
}

#[test]
fn harvest_removes_the_given_handle() {
    let mut pool = Pool::new(&config(20, 25, 3));
    pool.submit();
    pool.submit();
    pool.submit();
    assert_eq!(pool.harvest(1, is_prime(21)), Ok(()));
    assert_eq!(pool.in_flight_len(), 2);
    assert_eq!(pool.pending(0), Some(20));
    assert_eq!(pool.pending(1), Some(22));
    assert_eq!(pool.pending(2), None);
    assert_eq!(pool.submit(), Some(23));
}

#[test]
fn harvest_errors() {
    let mut pool = Pool::new(&config(20, 25, 2));
    assert_eq!(pool.harvest(0, is_prime(20)), Err(HarvestError::NoSuchHandle));
    pool.submit();
    assert_eq!(pool.harvest(1, is_prime(20)), Err(HarvestError::NoSuchHandle));
    assert_eq!(pool.harvest(0, is_prime(21)), Err(HarvestError::ValueMismatch));
    assert_eq!(pool.in_flight_len(), 1);
    assert_eq!(pool.harvest(0, is_prime(20)), Ok(()));
    assert_eq!(pool.in_flight_len(), 0);
}

#[test]
fn config_errors() {
    assert_eq!(PoolConfig::new(0, 10, 0), Err(ConfigError::ZeroWidth));
    assert_eq!(PoolConfig::new(12, 10, 2), Err(ConfigError::InvertedRange));
    assert_eq!(PoolConfig::new(11, 10, 0), Err(ConfigError::ZeroWidth));
    let c = PoolConfig::new(11, 10, 1).expect("empty range is valid");
    assert_eq!(c.lower_bound, 11);
    assert_eq!(c.upper_bound, 10);
    assert_eq!(c.concurrency_width, 1);
}

#[test]
fn range_ending_at_u32_max() {
    let mut primes = find_primes(&config(u32::MAX - 10, u32::MAX, 2));
    primes.sort();
    assert_eq!(primes, vec![4_294_967_291]);
}

#[test]
fn single_value_range() {
    assert_eq!(find_primes(&config(7, 7, 1)), vec![7]);
    assert!(find_primes(&config(8, 8, 5)).is_empty());
}

#[test]
fn aggregator_keeps_only_primes_in_order() {
    let mut a = Aggregator::new();
    a.accept(PrimeVerification { value: 7, is_prime: true });
    a.accept(PrimeVerification { value: 8, is_prime: false });
    a.accept(PrimeVerification { value: 3, is_prime: true });
    assert_eq!(a.finalize(), vec![7, 3]);
}

#[test]
fn collect_primes_follows_completion_order() {
    let results = vec![is_prime(11), is_prime(4), is_prime(2), is_prime(9), is_prime(5)];
    assert_eq!(collect_primes(&results), vec![11, 2, 5]);
}
