//! A bounded-concurrency prime search: a primality evaluator, a task pool
//! state machine that keeps a fixed number of evaluations in flight, and an
//! aggregator that collects the prime verdicts.

mod aggregate;
mod delayed_read;
mod pool;
mod prime;

pub use aggregate::{
    collect_primes, find_primes, lemma_prime_values_count, prime_values, Aggregator,
};
pub use delayed_read::{read_delay_secs, read_message, MAX_READ_DELAY_SECS};
pub use pool::{
    all_correct, lemma_finished_harvests_each_once, lemma_span_count, run, span, values_of,
    ConfigError, HarvestError, Pool, PoolConfig, PoolView,
};
pub use prime::{
    is_prime, is_prime_spec, is_prime_to_one_hundred, lemma_primes_to_one_hundred,
    no_divisor_below, PrimeVerification,
};
