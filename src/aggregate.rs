use vstd::prelude::*;

use crate::pool::{all_correct, lemma_span_count, run, values_of, PoolConfig};
use crate::prime::{is_prime_spec, PrimeVerification};

verus! {

broadcast use vstd::multiset::group_multiset_axioms, vstd::seq_lib::group_to_multiset_ensures;

/// The values of the prime verdicts in `rs`, in the order of `rs`.
pub open spec fn prime_values(rs: Seq<PrimeVerification>) -> Seq<u32>
    decreases rs.len(),
{
    if rs.len() == 0 {
        Seq::empty()
    } else {
        let rest = prime_values(rs.drop_last());
        if rs.last().is_prime {
            rest.push(rs.last().value)
        } else {
            rest
        }
    }
}

/// Collects the values of the prime verdicts it is handed, in the order
/// it is handed them.
pub struct Aggregator {
    primes: Vec<u32>,
}

impl View for Aggregator {
    type V = Seq<u32>;

    closed spec fn view(&self) -> Seq<u32> {
        self.primes@
    }
}

impl Aggregator {
    /// An aggregator that has collected nothing.
    pub fn new() -> (r: Aggregator)
        ensures
            r@ == Seq::<u32>::empty(),
    {
        Aggregator { primes: Vec::new() }
    }

    /// Appends `result.value` where `result.is_prime`; otherwise changes nothing.
    pub fn accept(&mut self, result: PrimeVerification)
        ensures
            result.is_prime ==> final(self)@ == old(self)@.push(result.value),
            !result.is_prime ==> final(self)@ == old(self)@,
    {
        if result.is_prime {
            self.primes.push(result.value);
        }
    }

    /// The values collected, in the order they were accepted.
    pub fn finalize(self) -> (r: Vec<u32>)
        ensures
            r@ == self@,
    {
        self.primes
    }
}

/// Hands every verdict of `results` to a fresh aggregator, in order, and
/// returns what it collected.
pub fn collect_primes(results: &Vec<PrimeVerification>) -> (r: Vec<u32>)
    ensures
        r@ == prime_values(results@),
{
    let mut aggregator = Aggregator::new();
    let mut i: usize = 0;
    while i < results.len()
        invariant
            i <= results@.len(),
            aggregator@ == prime_values(results@.take(i as int)),
        decreases results@.len() - i,
    {
        assert(results@.take(i as int + 1).drop_last() =~= results@.take(i as int));
        aggregator.accept(results[i]);
        i = i + 1;
    }
    assert(results@.take(i as int) =~= results@);
    aggregator.finalize()
}

/// Where every verdict is correct, a value occurs among the prime values as
/// often as among all values if it is prime, and not at all otherwise.
pub proof fn lemma_prime_values_count(rs: Seq<PrimeVerification>, v: u32)
    requires
        all_correct(rs),
    ensures
        prime_values(rs).to_multiset().count(v) == if is_prime_spec(v as int) {
            values_of(rs).to_multiset().count(v)
        } else {
            0
        },
    decreases rs.len(),
{
    if rs.len() == 0 {
        assert(values_of(rs) =~= Seq::empty());
    } else {
        let rest = rs.drop_last();
        assert(all_correct(rest)) by {
            assert forall|i: int| 0 <= i < rest.len() implies (#[trigger] rest[i]).is_prime
                == is_prime_spec(rest[i].value as int) by {
                assert(rest[i] == rs[i]);
            }
        }
        lemma_prime_values_count(rest, v);
        assert(values_of(rs) =~= values_of(rest).push(rs.last().value));
        assert(rs.last() == rs[rs.len() - 1]);
    }
}

/// Runs the pool over `config` and collects the primes: every prime of
/// `[lower_bound, upper_bound]` comes out exactly once, and nothing else.
pub fn find_primes(config: &PoolConfig) -> (r: Vec<u32>)
    requires
        config.valid(),
    ensures
        forall|v: u32|
            #[trigger] r@.to_multiset().count(v) == if config.lower_bound <= v
                <= config.upper_bound && is_prime_spec(v as int) {
                1nat
            } else {
                0nat
            },
{
    let results = run(config);
    let r = collect_primes(&results);
    assert forall|v: u32|
        #[trigger] r@.to_multiset().count(v) == if config.lower_bound <= v <= config.upper_bound
            && is_prime_spec(v as int) {
            1nat
        } else {
            0nat
        } by {
        lemma_prime_values_count(results@, v);
        lemma_span_count(config.lower_bound as int, config.upper_bound as int + 1, v);
    }
    r
}

} // verus!
