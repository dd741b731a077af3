use vstd::prelude::*;
use vstd::multiset::Multiset;

use crate::prime::{is_prime, is_prime_spec, PrimeVerification};

verus! {

broadcast use vstd::multiset::group_multiset_axioms, vstd::seq_lib::group_to_multiset_ensures;

/// The values `lo, lo + 1, ..., hi - 1`, each once.
pub open spec fn span(lo: int, hi: int) -> Multiset<u32>
    decreases hi - lo,
{
    if hi <= lo {
        Multiset::empty()
    } else {
        span(lo, hi - 1).insert((hi - 1) as u32)
    }
}

/// The values that a sequence of verdicts speaks of, in the same order.
pub open spec fn values_of(rs: Seq<PrimeVerification>) -> Seq<u32> {
    rs.map_values(|r: PrimeVerification| r.value)
}

/// Every verdict in `rs` is the evaluator's verdict on its value.
pub open spec fn all_correct(rs: Seq<PrimeVerification>) -> bool {
    forall|i: int| 0 <= i < rs.len() ==> (#[trigger] rs[i]).is_prime == is_prime_spec(rs[i].value as int)
}

/// A value in `[lo, hi)` occurs in `span(lo, hi)` once, any other value not at all.
pub proof fn lemma_span_count(lo: int, hi: int, v: u32)
    requires
        0 <= lo,
        hi <= u32::MAX + 1,
    ensures
        span(lo, hi).count(v) == if lo <= v < hi { 1nat } else { 0nat },
    decreases hi - lo,
{
    if hi > lo {
        lemma_span_count(lo, hi - 1, v);
    }
}

/// Why a pool configuration was refused.
#[derive(Clone, Copy, Debug, PartialEq, Eq, Structural)]
pub enum ConfigError {
    /// The concurrency width is zero: no work could ever be in flight.
    ZeroWidth,
    /// `lower_bound > upper_bound + 1`: the range is not even an empty one.
    InvertedRange,
}

/// The range `[lower_bound, upper_bound]` to search and the number of
/// evaluations that may be in flight at once.
#[derive(Clone, Copy, Debug, PartialEq, Eq, Structural)]
pub struct PoolConfig {
    pub lower_bound: u32,
    pub upper_bound: u32,
    pub concurrency_width: usize,
}

impl PoolConfig {
    /// A configuration that a pool can run: a non-zero width, and a range
    /// that is either non-empty or empty with `lower_bound == upper_bound + 1`.
    pub open spec fn valid(self) -> bool {
        self.concurrency_width >= 1 && self.lower_bound <= self.upper_bound + 1
    }

    pub fn new(lower_bound: u32, upper_bound: u32, concurrency_width: usize) -> (r: Result<
        PoolConfig,
        ConfigError,
    >)
        ensures
            r matches Ok(c) ==> c.valid() && c == (PoolConfig {
                lower_bound,
                upper_bound,
                concurrency_width,
            }),
            r is Ok <==> concurrency_width >= 1 && lower_bound <= upper_bound + 1,
            r == Err::<PoolConfig, ConfigError>(ConfigError::ZeroWidth) <==> concurrency_width
                == 0,
            r == Err::<PoolConfig, ConfigError>(ConfigError::InvertedRange) <==> (
            concurrency_width >= 1 && lower_bound > upper_bound + 1),
    {
        if concurrency_width == 0 {
            Err(ConfigError::ZeroWidth)
        } else if lower_bound as u64 > upper_bound as u64 + 1 {
            Err(ConfigError::InvertedRange)
        } else {
            Ok(PoolConfig { lower_bound, upper_bound, concurrency_width })
        }
    }
}

/// Why a harvest was refused.
#[derive(Clone, Copy, Debug, PartialEq, Eq, Structural)]
pub enum HarvestError {
    /// No handle is in flight at the given position.
    NoSuchHandle,
    /// The verdict is about another value than the one submitted there.
    ValueMismatch,
}

/// The abstract state of a pool: its configuration, the cursor over the
/// range, the values in flight (in submission order, one per handle) and
/// the verdicts harvested so far (in completion order).
pub ghost struct PoolView {
    pub lower: int,
    pub upper: int,
    pub width: int,
    pub cursor: int,
    pub in_flight: Seq<u32>,
    pub harvested: Seq<PrimeVerification>,
}

impl PoolView {
    /// The pool's invariant. The cursor stays within the range; no more than
    /// `width` handles are in flight; and every value submitted so far,
    /// `[lower, cursor)`, is either in flight or harvested, exactly once.
    pub open spec fn wf(self) -> bool {
        &&& 1 <= self.width
        &&& 0 <= self.lower <= self.upper + 1
        &&& self.upper <= u32::MAX
        &&& self.lower <= self.cursor <= self.upper + 1
        &&& self.in_flight.len() <= self.width
        &&& self.in_flight.to_multiset().add(values_of(self.harvested).to_multiset()) == span(
            self.lower,
            self.cursor,
        )
    }

    /// Whether the fill phase may submit the value under the cursor.
    pub open spec fn may_submit(self) -> bool {
        self.in_flight.len() < self.width && self.cursor <= self.upper
    }

    /// Every value has been submitted and every handle harvested.
    pub open spec fn finished(self) -> bool {
        self.in_flight.len() == 0 && self.cursor > self.upper
    }

    /// Same configuration as `other`.
    pub open spec fn same_config(self, other: PoolView) -> bool {
        self.lower == other.lower && self.upper == other.upper && self.width == other.width
    }
}

/// The decisions of a bounded task pool over `[lower_bound, upper_bound]`.
///
/// Whoever runs the evaluations keeps one handle per value in flight, in the
/// order that `submit` handed them out, and reports each completion with
/// `harvest`. The cap is exactly `concurrency_width`: the fill phase stops
/// when that many handles are in flight, with no extra slot of slack.
pub struct Pool {
    lower_bound: u32,
    upper_bound: u32,
    concurrency_width: usize,
    cursor: u64,
    in_flight: Vec<u32>,
    harvested: Vec<PrimeVerification>,
}

impl View for Pool {
    type V = PoolView;

    closed spec fn view(&self) -> PoolView {
        PoolView {
            lower: self.lower_bound as int,
            upper: self.upper_bound as int,
            width: self.concurrency_width as int,
            cursor: self.cursor as int,
            in_flight: self.in_flight@,
            harvested: self.harvested@,
        }
    }
}

impl Pool {
    /// A pool with its cursor on `lower_bound`, nothing in flight and nothing harvested.
    pub fn new(config: &PoolConfig) -> (r: Pool)
        requires
            config.valid(),
        ensures
            r@.wf(),
            r@ == (PoolView {
                lower: config.lower_bound as int,
                upper: config.upper_bound as int,
                width: config.concurrency_width as int,
                cursor: config.lower_bound as int,
                in_flight: Seq::empty(),
                harvested: Seq::empty(),
            }),
    {
        let r = Pool {
            lower_bound: config.lower_bound,
            upper_bound: config.upper_bound,
            concurrency_width: config.concurrency_width,
            cursor: config.lower_bound as u64,
            in_flight: Vec::new(),
            harvested: Vec::new(),
        };
        assert(values_of(r.harvested@) =~= Seq::empty());
        assert(r.in_flight@.to_multiset().add(values_of(r.harvested@).to_multiset()) =~= span(
            r@.lower,
            r@.cursor,
        ));
        r
    }

    /// Fill phase, one step: where fewer than `concurrency_width` handles are
    /// in flight and the cursor has not passed `upper_bound`, takes the value
    /// under the cursor as in flight, advances the cursor and returns the
    /// value to evaluate; otherwise changes nothing and returns `None`.
    pub fn submit(&mut self) -> (r: Option<u32>)
        requires
            old(self)@.wf(),
        ensures
            final(self)@.wf(),
            old(self)@.may_submit() ==> r == Some(old(self)@.cursor as u32) && final(self)@ == (
            PoolView {
                cursor: old(self)@.cursor + 1,
                in_flight: old(self)@.in_flight.push(old(self)@.cursor as u32),
                ..old(self)@
            }),
            !old(self)@.may_submit() ==> r is None && final(self)@ == old(self)@,
    {
        if self.in_flight.len() < self.concurrency_width && self.cursor <= self.upper_bound as u64 {
            let value = self.cursor as u32;
            self.in_flight.push(value);
            self.cursor = self.cursor + 1;
            assert(self@.in_flight.to_multiset().add(values_of(self@.harvested).to_multiset())
                =~= span(self@.lower, self@.cursor));
            Some(value)
        } else {
            None
        }
    }

    /// Drain phase, one completion: the handle at `index` of the in-flight
    /// set has finished with `result`. Removes it from the in-flight set
    /// (later handles move up one place) and appends `result` to the harvest.
    pub fn harvest(&mut self, index: usize, result: PrimeVerification) -> (r: Result<
        (),
        HarvestError,
    >)
        requires
            old(self)@.wf(),
        ensures
            final(self)@.wf(),
            index >= old(self)@.in_flight.len() ==> r == Err::<(), HarvestError>(
                HarvestError::NoSuchHandle,
            ) && final(self)@ == old(self)@,
            index < old(self)@.in_flight.len() && result.value != old(self)@.in_flight[index as int]
                ==> r == Err::<(), HarvestError>(HarvestError::ValueMismatch) && final(self)@ == old(
                self,
            )@,
            index < old(self)@.in_flight.len() && result.value == old(self)@.in_flight[index as int]
                ==> r is Ok && final(self)@ == (PoolView {
                in_flight: old(self)@.in_flight.remove(index as int),
                harvested: old(self)@.harvested.push(result),
                ..old(self)@
            }),
    {
        if index >= self.in_flight.len() {
            return Err(HarvestError::NoSuchHandle);
        }
        if self.in_flight[index] != result.value {
            return Err(HarvestError::ValueMismatch);
        }
        let ghost pre = self@;
        self.in_flight.remove(index);
        self.harvested.push(result);
        assert(values_of(self@.harvested) =~= values_of(pre.harvested).push(result.value));
        assert(self@.in_flight.to_multiset().add(values_of(self@.harvested).to_multiset())
            =~= span(self@.lower, self@.cursor));
        Ok(())
    }

    /// Whether every value has been submitted and every handle harvested.
    pub fn is_finished(&self) -> (r: bool)
        ensures
            r == self@.finished(),
    {
        self.in_flight.len() == 0 && self.cursor > self.upper_bound as u64
    }

    /// How many handles are in flight.
    pub fn in_flight_len(&self) -> (r: usize)
        ensures
            r == self@.in_flight.len(),
    {
        self.in_flight.len()
    }

    /// The value of the handle at `index` of the in-flight set, if there is one.
    pub fn pending(&self, index: usize) -> (r: Option<u32>)
        ensures
            index < self@.in_flight.len() ==> r == Some(self@.in_flight[index as int]),
            index >= self@.in_flight.len() ==> r is None,
    {
        if index < self.in_flight.len() {
            Some(self.in_flight[index])
        } else {
            None
        }
    }

    /// The verdicts harvested so far, in completion order.
    pub fn into_results(self) -> (r: Vec<PrimeVerification>)
        ensures
            r@ == self@.harvested,
    {
        self.harvested
    }
}

/// Once a pool has finished, every value of `[lower, upper]` has been
/// harvested exactly once, and no other value has been harvested.
pub proof fn lemma_finished_harvests_each_once(p: PoolView, v: u32)
    requires
        p.wf(),
        p.finished(),
    ensures
        values_of(p.harvested).to_multiset().count(v) == if p.lower <= v <= p.upper {
            1nat
        } else {
            0nat
        },
{
    lemma_span_count(p.lower, p.cursor, v);
    assert(p.in_flight =~= Seq::empty());
    assert(p.in_flight.to_multiset() =~= Multiset::empty());
}

/// Runs the pool over `config` in a single execution context: fills up to
/// the width, then harvests the oldest handle in flight, evaluating its value
/// at that moment, until every value has been harvested.
///
/// Every value of `[lower_bound, upper_bound]` comes out exactly once, with
/// the evaluator's verdict on it; an empty range gives no verdicts.
pub fn run(config: &PoolConfig) -> (r: Vec<PrimeVerification>)
    requires
        config.valid(),
    ensures
        values_of(r@).to_multiset() == span(
            config.lower_bound as int,
            config.upper_bound as int + 1,
        ),
        all_correct(r@),
        r@.len() == config.upper_bound as int + 1 - config.lower_bound as int,
        config.lower_bound > config.upper_bound ==> r@.len() == 0,
{
    let mut pool = Pool::new(config);
    let ghost start = pool@;
    loop
        invariant
            pool@.wf(),
            pool@.same_config(start),
            all_correct(pool@.harvested),
        ensures
            pool@.wf(),
            pool@.same_config(start),
            all_correct(pool@.harvested),
            pool@.finished(),
        decreases (pool@.upper + 1 - pool@.cursor) * 2 + pool@.in_flight.len(),
    {
        if pool.submit().is_none() {
            if pool.is_finished() {
                break;
            }
            if let Some(value) = pool.pending(0) {
                let outcome = pool.harvest(0, is_prime(value));
                assert(outcome is Ok);
            }
        }
    }
    let ghost done = pool@;
    proof {
        assert(done.in_flight =~= Seq::empty());
        assert(done.in_flight.to_multiset() =~= Multiset::empty());
        assert(values_of(done.harvested).to_multiset() =~= span(done.lower, done.cursor));
        assert(values_of(done.harvested).len() == done.harvested.len());
        lemma_span_len(done.lower, done.cursor);
    }
    pool.into_results()
}

/// `span(lo, hi)` holds `hi - lo` values when the range is not empty.
proof fn lemma_span_len(lo: int, hi: int)
    requires
        lo <= hi,
    ensures
        span(lo, hi).len() == hi - lo,
    decreases hi - lo,
{
    if hi > lo {
        lemma_span_len(lo, hi - 1);
    }
}

} // verus!
