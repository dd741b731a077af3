use vstd::prelude::*;
use vstd::string::StringExecFns;

use rand::Rng;

verus! {

/// Simulated reads take fewer than this many whole seconds.
pub const MAX_READ_DELAY_SECS: u64 = 10;

/// Relies on rand::thread_rng and rand::Rng::gen_range: a value drawn
/// uniformly from `0..bound`; gen_range panics on an empty range, which
/// `bound > 0` rules out.
#[verifier::external_body]
fn draw_below(bound: u64) -> (r: u64)
    requires
        bound > 0,
    ensures
        r < bound,
{
    rand::thread_rng().gen_range(0..bound)
}

/// The delay of a simulated read, in whole seconds, drawn at random.
pub fn read_delay_secs() -> (r: u64)
    ensures
        r < MAX_READ_DELAY_SECS,
{
    draw_below(MAX_READ_DELAY_SECS)
}

/// What a simulated read from `source` returns: `DB Read from ` and the source.
pub fn read_message(source: &str) -> (r: String)
    ensures
        r@ == "DB Read from "@ + source@,
{
    let mut message = String::from_str("DB Read from ");
    message.append(source);
    message
}

} // verus!
