//! Alignment of the periodic tick to whole-second boundaries.

use vstd::arithmetic::div_mod::lemma_fundamental_div_mod;
use vstd::prelude::*;

verus! {

/// Delay until the next whole second after `now_ms` milliseconds since the
/// epoch: between one millisecond and one full second.
pub fn millis_to_next_second(now_ms: u128) -> (d: u64)
    requires
        now_ms + 1000 <= u128::MAX,
    ensures
        d == 1000 - now_ms % 1000,
        1 <= d <= 1000,
        (now_ms + d) % 1000 == 0,
{
    proof {
        lemma_fundamental_div_mod(now_ms as int, 1000);
    }
    let next_ms = ((now_ms / 1000) + 1) * 1000;
    (next_ms - now_ms) as u64
}

} // verus!
