//! The wall clock.

use vstd::prelude::*;

verus! {

/// `SystemTime::elapsed` of the Unix epoch, in whole seconds. Nothing is known of what
/// the clock shows; a clock set before the epoch gives nothing.
#[verifier::external_body]
fn since_epoch() -> (r: Option<u64>) {
    std::time::UNIX_EPOCH.elapsed().ok().map(|d| d.as_secs())
}

/// The seconds since the Unix epoch; zero on a clock set before it.
pub(crate) fn unix_now() -> (secs: u64) {
    secs_shown(since_epoch())
}

/// What the clock gives, or zero where it gives nothing.
fn secs_shown(elapsed: Option<u64>) -> (secs: u64)
    ensures
        secs == (match elapsed {
            Some(given) => given,
            None => 0,
        }),
{
    match elapsed {
        Some(given) => given,
        None => 0,
    }
}

} // verus!
