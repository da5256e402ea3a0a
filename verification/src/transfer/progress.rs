//! How much of the running transfer is done.

use vstd::prelude::*;

verus! {

/// Bytes done, and bytes in all.
#[derive(Debug, Clone, Copy)]
pub struct Progress {
    pub done: u64,
    pub total: u64,
}

/// `done` and `bytes` more, modulo 2^64.
pub open spec fn advanced(done: u64, bytes: u64) -> int {
    (done + bytes) % 0x1_0000_0000_0000_0000
}

/// `done` less `bytes`, down to zero.
pub open spec fn retracted(done: u64, bytes: u64) -> int {
    if done >= bytes {
        done - bytes
    } else {
        0
    }
}

/// Starts over, with `total` bytes to go.
pub fn reset(p: &mut Progress, total: u64)
    ensures
        final(p).done == 0,
        final(p).total == total,
{
    p.total = total;
    p.done = 0;
}

/// Counts `bytes` more as done. The count wraps around at 2^64.
pub fn advance(p: &mut Progress, bytes: u64)
    ensures
        final(p).done == advanced(old(p).done, bytes),
        final(p).total == old(p).total,
{
    p.done = p.done.wrapping_add(bytes);
}

/// Sets the count of bytes done. The sender goes by the receiver's reports, not by
/// what it has written itself.
pub fn set_done(p: &mut Progress, bytes: u64)
    ensures
        final(p).done == bytes,
        final(p).total == old(p).total,
{
    p.done = bytes;
}

/// Takes `bytes` back, down to zero.
pub fn retract(p: &mut Progress, bytes: u64)
    ensures
        final(p).done == retracted(old(p).done, bytes),
        final(p).total == old(p).total,
{
    p.done = p.done.saturating_sub(bytes);
}

/// Bytes done, and bytes in all.
pub fn get(p: &Progress) -> (r: (u64, u64))
    ensures
        r == (p.done, p.total),
{
    (p.done, p.total)
}

/// Counting adds, and taking back subtracts, but never below zero.
pub proof fn counting_adds_and_taking_back_subtracts(done: u64, bytes: u64)
    ensures
        done + bytes <= u64::MAX ==> advanced(done, bytes) == done + bytes,
        done + bytes > u64::MAX ==> advanced(done, bytes) + u64::MAX + 1 == done + bytes,
        bytes <= done ==> retracted(done, bytes) + bytes == done,
        bytes > done ==> retracted(done, bytes) == 0,
{
}

/// Taking back what was just counted leaves the count as it was, unless it wrapped
/// around on the way.
pub proof fn retract_undoes_advance(done: u64, bytes: u64)
    requires
        done + bytes <= u64::MAX,
    ensures
        retracted(advanced(done, bytes) as u64, bytes) == done,
{
}

} // verus!
