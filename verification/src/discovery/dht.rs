//! Looking peers up in the distributed hash table.

use vstd::prelude::*;

use crate::net::PeerAddr;

verus! {

/// The addresses of `all`, each where it first occurs.
pub open spec fn first_occurrences(all: Seq<PeerAddr>) -> Seq<PeerAddr>
    decreases all.len(),
{
    if all.len() == 0 {
        Seq::empty()
    } else {
        let before = first_occurrences(all.drop_last());
        if before.contains(all.last()) {
            before
        } else {
            before.push(all.last())
        }
    }
}

/// The batches one after the other.
pub open spec fn concatenated(batches: Seq<Vec<PeerAddr>>) -> Seq<PeerAddr>
    decreases batches.len(),
{
    if batches.len() == 0 {
        Seq::empty()
    } else {
        concatenated(batches.drop_last()) + batches.last()@
    }
}

fn contains(peers: &Vec<PeerAddr>, addr: PeerAddr) -> (r: bool)
    ensures
        r == peers@.contains(addr),
{
    let mut i: usize = 0;
    while i < peers.len()
        invariant
            i <= peers@.len(),
            forall|j: int| 0 <= j < i ==> peers@[j] != addr,
        decreases peers@.len() - i,
    {
        if peers[i] == addr {
            assert(peers@[i as int] == addr);
            return true;
        }
        i = i + 1;
    }
    false
}

/// Merges the batches of a lookup: every peer once, in the order of arrival.
pub fn merge_peers(batches: &Vec<Vec<PeerAddr>>) -> (peers: Vec<PeerAddr>)
    ensures
        peers@ == first_occurrences(concatenated(batches@)),
{
    let mut peers: Vec<PeerAddr> = Vec::new();
    let mut b: usize = 0;
    assert(batches@.subrange(0, 0) =~= Seq::empty());
    while b < batches.len()
        invariant
            b <= batches@.len(),
            peers@ == first_occurrences(concatenated(batches@.subrange(0, b as int))),
        decreases batches@.len() - b,
    {
        let batch: &Vec<PeerAddr> = &batches[b];
        let ghost done = concatenated(batches@.subrange(0, b as int));
        let mut i: usize = 0;
        assert(done + batch@.subrange(0, 0) =~= done);
        while i < batch.len()
            invariant
                i <= batch@.len(),
                peers@ == first_occurrences(done + batch@.subrange(0, i as int)),
            decreases batch@.len() - i,
        {
            let addr: PeerAddr = batch[i];
            proof {
                let all = done + batch@.subrange(0, i + 1);
                assert(all.drop_last() =~= done + batch@.subrange(0, i as int));
                assert(all.last() == addr);
            }
            if !contains(&peers, addr) {
                peers.push(addr);
            }
            i = i + 1;
        }
        proof {
            assert(batch@.subrange(0, i as int) =~= batch@);
            assert(batches@.subrange(0, b + 1).drop_last() =~= batches@.subrange(0, b as int));
            assert(batches@.subrange(0, b + 1).last() == *batch);
        }
        b = b + 1;
    }
    assert(batches@.subrange(0, b as int) =~= batches@);
    peers
}

/// Merging loses no peer and lists none twice.
pub proof fn merging_keeps_each_once(all: Seq<PeerAddr>)
    ensures
        forall|addr: PeerAddr| #[trigger]
            first_occurrences(all).contains(addr) <==> all.contains(addr),
        first_occurrences(all).no_duplicates(),
    decreases all.len(),
{
    if all.len() > 0 {
        let head = all.drop_last();
        let before = first_occurrences(head);
        merging_keeps_each_once(head);
        assert(all =~= head.push(all.last()));
        assert forall|addr: PeerAddr| #[trigger] first_occurrences(all).contains(addr)
            <==> all.contains(addr) by {
            vstd::seq_lib::lemma_seq_contains_after_push(head, all.last(), addr);
            vstd::seq_lib::lemma_seq_contains_after_push(before, all.last(), addr);
            assert(before.contains(addr) <==> head.contains(addr));
        }
    }
}

/// What to do after one lookup of several.
#[derive(Debug, Clone, Copy, PartialEq, Eq, Structural)]
pub enum RetryStep {
    /// Peers were found: hand them over.
    Found,
    /// The time is up: hand over nothing.
    GiveUp,
    /// Look again after the interval.
    Again,
}

/// Decides after a lookup, with the time and the deadline on the same clock.
pub fn retry_step(found_any: bool, now: u64, deadline: u64) -> (r: RetryStep)
    ensures
        r == (if found_any {
            RetryStep::Found
        } else if now >= deadline {
            RetryStep::GiveUp
        } else {
            RetryStep::Again
        }),
{
    if found_any {
        RetryStep::Found
    } else if now >= deadline {
        RetryStep::GiveUp
    } else {
        RetryStep::Again
    }
}

/// Peers are kept in the order in which they were found: what was found first stays first,
/// whatever is found later.
pub proof fn merging_keeps_the_order(found: Seq<PeerAddr>, later: Seq<PeerAddr>)
    ensures
        first_occurrences(found).is_prefix_of(first_occurrences(found + later)),
        found.len() > 0 ==> first_occurrences(found).len() > 0 && first_occurrences(found)[0]
            == found[0],
    decreases later.len(), found.len(),
{
    if later.len() > 0 {
        merging_keeps_the_order(found, later.drop_last());
        let all = found + later;
        assert(all.drop_last() =~= found + later.drop_last());
        let a = first_occurrences(found);
        let b = first_occurrences(all.drop_last());
        let c = first_occurrences(all);
        assert(c.subrange(0, a.len() as int) =~= b.subrange(0, a.len() as int));
    } else {
        assert(found + later =~= found);
        let a = first_occurrences(found);
        assert(a =~= a.subrange(0, a.len() as int));
        if found.len() > 1 {
            merging_keeps_the_order(found.drop_last(), Seq::empty());
            assert(found.drop_last()[0] == found[0]);
        } else if found.len() == 1 {
            assert(first_occurrences(found.drop_last()) =~= Seq::<PeerAddr>::empty());
        }
    }
}

/// The batches follow one another, each whole.
pub proof fn batches_follow_one_another(batches: Seq<Vec<PeerAddr>>, batch: Vec<PeerAddr>)
    ensures
        concatenated(Seq::empty()) == Seq::<PeerAddr>::empty(),
        concatenated(batches.push(batch)) == concatenated(batches) + batch@,
{
    assert(batches.push(batch).drop_last() =~= batches);
}

/// Every peer of every batch is found, and no other.
pub proof fn merging_finds_all(batches: Seq<Vec<PeerAddr>>, addr: PeerAddr)
    ensures
        first_occurrences(concatenated(batches)).contains(addr) <==> exists|k: int|
            0 <= k < batches.len() && (#[trigger] batches[k])@.contains(addr),
    decreases batches.len(),
{
    merging_keeps_each_once(concatenated(batches));
    all_batches(batches, addr);
}

proof fn all_batches(batches: Seq<Vec<PeerAddr>>, addr: PeerAddr)
    ensures
        concatenated(batches).contains(addr) <==> exists|k: int|
            0 <= k < batches.len() && (#[trigger] batches[k])@.contains(addr),
    decreases batches.len(),
{
    if batches.len() > 0 {
        let head = batches.drop_last();
        let last = batches.last()@;
        all_batches(head, addr);
        let (a, all) = (concatenated(head), concatenated(batches));
        if all.contains(addr) {
            let i = choose|i: int| 0 <= i < all.len() && all[i] == addr;
            if i < a.len() {
                assert(a[i] == addr);
                let k = choose|k: int| 0 <= k < head.len() && (#[trigger] head[k])@.contains(addr);
                assert(batches[k]@.contains(addr));
            } else {
                assert(last[i - a.len()] == addr);
                assert(batches[batches.len() - 1]@.contains(addr));
            }
        }
        if exists|k: int| 0 <= k < batches.len() && (#[trigger] batches[k])@.contains(addr) {
            let k = choose|k: int|
                0 <= k < batches.len() && (#[trigger] batches[k])@.contains(addr);
            if k < head.len() {
                assert(head[k]@.contains(addr));
                let i = choose|i: int| 0 <= i < a.len() && a[i] == addr;
                assert(all[i] == addr);
            } else {
                let i = choose|i: int| 0 <= i < last.len() && last[i] == addr;
                assert(all[a.len() + i] == addr);
            }
        }
    }
}

} // verus!
