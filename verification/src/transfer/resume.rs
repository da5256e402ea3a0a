//! Which chunks of a file are there already.

use std::collections::BTreeSet;

use vstd::prelude::*;

use crate::transfer::manifest;
use crate::transfer::manifest::FileManifest;

verus! {

/// A transfer in progress, as the receiver keeps it for a later attempt.
#[derive(Debug, Clone)]
pub struct TransferState {
    pub session_id: [u8; 20],
    pub manifest: FileManifest,
    /// The chunks that have been authenticated and written.
    pub chunks_done: BTreeSet<u32>,
    pub output_path: String,
}

/// The indices below `n` that are not in `done`, in ascending order.
pub open spec fn missing(done: Set<u32>, n: nat) -> Seq<u32>
    decreases n,
{
    if n == 0 {
        Seq::empty()
    } else if done.contains((n - 1) as u32) {
        missing(done, (n - 1) as nat)
    } else {
        missing(done, (n - 1) as nat).push((n - 1) as u32)
    }
}

/// The bytes of those chunks below `n` that are in `done`.
pub open spec fn bytes_below(done: Set<u32>, chunk_size: u32, total_size: u64, n: nat) -> int
    decreases n,
{
    if n == 0 {
        0
    } else {
        bytes_below(done, chunk_size, total_size, (n - 1) as nat) + if done.contains(
            (n - 1) as u32,
        ) {
            manifest::chunk_len((n - 1) as u32, chunk_size, total_size)
        } else {
            0
        }
    }
}

/// The bytes of the chunks in `done`.
pub open spec fn bytes_in(done: Set<u32>, chunk_size: u32, total_size: u64) -> int {
    bytes_below(done, chunk_size, total_size, 0x1_0000_0000)
}

/// Every chunk in `done` starts within the file.
pub open spec fn all_in_file(done: Set<u32>, chunk_size: u32, total_size: u64) -> bool {
    forall|i: u32| done.contains(i) ==> #[trigger] manifest::in_file(i, chunk_size, total_size)
}

/// `v` lists the members of `s` once each, in ascending order.
pub open spec fn lists(v: Seq<u32>, s: Set<u32>) -> bool {
    &&& forall|i: int, j: int| 0 <= i < j < v.len() ==> v[i] < v[j]
    &&& forall|x: u32| #[trigger] v.contains(x) <==> s.contains(x)
}

/// What is missing is what is below `n` and not there.
pub proof fn missing_contains(done: Set<u32>, n: nat, x: u32)
    requires
        n <= 0x1_0000_0000,
    ensures
        missing(done, n).contains(x) <==> x < n && !done.contains(x),
    decreases n,
{
    if n > 0 {
        let m = missing(done, (n - 1) as nat);
        missing_contains(done, (n - 1) as nat, x);
        if !done.contains((n - 1) as u32) {
            assert(missing(done, n) =~= m.push((n - 1) as u32));
            if x == n - 1 {
                assert(missing(done, n).last() == x);
                assert(missing(done, n).contains(x));
            } else {
                if m.contains(x) {
                    let k = choose|k: int| 0 <= k < m.len() && m[k] == x;
                    assert(missing(done, n)[k] == x);
                }
                if missing(done, n).contains(x) {
                    let k = choose|k: int|
                        0 <= k < missing(done, n).len() && missing(done, n)[k] == x;
                    assert(m[k] == x);
                }
            }
        }
    }
}

/// What is missing is in ascending order.
pub proof fn missing_ascends(done: Set<u32>, n: nat)
    requires
        n <= 0x1_0000_0000,
    ensures
        forall|i: int, j: int|
            0 <= i < j < missing(done, n).len() ==> missing(done, n)[i] < missing(done, n)[j],
        forall|i: int| 0 <= i < missing(done, n).len() ==> #[trigger] missing(done, n)[i] < n,
    decreases n,
{
    if n > 0 {
        let m = missing(done, (n - 1) as nat);
        missing_ascends(done, (n - 1) as nat);
        assert(missing(done, n) =~= m || missing(done, n) =~= m.push((n - 1) as u32));
        assert forall|i: int| 0 <= i < missing(done, n).len() implies #[trigger] missing(
            done,
            n,
        )[i] < n by {
            if i < m.len() {
                assert(m[i] < n - 1);
            }
        }
        assert forall|i: int, j: int| 0 <= i < j < missing(done, n).len() implies missing(
            done,
            n,
        )[i] < missing(done, n)[j] by {
            assert(m[i] < n - 1);
            if j < m.len() {
                assert(m[i] < m[j]);
            }
        }
    }
}

/// Chunks that do not overlap hold no more bytes than the file.
pub proof fn bytes_below_bounded(done: Set<u32>, chunk_size: u32, total_size: u64, n: nat)
    requires
        n <= 0x1_0000_0000,
        all_in_file(done, chunk_size, total_size),
    ensures
        0 <= bytes_below(done, chunk_size, total_size, n) <= total_size,
        bytes_below(done, chunk_size, total_size, n) <= n * chunk_size,
    decreases n,
{
    if n > 0 {
        let k = (n - 1) as nat;
        bytes_below_bounded(done, chunk_size, total_size, k);
        assert(n * chunk_size == k * chunk_size + chunk_size) by (nonlinear_arith)
            requires
                n == k + 1,
        ;
        if done.contains(k as u32) {
            assert(manifest::in_file(k as u32, chunk_size, total_size));
        }
    }
}

/// One chunk more is its bytes more.
pub proof fn bytes_below_insert(
    done: Set<u32>,
    x: u32,
    chunk_size: u32,
    total_size: u64,
    n: nat,
)
    requires
        n <= 0x1_0000_0000,
        !done.contains(x),
    ensures
        bytes_below(done.insert(x), chunk_size, total_size, n) == bytes_below(
            done,
            chunk_size,
            total_size,
            n,
        ) + if x < n {
            manifest::chunk_len(x, chunk_size, total_size)
        } else {
            0
        },
    decreases n,
{
    if n > 0 {
        bytes_below_insert(done, x, chunk_size, total_size, (n - 1) as nat);
    }
}

/// All chunks below `n` hold the bytes of the file up to the end of the last of them.
pub proof fn bytes_of_all(done: Set<u32>, chunk_size: u32, total_size: u64, n: nat)
    requires
        n <= 0x1_0000_0000,
        forall|i: u32| i < n ==> #[trigger] done.contains(i),
        all_in_file(done, chunk_size, total_size),
    ensures
        bytes_below(done, chunk_size, total_size, n) == if n * chunk_size < total_size {
            n * chunk_size
        } else {
            total_size as int
        },
    decreases n,
{
    if n > 0 {
        let k = (n - 1) as nat;
        bytes_of_all(done, chunk_size, total_size, k);
        assert(n * chunk_size == k * chunk_size + chunk_size) by (nonlinear_arith)
            requires
                n == k + 1,
        ;
        assert(done.contains(k as u32));
        assert(manifest::in_file(k as u32, chunk_size, total_size));
    } else {
        assert(n * chunk_size == 0) by (nonlinear_arith)
            requires
                n == 0,
        ;
    }
}

/// More chunks are no fewer bytes.
pub proof fn bytes_below_grow(
    done: Set<u32>,
    chunk_size: u32,
    total_size: u64,
    m: nat,
    n: nat,
)
    requires
        m <= n <= 0x1_0000_0000,
        all_in_file(done, chunk_size, total_size),
    ensures
        bytes_below(done, chunk_size, total_size, m) <= bytes_below(
            done,
            chunk_size,
            total_size,
            n,
        ),
    decreases n - m,
{
    if m < n {
        bytes_below_grow(done, chunk_size, total_size, m, (n - 1) as nat);
        if done.contains((n - 1) as u32) {
            assert(manifest::in_file((n - 1) as u32, chunk_size, total_size));
        }
    }
}

/// No chunks, no bytes.
pub proof fn bytes_below_empty(chunk_size: u32, total_size: u64, n: nat)
    ensures
        bytes_below(Set::empty(), chunk_size, total_size, n) == 0,
    decreases n,
{
    if n > 0 {
        bytes_below_empty(chunk_size, total_size, (n - 1) as nat);
    }
}

/// A sequence that the set's own order calls increasing ascends.
proof fn increasing_ascends(s: Seq<&u32>)
    requires
        vstd::std_specs::btree::increasing_seq(s),
    ensures
        forall|i: int, j: int| 0 <= i < j < s.len() ==> *s[i] < *s[j],
{
    assert(vstd::laws_cmp::obeys_cmp::<&u32>());
    assert forall|i: int, j: int| 0 <= i < j < s.len() implies *s[i] < *s[j] by {
        assert(vstd::std_specs::cmp::OrdSpec::cmp_spec(&s[i], &s[j]) is Less);
    }
}

/// The members of `set`, in ascending order.
pub fn listed(set: &BTreeSet<u32>) -> (v: Vec<u32>)
    ensures
        lists(v@, set@),
{
    let mut v: Vec<u32> = Vec::new();
    for x in it: set.iter()
        invariant
            v@ =~= it.seq().unref().subrange(0, it.index() as int),
    {
        v.push(*x);
    }
    proof {
        let all = vstd::std_specs::iter::IteratorSpec::remaining(
            &vstd::std_specs::btree::spec_btree_keys_iter(set),
        );
        assert(v@ =~= all.unref());
        increasing_ascends(all);
        assert forall|i: int, j: int| 0 <= i < j < v@.len() implies v@[i] < v@[j] by {
            assert(all[i] == &v@[i]);
            assert(all[j] == &v@[j]);
        }
        assert forall|x: u32| #[trigger] v@.contains(x) <==> set@.contains(x) by {
            assert(v@.to_set().contains(x) <==> v@.contains(x));
        }
    }
    v
}

/// Whether every chunk in `set` starts within the file.
pub fn all_start_in_file(set: &BTreeSet<u32>, chunk_size: u32, total_size: u64) -> (r: bool)
    ensures
        r == all_in_file(set@, chunk_size, total_size),
{
    let v = listed(set);
    let mut i: usize = 0;
    while i < v.len()
        invariant
            i <= v@.len(),
            lists(v@, set@),
            forall|j: int|
                0 <= j < i ==> manifest::in_file(#[trigger] v@[j], chunk_size, total_size),
        decreases v@.len() - i,
    {
        if !manifest::starts_in_file(v[i], chunk_size, total_size) {
            assert(v@.contains(v@[i as int]));
            return false;
        }
        i = i + 1;
    }
    assert forall|x: u32| set@.contains(x) implies #[trigger] manifest::in_file(
        x,
        chunk_size,
        total_size,
    ) by {
        assert(v@.contains(x));
    }
    true
}

/// The indices below `n`.
pub open spec fn indices(n: nat) -> Set<u32> {
    Set::new(|i: u32| i < n)
}

proof fn indices_len(n: nat)
    requires
        n <= 0x1_0000_0000,
    ensures
        indices(n).finite(),
        indices(n).len() == n,
    decreases n,
{
    if n == 0 {
        assert(indices(n) =~= Set::empty());
    } else {
        indices_len((n - 1) as nat);
        assert(indices(n) =~= indices((n - 1) as nat).insert((n - 1) as u32));
    }
}

impl TransferState {
    /// The chunks done are chunks of the manifest.
    pub open spec fn within(&self) -> bool {
        forall|i: u32| self.chunks_done@.contains(i) ==> i < self.manifest.chunk_count
    }

    /// A transfer of which nothing is done yet.
    pub fn new(manifest: FileManifest, output_path: String) -> (s: Self)
        ensures
            s.session_id == manifest.session_id,
            s.manifest == manifest,
            s.chunks_done@ == Set::<u32>::empty(),
            s.output_path == output_path,
    {
        TransferState {
            session_id: manifest.session_id,
            manifest,
            chunks_done: BTreeSet::new(),
            output_path,
        }
    }

    /// The chunks that are still to come, in ascending order.
    pub fn missing_chunks(&self) -> (v: Vec<u32>)
        ensures
            v@ == missing(self.chunks_done@, self.manifest.chunk_count as nat),
    {
        let mut v: Vec<u32> = Vec::new();
        let mut i: u32 = 0;
        while i < self.manifest.chunk_count
            invariant
                i <= self.manifest.chunk_count,
                v@ == missing(self.chunks_done@, i as nat),
            decreases self.manifest.chunk_count - i,
        {
            if !self.chunks_done.contains(&i) {
                v.push(i);
            }
            i = i + 1;
        }
        v
    }

    /// Whether as many chunks are done as there are.
    pub fn is_complete(&self) -> (r: bool)
        ensures
            r == (self.chunks_done@.len() == self.manifest.chunk_count),
    {
        self.chunks_done.len() as u64 == self.manifest.chunk_count as u64
    }

    /// The bytes of the chunks done, in a file of `total_size` bytes.
    pub fn bytes_done(&self, chunk_size: u32, total_size: u64) -> (r: u64)
        requires
            all_in_file(self.chunks_done@, chunk_size, total_size),
        ensures
            r == bytes_in(self.chunks_done@, chunk_size, total_size),
    {
        let v = listed(&self.chunks_done);
        let mut sum: u64 = 0;
        let mut i: usize = 0;
        let ghost mut seen: Set<u32> = Set::empty();
        proof {
            bytes_below_empty(chunk_size, total_size, 0x1_0000_0000);
        }
        while i < v.len()
            invariant
                i <= v@.len(),
                lists(v@, self.chunks_done@),
                all_in_file(self.chunks_done@, chunk_size, total_size),
                forall|x: u32| #[trigger] seen.contains(x) <==> v@.subrange(0, i as int).contains(x),
                sum == bytes_in(seen, chunk_size, total_size),
            decreases v@.len() - i,
        {
            let x: u32 = v[i];
            proof {
                assert(v@.contains(x));
                assert(self.chunks_done@.contains(x));
                assert(manifest::in_file(x, chunk_size, total_size));
                assert(!seen.contains(x));
                bytes_below_insert(seen, x, chunk_size, total_size, 0x1_0000_0000);
                assert forall|y: u32| #[trigger] seen.insert(x).contains(y) <==> v@.subrange(
                    0,
                    i + 1,
                ).contains(y) by {
                    let a = v@.subrange(0, i as int);
                    let b = v@.subrange(0, i + 1);
                    assert(b =~= a.push(x));
                    if b.contains(y) {
                        let k = choose|k: int| 0 <= k < b.len() && b[k] == y;
                        if k < i {
                            assert(a[k] == y);
                        }
                    }
                    if a.contains(y) {
                        let k = choose|k: int| 0 <= k < a.len() && a[k] == y;
                        assert(b[k] == y);
                    }
                    assert(b[i as int] == x);
                }
                assert(all_in_file(seen.insert(x), chunk_size, total_size)) by {
                    assert forall|y: u32| seen.insert(x).contains(y) implies #[trigger] manifest::in_file(
                        y,
                        chunk_size,
                        total_size,
                    ) by {
                        let b = v@.subrange(0, i + 1);
                        assert(b.contains(y));
                        let k = choose|k: int| 0 <= k < b.len() && b[k] == y;
                        assert(v@[k] == y);
                        assert(v@.contains(y));
                    }
                }
                bytes_below_bounded(seen.insert(x), chunk_size, total_size, 0x1_0000_0000);
            }
            sum = sum + manifest::actual_chunk_size(x, chunk_size, total_size) as u64;
            proof {
                seen = seen.insert(x);
            }
            i = i + 1;
        }
        proof {
            assert(v@.subrange(0, i as int) =~= v@);
            assert(seen =~= self.chunks_done@);
        }
        sum
    }
}

/// The saved state to go on from: one is of use only while the output file is there.
pub fn find_resumable(output_exists: bool, saved: Option<TransferState>) -> (r: Option<
    TransferState,
>)
    ensures
        r == (if output_exists {
            saved
        } else {
            None
        }),
{
    if output_exists {
        saved
    } else {
        None
    }
}

/// A state is complete exactly when no chunk is missing.
pub proof fn complete_means_nothing_missing(s: TransferState)
    requires
        s.within(),
    ensures
        s.chunks_done@.len() == s.manifest.chunk_count <==> missing(
            s.chunks_done@,
            s.manifest.chunk_count as nat,
        ).len() == 0,
{
    let n = s.manifest.chunk_count as nat;
    let done = s.chunks_done@;
    let m = missing(done, n);
    indices_len(n);
    assert(done.subset_of(indices(n)));
    vstd::set_lib::lemma_len_subset(done, indices(n));
    if done.len() == n {
        vstd::set_lib::lemma_subset_equality(done, indices(n));
        if m.len() > 0 {
            missing_contains(done, n, m[0]);
            assert(m.contains(m[0]));
            assert(indices(n).contains(m[0]));
        }
    }
    if m.len() == 0 {
        assert forall|i: u32| indices(n).contains(i) implies done.contains(i) by {
            missing_contains(done, n, i);
        }
        assert(done =~= indices(n));
    }
}

/// Each chunk of the manifest is either done or missing, and never both.
pub proof fn done_or_missing(s: TransferState, index: u32)
    requires
        index < s.manifest.chunk_count,
    ensures
        s.chunks_done@.contains(index) <==> !missing(
            s.chunks_done@,
            s.manifest.chunk_count as nat,
        ).contains(index),
{
    missing_contains(s.chunks_done@, s.manifest.chunk_count as nat, index);
}

/// A list names each member of its set once, and no one else, from the lowest to the
/// highest; there is only one such list.
pub proof fn list_is_the_set_in_order(v: Seq<u32>, w: Seq<u32>, s: Set<u32>, x: u32)
    requires
        lists(v, s),
    ensures
        v.contains(x) <==> s.contains(x),
        v.no_duplicates(),
        forall|i: int, j: int| 0 <= i < j < v.len() ==> v[i] < v[j],
        lists(w, s) && v.len() == w.len() ==> v == w,
{
    if lists(w, s) && v.len() == w.len() {
        assert forall|i: int| 0 <= i < v.len() implies v[i] == w[i] by {
            same_at(v, w, s, i);
        }
        assert(v =~= w);
    }
}

/// The first `i` members of two lists of one set are the same.
proof fn same_at(v: Seq<u32>, w: Seq<u32>, s: Set<u32>, i: int)
    requires
        lists(v, s),
        lists(w, s),
        v.len() == w.len(),
        0 <= i < v.len(),
    ensures
        v[i] == w[i],
    decreases i,
{
    assert forall|k: int| 0 <= k < i implies v[k] == w[k] by {
        same_at(v, w, s, k);
    }
    if v[i] < w[i] {
        assert(v.contains(v[i]));
        assert(w.contains(v[i]));
        let k = choose|k: int| 0 <= k < w.len() && w[k] == v[i];
        assert(k < i);
        assert(v[k] == w[k]);
    }
    if w[i] < v[i] {
        assert(w.contains(w[i]));
        assert(v.contains(w[i]));
        let k = choose|k: int| 0 <= k < v.len() && v[k] == w[i];
        assert(k < i);
        assert(v[k] == w[k]);
    }
}

/// The bytes that are there are those of the chunks that are there: none for none, and one
/// chunk more is its bytes more.
pub proof fn bytes_count_each_chunk_once(
    done: Set<u32>,
    index: u32,
    chunk_size: u32,
    total_size: u64,
)
    ensures
        bytes_in(Set::empty(), chunk_size, total_size) == 0,
        !done.contains(index) ==> bytes_in(done.insert(index), chunk_size, total_size) == bytes_in(
            done,
            chunk_size,
            total_size,
        ) + manifest::chunk_len(index, chunk_size, total_size),
{
    bytes_below_empty(chunk_size, total_size, 0x1_0000_0000);
    if !done.contains(index) {
        bytes_below_insert(done, index, chunk_size, total_size, 0x1_0000_0000);
    }
}

/// Chunks are in the file as long as each of them starts within it.
pub proof fn in_file_is_chunk_by_chunk(
    done: Set<u32>,
    index: u32,
    chunk_size: u32,
    total_size: u64,
)
    ensures
        all_in_file(Set::empty(), chunk_size, total_size),
        all_in_file(done.insert(index), chunk_size, total_size) <==> all_in_file(
            done,
            chunk_size,
            total_size,
        ) && index * chunk_size <= total_size || done.contains(index) && all_in_file(
            done,
            chunk_size,
            total_size,
        ),
{
    if done.contains(index) {
        assert(done.insert(index) =~= done);
    }
    if all_in_file(done.insert(index), chunk_size, total_size) {
        assert(done.insert(index).contains(index));
        assert(manifest::in_file(index, chunk_size, total_size));
        assert forall|i: u32| done.contains(i) implies #[trigger] manifest::in_file(
            i,
            chunk_size,
            total_size,
        ) by {
            assert(done.insert(index).contains(i));
        }
    }
}

} // verus!
