//! What the output file holds while its chunks are being written.

use vstd::prelude::*;

use crate::crypto::noise;
use crate::session::chunk;
use crate::transfer::manifest;
use crate::transfer::manifest::FileManifest;
use crate::transfer::progress::Progress;
use crate::transfer::receiver;
use crate::transfer::receiver::{ChunkAction, Receiver};
use crate::transfer::resume;

verus! {

/// `out` with `data` written at `offset`.
pub open spec fn written(out: Seq<u8>, offset: int, data: Seq<u8>) -> Seq<u8> {
    out.subrange(0, offset) + data + out.subrange(offset + data.len(), out.len() as int)
}

/// `out` agrees with `file` on every chunk in `done`.
pub open spec fn holds(out: Seq<u8>, file: Seq<u8>, done: Set<u32>, chunk_size: u32) -> bool {
    &&& out.len() == file.len()
    &&& file.len() <= u64::MAX
    &&& forall|i: u32| #[trigger]
        done.contains(i) ==> manifest::in_file(i, chunk_size, file.len() as u64)
            && manifest::chunk_of(out, i, chunk_size) == manifest::chunk_of(file, i, chunk_size)
}

/// Chunks do not overlap.
proof fn chunks_apart(i: u32, j: u32, chunk_size: u32)
    requires
        i < j,
    ensures
        i * chunk_size + chunk_size <= j * chunk_size,
{
    assert(i * chunk_size + chunk_size <= j * chunk_size) by (nonlinear_arith)
        requires
            i + 1 <= j,
            chunk_size >= 0,
    ;
}

/// Before anything is written, the output holds all of nothing.
pub proof fn nothing_held_at_first(out: Seq<u8>, file: Seq<u8>, chunk_size: u32)
    requires
        out.len() == file.len(),
        file.len() <= u64::MAX,
    ensures
        holds(out, file, Set::empty(), chunk_size),
{
}

/// Writing a chunk where it belongs adds it to what the output holds and leaves the rest
/// as it was.
pub proof fn writing_a_chunk_adds_it(
    out: Seq<u8>,
    file: Seq<u8>,
    done: Set<u32>,
    chunk_size: u32,
    index: u32,
)
    requires
        holds(out, file, done, chunk_size),
        manifest::in_file(index, chunk_size, file.len() as u64),
    ensures
        holds(
            written(out, index * chunk_size, manifest::chunk_of(file, index, chunk_size)),
            file,
            done.insert(index),
            chunk_size,
        ),
{
    let offset = index * chunk_size;
    let data = manifest::chunk_of(file, index, chunk_size);
    let total = file.len() as u64;
    let new = written(out, offset, data);
    assert(0 <= index * chunk_size) by (nonlinear_arith)
        requires
            index >= 0,
            chunk_size >= 0,
    ;
    assert(new.len() == out.len());
    assert forall|i: u32| #[trigger] done.insert(index).contains(i) implies manifest::in_file(
        i,
        chunk_size,
        total,
    ) && manifest::chunk_of(new, i, chunk_size) == manifest::chunk_of(file, i, chunk_size) by {
        let start = i * chunk_size;
        let len = manifest::chunk_len(i, chunk_size, total);
        assert(0 <= i * chunk_size) by (nonlinear_arith)
            requires
                i >= 0,
                chunk_size >= 0,
        ;
        if i == index {
            assert(manifest::chunk_of(new, i, chunk_size) =~= data);
        } else {
            assert(done.contains(i));
            if i < index {
                chunks_apart(i, index, chunk_size);
            } else {
                chunks_apart(index, i, chunk_size);
            }
            assert(manifest::chunk_of(new, i, chunk_size) =~= manifest::chunk_of(
                out,
                i,
                chunk_size,
            ));
        }
    }
}

/// Once the output holds every chunk of a manifest that covers the file, it is the file.
pub proof fn complete_output_is_the_file(
    m: FileManifest,
    out: Seq<u8>,
    file: Seq<u8>,
    done: Set<u32>,
)
    requires
        m.covers(),
        file.len() == m.total_size,
        holds(out, file, done, m.chunk_size),
        forall|i: u32| i < m.chunk_count ==> #[trigger] done.contains(i),
    ensures
        out == file,
{
    assert forall|k: int| 0 <= k < file.len() implies out[k] == file[k] by {
        let size = m.chunk_size as int;
        if size == 0 {
            assert(m.chunk_count * 0 == 0);
        } else {
            let q = k / size;
            vstd::arithmetic::div_mod::lemma_fundamental_div_mod(k, size);
            assert(size * q == q * size) by (nonlinear_arith);
            assert(q < m.chunk_count) by (nonlinear_arith)
                requires
                    q * size <= k,
                    k < m.chunk_count * size,
                    size > 0,
            ;
            assert(q >= 0) by (nonlinear_arith)
                requires
                    k >= 0,
                    size > 0,
                    q == k / size,
            ;
            let i = q as u32;
            assert(done.contains(i));
            let a = manifest::chunk_of(out, i, m.chunk_size);
            let b = manifest::chunk_of(file, i, m.chunk_size);
            let start = i * m.chunk_size;
            assert(start == q * size);
            assert(a[k - start] == out[k]);
            assert(b[k - start] == file[k]);
        }
    }
    assert(out =~= file);
}

/// A chunk of the file that the sender sealed opens, at the other end of the same
/// direction, to that chunk, which has the length that the receiver expects.
pub proof fn sent_chunk_arrives(
    from: snow::StatelessTransportState,
    to: snow::StatelessTransportState,
    nonce: u64,
    sealed: Seq<u8>,
    file: Seq<u8>,
    index: u32,
    chunk_size: u32,
)
    requires
        noise::linked(from, to),
        file.len() <= u64::MAX,
        manifest::in_file(index, chunk_size, file.len() as u64),
        chunk::opened_chunk(noise::sending_key(from), nonce, sealed)
            == std::result::Result::<Seq<u8>, Seq<char>>::Ok(
            manifest::chunk_of(file, index, chunk_size),
        ),
    ensures
        chunk::opened_chunk(noise::receiving_key(to), nonce, sealed)
            == std::result::Result::<Seq<u8>, Seq<char>>::Ok(
            manifest::chunk_of(file, index, chunk_size),
        ),
        manifest::chunk_of(file, index, chunk_size).len() == manifest::chunk_len(
            index,
            chunk_size,
            file.len() as u64,
        ),
{
    assert(0 <= index * chunk_size) by (nonlinear_arith)
        requires
            index >= 0,
            chunk_size >= 0,
    ;
}

/// A sealed chunk is never longer than what the receiver lets in.
pub proof fn sealed_chunk_is_let_in(len: nat, chunk_size: u32)
    requires
        len <= chunk_size,
    ensures
        chunk::sealed_len(len) <= chunk_size + chunk_size / 2048 + 4096,
{
}

// ── A whole transfer ───────────────────────────────────────────────────────────

/// The output holds, of `file`, every chunk that the receiver counts as done.
pub open spec fn faithful(r: Receiver, out: Seq<u8>, file: Seq<u8>) -> bool {
    &&& r.valid()
    &&& file.len() == r.manifest.total_size
    &&& holds(out, file, r.state.chunks_done@, r.manifest.chunk_size)
}

/// A fresh transfer is faithful, whatever the new output file holds.
pub proof fn fresh_transfer_is_faithful(r: Receiver, out: Seq<u8>, file: Seq<u8>)
    requires
        r.valid(),
        r.state.chunks_done@ == Set::<u32>::empty(),
        file.len() == r.manifest.total_size,
        out.len() == file.len(),
    ensures
        faithful(r, out, file),
{
    nothing_held_at_first(out, file, r.manifest.chunk_size);
}

/// A chunk that is taken in and written as it was sent keeps the transfer faithful.
pub proof fn taking_in_a_chunk_stays_faithful(
    before: Receiver,
    after: Receiver,
    index: u32,
    out: Seq<u8>,
    file: Seq<u8>,
)
    requires
        faithful(before, out, file),
        after.valid(),
        before.with_chunk(index, after),
        manifest::in_file(index, before.manifest.chunk_size, before.manifest.total_size),
    ensures
        faithful(
            after,
            written(
                out,
                index * before.manifest.chunk_size,
                manifest::chunk_of(file, index, before.manifest.chunk_size),
            ),
            file,
        ),
{
    writing_a_chunk_adds_it(
        out,
        file,
        before.state.chunks_done@,
        before.manifest.chunk_size,
        index,
    );
}

/// When a faithful transfer has nothing pending, the output is the file.
pub proof fn finished_transfer_gives_the_file(r: Receiver, out: Seq<u8>, file: Seq<u8>)
    requires
        faithful(r, out, file),
        r.manifest.covers(),
        r.state.manifest.chunk_count == r.manifest.chunk_count,
        r.pending@ == Set::<u32>::empty(),
    ensures
        out == file,
{
    assert forall|i: u32| i < r.manifest.chunk_count implies #[trigger] r.state.chunks_done@.contains(
        i,
    ) by {
        assert(!r.pending@.contains(i));
    }
    complete_output_is_the_file(r.manifest, out, file, r.state.chunks_done@);
}

/// A sender that leaves out what a resumed receiver lists sends exactly the chunks that
/// the receiver has pending.
pub proof fn resumed_sender_sends_what_is_pending(r: Receiver, have_chunks: Seq<u32>, index: u32)
    requires
        r.valid(),
        r.state.manifest.chunk_count == r.manifest.chunk_count,
        resume::lists(have_chunks, r.state.chunks_done@),
    ensures
        resume::missing(have_chunks.to_set(), r.manifest.chunk_count as nat).contains(index)
            <==> r.pending@.contains(index),
{
    resume::missing_contains(have_chunks.to_set(), r.manifest.chunk_count as nat, index);
    assert(have_chunks.to_set().contains(index) <==> have_chunks.contains(index));
}

/// A pending chunk that the sender sealed, and that arrives as it was sent, is written
/// where it belongs, and the transfer stays faithful.
pub proof fn honest_chunk_is_written(
    from: snow::StatelessTransportState,
    to: snow::StatelessTransportState,
    before: Receiver,
    p: Progress,
    index: u32,
    sealed: Seq<u8>,
    action: ChunkAction,
    after: Receiver,
    after_p: Progress,
    out: Seq<u8>,
    file: Seq<u8>,
)
    requires
        noise::linked(from, to),
        faithful(before, out, file),
        after.valid(),
        before.pending@.contains(index),
        manifest::in_file(index, before.manifest.chunk_size, before.manifest.total_size),
        chunk::opened_chunk(noise::sending_key(from), crate::session::nonce_of(index, 0), sealed)
            == std::result::Result::<Seq<u8>, Seq<char>>::Ok(
            manifest::chunk_of(file, index, before.manifest.chunk_size),
        ),
        before.takes_in(
            p,
            index,
            receiver::opened_payload(
                chunk::opened_chunk(
                    noise::receiving_key(to),
                    crate::session::nonce_of(index, 0),
                    sealed,
                ),
            ),
            action,
            after,
            after_p,
        ),
    ensures
        action is Write,
        faithful(after, written(out, action->offset as int, action->data@), file),
        after.pending@ == before.pending@.remove(index),
{
    sent_chunk_arrives(
        from,
        to,
        crate::session::nonce_of(index, 0),
        sealed,
        file,
        index,
        before.manifest.chunk_size,
    );
    taking_in_a_chunk_stays_faithful(before, after, index, out, file);
}

/// A chunk that the sender sealed for the relay, and that arrives as it was sent, is
/// written where it belongs, and the transfer stays faithful.
pub proof fn honest_relayed_chunk_is_written(
    from: snow::StatelessTransportState,
    to: snow::StatelessTransportState,
    before: Receiver,
    index: u32,
    sealed: Seq<u8>,
    action: ChunkAction,
    after: Receiver,
    out: Seq<u8>,
    file: Seq<u8>,
)
    requires
        noise::linked(from, to),
        faithful(before, out, file),
        after.valid(),
        manifest::in_file(index, before.manifest.chunk_size, before.manifest.total_size),
        chunk::opened_chunk(
            noise::sending_key(from),
            crate::session::nonce_of(index, 0),
            sealed,
        ) == std::result::Result::<Seq<u8>, Seq<char>>::Ok(
            manifest::chunk_of(file, index, before.manifest.chunk_size),
        ),
        before.takes_in_relayed(
            index,
            receiver::opened_payload(
                chunk::opened_chunk(
                    noise::receiving_key(to),
                    crate::session::nonce_of(index, 0),
                    sealed,
                ),
            ),
            action,
            after,
        ),
    ensures
        action is Write,
        faithful(after, written(out, action->offset as int, action->data@), file),
        after.pending@ == before.pending@.remove(index),
{
    sent_chunk_arrives(
        from,
        to,
        crate::session::nonce_of(index, 0),
        sealed,
        file,
        index,
        before.manifest.chunk_size,
    );
    taking_in_a_chunk_stays_faithful(before, after, index, out, file);
}

/// A pending chunk that arrives cut short is asked for again, and nothing else changes.
pub proof fn cut_chunk_is_asked_for_again(
    from: snow::StatelessTransportState,
    to: snow::StatelessTransportState,
    before: Receiver,
    p: Progress,
    index: u32,
    sealed: Seq<u8>,
    cut: int,
    action: ChunkAction,
    after: Receiver,
    after_p: Progress,
)
    requires
        noise::linked(from, to),
        before.pending@.contains(index),
        chunk::opened_chunk(
            noise::sending_key(from),
            crate::session::nonce_of(index, 0),
            sealed.subrange(0, cut),
        ) is Err,
        before.takes_in(
            p,
            index,
            receiver::opened_payload(
                chunk::opened_chunk(
                    noise::receiving_key(to),
                    crate::session::nonce_of(index, 0),
                    sealed.subrange(0, cut),
                ),
            ),
            action,
            after,
            after_p,
        ),
    ensures
        action is Nack,
        after == before,
        after_p == p,
{
}

/// `out` after the chunks `indices` of `file` have been written to it, one after the other.
pub open spec fn written_all(
    out: Seq<u8>,
    file: Seq<u8>,
    chunk_size: u32,
    indices: Seq<u32>,
) -> Seq<u8>
    decreases indices.len(),
{
    if indices.len() == 0 {
        out
    } else {
        written(
            written_all(out, file, chunk_size, indices.drop_last()),
            indices.last() * chunk_size,
            manifest::chunk_of(file, indices.last(), chunk_size),
        )
    }
}

proof fn written_all_holds(
    out: Seq<u8>,
    file: Seq<u8>,
    done: Set<u32>,
    chunk_size: u32,
    indices: Seq<u32>,
)
    requires
        holds(out, file, done, chunk_size),
        forall|k: int|
            0 <= k < indices.len() ==> manifest::in_file(
                #[trigger] indices[k],
                chunk_size,
                file.len() as u64,
            ),
    ensures
        holds(
            written_all(out, file, chunk_size, indices),
            file,
            done.union(indices.to_set()),
            chunk_size,
        ),
    decreases indices.len(),
{
    if indices.len() == 0 {
        assert(done.union(indices.to_set()) =~= done);
    } else {
        let head = indices.drop_last();
        written_all_holds(out, file, done, chunk_size, head);
        writing_a_chunk_adds_it(
            written_all(out, file, chunk_size, head),
            file,
            done.union(head.to_set()),
            chunk_size,
            indices.last(),
        );
        assert(done.union(indices.to_set()) =~= done.union(head.to_set()).insert(
            indices.last(),
        )) by {
            assert(indices =~= head.push(indices.last()));
            assert forall|x: u32| indices.contains(x) <==> head.contains(x) || x
                == indices.last() by {
                vstd::seq_lib::lemma_seq_contains_after_push(head, indices.last(), x);
            }
        }
    }
}

/// Chunks may arrive in any order, and more than once: whatever the output held before of
/// the chunks in `done`, once those and the ones that arrive are all chunks of the
/// manifest, the output is the file.
pub proof fn order_of_arrival_does_not_matter(
    m: FileManifest,
    out: Seq<u8>,
    file: Seq<u8>,
    done: Set<u32>,
    indices: Seq<u32>,
)
    requires
        m.covers(),
        file.len() == m.total_size,
        holds(out, file, done, m.chunk_size),
        forall|k: int| 0 <= k < indices.len() ==> #[trigger] indices[k] < m.chunk_count,
        forall|i: u32| #![trigger done.contains(i)]
            i < m.chunk_count ==> done.contains(i) || indices.contains(i),
    ensures
        written_all(out, file, m.chunk_size, indices) == file,
{
    written_all_holds(out, file, done, m.chunk_size, indices);
    assert forall|i: u32| i < m.chunk_count implies #[trigger] done.union(
        indices.to_set(),
    ).contains(i) by {
        assert(done.contains(i) || indices.contains(i));
    }
    complete_output_is_the_file(
        m,
        written_all(out, file, m.chunk_size, indices),
        file,
        done.union(indices.to_set()),
    );
}

/// Writing puts the bytes where they are told to go and leaves all others as they were.
pub proof fn writing_changes_its_place_only(out: Seq<u8>, offset: int, data: Seq<u8>, k: int)
    requires
        0 <= offset,
        offset + data.len() <= out.len(),
        0 <= k < out.len(),
    ensures
        written(out, offset, data).len() == out.len(),
        offset <= k < offset + data.len() ==> written(out, offset, data)[k] == data[k - offset],
        k < offset || offset + data.len() <= k ==> written(out, offset, data)[k] == out[k],
{
}

/// What the output is said to hold it holds byte by byte.
pub proof fn what_is_held_is_the_file(
    out: Seq<u8>,
    file: Seq<u8>,
    done: Set<u32>,
    chunk_size: u32,
    index: u32,
    k: int,
)
    requires
        holds(out, file, done, chunk_size),
        done.contains(index),
        0 <= k < manifest::chunk_len(index, chunk_size, file.len() as u64),
    ensures
        out.len() == file.len(),
        out[index * chunk_size + k] == file[index * chunk_size + k],
{
    manifest::chunk_holds_its_bytes(out, index, chunk_size, k);
    manifest::chunk_holds_its_bytes(file, index, chunk_size, k);
}

/// A chunk that a sender framed is received: its header tells which it is and how long, it
/// is let in, and it opens at the other end to what was sent.
pub proof fn framed_chunk_is_received(
    from: snow::StatelessTransportState,
    to: snow::StatelessTransportState,
    r: Receiver,
    index: u32,
    plain: Seq<u8>,
    sealed: Seq<u8>,
)
    requires
        noise::linked(from, to),
        plain.len() <= r.manifest.chunk_size,
        sealed.len() <= u32::MAX,
        chunk::piece_count(plain.len()) < 0x1_0000,
        chunk::seals(
            noise::sending_key(from),
            crate::session::nonce_of(index, 0),
            plain,
            sealed,
        ),
    ensures
        ({
            let frame = crate::session::peer_session::chunk_frame(index, sealed);
            let len = crate::wire::from_be32(frame.subrange(4, 8));
            &&& crate::wire::from_be32(frame.subrange(0, 8)) == index
            &&& len <= r.max_payload()
            &&& chunk::opened_chunk(
                noise::receiving_key(to),
                crate::session::nonce_of(index, 0),
                frame.subrange(8, 8 + len as int),
            ) == std::result::Result::<Seq<u8>, Seq<char>>::Ok(plain)
        }),
{
    crate::session::peer_session::chunk_header_of_frame(index, sealed);
    receiver::honest_frame_is_let_in(r, plain.len());
}

} // verus!
