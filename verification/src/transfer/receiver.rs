//! Receiving a file: accept the manifest, go on from what is there already, take in the
//! chunks, ask again for the bad ones.

use std::collections::HashSet;

use vstd::prelude::*;

use crate::crypto::noise;
use crate::error;
use crate::error::{Error, Result};
use crate::session::chunk;
use crate::session::PeerSession;
use crate::text;
use crate::transfer::manifest;
use crate::transfer::manifest::{ControlMessage, FileManifest, TransferMode};
use crate::transfer::progress;
use crate::transfer::progress::Progress;
use crate::transfer::resume;
use crate::transfer::resume::TransferState;

verus! {

/// The state is saved once for so many chunks.
pub const STATE_SAVE_INTERVAL: u32 = 16;

/// Why a transfer is not taken up: the error, and what to tell the sender first.
pub struct Refusal {
    pub reply: Option<ControlMessage>,
    pub error: Error,
}

/// A transfer that is being received.
pub struct Receiver {
    pub manifest: FileManifest,
    pub state: TransferState,
    /// The chunks that are still to come.
    pub pending: HashSet<u32>,
    pub chunks_since_save: u32,
    /// The bytes of the chunks that are there.
    pub done_bytes: u64,
}

/// What to do about a chunk that has arrived.
pub enum ChunkAction {
    /// Nothing: it is there already.
    Skip,
    /// Ask the sender for it again.
    Nack,
    /// Write `data` at `offset`; then save the state if `save` says so.
    Write { offset: u64, data: Vec<u8>, save: bool },
}

// ── The start ──────────────────────────────────────────────────────────────────

/// `name` names a file in a directory, and nothing outside of it: it is not empty, none of
/// the two names that lead elsewhere, and holds neither a slash nor the machine's own
/// separator, nor, where that is a backslash and paths have drives, a colon.
pub open spec fn is_plain_name(name: Seq<char>, separator: char) -> bool {
    &&& name.len() > 0
    &&& name != "."@
    &&& name != ".."@
    &&& forall|i: int|
        0 <= i < name.len() ==> #[trigger] name[i] != '/' && name[i] != separator && !(separator
            == '\\' && name[i] == ':')
}

/// Whether `name` names a file in a directory, and nothing outside of it, on a machine whose
/// paths have this separator.
pub fn plain_name(name: &str, separator: char) -> (r: bool)
    ensures
        r == is_plain_name(name@, separator),
{
    if text::equal(name, ".") || text::equal(name, "..") {
        return false;
    }
    let chars = text::chars_of(name);
    let mut i: usize = 0;
    while i < chars.len()
        invariant
            i <= chars@.len(),
            chars@ == name@,
            forall|j: int|
                0 <= j < i ==> #[trigger] name@[j] != '/' && name@[j] != separator && !(separator
                    == '\\' && name@[j] == ':'),
        decreases chars@.len() - i,
    {
        let c: char = chars[i];
        if c == '/' || c == separator || separator == '\\' && c == ':' {
            assert(name@[i as int] == c);
            return false;
        }
        i = i + 1;
    }
    chars.len() > 0
}

/// `r` turns a transfer down, with this reply to the sender and this error.
pub open spec fn turned_down(
    r: std::result::Result<FileManifest, Refusal>,
    code: u32,
    reply: Seq<char>,
    error: Seq<char>,
) -> bool {
    &&& r is Err
    &&& r->Err_0.reply is Some
    &&& r->Err_0.reply->0 is Error
    &&& r->Err_0.reply->0->code == code
    &&& r->Err_0.reply->0->message@ == reply
    &&& r->Err_0.error is ConnectionFailed
    &&& r->Err_0.error->ConnectionFailed_0@ == error
}

/// Turns a transfer down.
fn turn_down(code: u32, reply: &str, error: &str) -> (r: std::result::Result<FileManifest, Refusal>)
    ensures
        turned_down(r, code, reply@, error@),
{
    Err(
        Refusal {
            reply: Some(ControlMessage::Error { code, message: reply.to_string() }),
            error: Error::ConnectionFailed(error.to_string()),
        },
    )
}

/// Takes the first message of a transfer, which must be a manifest of a mode that is
/// carried out, with a file name that stays within the output directory on a machine whose
/// paths have this separator.
pub fn accept_manifest(msg: ControlMessage, separator: char) -> (r: std::result::Result<
    FileManifest,
    Refusal,
>)
    ensures
        match msg {
            ControlMessage::Manifest(m) => match m.transfer_mode {
                TransferMode::Bulk => if is_plain_name(m.filename@, separator) {
                    r is Ok && r->Ok_0 == m
                } else {
                    turned_down(r, 2, "Invalid file name"@, "file name is not a plain name"@)
                },
                TransferMode::Streaming(_) => turned_down(
                    r,
                    1,
                    "Streaming mode not implemented"@,
                    "streaming mode not supported"@,
                ),
            },
            other => {
                &&& r is Err
                &&& r->Err_0.reply is None
                &&& r->Err_0.error is ConnectionFailed
                &&& r->Err_0.error->ConnectionFailed_0@ == "expected Manifest, got "@
                    + other.shown()
            },
        },
{
    match msg {
        ControlMessage::Manifest(m) => match m.transfer_mode {
            TransferMode::Bulk => if plain_name(&m.filename, separator) {
                Ok(m)
            } else {
                turn_down(2, "Invalid file name", "file name is not a plain name")
            },
            TransferMode::Streaming(_) => turn_down(
                1,
                "Streaming mode not implemented",
                "streaming mode not supported",
            ),
        },
        other => {
            let shown = other.show();
            Err(
                Refusal {
                    reply: None,
                    error: Error::ConnectionFailed(
                        error::prefixed("expected Manifest, got ", &shown),
                    ),
                },
            )
        },
    }
}

impl Receiver {
    /// What is pending is what is missing, the state was saved lately, and the bytes are
    /// counted, unless the state is not of this file.
    pub open spec fn valid(&self) -> bool {
        &&& forall|i: u32| #[trigger]
            self.pending@.contains(i) <==> i < self.state.manifest.chunk_count
                && !self.state.chunks_done@.contains(i)
        &&& self.chunks_since_save < STATE_SAVE_INTERVAL
        &&& self.done_in_file() ==> self.done_bytes == self.bytes_there()
    }

    /// The bytes of the chunks that are there.
    pub open spec fn bytes_there(&self) -> int {
        resume::bytes_in(
            self.state.chunks_done@,
            self.manifest.chunk_size,
            self.manifest.total_size,
        )
    }

    /// Takes up the transfer of the file that `m` describes, from the start or from a
    /// saved state, and gives the reply to the sender.
    pub fn start(m: FileManifest, saved: Option<TransferState>, output_path: String) -> (r: (
        Receiver,
        ControlMessage,
    ))
        ensures
            r.0.valid(),
            r.0.manifest == m,
            r.0.chunks_since_save == 0,
            match saved {
                Some(state) => {
                    &&& r.0.state == state
                    &&& r.1 is ResumeRequest
                    &&& resume::lists(r.1->have_chunks@, state.chunks_done@)
                },
                None => {
                    &&& r.0.state.session_id == m.session_id
                    &&& r.0.state.manifest == m
                    &&& r.0.state.chunks_done@ == Set::<u32>::empty()
                    &&& r.0.state.output_path == output_path
                    &&& r.1 is ManifestAck
                },
            },
    {
        match saved {
            Some(state) => {
                let have_chunks = resume::listed(&state.chunks_done);
                (Receiver::of(m, state), ControlMessage::ResumeRequest { have_chunks })
            },
            None => {
                let state = TransferState::new(m.clone(), output_path);
                (Receiver::of(m, state), ControlMessage::ManifestAck)
            },
        }
    }

    /// The transfer of the file that `m` describes, as far as `state` has it.
    fn of(m: FileManifest, state: TransferState) -> (r: Receiver)
        ensures
            r.valid(),
            r.manifest == m,
            r.state == state,
            r.chunks_since_save == 0,
    {
        let pending = pending_of(&state);
        let done_bytes: u64 = if resume::all_start_in_file(
            &state.chunks_done,
            m.chunk_size,
            m.total_size,
        ) {
            state.bytes_done(m.chunk_size, m.total_size)
        } else {
            0
        };
        Receiver { manifest: m, state, pending, chunks_since_save: 0, done_bytes }
    }

    /// The chunks that are there already all start within the file.
    pub open spec fn done_in_file(&self) -> bool {
        resume::all_in_file(
            self.state.chunks_done@,
            self.manifest.chunk_size,
            self.manifest.total_size,
        )
    }

    /// Whether the chunks that are there already all start within the file. A saved state
    /// that does not belong to the file may say otherwise.
    pub fn is_done_in_file(&self) -> (r: bool)
        ensures
            r == self.done_in_file(),
    {
        resume::all_start_in_file(
            &self.state.chunks_done,
            self.manifest.chunk_size,
            self.manifest.total_size,
        )
    }

    /// Sets the progress to what is there already.
    pub fn begin_progress(&self, p: &mut Progress)
        requires
            self.valid(),
            self.done_in_file(),
        ensures
            final(p).total == self.manifest.total_size,
            final(p).done == self.bytes_there(),
    {
        progress::reset(p, self.manifest.total_size);
        if self.done_bytes > 0 {
            progress::advance(p, self.done_bytes);
        }
    }

    /// The report to the sender: how many bytes are received, decrypted and authenticated
    /// so far.
    pub fn report(&self) -> (msg: ControlMessage)
        requires
            self.valid(),
            self.done_in_file(),
        ensures
            msg is Progress,
            msg->bytes == self.bytes_there(),
            msg->bytes <= self.manifest.total_size,
    {
        proof {
            resume::bytes_below_bounded(
                self.state.chunks_done@,
                self.manifest.chunk_size,
                self.manifest.total_size,
                0x1_0000_0000,
            );
        }
        ControlMessage::Progress { bytes: self.done_bytes }
    }

    /// Whether all chunks are there.
    pub fn is_done(&self) -> (r: bool)
        ensures
            r == (self.pending@ == Set::<u32>::empty()),
    {
        let r = self.pending.is_empty();
        assert(r ==> self.pending@ =~= Set::<u32>::empty());
        r
    }

    // ── Chunks ─────────────────────────────────────────────────────────────────

    /// The longest payload that a chunk may come in.
    pub open spec fn max_payload(&self) -> int {
        self.manifest.chunk_size + self.manifest.chunk_size / 2048 + 4096
    }

    /// Refuses a chunk whose payload is longer than any chunk of the file can be.
    pub fn check_frame(&self, index: u32, payload_len: u32) -> (r: Result<()>)
        ensures
            payload_len <= self.max_payload() ==> r is Ok,
            payload_len <= chunk::sealed_len(self.manifest.chunk_size as nat) ==> r is Ok,
            payload_len > self.max_payload() ==> error::failed_with(
                r,
                "chunk "@ + text::digits(index as nat) + " payload_len "@ + text::digits(
                    payload_len as nat,
                ) + " exceeds max "@ + text::digits(self.max_payload() as nat),
            ),
    {
        let size: u64 = self.manifest.chunk_size as u64;
        let max: u64 = size + size / 2048 + 4096;
        if payload_len as u64 > max {
            let mut s = "chunk ".to_string();
            s.append(&text::decimal(index as u64));
            s.append(" payload_len ");
            s.append(&text::decimal(payload_len as u64));
            s.append(" exceeds max ");
            s.append(&text::decimal(max));
            Err(Error::ConnectionFailed(s))
        } else {
            Ok(())
        }
    }

    /// Chunk `index`, decrypted to `plain`, is as long as the file has it there.
    pub open spec fn acceptable(&self, index: u32, plain: Option<Seq<u8>>) -> bool {
        plain is Some && plain->0.len() == manifest::chunk_len(
            index,
            self.manifest.chunk_size,
            self.manifest.total_size,
        )
    }

    /// `after` is `self` with chunk `index` taken in.
    pub open spec fn with_chunk(&self, index: u32, after: Receiver) -> bool {
        &&& after.manifest == self.manifest
        &&& after.state.session_id == self.state.session_id
        &&& after.state.manifest == self.state.manifest
        &&& after.state.output_path == self.state.output_path
        &&& after.state.chunks_done@ == self.state.chunks_done@.insert(index)
        &&& after.pending@ == self.pending@.remove(index)
    }

    /// What becomes of chunk `index` of a direct transfer, decrypted to `plain`.
    ///
    /// A chunk that is not pending is passed over. One that did not decrypt, or that has
    /// not the length it must have, is asked for again, and nothing else changes. Any
    /// other is to be written where it belongs.
    pub open spec fn takes_in(
        &self,
        p: Progress,
        index: u32,
        plain: Option<Seq<u8>>,
        action: ChunkAction,
        after: Receiver,
        after_p: Progress,
    ) -> bool {
        if !self.pending@.contains(index) {
            action is Skip && after == *self && after_p == p
        } else if !self.acceptable(index, plain) {
            action is Nack && after == *self && after_p == p
        } else {
            &&& action is Write
            &&& action->offset == index * self.manifest.chunk_size
            &&& action->data@ == plain->0
            &&& action->save == (self.chunks_since_save + 1 == STATE_SAVE_INTERVAL)
            &&& self.with_chunk(index, after)
            &&& after.chunks_since_save == (if action->save {
                0
            } else {
                self.chunks_since_save + 1
            })
            &&& after_p.done == progress::advanced(p.done, plain->0.len() as u64)
            &&& after_p.total == p.total
        }
    }

    /// Decrypts a chunk of a direct transfer if it is pending.
    pub fn open_pending(&self, session: &PeerSession, index: u32, ciphertext: &[u8]) -> (r: Option<
        Result<Vec<u8>>,
    >)
        requires
            session.valid(),
        ensures
            r is Some <==> self.pending@.contains(index),
            r is Some ==> match chunk::opened_chunk(
                noise::receiving_key(session.noise),
                crate::session::nonce_of(index, 0),
                ciphertext@,
            ) {
                Ok(plain) => r->0 is Ok && r->0->Ok_0@ == plain,
                Err(e) => error::noise_failed_with(r->0, e),
            },
    {
        if self.pending.contains(&index) {
            Some(session.decrypt_chunk(index, ciphertext))
        } else {
            None
        }
    }

    /// Takes in a chunk of a direct transfer, decrypted or not.
    pub fn on_chunk(&mut self, p: &mut Progress, index: u32, opened: Result<Vec<u8>>) -> (r:
        ChunkAction)
        requires
            old(self).valid(),
            old(self).pending@.contains(index) && opened is Ok ==> manifest::in_file(
                index,
                old(self).manifest.chunk_size,
                old(self).manifest.total_size,
            ),
        ensures
            final(self).valid(),
            old(self).takes_in(*old(p), index, payload_of(opened), r, *final(self), *final(p)),
    {
        if !self.pending.contains(&index) {
            return ChunkAction::Skip;
        }
        let data = match opened {
            Ok(data) => data,
            Err(_) => {
                return ChunkAction::Nack;
            },
        };
        let expected: u32 = manifest::actual_chunk_size(
            index,
            self.manifest.chunk_size,
            self.manifest.total_size,
        );
        if data.len() as u64 != expected as u64 {
            return ChunkAction::Nack;
        }
        let offset: u64 = manifest::chunk_offset(index, self.manifest.chunk_size);
        progress::advance(p, data.len() as u64);
        self.pending.remove(&index);
        self.state.chunks_done.insert(index);
        proof {
            one_chunk_more(old(self), index);
        }
        self.done_bytes = self.done_bytes.wrapping_add(expected as u64);
        let save = self.chunks_since_save + 1 >= STATE_SAVE_INTERVAL;
        if save {
            self.chunks_since_save = 0;
        } else {
            self.chunks_since_save = self.chunks_since_save + 1;
        }
        ChunkAction::Write { offset, data, save }
    }

    /// What becomes of chunk `index` of a relayed transfer, decrypted to `plain`.
    ///
    /// One that did not decrypt, or that has not the length it must have, is asked for
    /// again, and nothing else changes. Any other is to be written where it belongs, even
    /// if it was there before.
    pub open spec fn takes_in_relayed(
        &self,
        index: u32,
        plain: Option<Seq<u8>>,
        action: ChunkAction,
        after: Receiver,
    ) -> bool {
        if !self.acceptable(index, plain) {
            action is Nack && after == *self
        } else {
            &&& action is Write
            &&& action->offset == index * self.manifest.chunk_size
            &&& action->data@ == plain->0
            &&& action->save == (after.state.chunks_done@.len() % 16 == 0)
            &&& self.with_chunk(index, after)
            &&& after.chunks_since_save == self.chunks_since_save
        }
    }

    /// Takes in a chunk of a relayed transfer, decrypted or not.
    pub fn on_relay_chunk(&mut self, index: u32, opened: Result<Vec<u8>>) -> (r: ChunkAction)
        requires
            old(self).valid(),
            opened is Ok ==> manifest::in_file(
                index,
                old(self).manifest.chunk_size,
                old(self).manifest.total_size,
            ),
        ensures
            final(self).valid(),
            old(self).takes_in_relayed(index, payload_of(opened), r, *final(self)),
    {
        let data = match opened {
            Ok(data) => data,
            Err(_) => {
                return ChunkAction::Nack;
            },
        };
        let expected: u32 = manifest::actual_chunk_size(
            index,
            self.manifest.chunk_size,
            self.manifest.total_size,
        );
        if data.len() as u64 != expected as u64 {
            return ChunkAction::Nack;
        }
        let offset: u64 = manifest::chunk_offset(index, self.manifest.chunk_size);
        self.pending.remove(&index);
        if self.state.chunks_done.insert(index) {
            proof {
                one_chunk_more(old(self), index);
            }
            self.done_bytes = self.done_bytes.wrapping_add(expected as u64);
        } else {
            assert(self.state.chunks_done@ =~= old(self).state.chunks_done@);
        }
        let save = self.state.chunks_done.len() % 16 == 0;
        ChunkAction::Write { offset, data, save }
    }
}

/// A chunk that was honestly sealed is let in, whatever the size of the chunks and however
/// much of one it is.
pub proof fn honest_frame_is_let_in(r: Receiver, len: nat)
    requires
        len <= r.manifest.chunk_size,
    ensures
        chunk::sealed_len(len) <= r.max_payload(),
{
    chunk::longer_chunks_are_longer_sealed(len, r.manifest.chunk_size as nat);
}

/// What is let in is up to 4 KiB, and a byte for each 2 KiB, more than a chunk of the file,
/// and no sender can make the receiver wait for more.
pub proof fn little_more_than_a_chunk_is_let_in(r: Receiver, payload_len: u32)
    ensures
        payload_len <= r.max_payload() <==> payload_len <= 4096 + r.manifest.chunk_size
            + r.manifest.chunk_size / 2048,
{
}

/// One chunk more is its bytes more, and never more bytes than the file has.
proof fn one_chunk_more(r: &Receiver, index: u32)
    requires
        !r.state.chunks_done@.contains(index),
        manifest::in_file(index, r.manifest.chunk_size, r.manifest.total_size),
    ensures
        ({
            let done = r.state.chunks_done@;
            let (size, total) = (r.manifest.chunk_size, r.manifest.total_size);
            &&& resume::all_in_file(done.insert(index), size, total) ==> {
                &&& r.done_in_file()
                &&& resume::bytes_in(done.insert(index), size, total) <= total
            }
            &&& resume::bytes_in(done.insert(index), size, total) == r.bytes_there()
                + manifest::chunk_len(index, size, total)
        }),
{
    let done = r.state.chunks_done@;
    let (size, total) = (r.manifest.chunk_size, r.manifest.total_size);
    resume::bytes_below_insert(done, index, size, total, 0x1_0000_0000);
    if resume::all_in_file(done.insert(index), size, total) {
        assert forall|i: u32| done.contains(i) implies #[trigger] manifest::in_file(
            i,
            size,
            total,
        ) by {
            assert(done.insert(index).contains(i));
        }
        resume::bytes_below_bounded(done.insert(index), size, total, 0x1_0000_0000);
    }
}

/// What is reported never falls from one chunk to the next, and never goes beyond the
/// size of the file.
pub proof fn reports_never_fall(before: Receiver, after: Receiver, index: u32)
    requires
        before.done_in_file(),
        before.with_chunk(index, after),
        manifest::in_file(index, before.manifest.chunk_size, before.manifest.total_size),
    ensures
        after.done_in_file(),
        before.bytes_there() <= after.bytes_there() <= after.manifest.total_size,
{
    let done = before.state.chunks_done@;
    let (size, total) = (before.manifest.chunk_size, before.manifest.total_size);
    assert forall|i: u32| done.insert(index).contains(i) implies #[trigger] manifest::in_file(
        i,
        size,
        total,
    ) by {
        if i != index {
            assert(done.contains(i));
        }
    }
    if done.contains(index) {
        assert(done.insert(index) =~= done);
        resume::bytes_below_bounded(done, size, total, 0x1_0000_0000);
    } else {
        one_chunk_more(&before, index);
    }
}

/// When a transfer of a manifest that covers its file is complete, the report is the size
/// of the file.
pub proof fn last_report_is_the_size(r: Receiver)
    requires
        r.valid(),
        r.done_in_file(),
        r.manifest.covers(),
        r.state.manifest.chunk_count == r.manifest.chunk_count,
        r.pending@ == Set::<u32>::empty(),
    ensures
        r.bytes_there() == r.manifest.total_size,
{
    let n = r.manifest.chunk_count as nat;
    assert forall|i: u32| i < n implies #[trigger] r.state.chunks_done@.contains(i) by {
        assert(!r.pending@.contains(i));
    }
    resume::bytes_of_all(
        r.state.chunks_done@,
        r.manifest.chunk_size,
        r.manifest.total_size,
        n,
    );
    resume::bytes_below_grow(
        r.state.chunks_done@,
        r.manifest.chunk_size,
        r.manifest.total_size,
        n,
        0x1_0000_0000,
    );
    resume::bytes_below_bounded(
        r.state.chunks_done@,
        r.manifest.chunk_size,
        r.manifest.total_size,
        0x1_0000_0000,
    );
}

/// What was decrypted, if anything was.
pub open spec fn payload_of(opened: Result<Vec<u8>>) -> Option<Seq<u8>> {
    match opened {
        Ok(data) => Some(data@),
        Err(_) => None,
    }
}

/// What was decrypted, if anything was.
pub open spec fn opened_payload(opened: std::result::Result<Seq<u8>, Seq<char>>) -> Option<
    Seq<u8>,
> {
    match opened {
        Ok(data) => Some(data),
        Err(_) => None,
    }
}

/// The chunks that `state` misses, as a set.
fn pending_of(state: &TransferState) -> (pending: HashSet<u32>)
    ensures
        forall|i: u32| #[trigger]
            pending@.contains(i) <==> i < state.manifest.chunk_count
                && !state.chunks_done@.contains(i),
{
    let missing = state.missing_chunks();
    let mut pending: HashSet<u32> = HashSet::new();
    let mut i: usize = 0;
    while i < missing.len()
        invariant
            i <= missing@.len(),
            forall|x: u32| #[trigger]
                pending@.contains(x) <==> exists|k: int| 0 <= k < i && missing@[k] == x,
        decreases missing@.len() - i,
    {
        pending.insert(missing[i]);
        i = i + 1;
    }
    proof {
        assert forall|x: u32| #[trigger] pending@.contains(x) <==> x < state.manifest.chunk_count
            && !state.chunks_done@.contains(x) by {
            resume::missing_contains(
                state.chunks_done@,
                state.manifest.chunk_count as nat,
                x,
            );
            if missing@.contains(x) {
                let k = choose|k: int| 0 <= k < missing@.len() && missing@[k] == x;
                assert(missing@[k] == x);
            }
        }
    }
    pending
}

// ── Laws ───────────────────────────────────────────────────────────────────────

/// Where paths have slashes, every name is plain but the empty one, the two that lead
/// elsewhere, and those with a slash. Where they have backslashes and drives, those with a
/// backslash or a colon are not plain either.
pub proof fn which_names_are_plain(name: Seq<char>)
    ensures
        is_plain_name(name, '/') <==> name.len() > 0 && name != "."@ && name != ".."@
            && !name.contains('/'),
        is_plain_name(name, '\\') <==> is_plain_name(name, '/') && !name.contains('\\')
            && !name.contains(':'),
{
    if is_plain_name(name, '/') && !name.contains('\\') && !name.contains(':') {
        assert forall|i: int| 0 <= i < name.len() implies #[trigger] name[i] != '/' && name[i]
            != '\\' && name[i] != ':' by {
            assert(name.contains(name[i]));
        }
    }
    if name.len() > 0 && name != "."@ && name != ".."@ && !name.contains('/') {
        assert forall|i: int| 0 <= i < name.len() implies #[trigger] name[i] != '/' by {
            assert(name.contains(name[i]));
        }
    }
}

/// A path is never a plain name, whatever it starts and ends with.
pub proof fn paths_are_not_plain(head: Seq<char>, tail: Seq<char>, separator: char)
    ensures
        !is_plain_name(head.push('/') + tail, separator),
        !is_plain_name(head.push(separator) + tail, separator),
        !is_plain_name("."@, separator),
        !is_plain_name(".."@, separator),
        !is_plain_name(Seq::empty(), separator),
{
    assert((head.push('/') + tail)[head.len() as int] == '/');
    assert((head.push(separator) + tail)[head.len() as int] == separator);
}

/// A transfer that is turned down tells the sender why before it fails.
pub proof fn turning_down_tells_why(
    r: std::result::Result<FileManifest, Refusal>,
    code: u32,
    reply: Seq<char>,
    error: Seq<char>,
)
    requires
        turned_down(r, code, reply, error),
    ensures
        r is Err,
        r->Err_0.reply is Some,
        r->Err_0.reply->0 is Error,
        r->Err_0.reply->0->code == code,
        r->Err_0.reply->0->message@ == reply,
        r->Err_0.error is ConnectionFailed,
        r->Err_0.error->ConnectionFailed_0@ == error,
{
}

/// What is waited for is what the state misses, chunk by chunk.
pub proof fn pending_is_what_is_missing(r: Receiver, index: u32)
    requires
        r.valid(),
    ensures
        r.pending@.contains(index) <==> index < r.state.manifest.chunk_count
            && !r.state.chunks_done@.contains(index),
        r.chunks_since_save < 16,
{
}

/// A chunk that did not decrypt, or that is shorter or longer than the file has it, is asked
/// for again; nothing is written and nothing is counted.
pub proof fn bad_chunk_is_asked_for_again(
    before: Receiver,
    p: Progress,
    index: u32,
    plain: Option<Seq<u8>>,
    action: ChunkAction,
    after: Receiver,
    after_p: Progress,
)
    requires
        before.pending@.contains(index),
        plain is Some ==> plain->0.len() != manifest::chunk_len(
            index,
            before.manifest.chunk_size,
            before.manifest.total_size,
        ),
        before.takes_in(p, index, plain, action, after, after_p),
    ensures
        action is Nack,
        after == before,
        after_p == p,
{
}

/// A chunk that is not waited for is passed over, whatever it holds.
pub proof fn chunk_that_is_there_is_passed_over(
    before: Receiver,
    p: Progress,
    index: u32,
    plain: Option<Seq<u8>>,
    action: ChunkAction,
    after: Receiver,
    after_p: Progress,
)
    requires
        !before.pending@.contains(index),
        before.takes_in(p, index, plain, action, after, after_p),
    ensures
        action is Skip,
        after == before,
        after_p == p,
{
}

/// A chunk of the right length is written as it came, at its own place, and is then there:
/// it alone is no longer waited for, its bytes are counted, and the file stays the same. Of
/// sixteen chunks in a row one has the state saved.
pub proof fn good_chunk_is_taken_in(
    before: Receiver,
    p: Progress,
    index: u32,
    data: Seq<u8>,
    action: ChunkAction,
    after: Receiver,
    after_p: Progress,
    other: u32,
)
    requires
        before.valid(),
        before.pending@.contains(index),
        data.len() == manifest::chunk_len(
            index,
            before.manifest.chunk_size,
            before.manifest.total_size,
        ),
        before.takes_in(p, index, Some(data), action, after, after_p),
        p.done + data.len() <= u64::MAX,
    ensures
        action is Write,
        action->offset == index * before.manifest.chunk_size,
        action->data@ == data,
        after.manifest == before.manifest,
        after.state.manifest == before.state.manifest,
        after.state.session_id == before.state.session_id,
        after.state.output_path == before.state.output_path,
        after.state.chunks_done@.contains(index),
        !after.pending@.contains(index),
        other != index ==> after.state.chunks_done@.contains(other)
            == before.state.chunks_done@.contains(other),
        other != index ==> after.pending@.contains(other) == before.pending@.contains(other),
        after_p.done == p.done + data.len(),
        after_p.total == p.total,
        action->save <==> before.chunks_since_save == 15,
        after.chunks_since_save == (before.chunks_since_save + 1) % 16,
{
}

/// The same through the relay: what is bad is asked for again and changes nothing; what has
/// the right length is written at its own place and is then there.
pub proof fn relayed_chunk_is_taken_in_or_not(
    before: Receiver,
    index: u32,
    plain: Option<Seq<u8>>,
    action: ChunkAction,
    after: Receiver,
    other: u32,
)
    requires
        before.takes_in_relayed(index, plain, action, after),
    ensures
        ({
            let good = plain is Some && plain->0.len() == manifest::chunk_len(
                index,
                before.manifest.chunk_size,
                before.manifest.total_size,
            );
            &&& !good ==> action is Nack && after == before
            &&& good ==> {
                &&& action is Write
                &&& action->offset == index * before.manifest.chunk_size
                &&& action->data@ == plain->0
                &&& action->save <==> after.state.chunks_done@.len() % 16 == 0
                &&& after.manifest == before.manifest
                &&& after.state.manifest == before.state.manifest
                &&& after.state.session_id == before.state.session_id
                &&& after.state.output_path == before.state.output_path
                &&& after.state.chunks_done@.contains(index)
                &&& !after.pending@.contains(index)
                &&& other != index ==> after.state.chunks_done@.contains(other)
                    == before.state.chunks_done@.contains(other)
                &&& other != index ==> after.pending@.contains(other) == before.pending@.contains(
                    other,
                )
            }
        }),
{
}

/// What is reported counts every chunk that is there once: nothing at first, and one chunk
/// more is its bytes more.
pub proof fn report_counts_each_chunk_once(before: Receiver, after: Receiver, index: u32)
    requires
        before.with_chunk(index, after),
        manifest::in_file(index, before.manifest.chunk_size, before.manifest.total_size),
    ensures
        before.state.chunks_done@ == Set::<u32>::empty() ==> before.bytes_there() == 0,
        before.state.chunks_done@.contains(index) ==> after.bytes_there() == before.bytes_there(),
        !before.state.chunks_done@.contains(index) ==> after.bytes_there() == before.bytes_there()
            + manifest::chunk_len(index, before.manifest.chunk_size, before.manifest.total_size),
{
    let done = before.state.chunks_done@;
    resume::bytes_below_empty(
        before.manifest.chunk_size,
        before.manifest.total_size,
        0x1_0000_0000,
    );
    if done.contains(index) {
        assert(done.insert(index) =~= done);
    } else {
        one_chunk_more(&before, index);
    }
}

/// What was decrypted is what is taken in, and a failure is nothing.
pub proof fn payload_is_what_was_decrypted(opened: Result<Vec<u8>>)
    ensures
        opened is Ok ==> payload_of(opened) == Some(opened->Ok_0@),
        opened is Err ==> payload_of(opened) is None,
{
}

} // verus!
