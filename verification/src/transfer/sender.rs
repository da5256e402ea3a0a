//! Sending a file: offer the manifest, leave out what the receiver has, send the rest,
//! and again what the receiver asks for.

use std::collections::HashSet;

use vstd::prelude::*;

use crate::error;
use crate::error::{Error, Result};
use crate::transfer::manifest;
use crate::transfer::manifest::{ControlMessage, FileManifest};
use crate::transfer::progress;
use crate::transfer::progress::Progress;
use crate::transfer::resume;

verus! {

/// What is left to send once the receiver has answered the manifest.
pub struct SendPlan {
    /// The chunks to send, in this order.
    pub to_send: Vec<u32>,
    /// The bytes of the chunks that the receiver has already.
    pub initial_done: u64,
}

/// What to do about a control message that arrives while chunks are being sent.
#[derive(Debug)]
pub enum ControlAction {
    /// Go on.
    Continue,
    /// Send this chunk again.
    Resend(u32),
    /// The receiver has the whole file.
    Finished,
    /// Give up.
    Fail(Error),
}

/// Where a chunk lies in the file.
#[derive(Debug, Clone, Copy)]
pub struct Span {
    pub offset: u64,
    pub len: u32,
}

/// The chunks that the answer to the manifest says are there already.
pub open spec fn have_of(reply: ControlMessage) -> Set<u32> {
    match reply {
        ControlMessage::ResumeRequest { have_chunks } => have_chunks@.to_set(),
        _ => Set::empty(),
    }
}

/// Whether the chunks that the receiver says it has all start within the file.
pub fn is_reply_consistent(m: &FileManifest, reply: &ControlMessage) -> (r: bool)
    ensures
        r == resume::all_in_file(have_of(*reply), m.chunk_size, m.total_size),
{
    if let ControlMessage::ResumeRequest { have_chunks } = reply {
        let mut i: usize = 0;
        while i < have_chunks.len()
            invariant
                i <= have_chunks@.len(),
                have_of(*reply) == have_chunks@.to_set(),
                forall|j: int|
                    0 <= j < i ==> manifest::in_file(
                        #[trigger] have_chunks@[j],
                        m.chunk_size,
                        m.total_size,
                    ),
            decreases have_chunks@.len() - i,
        {
            if !manifest::starts_in_file(have_chunks[i], m.chunk_size, m.total_size) {
                assert(have_chunks@.to_set().contains(have_chunks@[i as int]));
                return false;
            }
            i = i + 1;
        }
        assert(resume::all_in_file(have_chunks@.to_set(), m.chunk_size, m.total_size)) by {
            assert forall|x: u32| have_chunks@.to_set().contains(x) implies #[trigger] manifest::in_file(
                x,
                m.chunk_size,
                m.total_size,
            ) by {
                assert(have_chunks@.contains(x));
            }
        }
    }
    true
}

/// Plans the transfer from the receiver's answer to the manifest.
pub fn plan(m: &FileManifest, reply: ControlMessage) -> (r: Result<SendPlan>)
    requires
        resume::all_in_file(have_of(reply), m.chunk_size, m.total_size),
    ensures
        match reply {
            ControlMessage::ManifestAck | ControlMessage::ResumeRequest { .. } => {
                &&& r is Ok
                &&& r->Ok_0.to_send@ == resume::missing(have_of(reply), m.chunk_count as nat)
                &&& r->Ok_0.initial_done == resume::bytes_in(
                    have_of(reply),
                    m.chunk_size,
                    m.total_size,
                )
            },
            other => error::failed_with(r, "unexpected response to manifest: "@ + other.shown()),
        },
{
    match reply {
        ControlMessage::ManifestAck => {
            let none: Vec<u32> = Vec::new();
            assert(none@.to_set() =~= Set::<u32>::empty());
            Ok(plan_without(m, &none))
        },
        ControlMessage::ResumeRequest { have_chunks } => Ok(plan_without(m, &have_chunks)),
        other => {
            let shown = other.show();
            Err(
                Error::ConnectionFailed(
                    error::prefixed("unexpected response to manifest: ", &shown),
                ),
            )
        },
    }
}

/// The plan that leaves out the chunks in `have`.
fn plan_without(m: &FileManifest, have: &Vec<u32>) -> (r: SendPlan)
    requires
        resume::all_in_file(have@.to_set(), m.chunk_size, m.total_size),
    ensures
        r.to_send@ == resume::missing(have@.to_set(), m.chunk_count as nat),
        r.initial_done == resume::bytes_in(have@.to_set(), m.chunk_size, m.total_size),
{
    let mut skip: HashSet<u32> = HashSet::new();
    let mut initial_done: u64 = 0;
    let mut i: usize = 0;
    proof {
        resume::bytes_below_empty(m.chunk_size, m.total_size, 0x1_0000_0000);
    }
    while i < have.len()
        invariant
            i <= have@.len(),
            resume::all_in_file(have@.to_set(), m.chunk_size, m.total_size),
            forall|x: u32| #[trigger]
                skip@.contains(x) <==> exists|k: int| 0 <= k < i && have@[k] == x,
            initial_done == resume::bytes_in(skip@, m.chunk_size, m.total_size),
        decreases have@.len() - i,
    {
        let x: u32 = have[i];
        let ghost before = skip@;
        proof {
            assert(have@.to_set().contains(x));
            assert(manifest::in_file(x, m.chunk_size, m.total_size));
            assert forall|y: u32| before.insert(x).contains(y) implies #[trigger] manifest::in_file(
                y,
                m.chunk_size,
                m.total_size,
            ) by {
                assert(have@.to_set().contains(y)) by {
                    if y != x {
                        let k = choose|k: int| 0 <= k < i && have@[k] == y;
                        assert(have@[k] == y);
                    }
                }
            }
        }
        if skip.insert(x) {
            proof {
                resume::bytes_below_insert(before, x, m.chunk_size, m.total_size, 0x1_0000_0000);
                resume::bytes_below_bounded(
                    before.insert(x),
                    m.chunk_size,
                    m.total_size,
                    0x1_0000_0000,
                );
            }
            initial_done = initial_done
                + manifest::actual_chunk_size(x, m.chunk_size, m.total_size) as u64;
        } else {
            assert(before.insert(x) =~= before);
        }
        i = i + 1;
    }
    assert(skip@ =~= have@.to_set()) by {
        assert forall|x: u32| #[trigger] skip@.contains(x) <==> have@.to_set().contains(x) by {
            if have@.contains(x) {
                let k = choose|k: int| 0 <= k < have@.len() && have@[k] == x;
                assert(have@[k] == x);
            }
        }
    }
    let mut to_send: Vec<u32> = Vec::new();
    let mut j: u32 = 0;
    while j < m.chunk_count
        invariant
            j <= m.chunk_count,
            skip@ == have@.to_set(),
            to_send@ == resume::missing(have@.to_set(), j as nat),
        decreases m.chunk_count - j,
    {
        if !skip.contains(&j) {
            to_send.push(j);
        }
        j = j + 1;
    }
    SendPlan { to_send, initial_done }
}

impl SendPlan {
    /// Sets the progress to what the receiver has already.
    pub fn begin_progress(&self, p: &mut Progress, total_size: u64)
        ensures
            final(p).total == total_size,
            final(p).done == self.initial_done,
    {
        progress::reset(p, total_size);
        if self.initial_done > 0 {
            progress::advance(p, self.initial_done);
        }
    }
}

/// Where chunk `index` lies in the file.
pub fn span(index: u32, chunk_size: u32, total_size: u64) -> (s: Span)
    requires
        manifest::in_file(index, chunk_size, total_size),
    ensures
        s.offset == index * chunk_size,
        s.len == manifest::chunk_len(index, chunk_size, total_size),
{
    Span {
        offset: manifest::chunk_offset(index, chunk_size),
        len: manifest::actual_chunk_size(index, chunk_size, total_size),
    }
}

/// Handles a control message that arrives while chunks are being sent.
///
/// The progress follows the receiver's reports of confirmed bytes, never what was
/// written locally.
pub fn on_control(msg: ControlMessage, p: &mut Progress, total_size: u64) -> (r: ControlAction)
    ensures
        final(p).total == old(p).total,
        match msg {
            ControlMessage::Progress { bytes } => r is Continue && final(p).done == bytes,
            ControlMessage::Complete => r is Finished && final(p).done == total_size,
            ControlMessage::ChunkNack { index } => {
                r == ControlAction::Resend(index) && final(p).done == old(p).done
            },
            ControlMessage::Error { message, .. } => {
                &&& r is Fail
                &&& r->Fail_0 is ConnectionFailed
                &&& r->Fail_0->ConnectionFailed_0@ == "receiver: "@ + message@
                &&& final(p).done == old(p).done
            },
            _ => r is Continue && final(p).done == old(p).done,
        },
{
    match msg {
        ControlMessage::Progress { bytes } => {
            progress::set_done(p, bytes);
            ControlAction::Continue
        },
        ControlMessage::Complete => {
            progress::set_done(p, total_size);
            ControlAction::Finished
        },
        ControlMessage::ChunkNack { index } => ControlAction::Resend(index),
        ControlMessage::Error { message, .. } => ControlAction::Fail(
            Error::ConnectionFailed(error::prefixed("receiver: ", &message)),
        ),
        _ => ControlAction::Continue,
    }
}

// ── The order of sending ───────────────────────────────────────────────────────

/// The sender's side of the data stream: planned chunks in order, and in between those
/// that the receiver asked for again.
pub struct SendLoop {
    pub to_send: Vec<u32>,
    /// How many of the planned chunks have been handed out.
    pub sent: usize,
    /// The chunks asked for again, in the order of the requests.
    pub nacks: Vec<u32>,
    /// How many of those have been handed out.
    pub served: usize,
    /// No more requests will come.
    pub closed: bool,
}

/// What to put on the data stream next.
#[derive(Debug, Clone, Copy)]
pub enum SendStep {
    /// A planned chunk.
    Send(u32),
    /// A chunk that was asked for again.
    Resend(u32),
    /// Nothing, until a request comes or no more can come.
    Wait,
    /// Nothing any more.
    Finished,
}

impl SendLoop {
    pub open spec fn valid(&self) -> bool {
        self.sent <= self.to_send@.len() && self.served <= self.nacks@.len()
    }

    /// Before the first planned chunk, or when no request is open, planned chunks are next.
    pub open spec fn planned_is_next(&self) -> bool {
        self.sent < self.to_send@.len() && (self.sent == 0 || self.served == self.nacks@.len())
    }

    pub fn new(to_send: Vec<u32>) -> (s: Self)
        ensures
            s.valid(),
            s.to_send == to_send,
            s.sent == 0,
            s.nacks@ == Seq::<u32>::empty(),
            s.served == 0,
            !s.closed,
    {
        SendLoop { to_send, sent: 0, nacks: Vec::new(), served: 0, closed: false }
    }

    /// Notes that chunk `index` was asked for again.
    pub fn request(&mut self, index: u32)
        requires
            old(self).valid(),
        ensures
            final(self).valid(),
            final(self).to_send == old(self).to_send,
            final(self).sent == old(self).sent,
            final(self).nacks@ == old(self).nacks@.push(index),
            final(self).served == old(self).served,
            final(self).closed == old(self).closed,
    {
        self.nacks.push(index);
    }

    /// Notes that no more requests will come.
    pub fn close(&mut self)
        requires
            old(self).valid(),
        ensures
            final(self).valid(),
            final(self).closed,
            final(self).to_send == old(self).to_send,
            final(self).sent == old(self).sent,
            final(self).nacks == old(self).nacks,
            final(self).served == old(self).served,
    {
        self.closed = true;
    }

    /// The planned chunk to read ahead while the last one handed out is being written.
    pub fn read_ahead(&self) -> (r: Option<u32>)
        requires
            self.valid(),
        ensures
            r == (if self.sent < self.to_send@.len() {
                Some(self.to_send@[self.sent as int])
            } else {
                None
            }),
    {
        if self.sent < self.to_send.len() {
            Some(self.to_send[self.sent])
        } else {
            None
        }
    }

    /// Hands out what to put on the data stream next.
    ///
    /// Requests that have come in are served before the next planned chunk, but not before
    /// the first. Once all planned chunks are out, requests are served as they come, until
    /// no more can come.
    pub fn next_step(&mut self) -> (r: SendStep)
        requires
            old(self).valid(),
        ensures
            final(self).valid(),
            final(self).to_send == old(self).to_send,
            final(self).nacks == old(self).nacks,
            final(self).closed == old(self).closed,
            if old(self).planned_is_next() {
                &&& r == SendStep::Send(old(self).to_send@[old(self).sent as int])
                &&& final(self).sent == old(self).sent + 1
                &&& final(self).served == old(self).served
            } else if old(self).served < old(self).nacks@.len() {
                &&& r == SendStep::Resend(old(self).nacks@[old(self).served as int])
                &&& final(self).sent == old(self).sent
                &&& final(self).served == old(self).served + 1
            } else {
                &&& r == (if old(self).closed {
                    SendStep::Finished
                } else {
                    SendStep::Wait
                })
                &&& final(self).sent == old(self).sent
                &&& final(self).served == old(self).served
            },
    {
        if self.sent < self.to_send.len() && (self.sent == 0 || self.served == self.nacks.len()) {
            let index: u32 = self.to_send[self.sent];
            self.sent = self.sent + 1;
            SendStep::Send(index)
        } else if self.served < self.nacks.len() {
            let index: u32 = self.nacks[self.served];
            self.served = self.served + 1;
            SendStep::Resend(index)
        } else if self.closed {
            SendStep::Finished
        } else {
            SendStep::Wait
        }
    }
}

/// Sending ends only when every planned chunk is out, every request has been served and
/// no more can come.
pub proof fn finished_means_all_sent(s: SendLoop)
    requires
        s.valid(),
        !s.planned_is_next(),
        s.served == s.nacks@.len(),
    ensures
        s.sent == s.to_send@.len(),
{
}

/// What the sender plans to send is exactly what the receiver waits for: of every chunk
/// of the manifest, either the receiver has it or the sender sends it.
pub proof fn plan_complements_request(have: Set<u32>, count: u32, index: u32)
    requires
        index < count,
    ensures
        resume::missing(have, count as nat).contains(index) <==> !have.contains(index),
{
    resume::missing_contains(have, count as nat, index);
}

/// What is planned is every chunk of the manifest that the receiver has not listed, in
/// ascending order; what it has listed counts as done, each chunk once.
pub proof fn plan_leaves_out_what_is_listed(have_chunks: Vec<u32>, count: u32, index: u32)
    ensures
        have_of(ControlMessage::ManifestAck) == Set::<u32>::empty(),
        have_of(ControlMessage::ResumeRequest { have_chunks }).contains(index)
            <==> have_chunks@.contains(index),
        resume::missing(
            have_of(ControlMessage::ResumeRequest { have_chunks }),
            count as nat,
        ).contains(index) <==> index < count && !have_chunks@.contains(index),
        resume::missing(have_of(ControlMessage::ManifestAck), count as nat).contains(index)
            <==> index < count,
{
    resume::missing_contains(
        have_of(ControlMessage::ResumeRequest { have_chunks }),
        count as nat,
        index,
    );
    resume::missing_contains(have_of(ControlMessage::ManifestAck), count as nat, index);
}

/// The first planned chunk goes out before any request is served; after it open requests go
/// before planned chunks, and with no request open planned chunks go out until none is left.
pub proof fn open_requests_go_first(s: SendLoop)
    requires
        s.valid(),
    ensures
        s.sent == 0 && s.to_send@.len() > 0 ==> s.planned_is_next(),
        s.sent > 0 && s.served < s.nacks@.len() ==> !s.planned_is_next(),
        s.sent < s.to_send@.len() && s.served == s.nacks@.len() ==> s.planned_is_next(),
        s.sent == s.to_send@.len() ==> !s.planned_is_next(),
{
}

} // verus!
