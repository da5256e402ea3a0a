//! What can go wrong, and how it is told.

use vstd::prelude::*;

use crate::text;

verus! {

/// An error. The text that a variant carries is that of the cause.
#[derive(Debug)]
pub enum Error {
    Io(String),
    Json(String),
    Database(String),
    QuicStream(String),
    QuicWrite(String),
    QuicReadToEnd(String),
    HolePunchTimeout,
    Quic(String),
    Noise(String),
    ConnectionFailed(String),
    PeerNotFound,
    ShareCodeExpired,
    IdentityMismatch,
    IdentityNotFound,
    ContactNotFound(String),
    Hex(String),
    Dht(String),
    MsgPack(String),
    ChunkHashMismatch { index: u32 },
    Transfer(String),
}

pub type Result<T> = std::result::Result<T, Error>;

/// `r` failed with `Error::ConnectionFailed` and this text.
pub open spec fn failed_with<T>(r: Result<T>, text: Seq<char>) -> bool {
    r is Err && r->Err_0 is ConnectionFailed && r->Err_0->ConnectionFailed_0@ == text
}

/// `r` failed with `Error::Noise` and this text.
pub open spec fn noise_failed_with<T>(r: Result<T>, text: Seq<char>) -> bool {
    r is Err && r->Err_0 is Noise && r->Err_0->Noise_0@ == text
}

impl Error {
    /// The sentence shown to the user.
    pub open spec fn text(&self) -> Seq<char> {
        match self {
            Error::Io(cause) => "I/O error: "@ + cause@,
            Error::Json(cause) => "JSON error: "@ + cause@,
            Error::Database(cause) => "Database error: "@ + cause@,
            Error::QuicStream(cause) => "QUIC read error: "@ + cause@,
            Error::QuicWrite(cause) => "QUIC write error: "@ + cause@,
            Error::QuicReadToEnd(cause) => "QUIC read-to-end error: "@ + cause@,
            Error::HolePunchTimeout => "Hole punch timed out — try again or check NAT type"@,
            Error::Quic(cause) => "QUIC error: "@ + cause@,
            Error::Noise(cause) => "Noise protocol error: "@ + cause@,
            Error::ConnectionFailed(cause) => "Connection failed: "@ + cause@,
            Error::PeerNotFound =>
                "Peer not found on DHT — code may be expired or peer is offline"@,
            Error::ShareCodeExpired => "Share code expired — please regenerate"@,
            Error::IdentityMismatch => "Identity mismatch — unexpected remote public key"@,
            Error::IdentityNotFound =>
                "Identity file not found; run `p2pshare identity` to create one"@,
            Error::ContactNotFound(cause) => "Contact not found: "@ + cause@,
            Error::Hex(cause) => "Hex decode error: "@ + cause@,
            Error::Dht(cause) => "DHT error: "@ + cause@,
            Error::MsgPack(cause) => "MessagePack error: "@ + cause@,
            Error::ChunkHashMismatch { index } => "Chunk hash mismatch for chunk "@ + text::digits(
                *index as nat,
            ),
            Error::Transfer(cause) => "transfer error: "@ + cause@,
        }
    }

    /// Writes the sentence shown to the user.
    pub fn message(&self) -> (s: String)
        ensures
            s@ == self.text(),
    {
        match self {
            Error::Io(cause) => prefixed("I/O error: ", cause),
            Error::Json(cause) => prefixed("JSON error: ", cause),
            Error::Database(cause) => prefixed("Database error: ", cause),
            Error::QuicStream(cause) => prefixed("QUIC read error: ", cause),
            Error::QuicWrite(cause) => prefixed("QUIC write error: ", cause),
            Error::QuicReadToEnd(cause) => prefixed("QUIC read-to-end error: ", cause),
            Error::HolePunchTimeout => {
                "Hole punch timed out — try again or check NAT type".to_string()
            },
            Error::Quic(cause) => prefixed("QUIC error: ", cause),
            Error::Noise(cause) => prefixed("Noise protocol error: ", cause),
            Error::ConnectionFailed(cause) => prefixed("Connection failed: ", cause),
            Error::PeerNotFound => {
                "Peer not found on DHT — code may be expired or peer is offline".to_string()
            },
            Error::ShareCodeExpired => "Share code expired — please regenerate".to_string(),
            Error::IdentityMismatch => {
                "Identity mismatch — unexpected remote public key".to_string()
            },
            Error::IdentityNotFound => {
                "Identity file not found; run `p2pshare identity` to create one".to_string()
            },
            Error::ContactNotFound(cause) => prefixed("Contact not found: ", cause),
            Error::Hex(cause) => prefixed("Hex decode error: ", cause),
            Error::Dht(cause) => prefixed("DHT error: ", cause),
            Error::MsgPack(cause) => prefixed("MessagePack error: ", cause),
            Error::ChunkHashMismatch { index } => {
                let number = text::decimal(*index as u64);
                prefixed("Chunk hash mismatch for chunk ", &number)
            },
            Error::Transfer(cause) => prefixed("transfer error: ", cause),
        }
    }
}

/// `head` and `cause`, one after the other.
pub fn prefixed(head: &str, cause: &str) -> (s: String)
    ensures
        s@ == head@ + cause@,
{
    let mut s = head.to_string();
    s.append(cause);
    s
}

/// Every error that has a cause ends with the cause, as it is.
pub proof fn message_ends_with_the_cause(cause: String)
    ensures
        ends_with(Error::Io(cause).text(), cause@),
        ends_with(Error::Json(cause).text(), cause@),
        ends_with(Error::Database(cause).text(), cause@),
        ends_with(Error::QuicStream(cause).text(), cause@),
        ends_with(Error::QuicWrite(cause).text(), cause@),
        ends_with(Error::QuicReadToEnd(cause).text(), cause@),
        ends_with(Error::Quic(cause).text(), cause@),
        ends_with(Error::Noise(cause).text(), cause@),
        ends_with(Error::ConnectionFailed(cause).text(), cause@),
        ends_with(Error::ContactNotFound(cause).text(), cause@),
        ends_with(Error::Hex(cause).text(), cause@),
        ends_with(Error::Dht(cause).text(), cause@),
        ends_with(Error::MsgPack(cause).text(), cause@),
        ends_with(Error::Transfer(cause).text(), cause@),
{
    tail_of("I/O error: "@, cause@);
    tail_of("JSON error: "@, cause@);
    tail_of("Database error: "@, cause@);
    tail_of("QUIC read error: "@, cause@);
    tail_of("QUIC write error: "@, cause@);
    tail_of("QUIC read-to-end error: "@, cause@);
    tail_of("QUIC error: "@, cause@);
    tail_of("Noise protocol error: "@, cause@);
    tail_of("Connection failed: "@, cause@);
    tail_of("Contact not found: "@, cause@);
    tail_of("Hex decode error: "@, cause@);
    tail_of("DHT error: "@, cause@);
    tail_of("MessagePack error: "@, cause@);
    tail_of("transfer error: "@, cause@);
}

/// `s` ends with `tail`.
pub open spec fn ends_with(s: Seq<char>, tail: Seq<char>) -> bool {
    s.len() >= tail.len() && s.subrange(s.len() - tail.len(), s.len() as int) == tail
}

proof fn tail_of(head: Seq<char>, tail: Seq<char>)
    ensures
        ends_with(head + tail, tail),
{
    assert((head + tail).subrange(head.len() as int, (head + tail).len() as int) =~= tail);
}

/// The errors of two chunks are told apart.
pub proof fn chunk_errors_differ(i: u32, j: u32)
    requires
        i != j,
    ensures
        (Error::ChunkHashMismatch { index: i }).text() != (Error::ChunkHashMismatch {
            index: j,
        }).text(),
{
    let head = "Chunk hash mismatch for chunk "@;
    let (a, b) = (head + text::digits(i as nat), head + text::digits(j as nat));
    if a == b {
        assert(a.len() == b.len());
        assert(text::digits(i as nat) =~= a.subrange(head.len() as int, a.len() as int));
        assert(text::digits(j as nat) =~= b.subrange(head.len() as int, b.len() as int));
        text::digits_tell_numbers_apart(i as nat, j as nat);
    }
}

/// A failure has its kind and its text, and no other text.
pub proof fn failure_has_one_text(r: Result<()>, text: Seq<char>, other: Seq<char>)
    ensures
        failed_with(r, text) ==> r is Err && r->Err_0 is ConnectionFailed,
        noise_failed_with(r, text) ==> r is Err && r->Err_0 is Noise,
        failed_with(r, text) && failed_with(r, other) ==> text == other,
        noise_failed_with(r, text) && noise_failed_with(r, other) ==> text == other,
        !(failed_with(r, text) && noise_failed_with(r, text)),
{
}

/// Every error starts with what it is about.
pub proof fn message_starts_with_its_subject(cause: String, index: u32)
    ensures
        "I/O error: "@.is_prefix_of(Error::Io(cause).text()),
        "JSON error: "@.is_prefix_of(Error::Json(cause).text()),
        "Database error: "@.is_prefix_of(Error::Database(cause).text()),
        "QUIC read error: "@.is_prefix_of(Error::QuicStream(cause).text()),
        "QUIC write error: "@.is_prefix_of(Error::QuicWrite(cause).text()),
        "QUIC read-to-end error: "@.is_prefix_of(Error::QuicReadToEnd(cause).text()),
        "QUIC error: "@.is_prefix_of(Error::Quic(cause).text()),
        "Noise protocol error: "@.is_prefix_of(Error::Noise(cause).text()),
        "Connection failed: "@.is_prefix_of(Error::ConnectionFailed(cause).text()),
        "Contact not found: "@.is_prefix_of(Error::ContactNotFound(cause).text()),
        "Hex decode error: "@.is_prefix_of(Error::Hex(cause).text()),
        "DHT error: "@.is_prefix_of(Error::Dht(cause).text()),
        "MessagePack error: "@.is_prefix_of(Error::MsgPack(cause).text()),
        "transfer error: "@.is_prefix_of(Error::Transfer(cause).text()),
        "Chunk hash mismatch for chunk "@.is_prefix_of(
            (Error::ChunkHashMismatch { index }).text(),
        ),
{
    head_of("I/O error: "@, cause@);
    head_of("JSON error: "@, cause@);
    head_of("Database error: "@, cause@);
    head_of("QUIC read error: "@, cause@);
    head_of("QUIC write error: "@, cause@);
    head_of("QUIC read-to-end error: "@, cause@);
    head_of("QUIC error: "@, cause@);
    head_of("Noise protocol error: "@, cause@);
    head_of("Connection failed: "@, cause@);
    head_of("Contact not found: "@, cause@);
    head_of("Hex decode error: "@, cause@);
    head_of("DHT error: "@, cause@);
    head_of("MessagePack error: "@, cause@);
    head_of("transfer error: "@, cause@);
    head_of("Chunk hash mismatch for chunk "@, text::digits(index as nat));
}

proof fn head_of(head: Seq<char>, tail: Seq<char>)
    ensures
        head.is_prefix_of(head + tail),
{
    assert(head =~= (head + tail).subrange(0, head.len() as int));
}

/// The errors without a cause have a sentence each.
pub proof fn sentences_of_their_own()
    ensures
        Error::HolePunchTimeout.text() == "Hole punch timed out — try again or check NAT type"@,
        Error::PeerNotFound.text()
            == "Peer not found on DHT — code may be expired or peer is offline"@,
        Error::ShareCodeExpired.text() == "Share code expired — please regenerate"@,
        Error::IdentityMismatch.text() == "Identity mismatch — unexpected remote public key"@,
        Error::IdentityNotFound.text()
            == "Identity file not found; run `p2pshare identity` to create one"@,
{
}

} // verus!
