//! Noise transport messages: one payload encrypted and authenticated under an
//! explicit nonce.

use vstd::prelude::*;

verus! {

/// The transport phase of a Noise session: one key for each direction.
#[verifier::external_type_specification]
#[verifier::external_body]
pub struct ExStatelessTransportState(snow::StatelessTransportState);

/// The longest message that Noise admits, its tag counted in.
pub const MAX_MESSAGE: usize = 65535;

/// The length of the tag that authenticates a message.
pub const TAG: usize = 16;

/// Both sides of the session may send.
pub uninterp spec fn two_way(t: snow::StatelessTransportState) -> bool;

/// The key under which a transport state encrypts what it sends.
pub uninterp spec fn sending_key(t: snow::StatelessTransportState) -> Seq<u8>;

/// The key under which a transport state decrypts what it receives.
pub uninterp spec fn receiving_key(t: snow::StatelessTransportState) -> Seq<u8>;

/// The message that carries `payload` under `key` and `nonce`.
pub uninterp spec fn sealed(key: Seq<u8>, nonce: u64, payload: Seq<u8>) -> Seq<u8>;

/// What `message` carries under `key` and `nonce`; `None` if its tag does not
/// authenticate it.
pub uninterp spec fn unsealed(key: Seq<u8>, nonce: u64, message: Seq<u8>) -> Option<Seq<u8>>;

/// Two ends of one direction: what `from` encrypts, `to` decrypts.
pub open spec fn linked(
    from: snow::StatelessTransportState,
    to: snow::StatelessTransportState,
) -> bool {
    sending_key(from) == receiving_key(to)
}

/// What becomes of a payload that is to be sent: the message, or the text of
/// the error.
pub open spec fn seal_result(key: Seq<u8>, nonce: u64, payload: Seq<u8>) -> Result<
    Seq<u8>,
    Seq<char>,
> {
    if payload.len() + TAG > MAX_MESSAGE {
        Err("input error"@)
    } else if nonce == u64::MAX {
        Err("state error: Exhausted"@)
    } else {
        Ok(sealed(key, nonce, payload))
    }
}

/// What becomes of a message that was received: its payload, or the text of
/// the error.
pub open spec fn open_result(key: Seq<u8>, nonce: u64, message: Seq<u8>) -> Result<
    Seq<u8>,
    Seq<char>,
> {
    if message.len() > MAX_MESSAGE {
        Err("input error"@)
    } else if message.len() < TAG {
        Err("decrypt error"@)
    } else if nonce == u64::MAX {
        Err("state error: Exhausted"@)
    } else {
        match unsealed(key, nonce, message) {
            Some(payload) => Ok(payload),
            None => Err("decrypt error"@),
        }
    }
}

/// `snow::StatelessTransportState::write_message`, into a buffer that holds the
/// longest message. A payload that leaves no room for the tag is an input error, the
/// largest nonce is reserved, and any other payload becomes a message one tag longer,
/// which decrypts under the same key and nonce to that payload.
#[verifier::external_body]
pub(crate) fn write_message(
    t: &snow::StatelessTransportState,
    nonce: u64,
    payload: &[u8],
) -> (r: Result<Vec<u8>, String>)
    requires
        two_way(*t),
    ensures
        payload@.len() + TAG > MAX_MESSAGE ==> r is Err && r->Err_0@ == "input error"@,
        payload@.len() + TAG <= MAX_MESSAGE && nonce == u64::MAX ==> r is Err && r->Err_0@
            == "state error: Exhausted"@,
        payload@.len() + TAG <= MAX_MESSAGE && nonce != u64::MAX ==> {
            &&& r is Ok
            &&& r->Ok_0@ == sealed(sending_key(*t), nonce, payload@)
            &&& r->Ok_0@.len() == payload@.len() + TAG
            &&& unsealed(sending_key(*t), nonce, r->Ok_0@) == Some(payload@)
        },
{
    let mut message = vec![0u8; 65535];
    let len = t.write_message(nonce, payload, &mut message).map_err(|e| e.to_string())?;
    message.truncate(len);
    Ok(message)
}

/// `snow::StatelessTransportState::read_message`, into a buffer that holds the
/// longest payload. A message over the limit is an input error, one shorter than a tag
/// does not decrypt, the largest nonce is reserved, and any other message gives its
/// payload, one tag shorter, if its tag authenticates it.
#[verifier::external_body]
pub(crate) fn read_message(
    t: &snow::StatelessTransportState,
    nonce: u64,
    message: &[u8],
) -> (r: Result<Vec<u8>, String>)
    requires
        two_way(*t),
    ensures
        message@.len() > MAX_MESSAGE ==> r is Err && r->Err_0@ == "input error"@,
        message@.len() < TAG ==> r is Err && r->Err_0@ == "decrypt error"@,
        TAG <= message@.len() <= MAX_MESSAGE && nonce == u64::MAX ==> r is Err && r->Err_0@
            == "state error: Exhausted"@,
        TAG <= message@.len() <= MAX_MESSAGE && nonce != u64::MAX ==> match r {
            Ok(payload) => {
                &&& unsealed(receiving_key(*t), nonce, message@) == Some(payload@)
                &&& payload@.len() == message@.len() - TAG
            },
            Err(e) => unsealed(receiving_key(*t), nonce, message@) is None && e@
                == "decrypt error"@,
        },
{
    let mut payload = vec![0u8; 65535];
    let len = t.read_message(nonce, message, &mut payload).map_err(|e| e.to_string())?;
    payload.truncate(len);
    Ok(payload)
}

/// A payload can be sent exactly if it and its tag fit 65535 bytes, under any nonce but the
/// reserved one.
pub proof fn what_can_be_sent(key: Seq<u8>, nonce: u64, payload: Seq<u8>)
    ensures
        seal_result(key, nonce, payload) is Ok <==> payload.len() <= 65535 - 16 && nonce
            < u64::MAX,
        seal_result(key, nonce, payload) is Ok ==> seal_result(key, nonce, payload)->Ok_0 == sealed(
            key,
            nonce,
            payload,
        ),
{
}

/// A message is read exactly if its tag authenticates it and it is no longer than 65535
/// bytes, under any nonce but the reserved one; what is read is what it carries.
pub proof fn what_can_be_read(key: Seq<u8>, nonce: u64, message: Seq<u8>)
    ensures
        open_result(key, nonce, message) is Ok <==> 16 <= message.len() <= 65535 && nonce < u64::MAX
            && unsealed(key, nonce, message) is Some,
        open_result(key, nonce, message) is Ok ==> unsealed(key, nonce, message) == Some(
            open_result(key, nonce, message)->Ok_0,
        ),
{
}

} // verus!
