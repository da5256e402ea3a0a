//! The relay: its address, and how two clients are matched.

use vstd::prelude::*;

use crate::error;
use crate::error::{Error, Result};
use crate::hash;
use crate::text;
use crate::unicode;

verus! {

/// The address of the relay.
pub struct RelayConfig {
    /// Set at run time; goes before everything else.
    pub proxy_override: Option<String>,
    /// The address from the environment or the default one, once it has been needed.
    pub cached: Option<String>,
}

/// From now on the relay is reached at `addr`.
pub fn set_relay_proxy_override(config: &mut RelayConfig, addr: String)
    ensures
        final(config).proxy_override == Some(addr),
        final(config).cached == old(config).cached,
{
    config.proxy_override = Some(addr);
}

/// Back to the usual address.
pub fn clear_relay_proxy_override(config: &mut RelayConfig)
    ensures
        final(config).proxy_override is None,
        final(config).cached == old(config).cached,
{
    config.proxy_override = None;
}

/// The usual address of the relay: that of the environment if it is not blank, else the
/// default.
pub open spec fn usual_addr(env: Option<String>) -> Seq<char> {
    match env {
        Some(addr) => if unicode::trimmed(addr@).len() > 0 {
            addr@
        } else {
            "xend-relay.fly.dev:8443"@
        },
        None => "xend-relay.fly.dev:8443"@,
    }
}

fn usual(env: Option<String>) -> (r: String)
    ensures
        r@ == usual_addr(env),
{
    if let Some(addr) = env {
        let chars = text::chars_of(&addr);
        if unicode::trim(chars.as_slice()).len() > 0 {
            return addr;
        }
    }
    "xend-relay.fly.dev:8443".to_string()
}

/// The address of the relay. What the environment says is looked at only once.
pub fn relay_addr(config: &mut RelayConfig, env: Option<String>) -> (r: String)
    ensures
        final(config).proxy_override == old(config).proxy_override,
        match old(config).proxy_override {
            Some(addr) => r == addr && final(config).cached == old(config).cached,
            None => {
                &&& final(config).cached == Some(r)
                &&& match old(config).cached {
                    Some(addr) => r == addr,
                    None => r@ == usual_addr(env),
                }
            },
        },
{
    if let Some(addr) = &config.proxy_override {
        return addr.clone();
    }
    if let Some(addr) = &config.cached {
        return addr.clone();
    }
    let addr = usual(env);
    config.cached = Some(addr.clone());
    addr
}

// ── Pairing ────────────────────────────────────────────────────────────────────

/// The pairing token of a code: the first 16 bytes of a hash of it in upper case.
pub open spec fn token_of(code: Seq<char>) -> Seq<u8> {
    hash::sha256_of(vstd::utf8::encode_utf8(unicode::upper(code) + ":relay"@)).subrange(0, 16)
}

/// The pairing token of a code. Sender and receiver compute it each for itself.
pub fn relay_token_for(code: &str) -> (r: [u8; 16])
    ensures
        r@ == token_of(code@),
{
    let mut input = unicode::to_uppercase(code);
    input.append(":relay");
    let digest = hash::sha256(input.as_str().as_bytes());
    let mut token: [u8; 16] = [0u8; 16];
    let mut i: usize = 0;
    while i < 16
        invariant
            i <= 16,
            forall|j: int| 0 <= j < i ==> token@[j] == digest@[j],
        decreases 16 - i,
    {
        token[i] = digest[i];
        i = i + 1;
    }
    assert(token@ =~= digest@.subrange(0, 16));
    token
}

/// How long a client waits to be paired.
pub const PAIRING_WAIT_SECS: u64 = 90;

/// How waiting for the pairing byte has ended.
pub enum PairingEvent {
    /// The relay sent a byte.
    Byte(u8),
    /// The stream failed, with this text.
    StreamError(String),
    /// The time is up.
    Timeout,
}

/// Handles the end of waiting for the pairing byte, which must be 0x01.
pub fn on_pairing(event: PairingEvent) -> (r: Result<()>)
    ensures
        match event {
            PairingEvent::Byte(b) => if b == 1 {
                r is Ok
            } else {
                error::failed_with(r, "relay: unexpected pairing byte "@ + text::hex_literal(b))
            },
            PairingEvent::StreamError(cause) => r is Err && r->Err_0 == Error::Io(cause),
            PairingEvent::Timeout => error::failed_with(
                r,
                "relay: timed out waiting for peer"@,
            ),
        },
{
    match event {
        PairingEvent::Byte(b) => if b == 1 {
            Ok(())
        } else {
            let literal = text::hex_literal_text(b);
            Err(
                Error::ConnectionFailed(
                    error::prefixed("relay: unexpected pairing byte ", &literal),
                ),
            )
        },
        PairingEvent::StreamError(cause) => Err(Error::Io(cause)),
        PairingEvent::Timeout => Err(
            Error::ConnectionFailed("relay: timed out waiting for peer".to_string()),
        ),
    }
}

/// Codes that differ only in case have the same token, so that the two sides are paired
/// however the receiver types the code.
pub proof fn token_ignores_case(a: Seq<char>, b: Seq<char>)
    requires
        vstd::utf8::is_ascii_chars(a),
        vstd::utf8::is_ascii_chars(b),
        unicode::ascii_lower_text(a) == unicode::ascii_lower_text(b),
    ensures
        token_of(a) == token_of(b),
{
    assert(a.len() == unicode::ascii_lower_text(a).len());
    assert(b.len() == unicode::ascii_lower_text(b).len());
    assert forall|i: int| 0 <= i < a.len() implies unicode::ascii_upper(a[i])
        == unicode::ascii_upper(b[i]) by {
        assert(unicode::ascii_lower_text(a)[i] == unicode::ascii_lower(a[i]));
        assert(unicode::ascii_lower_text(b)[i] == unicode::ascii_lower(b[i]));
    }
    assert(unicode::ascii_upper_text(a) =~= unicode::ascii_upper_text(b));
}

/// The token is made from the whole code: it is cut from the hash of the code in upper case
/// with `:relay` behind it, and of nothing else.
pub proof fn token_is_made_from_the_whole_code(code: Seq<char>, input: Seq<char>)
    requires
        input.len() >= 6,
        input.subrange(0, input.len() - 6) == unicode::upper(code),
        input.subrange(input.len() - 6, input.len() as int) == ":relay"@,
    ensures
        token_of(code) == hash::sha256_of(vstd::utf8::encode_utf8(input)).subrange(0, 16),
{
    reveal_strlit(":relay");
    assert(input =~= unicode::upper(code) + ":relay"@);
}

/// Byte by byte, for an ASCII code: its characters, small letters as capitals, and
/// `:relay`.
pub proof fn token_hashes_these_bytes(code: Seq<char>, bytes: Seq<u8>)
    requires
        vstd::utf8::is_ascii_chars(code),
        bytes.len() == code.len() + 6,
        forall|i: int|
            0 <= i < code.len() ==> #[trigger] bytes[i] as int == (if 'a' <= code[i] <= 'z' {
                code[i] as int - 'a' as int + 'A' as int
            } else {
                code[i] as int
            }),
        bytes.subrange(code.len() as int, bytes.len() as int) == seq![
            0x3au8, 0x72u8, 0x65u8, 0x6cu8, 0x61u8, 0x79u8,
        ],
    ensures
        token_of(code) == hash::sha256_of(bytes).subrange(0, 16),
{
    reveal_strlit(":relay");
    let input = unicode::upper(code) + ":relay"@;
    assert(vstd::utf8::is_ascii_chars(input)) by {
        assert forall|i: int| 0 <= i < input.len() implies '\0' <= #[trigger] input[i]
            <= '\u{7f}' by {
            if i < code.len() {
                assert(input[i] == unicode::ascii_upper(code[i]));
            }
        }
    }
    vstd::utf8::is_ascii_chars_encode_utf8(input);
    let encoded = vstd::utf8::encode_utf8(input);
    assert forall|i: int| 0 <= i < bytes.len() implies bytes[i] == encoded[i] by {
        assert(input[i] as u8 == encoded[i]);
        if i < code.len() {
            assert(input[i] == unicode::ascii_upper(code[i]));
        } else {
            assert(bytes[i] == bytes.subrange(code.len() as int, bytes.len() as int)[i
                - code.len()]);
        }
    }
    assert(bytes =~= encoded);
}

/// Codes that are different in upper case have their tokens cut from the hashes of
/// different texts.
pub proof fn different_codes_hash_different_texts(
    a: Seq<char>,
    b: Seq<char>,
    input_a: Seq<char>,
    input_b: Seq<char>,
)
    requires
        unicode::upper(a) != unicode::upper(b),
        input_a == unicode::upper(a) + ":relay"@,
        input_b == unicode::upper(b) + ":relay"@,
    ensures
        vstd::utf8::encode_utf8(input_a) != vstd::utf8::encode_utf8(input_b),
        token_of(a) == hash::sha256_of(vstd::utf8::encode_utf8(input_a)).subrange(0, 16),
        token_of(b) == hash::sha256_of(vstd::utf8::encode_utf8(input_b)).subrange(0, 16),
{
    vstd::utf8::encode_utf8_decode_utf8(input_a);
    vstd::utf8::encode_utf8_decode_utf8(input_b);
    reveal_strlit(":relay");
    if input_a == input_b {
        assert(input_a.len() == input_b.len());
        assert(unicode::upper(a) =~= input_a.subrange(0, input_a.len() - 6));
        assert(unicode::upper(b) =~= input_b.subrange(0, input_b.len() - 6));
    }
}

/// What the environment says goes before the default, as it stands, unless it is blank.
pub proof fn environment_goes_before_the_default(addr: String)
    ensures
        (exists|i: int| 0 <= i < addr@.len() && !unicode::white(#[trigger] addr@[i])) ==> usual_addr(
            Some(addr),
        ) == addr@,
        (forall|i: int| 0 <= i < addr@.len() ==> unicode::white(#[trigger] addr@[i])) ==> usual_addr(
            Some(addr),
        ) == usual_addr(None),
        usual_addr(None) == "xend-relay.fly.dev:8443"@,
{
    let s = addr@;
    unicode::trimming_takes_blanks_only(s);
    let t = unicode::trimmed(s);
    let (front, back) = choose|front: Seq<char>, back: Seq<char>|
        #![trigger front + t + back]
        {
            &&& s == front + t + back
            &&& forall|i: int| 0 <= i < front.len() ==> unicode::white(#[trigger] front[i])
            &&& forall|i: int| 0 <= i < back.len() ==> unicode::white(#[trigger] back[i])
        };
    if t.len() == 0 {
        assert forall|i: int| 0 <= i < s.len() implies unicode::white(#[trigger] s[i]) by {
            if i < front.len() {
                assert(s[i] == front[i]);
            } else {
                assert(s[i] == back[i - front.len()]);
            }
        }
    } else {
        assert(s[front.len() as int] == t[0]);
    }
}

/// A client waits longer to be paired than the relay keeps it waiting, so that the relay's
/// word comes first; and the byte that the relay sends is the one that the client waits for.
pub proof fn client_outwaits_the_relay()
    ensures
        PAIRING_WAIT_SECS > crate::relay_server::PAIR_TIMEOUT_SECS,
        crate::relay_server::PAIR_TIMEOUT_SECS == 60,
        crate::relay_server::PAIRED == 1,
{
}

} // verus!
