//! The relay server: clients that show the same token are matched in pairs.

use std::collections::HashMap;

use vstd::prelude::*;

use crate::text;

verus! {

/// How long the first client of a pair waits for the second.
pub const PAIR_TIMEOUT_SECS: u64 = 60;

/// The byte that tells both clients that they are paired.
pub const PAIRED: u8 = 1;

/// The clients that wait for a peer, one for each token at most.
pub struct WaitMap {
    pub waiting: HashMap<u128, u64>,
}

/// What becomes of a client that has shown its token.
#[derive(Debug, Clone, Copy, PartialEq, Eq, Structural)]
pub enum Arrival {
    /// It is the first of its pair, and waits.
    First,
    /// It is the second: its stream goes to the client that waits.
    Second { first: u64 },
}

/// The number that the bytes of a token spell, most significant first.
pub open spec fn token_number(token: Seq<u8>) -> nat
    decreases token.len(),
{
    if token.len() == 0 {
        0
    } else {
        token_number(token.drop_last()) * 256 + token.last() as nat
    }
}

proof fn token_number_bound(token: Seq<u8>)
    ensures
        token_number(token) < vstd::arithmetic::power2::pow2(8 * token.len()),
    decreases token.len(),
{
    vstd::arithmetic::power2::lemma2_to64();
    if token.len() > 0 {
        token_number_bound(token.drop_last());
        vstd::arithmetic::power2::lemma_pow2_adds(8 * (token.len() - 1) as nat, 8);
        let p = vstd::arithmetic::power2::pow2(8 * (token.len() - 1) as nat);
        assert(token_number(token.drop_last()) * 256 + 256 <= p * 256) by (nonlinear_arith)
            requires
                token_number(token.drop_last()) + 1 <= p,
        ;
        assert(8 * (token.len() - 1) as nat + 8 == 8 * token.len());
    }
}

/// Tokens of the same length that spell the same number are the same.
pub proof fn tokens_are_told_apart(a: Seq<u8>, b: Seq<u8>)
    requires
        a.len() == b.len(),
        token_number(a) == token_number(b),
    ensures
        a == b,
    decreases a.len(),
{
    if a.len() > 0 {
        tokens_are_told_apart(a.drop_last(), b.drop_last());
        assert(a =~= a.drop_last().push(a.last()));
        assert(b =~= b.drop_last().push(b.last()));
    } else {
        assert(a =~= b);
    }
}

/// The number under which a token is kept.
pub fn token_key(token: &[u8; 16]) -> (r: u128)
    ensures
        r == token_number(token@),
{
    proof {
        vstd::arithmetic::power2::lemma2_to64();
        vstd::arithmetic::power2::lemma2_to64_rest();
        vstd::arithmetic::power2::lemma_pow2_adds(64, 56);
    }
    let mut r: u128 = 0;
    let mut i: usize = 0;
    assert(token@.subrange(0, 0) =~= Seq::empty());
    while i < 16
        invariant
            i <= 16,
            r == token_number(token@.subrange(0, i as int)),
            vstd::arithmetic::power2::pow2(120) * 256 == 0x1_0000_0000_0000_0000_0000_0000_0000_0000,
        decreases 16 - i,
    {
        proof {
            let head = token@.subrange(0, i as int);
            token_number_bound(head);
            assert(token@.subrange(0, i + 1).drop_last() =~= head);
            if i < 15 {
                vstd::arithmetic::power2::lemma_pow2_strictly_increases(8 * i as nat, 120);
            }
            assert(r < vstd::arithmetic::power2::pow2(120));
        }
        r = r * 256 + token[i] as u128;
        i = i + 1;
    }
    assert(token@.subrange(0, 16) =~= token@);
    r
}

/// Who waits, and what becomes of the client, once `client` has shown `token`.
pub open spec fn arrived(waiting: Map<u128, u64>, token: u128, client: u64) -> (
    Map<u128, u64>,
    Arrival,
) {
    if waiting.contains_key(token) {
        (waiting.remove(token), Arrival::Second { first: waiting[token] })
    } else {
        (waiting.insert(token, client), Arrival::First)
    }
}

impl WaitMap {
    pub fn new() -> (w: Self)
        ensures
            w.waiting@ == Map::<u128, u64>::empty(),
    {
        WaitMap { waiting: HashMap::new() }
    }

    /// A client has shown its token. If another waits with the same token, that one is
    /// taken out; if none does, this one waits.
    pub fn arrive(&mut self, token: u128, client: u64) -> (r: Arrival)
        ensures
            (final(self).waiting@, r) == arrived(old(self).waiting@, token, client),
    {
        match self.waiting.remove(&token) {
            Some(first) => {
                assert(self.waiting@ =~= old(self).waiting@.remove(token));
                Arrival::Second { first }
            },
            None => {
                assert(self.waiting@ =~= old(self).waiting@);
                self.waiting.insert(token, client);
                Arrival::First
            },
        }
    }

    /// Nobody came: the token is given up. Gives who waited with it, if anyone still did.
    pub fn give_up(&mut self, token: u128) -> (r: Option<u64>)
        ensures
            final(self).waiting@ == old(self).waiting@.remove(token),
            r == (if old(self).waiting@.contains_key(token) {
                Some(old(self).waiting@[token])
            } else {
                None
            }),
    {
        let r = self.waiting.remove(&token);
        assert(self.waiting@ =~= old(self).waiting@.remove(token));
        r
    }
}

/// A token as text for the log.
pub fn hex_token(token: &[u8; 16]) -> (r: String)
    ensures
        r@ == text::hex_of(token@),
{
    text::hex_text(token.as_slice())
}

/// Two clients in a row with a token that nobody waits with are paired with each other,
/// and who waits is then as before.
pub proof fn two_arrivals_pair_up(waiting: Map<u128, u64>, token: u128, first: u64, second: u64)
    requires
        !waiting.contains_key(token),
    ensures
        arrived(waiting, token, first).1 == Arrival::First,
        arrived(arrived(waiting, token, first).0, token, second) == (
            waiting,
            Arrival::Second { first },
        ),
{
    assert(arrived(waiting, token, first).0.remove(token) =~= waiting);
}

/// A client with one token changes nothing for those who wait with another.
pub proof fn other_tokens_are_left_alone(
    waiting: Map<u128, u64>,
    token: u128,
    client: u64,
    other: u128,
)
    requires
        other != token,
    ensures
        arrived(waiting, token, client).0.contains_key(other) == waiting.contains_key(other),
        waiting.contains_key(other) ==> arrived(waiting, token, client).0[other] == waiting[other],
{
}

/// Whoever comes while another waits with the same token gets that one, who then waits no
/// more; whoever comes alone waits.
pub proof fn arrival_finds_who_waits(waiting: Map<u128, u64>, token: u128, client: u64)
    ensures
        waiting.contains_key(token) ==> {
            &&& arrived(waiting, token, client).1 == (Arrival::Second { first: waiting[token] })
            &&& !arrived(waiting, token, client).0.contains_key(token)
        },
        !waiting.contains_key(token) ==> {
            &&& arrived(waiting, token, client).1 == Arrival::First
            &&& arrived(waiting, token, client).0.contains_key(token)
            &&& arrived(waiting, token, client).0[token] == client
        },
{
}

/// The number of a token is that of its bytes, the first weighing most.
pub proof fn token_number_is_big_endian(token: Seq<u8>, b: u8)
    ensures
        token_number(Seq::<u8>::empty()) == 0,
        token_number(token.push(b)) == 256 * token_number(token) + b,
{
    assert(token.push(b).drop_last() =~= token);
}

} // verus!
