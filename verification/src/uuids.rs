//! Identifiers of contacts: UUIDs, as the numbers that their bytes spell.

use vstd::prelude::*;

use crate::text;

verus! {

/// The value of the `k`-th hexadecimal digit of `id`, counted from the most significant.
pub open spec fn nibble(id: u128, k: int) -> nat {
    ((id as nat) / vstd::arithmetic::power2::pow2((4 * (31 - k)) as nat)) % 16
}

/// The digits `from..to` of `id`.
pub open spec fn uuid_digits(id: u128, from: int, to: int) -> Seq<char> {
    Seq::new((to - from) as nat, |i: int| text::hex_digit(nibble(id, from + i)))
}

/// `id` as text: 32 digits in lower case, in groups of 8, 4, 4, 4 and 12 between hyphens.
pub open spec fn uuid_text(id: u128) -> Seq<char> {
    uuid_digits(id, 0, 8) + "-"@ + uuid_digits(id, 8, 12) + "-"@ + uuid_digits(id, 12, 16) + "-"@
        + uuid_digits(id, 16, 20) + "-"@ + uuid_digits(id, 20, 32)
}

/// The identifier that a text spells, or the text of the error.
pub uninterp spec fn uuid_parsed(s: Seq<char>) -> Result<u128, Seq<char>>;

/// `uuid::Uuid::new_v4`: a random UUID of version 4 and the RFC 4122 variant.
#[verifier::external_body]
pub(crate) fn new_v4() -> (r: u128)
    ensures
        nibble(r, 12) == 4,
        8 <= nibble(r, 16) < 12,
{
    uuid::Uuid::new_v4().as_u128()
}

/// `<uuid::Uuid as Display>::fmt`.
#[verifier::external_body]
pub(crate) fn to_text(id: u128) -> (r: String)
    ensures
        r@ == uuid_text(id),
{
    uuid::Uuid::from_u128(id).to_string()
}

/// `uuid::Uuid::parse_str`. It reads what is written for an identifier as that identifier.
#[verifier::external_body]
pub(crate) fn parse(s: &str) -> (r: Result<u128, String>)
    ensures
        match uuid_parsed(s@) {
            Ok(id) => r is Ok && r->Ok_0 == id,
            Err(e) => r is Err && r->Err_0@ == e,
        },
        forall|id: u128| s@ == #[trigger] uuid_text(id) ==> r is Ok && r->Ok_0 == id,
{
    uuid::Uuid::parse_str(s).map(|u| u.as_u128()).map_err(|e| e.to_string())
}

} // verus!
