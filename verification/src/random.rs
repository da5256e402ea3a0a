//! Random values. Nothing is known of any of them.

use vstd::prelude::*;

verus! {

/// `rand::random::<usize>`.
#[verifier::external_body]
pub(crate) fn random_usize() -> (r: usize) {
    rand::random()
}

/// `rand::random::<u16>`.
#[verifier::external_body]
pub(crate) fn random_u16() -> (r: u16) {
    rand::random()
}

/// `rand::random::<[u8; 20]>`.
#[verifier::external_body]
pub(crate) fn random_20() -> (r: [u8; 20]) {
    rand::random()
}

/// `rand::random::<[u8; 12]>`.
#[verifier::external_body]
pub(crate) fn random_12() -> (r: [u8; 12]) {
    rand::random()
}

} // verus!
