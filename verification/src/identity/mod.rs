//! Who one is: keys, fingerprint, and the files that keep them.

pub mod fingerprint;
pub mod keypair;
pub mod storage;

pub use storage::{load_or_create, UserIdentity};
