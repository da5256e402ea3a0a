//! Moving a file from one peer to the other.

pub mod assembly;
pub mod conn_status;
pub mod manifest;
pub mod progress;
pub mod receiver;
pub mod resume;
pub mod sender;
