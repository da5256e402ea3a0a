//! Getting through routers.

pub mod hole_punch;
pub mod relay;
pub mod stun;
