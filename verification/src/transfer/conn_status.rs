//! The phase that the establishment of a connection is in, for the user interface.

use vstd::prelude::*;

verus! {

pub const IDLE: u8 = 0;

pub const ANNOUNCING: u8 = 1;

pub const WAITING_FOR_PEER: u8 = 2;

pub const PEER_FOUND: u8 = 3;

pub const HOLE_PUNCHING: u8 = 4;

pub const CONNECTING: u8 = 5;

pub const HANDSHAKING: u8 = 6;

pub const CONNECTED: u8 = 7;

pub const RELAY_CONNECTING: u8 = 8;

#[derive(Debug, Clone, Copy)]
pub struct ConnStatus {
    pub phase: u8,
}

/// Sets the current phase.
pub fn set(status: &mut ConnStatus, phase: u8)
    ensures
        final(status).phase == phase,
{
    status.phase = phase;
}

/// The current phase.
pub fn get(status: &ConnStatus) -> (phase: u8)
    ensures
        phase == status.phase,
{
    status.phase
}

/// Back to idle, when an attempt has ended.
pub fn reset(status: &mut ConnStatus)
    ensures
        final(status).phase == IDLE,
{
    status.phase = IDLE;
}

/// The phases are told apart, and idle is none of the others.
pub proof fn phases_are_told_apart(a: int, b: int)
    requires
        0 <= a < b < 9,
    ensures
        ({
            let phases = seq![
                IDLE,
                ANNOUNCING,
                WAITING_FOR_PEER,
                PEER_FOUND,
                HOLE_PUNCHING,
                CONNECTING,
                HANDSHAKING,
                CONNECTED,
                RELAY_CONNECTING,
            ];
            &&& phases[a] < phases[b]
            &&& phases[a] == a
        }),
{
}

} // verus!
