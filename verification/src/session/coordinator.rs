//! Which way to the peer: the order of attempts, and what each outcome leads to.
//!
//! Two paths are tried at once, one on the local network and one over the internet. What
//! is sent and awaited is done elsewhere; here is what to do next.

use vstd::prelude::*;

use crate::discovery::share_code;
use crate::error;
use crate::error::{Error, Result};
use crate::hash;
use crate::hexadecimal;
use crate::net::{HostIp, PeerAddr};
use crate::text;
use crate::wire;

verus! {

// ── Addresses ──────────────────────────────────────────────────────────────────

/// The port to announce: the one seen from outside, else the local one.
pub fn announce_port(external: Option<PeerAddr>, local_port: u16) -> (r: u16)
    ensures
        r == (match external {
            Some(addr) => addr.port_number(),
            None => local_port,
        }),
{
    match external {
        Some(addr) => addr.port(),
        None => local_port,
    }
}

/// The peer is seen under the same outside address as this side: both are behind the
/// same router.
pub open spec fn behind_same_router(external: Option<PeerAddr>, peer: PeerAddr) -> bool {
    external is Some && external->0.host() == peer.host()
}

/// Whether both sides are behind the same router.
pub fn same_network(external: Option<PeerAddr>, peer: &PeerAddr) -> (r: bool)
    ensures
        r == behind_same_router(external, *peer),
{
    match external {
        Some(addr) => {
            let own: HostIp = addr.ip();
            let other: HostIp = peer.ip();
            own == other
        },
        None => false,
    }
}

/// The address of a proxy for the relay on this machine.
pub fn proxy_addr(port: u16) -> (r: String)
    ensures
        r@ == "127.0.0.1:"@ + text::digits(port as nat),
{
    let number = text::decimal(port as u64);
    error::prefixed("127.0.0.1:", &number)
}

// ── The internet path ──────────────────────────────────────────────────────────

/// Who goes down the path.
#[derive(Debug, Clone, Copy, PartialEq, Eq, Structural)]
pub enum Side {
    /// The sender waits for the peer's packets and is the server of the connection.
    Sender,
    /// The receiver announces itself first and is the client of the connection.
    Receiver,
}

/// Where on the path to a peer whose address is known.
#[derive(Debug, Clone, Copy, PartialEq, Eq, Structural)]
pub enum PathState {
    Start,
    Announcing,
    WaitingForLan,
    Punching,
    KeepingOpen,
    Ended,
}

/// How the last action went.
#[derive(Debug)]
pub enum PathEvent {
    /// It is done; or, at the start, there was none.
    Done,
    /// The hole punch failed.
    PunchFailed(Error),
}

/// Why the path leads nowhere.
#[derive(Debug)]
pub enum PathFailure {
    SameNetworkWithoutRelay,
    PunchTimeoutWithoutRelay,
    Other(Error),
}

/// What to do next on the path.
#[derive(Debug)]
pub enum PathAction {
    /// Announce oneself, so that the peer can punch back.
    Announce,
    /// Leave the local path this many seconds to succeed.
    WaitForLan { secs: u64 },
    /// Punch a hole.
    Punch,
    /// Send this many more packets, so that the peer's hole punch succeeds too.
    KeepOpen { packets: u32, interval_ms: u64 },
    /// Connect directly.
    ConnectDirect,
    /// Connect through the relay.
    ConnectRelay,
    /// Give up.
    Fail(PathFailure),
}

/// The path over the internet.
#[derive(Debug, Clone, Copy, PartialEq, Eq, Structural)]
pub struct InternetPath {
    pub side: Side,
    pub allow_relay: bool,
    /// Both sides are behind the same router, through which no hole can be punched.
    pub same_network: bool,
    pub state: PathState,
}

impl InternetPath {
    /// No hole is punched on the way to a peer behind the same router.
    pub open spec fn valid(&self) -> bool {
        &&& self.same_network ==> self.state != PathState::Punching && self.state
            != PathState::KeepingOpen
        &&& !self.same_network ==> self.state != PathState::WaitingForLan
        &&& self.side == Side::Sender ==> self.state != PathState::Announcing && self.state
            != PathState::KeepingOpen
    }

    /// `event` can happen here.
    pub open spec fn admits(&self, event: PathEvent) -> bool {
        self.state != PathState::Ended && (event is PunchFailed ==> self.state
            == PathState::Punching)
    }

    /// What is done once the peer can know of this side.
    pub open spec fn approach(&self) -> (PathState, PathAction) {
        if self.same_network {
            (
                PathState::WaitingForLan,
                PathAction::WaitForLan {
                    secs: if self.side == Side::Sender {
                        7
                    } else {
                        8
                    },
                },
            )
        } else {
            (PathState::Punching, PathAction::Punch)
        }
    }

    /// The relay if it is allowed, else this failure.
    pub open spec fn relay_or(&self, failure: PathFailure) -> (PathState, PathAction) {
        (
            PathState::Ended,
            if self.allow_relay {
                PathAction::ConnectRelay
            } else {
                PathAction::Fail(failure)
            },
        )
    }

    /// Where `event` leads, and what to do there.
    pub open spec fn after(&self, event: PathEvent) -> (PathState, PathAction) {
        match event {
            PathEvent::PunchFailed(Error::HolePunchTimeout) => self.relay_or(
                PathFailure::PunchTimeoutWithoutRelay,
            ),
            PathEvent::PunchFailed(e) => (
                PathState::Ended,
                PathAction::Fail(PathFailure::Other(e)),
            ),
            PathEvent::Done => match self.state {
                PathState::Start => if self.side == Side::Receiver {
                    (PathState::Announcing, PathAction::Announce)
                } else {
                    self.approach()
                },
                PathState::Announcing => self.approach(),
                PathState::WaitingForLan => self.relay_or(PathFailure::SameNetworkWithoutRelay),
                PathState::Punching => if self.side == Side::Receiver {
                    (
                        PathState::KeepingOpen,
                        PathAction::KeepOpen { packets: 10, interval_ms: 60 },
                    )
                } else {
                    (PathState::Ended, PathAction::ConnectDirect)
                },
                PathState::KeepingOpen => (PathState::Ended, PathAction::ConnectDirect),
                PathState::Ended => (PathState::Ended, PathAction::ConnectDirect),
            },
        }
    }

    /// The path to a peer whose address has been found.
    pub fn new(side: Side, allow_relay: bool, same_network: bool) -> (p: Self)
        ensures
            p == (InternetPath { side, allow_relay, same_network, state: PathState::Start }),
            p.valid(),
    {
        InternetPath { side, allow_relay, same_network, state: PathState::Start }
    }

    /// The path to a contact: as a receiver, with the relay to fall back on, whatever
    /// the routers.
    pub fn to_contact() -> (p: Self)
        ensures
            p == (InternetPath {
                side: Side::Receiver,
                allow_relay: true,
                same_network: false,
                state: PathState::Start,
            }),
            p.valid(),
    {
        InternetPath::new(Side::Receiver, true, false)
    }

    /// Takes the next step.
    pub fn next_step(&mut self, event: PathEvent) -> (r: PathAction)
        requires
            old(self).valid(),
            old(self).admits(event),
        ensures
            final(self).valid(),
            final(self).side == old(self).side,
            final(self).allow_relay == old(self).allow_relay,
            final(self).same_network == old(self).same_network,
            (final(self).state, r) == old(self).after(event),
    {
        match event {
            PathEvent::PunchFailed(e) => {
                self.state = PathState::Ended;
                match e {
                    Error::HolePunchTimeout => if self.allow_relay {
                        PathAction::ConnectRelay
                    } else {
                        PathAction::Fail(PathFailure::PunchTimeoutWithoutRelay)
                    },
                    other => PathAction::Fail(PathFailure::Other(other)),
                }
            },
            PathEvent::Done => {
                let approaches = match self.state {
                    PathState::Start => match self.side {
                        Side::Receiver => false,
                        Side::Sender => true,
                    },
                    PathState::Announcing => true,
                    _ => false,
                };
                if approaches {
                    if self.same_network {
                        self.state = PathState::WaitingForLan;
                        let secs: u64 = match self.side {
                            Side::Sender => 7,
                            Side::Receiver => 8,
                        };
                        PathAction::WaitForLan { secs }
                    } else {
                        self.state = PathState::Punching;
                        PathAction::Punch
                    }
                } else {
                    match self.state {
                        PathState::Start => {
                            self.state = PathState::Announcing;
                            PathAction::Announce
                        },
                        PathState::WaitingForLan => {
                            self.state = PathState::Ended;
                            if self.allow_relay {
                                PathAction::ConnectRelay
                            } else {
                                PathAction::Fail(PathFailure::SameNetworkWithoutRelay)
                            }
                        },
                        PathState::Punching => match self.side {
                            Side::Receiver => {
                                self.state = PathState::KeepingOpen;
                                PathAction::KeepOpen { packets: 10, interval_ms: 60 }
                            },
                            Side::Sender => {
                                self.state = PathState::Ended;
                                PathAction::ConnectDirect
                            },
                        },
                        _ => {
                            self.state = PathState::Ended;
                            PathAction::ConnectDirect
                        },
                    }
                }
            },
        }
    }

    /// How many more actions the path can have.
    pub open spec fn rank(&self) -> nat {
        match self.state {
            PathState::Start => 4,
            PathState::Announcing => 3,
            PathState::WaitingForLan => 1,
            PathState::Punching => 2,
            PathState::KeepingOpen => 1,
            PathState::Ended => 0,
        }
    }
}

impl PathFailure {
    /// The error that a failure is reported as.
    pub fn into_error(self) -> (e: Error)
        ensures
            match self {
                PathFailure::SameNetworkWithoutRelay => e is ConnectionFailed
                    && e->ConnectionFailed_0@
                    == "same-NAT: LAN path failed and relay is disabled"@,
                PathFailure::PunchTimeoutWithoutRelay => e is ConnectionFailed
                    && e->ConnectionFailed_0@ == "hole punch timed out and relay is disabled"@,
                PathFailure::Other(cause) => e == cause,
            },
    {
        match self {
            PathFailure::SameNetworkWithoutRelay => Error::ConnectionFailed(
                "same-NAT: LAN path failed and relay is disabled".to_string(),
            ),
            PathFailure::PunchTimeoutWithoutRelay => Error::ConnectionFailed(
                "hole punch timed out and relay is disabled".to_string(),
            ),
            PathFailure::Other(cause) => cause,
        }
    }
}

/// The relay is never used where it is not allowed.
pub proof fn relay_needs_permission(path: InternetPath, event: PathEvent)
    requires
        path.admits(event),
    ensures
        path.after(event).1 is ConnectRelay ==> path.allow_relay,
{
}

/// Where the relay is allowed the path never fails for want of a way through: only an
/// error of the hole punch itself ends it.
pub proof fn relay_is_the_last_resort(path: InternetPath, event: PathEvent)
    requires
        path.valid(),
        path.admits(event),
        path.allow_relay,
    ensures
        path.after(event).1 is Fail ==> event is PunchFailed && !(event->PunchFailed_0
            is HolePunchTimeout),
{
}

/// No hole is ever punched towards a peer behind the same router, and no direct
/// connection over the internet is tried.
pub proof fn no_punch_behind_one_router(path: InternetPath, event: PathEvent)
    requires
        path.valid(),
        path.admits(event),
        path.same_network,
    ensures
        !(path.after(event).1 is Punch),
        !(path.after(event).1 is ConnectDirect),
{
}

/// Every step brings the path closer to its end; it ends exactly when a connection is to
/// be made or the path fails.
pub proof fn path_comes_to_an_end(path: InternetPath, event: PathEvent)
    requires
        path.valid(),
        path.admits(event),
    ensures
        ({
            let next = InternetPath { state: path.after(event).0, ..path };
            let action = path.after(event).1;
            &&& next.valid()
            &&& next.rank() < path.rank()
            &&& next.state == PathState::Ended <==> action is ConnectDirect || action
                is ConnectRelay || action is Fail
        }),
{
}

/// The path one step further on.
pub open spec fn step_on(path: InternetPath, event: PathEvent) -> InternetPath {
    InternetPath { state: path.after(event).0, ..path }
}

/// Towards a peer behind another router a sender punches a hole and connects; a receiver
/// announces itself before that, so that the sender can punch back, and between the two
/// keeps the hole open with ten packets, sixty milliseconds apart.
pub proof fn way_through_a_hole(allow_relay: bool)
    ensures
        ({
            let s = InternetPath {
                side: Side::Sender,
                allow_relay,
                same_network: false,
                state: PathState::Start,
            };
            let s1 = step_on(s, PathEvent::Done);
            &&& s.after(PathEvent::Done).1 is Punch
            &&& s1.after(PathEvent::Done).1 is ConnectDirect
        }),
        ({
            let r = InternetPath {
                side: Side::Receiver,
                allow_relay,
                same_network: false,
                state: PathState::Start,
            };
            let r1 = step_on(r, PathEvent::Done);
            let r2 = step_on(r1, PathEvent::Done);
            let r3 = step_on(r2, PathEvent::Done);
            &&& r.after(PathEvent::Done).1 is Announce
            &&& r1.after(PathEvent::Done).1 is Punch
            &&& r2.after(PathEvent::Done).1 == (PathAction::KeepOpen {
                packets: 10,
                interval_ms: 60,
            })
            &&& r3.after(PathEvent::Done).1 is ConnectDirect
        }),
{
}

/// Towards a peer behind the same router each side leaves the local path its seconds, the
/// receiver one more than the sender, and then connects through the relay, or fails where
/// that is not allowed.
pub proof fn way_behind_one_router(side: Side, allow_relay: bool)
    ensures
        ({
            let p = InternetPath { side, allow_relay, same_network: true, state: PathState::Start };
            let q = if side == Side::Receiver {
                step_on(p, PathEvent::Done)
            } else {
                p
            };
            let last = step_on(q, PathEvent::Done).after(PathEvent::Done).1;
            &&& side == Side::Receiver ==> p.after(PathEvent::Done).1 is Announce
            &&& q.after(PathEvent::Done).1 == (PathAction::WaitForLan {
                secs: if side == Side::Receiver {
                    8
                } else {
                    7
                },
            })
            &&& allow_relay ==> last is ConnectRelay
            &&& !allow_relay ==> last == PathAction::Fail(PathFailure::SameNetworkWithoutRelay)
        }),
{
}

/// A hole punch that times out leads to the relay, or fails where that is not allowed; any
/// other error of the punch is the error of the path.
pub proof fn failed_punch_leads_to_the_relay(path: InternetPath, e: Error)
    ensures
        path.allow_relay ==> path.after(PathEvent::PunchFailed(Error::HolePunchTimeout)).1
            is ConnectRelay,
        !path.allow_relay ==> path.after(PathEvent::PunchFailed(Error::HolePunchTimeout)).1
            == PathAction::Fail(PathFailure::PunchTimeoutWithoutRelay),
        !(e is HolePunchTimeout) ==> path.after(PathEvent::PunchFailed(e)).1 == PathAction::Fail(
            PathFailure::Other(e),
        ),
        step_on(path, PathEvent::PunchFailed(e)).state == PathState::Ended,
{
}

/// An action can always be done until the path has ended, and a punch can fail.
pub proof fn actions_end(path: InternetPath, e: Error)
    ensures
        path.admits(PathEvent::Done) <==> path.state != PathState::Ended,
        path.admits(PathEvent::PunchFailed(e)) <==> path.state == PathState::Punching,
{
}

/// Two sides are behind the same router exactly when they are seen under one address; the
/// ports do not matter, and of an unknown address nothing is assumed.
pub proof fn same_router_means_same_address(own: HostIp, p: u16, other: HostIp, q: u16)
    ensures
        behind_same_router(Some(own.at_port(p)), other.at_port(q)) <==> own == other,
        !behind_same_router(None, other.at_port(q)),
{
}

// ── The race of the two paths ──────────────────────────────────────────────────

/// The two paths, of which the first to succeed wins. If neither finds the peer, the
/// relay is left.
#[derive(Debug, Clone, Copy, PartialEq, Eq, Structural)]
pub struct Race {
    pub side: Side,
    pub allow_relay: bool,
    pub lan_running: bool,
    pub internet_running: bool,
    /// The path over the internet has tried the relay, in vain.
    pub relay_tried: bool,
}

/// A path has ended.
#[derive(Debug)]
pub enum RaceEvent {
    LanConnected,
    LanFailed,
    InternetConnected,
    /// The path over the internet failed before it came to the relay.
    InternetFailed(Error),
    /// The path over the internet came to the relay and failed there.
    RelayFailed(Error),
}

/// What the race has come to.
#[derive(Debug)]
pub enum RaceOutcome {
    /// The other path is still running.
    Undecided,
    /// The local path has won.
    Lan,
    /// The path over the internet has won.
    Internet,
    /// Neither has found the peer: connect through the relay.
    Relay,
    /// There is no way to the peer.
    Failed(Error),
}

impl Race {
    /// Some path is running, and the sender's internet path until the end; where the
    /// relay has failed, the path that tried it is over.
    pub open spec fn valid(&self) -> bool {
        &&& self.lan_running || self.internet_running
        &&& self.side == Side::Sender ==> self.internet_running
        &&& self.relay_tried ==> !self.internet_running
    }

    /// `event` can happen here.
    pub open spec fn admits(&self, event: RaceEvent) -> bool {
        match event {
            RaceEvent::LanConnected | RaceEvent::LanFailed => self.lan_running,
            _ => self.internet_running,
        }
    }

    /// What is left when nobody was found: the relay, if it is allowed and has not been
    /// tried.
    pub open spec fn last_resort(&self) -> RaceOutcome {
        if self.allow_relay && !self.relay_tried {
            RaceOutcome::Relay
        } else {
            RaceOutcome::Failed(Error::PeerNotFound)
        }
    }

    /// What `event` makes of the race.
    ///
    /// A sender's race ends with its internet path, since that is given up only when the
    /// code is over; a receiver's ends when both paths have.
    pub open spec fn outcome(&self, event: RaceEvent) -> RaceOutcome {
        match event {
            RaceEvent::LanConnected => RaceOutcome::Lan,
            RaceEvent::InternetConnected => RaceOutcome::Internet,
            RaceEvent::LanFailed => if self.internet_running {
                RaceOutcome::Undecided
            } else {
                self.last_resort()
            },
            RaceEvent::InternetFailed(e) => if self.side == Side::Sender {
                if e is PeerNotFound {
                    self.last_resort()
                } else {
                    RaceOutcome::Failed(e)
                }
            } else if self.lan_running {
                RaceOutcome::Undecided
            } else {
                self.last_resort()
            },
            RaceEvent::RelayFailed(e) => if self.side == Side::Sender {
                RaceOutcome::Failed(e)
            } else if self.lan_running {
                RaceOutcome::Undecided
            } else {
                RaceOutcome::Failed(Error::PeerNotFound)
            },
        }
    }

    /// Both paths set out.
    pub fn new(side: Side, allow_relay: bool) -> (r: Self)
        ensures
            r == (Race {
                side,
                allow_relay,
                lan_running: true,
                internet_running: true,
                relay_tried: false,
            }),
            r.valid(),
    {
        Race {
            side,
            allow_relay,
            lan_running: true,
            internet_running: true,
            relay_tried: false,
        }
    }

    /// What is left when nobody was found.
    fn resort(&self) -> (r: RaceOutcome)
        ensures
            r == self.last_resort(),
    {
        if self.allow_relay && !self.relay_tried {
            RaceOutcome::Relay
        } else {
            RaceOutcome::Failed(Error::PeerNotFound)
        }
    }

    /// Notes the end of a path.
    pub fn on_event(&mut self, event: RaceEvent) -> (r: RaceOutcome)
        requires
            old(self).valid(),
            old(self).admits(event),
        ensures
            r == old(self).outcome(event),
            r is Lan <==> event is LanConnected,
            r is Internet <==> event is InternetConnected,
            final(self).side == old(self).side,
            final(self).allow_relay == old(self).allow_relay,
            final(self).lan_running == (old(self).lan_running && !(event is LanFailed) && !(event
                is LanConnected)),
            final(self).internet_running == (old(self).internet_running && (event is LanFailed
                || event is LanConnected)),
            r is Undecided ==> final(self).valid(),
            final(self).relay_tried == (old(self).relay_tried || event is RelayFailed),
    {
        match event {
            RaceEvent::LanConnected => {
                self.lan_running = false;
                RaceOutcome::Lan
            },
            RaceEvent::InternetConnected => {
                self.internet_running = false;
                RaceOutcome::Internet
            },
            RaceEvent::LanFailed => {
                self.lan_running = false;
                if self.internet_running {
                    RaceOutcome::Undecided
                } else {
                    self.resort()
                }
            },
            RaceEvent::InternetFailed(e) => {
                self.internet_running = false;
                match self.side {
                    Side::Sender => match e {
                        Error::PeerNotFound => self.resort(),
                        other => RaceOutcome::Failed(other),
                    },
                    Side::Receiver => if self.lan_running {
                        RaceOutcome::Undecided
                    } else {
                        self.resort()
                    },
                }
            },
            RaceEvent::RelayFailed(e) => {
                self.internet_running = false;
                self.relay_tried = true;
                match self.side {
                    Side::Sender => RaceOutcome::Failed(e),
                    Side::Receiver => if self.lan_running {
                        RaceOutcome::Undecided
                    } else {
                        self.resort()
                    },
                }
            },
        }
    }
}

/// The path that connects first wins, whichever it is and whatever else is running.
pub proof fn first_to_connect_wins(race: Race)
    ensures
        race.outcome(RaceEvent::LanConnected) is Lan,
        race.outcome(RaceEvent::InternetConnected) is Internet,
{
}

/// Nothing but a connection on a path lets that path win.
pub proof fn nothing_else_wins(race: Race, event: RaceEvent)
    ensures
        race.outcome(event) is Lan <==> event is LanConnected,
        race.outcome(event) is Internet <==> event is InternetConnected,
{
}

/// A path that runs can end in any way; one that is over cannot end again.
pub proof fn running_paths_end_once(race: Race, e: Error)
    ensures
        race.admits(RaceEvent::LanConnected) <==> race.lan_running,
        race.admits(RaceEvent::LanFailed) <==> race.lan_running,
        race.admits(RaceEvent::InternetConnected) <==> race.internet_running,
        race.admits(RaceEvent::InternetFailed(e)) <==> race.internet_running,
        race.admits(RaceEvent::RelayFailed(e)) <==> race.internet_running,
{
}

/// A sender's race ends with its internet path: with the error of that path, but that
/// nobody was found is no reason to give up the relay.
pub proof fn sender_ends_with_the_internet(race: Race, e: Error)
    requires
        race.side == Side::Sender,
    ensures
        race.outcome(RaceEvent::RelayFailed(e)) == RaceOutcome::Failed(e),
        !(e is PeerNotFound) ==> race.outcome(RaceEvent::InternetFailed(e))
            == RaceOutcome::Failed(e),
        e is PeerNotFound && !race.allow_relay ==> race.outcome(RaceEvent::InternetFailed(e))
            == RaceOutcome::Failed(e),
{
}

/// A receiver whose relay has failed has nothing left but the local network, and without
/// that reports that the peer was not found.
pub proof fn receiver_without_relay_has_the_lan(race: Race, e: Error)
    requires
        race.side == Side::Receiver,
    ensures
        race.lan_running ==> race.outcome(RaceEvent::RelayFailed(e)) is Undecided,
        !race.lan_running ==> race.outcome(RaceEvent::RelayFailed(e)) == RaceOutcome::Failed(
            Error::PeerNotFound,
        ),
        race.relay_tried && !race.internet_running ==> race.outcome(RaceEvent::LanFailed)
            == RaceOutcome::Failed(Error::PeerNotFound),
{
}

/// A receiver that finds nothing over the internet still waits for the local network.
pub proof fn internet_miss_spares_the_lan(race: Race, e: Error)
    requires
        race.side == Side::Receiver,
        race.lan_running,
    ensures
        race.outcome(RaceEvent::InternetFailed(e)) is Undecided,
{
}

/// A failure on the local network never ends the race while the other path runs.
pub proof fn lan_failure_spares_the_internet(race: Race)
    requires
        race.internet_running,
    ensures
        race.outcome(RaceEvent::LanFailed) is Undecided,
{
}

/// A receiver fails, or is left with the relay, only when both paths are over, and what it
/// reports is that the peer was not found.
pub proof fn receiver_gives_up_only_after_both(race: Race, event: RaceEvent)
    requires
        race.valid(),
        race.admits(event),
        race.side == Side::Receiver,
        race.outcome(event) is Failed || race.outcome(event) is Relay,
    ensures
        !(race.lan_running && race.internet_running),
        race.outcome(event) is Failed ==> race.outcome(event)->Failed_0 is PeerNotFound,
{
}

/// Where the relay is allowed, a search that finds nobody leads to the relay: a receiver
/// fails only after the relay was tried, and a sender only then or with an error other than
/// that nobody was found.
pub proof fn relay_comes_before_giving_up(race: Race, event: RaceEvent)
    requires
        race.valid(),
        race.admits(event),
        race.allow_relay,
        race.outcome(event) is Failed,
    ensures
        event is RelayFailed || race.relay_tried || race.side == Side::Sender && event
            is InternetFailed && !(event->InternetFailed_0 is PeerNotFound),
{
}

/// When both searches of a receiver miss, it connects through the relay if that is
/// allowed, and else reports that the peer was not found; whichever search ends first.
pub proof fn two_misses_leave_the_relay(race: Race, e: Error)
    requires
        race.side == Side::Receiver,
        !race.relay_tried,
    ensures
        !race.internet_running ==> race.outcome(RaceEvent::LanFailed) == race.last_resort(),
        !race.lan_running ==> race.outcome(RaceEvent::InternetFailed(e)) == race.last_resort(),
        race.last_resort() is Relay <==> race.allow_relay,
        !race.allow_relay ==> race.last_resort() == RaceOutcome::Failed(Error::PeerNotFound),
{
}

/// When a sender's search misses, it waits at the relay if that is allowed.
pub proof fn sender_miss_leaves_the_relay(race: Race)
    requires
        race.valid(),
        race.side == Side::Sender,
        race.allow_relay,
    ensures
        race.outcome(RaceEvent::InternetFailed(Error::PeerNotFound)) is Relay,
{
}

/// The relay is never what is left where it is not allowed.
pub proof fn race_needs_permission_for_the_relay(race: Race, event: RaceEvent)
    requires
        race.admits(event),
    ensures
        race.outcome(event) is Relay ==> race.allow_relay,
{
}

// ── Waiting ────────────────────────────────────────────────────────────────────

/// How long a sender waits for a receiver: as long as the code is valid, and two minutes
/// at least.
pub fn wait_secs(secs_until_expiry: u64) -> (r: u64)
    ensures
        r == (if secs_until_expiry > 120 {
            secs_until_expiry
        } else {
            120
        }),
{
    if secs_until_expiry > 120 {
        secs_until_expiry
    } else {
        120
    }
}

/// How long a sender waits for a receiver from now on.
pub fn wait_secs_now() -> (r: u64)
    ensures
        120 <= r <= 3600,
{
    wait_secs(share_code::secs_until_expiry())
}

/// How long a receiver looks for the sender on the local network, beside the internet.
pub const LAN_LOOKUP_SECS: u64 = 3;

/// How long a receiver looks for the sender where there is only the local network.
pub const LAN_ONLY_LOOKUP_SECS: u64 = 15;

/// The head start of the local network before the internet is searched.
pub const LAN_HEAD_START_MS: u64 = 800;

/// How long a receiver looks for the sender over the internet.
pub const SENDER_LOOKUP_SECS: u64 = 30;

/// How long a contact is looked for.
pub const CONTACT_LOOKUP_SECS: u64 = 20;

/// The pause between two lookups of the sender or a contact.
pub const LOOKUP_INTERVAL_SECS: u64 = 2;

/// How long a sender waits for the connection once the hole is punched.
pub const ACCEPT_SECS: u64 = 15;

/// An announcement is refreshed after so many milliseconds.
pub const REANNOUNCE_INTERVAL_MS: u64 = 240_000;

/// The pause between two lookups, in milliseconds.
pub const POLL_INTERVAL_MS: u64 = 1500;

/// A sender looks for the receiver many times between two announcements, and refreshes its
/// announcement every four minutes, well within the hour that a code lasts; beside the
/// internet the local network is searched for a shorter time than alone.
pub proof fn waits_fit_together()
    ensures
        REANNOUNCE_INTERVAL_MS == 4 * 60 * 1000,
        POLL_INTERVAL_MS * 100 < REANNOUNCE_INTERVAL_MS,
        LAN_LOOKUP_SECS < LAN_ONLY_LOOKUP_SECS < SENDER_LOOKUP_SECS,
        LAN_HEAD_START_MS < LAN_LOOKUP_SECS * 1000,
        LOOKUP_INTERVAL_SECS * 10 <= CONTACT_LOOKUP_SECS <= SENDER_LOOKUP_SECS,
{
}

/// What to do after a lookup for the receiver.
#[derive(Debug, Clone, Copy, PartialEq, Eq, Structural)]
pub enum PollStep {
    /// The receiver is there.
    Found(PeerAddr),
    /// The time is up.
    NotFound,
    /// Look again after a pause; before it, refresh the announcement if so told.
    Again { reannounce: bool },
}

/// Decides after a lookup for the receiver. The times are milliseconds on one clock.
pub fn poll_step(peers: &Vec<PeerAddr>, now: u64, deadline: u64, last_announce: u64) -> (r:
    PollStep)
    requires
        last_announce <= now,
    ensures
        r == (if peers@.len() > 0 {
            PollStep::Found(peers@[0])
        } else if now >= deadline {
            PollStep::NotFound
        } else {
            PollStep::Again { reannounce: now - last_announce >= REANNOUNCE_INTERVAL_MS }
        }),
{
    if peers.len() > 0 {
        PollStep::Found(peers[0])
    } else if now >= deadline {
        PollStep::NotFound
    } else {
        PollStep::Again { reannounce: now - last_announce >= REANNOUNCE_INTERVAL_MS }
    }
}

/// The first of the peers found; none is an error.
pub fn first_peer(peers: &Vec<PeerAddr>) -> (r: Result<PeerAddr>)
    ensures
        peers@.len() > 0 ==> r is Ok && r->Ok_0 == peers@[0],
        peers@.len() == 0 ==> r is Err && r->Err_0 is PeerNotFound,
{
    if peers.len() > 0 {
        Ok(peers[0])
    } else {
        Err(Error::PeerNotFound)
    }
}

// ── The local network alone ────────────────────────────────────────────────────

/// What came of waiting for a connection on the local network.
#[derive(Debug)]
pub enum LanEvent {
    /// The endpoint is closed.
    Closed,
    /// Someone connected, and something went wrong on the way.
    Failed(Error),
    /// Someone connected and shook hands.
    Connected,
}

/// Handles what came of waiting: `None` to wait on. A connection that went wrong does
/// not end the wait.
pub fn on_lan_event(event: LanEvent) -> (r: Option<Result<()>>)
    ensures
        match event {
            LanEvent::Closed => r is Some && error::failed_with(r->0, "LAN endpoint closed"@),
            LanEvent::Failed(_) => r is None,
            LanEvent::Connected => r is Some && r->0 is Ok,
        },
{
    match event {
        LanEvent::Closed => Some(
            Err(Error::ConnectionFailed("LAN endpoint closed".to_string())),
        ),
        LanEvent::Failed(_) => None,
        LanEvent::Connected => Some(Ok(())),
    }
}

/// The error when no sender is found on the local network.
pub fn lan_not_found() -> (e: Error)
    ensures
        e is ConnectionFailed,
        e->ConnectionFailed_0@
            == "Sender not found on local network. Check that both devices are on the same WiFi and your router does not have AP/Client Isolation enabled."@,
{
    Error::ConnectionFailed(
        "Sender not found on local network. Check that both devices are on the same WiFi and your router does not have AP/Client Isolation enabled.".to_string(),
    )
}

// ── Contacts ───────────────────────────────────────────────────────────────────

/// The key that a contact must show.
pub fn expected_key(public_key: &str) -> (r: Result<[u8; 32]>)
    ensures
        match hexadecimal::bytes_of_hex(public_key@) {
            None => error::failed_with(r, "invalid contact public key"@),
            Some(bytes) => if bytes.len() == 32 {
                r is Ok && r->Ok_0@ == bytes
            } else {
                error::failed_with(r, "public key wrong length"@)
            },
        },
{
    let bytes = match hexadecimal::decode(public_key) {
        Some(bytes) => bytes,
        None => {
            return Err(Error::ConnectionFailed("invalid contact public key".to_string()));
        },
    };
    match wire::array32(bytes.as_slice()) {
        Some(key) => Ok(key),
        None => Err(Error::ConnectionFailed("public key wrong length".to_string())),
    }
}

/// The infohash under which a contact is looked up.
pub fn contact_lookup_key(public_key: &str) -> (r: Result<[u8; 20]>)
    ensures
        match hexadecimal::bytes_of_hex(public_key@) {
            None => error::failed_with(r, "bad public key hex"@),
            Some(bytes) => r is Ok && r->Ok_0@ == hash::sha1_of(bytes),
        },
{
    match hexadecimal::decode(public_key) {
        Some(bytes) => Ok(hash::sha1(bytes.as_slice())),
        None => Err(Error::ConnectionFailed("bad public key hex".to_string())),
    }
}

/// Checks that the peer is the contact, however it is connected. Anyone else is turned
/// away.
pub fn verify_contact(expected: &[u8; 32], remote: &[u8; 32]) -> (r: Result<()>)
    ensures
        remote@ == expected@ ==> r is Ok,
        remote@ != expected@ ==> r is Err && r->Err_0 is IdentityMismatch,
{
    if wire::same_bytes(remote.as_slice(), expected.as_slice()) {
        Ok(())
    } else {
        Err(Error::IdentityMismatch)
    }
}

} // verus!
