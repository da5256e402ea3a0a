use p2pshare_core::crypto::handshake::{
    handshake_len, Handshake, HandshakeResult, HandshakeRole, HandshakeStep,
};
use p2pshare_core::error::Error;
use p2pshare_core::identity::fingerprint::to_fingerprint;
use p2pshare_core::identity::keypair::Keypair;
use p2pshare_core::session::coordinator::{
    announce_port, contact_lookup_key, expected_key, first_peer, lan_not_found, on_lan_event,
    poll_step, proxy_addr, same_network, verify_contact, wait_secs, wait_secs_now, InternetPath,
    LanEvent, PathAction, PathEvent, PollStep, Race, RaceEvent, RaceOutcome, Side,
};
use p2pshare_core::net::PeerAddr;
use p2pshare_core::session::control::read_header;
use p2pshare_core::session::peer_session::read_chunk_header;
use p2pshare_core::session::relay_session::{expect_ctrl, RelayHeader, RelayKind};
use p2pshare_core::session::{chunk_nonce, PeerSession, RelayMsg, RelaySession, Session};
use p2pshare_core::transfer::manifest::ControlMessage;

/// Carries the messages of a handshake to and fro, until both sides are done.
fn shake(a: &[u8; 32], b: &[u8; 32]) -> (HandshakeResult, HandshakeResult) {
    let mut left = Handshake::begin(a, HandshakeRole::Initiator).unwrap();
    let mut right = Handshake::begin(b, HandshakeRole::Responder).unwrap();
    for _ in 0..3 {
        match left.step().unwrap() {
            HandshakeStep::Send(frame) => {
                assert!(matches!(right.step().unwrap(), HandshakeStep::Receive));
                assert_eq!(handshake_len(&[frame[0], frame[1]]), frame.len() - 2);
                right.receive(&frame[2..]).unwrap();
            }
            HandshakeStep::Receive => match right.step().unwrap() {
                HandshakeStep::Send(frame) => left.receive(&frame[2..]).unwrap(),
                _ => panic!("nobody sends"),
            },
            HandshakeStep::Done => panic!("done too early"),
        }
    }
    assert!(matches!(left.step().unwrap(), HandshakeStep::Done));
    assert!(matches!(right.step().unwrap(), HandshakeStep::Done));
    (left.finish().unwrap(), right.finish().unwrap())
}

fn sessions() -> (PeerSession, PeerSession) {
    let (a, b) = shake(&[1; 32], &[2; 32]);
    (PeerSession::new(a.remote_pubkey, a.transport), PeerSession::new(b.remote_pubkey, b.transport))
}

fn relay_sessions() -> (RelaySession, RelaySession) {
    let (a, b) = shake(&[1; 32], &[2; 32]);
    (
        RelaySession::new(a.remote_pubkey, to_fingerprint(&a.remote_pubkey), a.transport),
        RelaySession::new(b.remote_pubkey, to_fingerprint(&b.remote_pubkey), b.transport),
    )
}

fn noise_text<T>(r: Result<T, Error>) -> String {
    match r {
        Err(Error::Noise(e)) => e,
        _ => panic!("expected a Noise error"),
    }
}

fn failure_text<T>(r: Result<T, Error>) -> String {
    match r {
        Err(Error::ConnectionFailed(e)) => e,
        _ => panic!("expected a failed connection"),
    }
}

#[test]
fn noise_xx_handshake_loopback() {
    let a = Keypair::generate();
    let b = Keypair::generate();
    let (left, right) = shake(&a.secret, &b.secret);
    assert_eq!(left.remote_pubkey, b.public);
    assert_eq!(right.remote_pubkey, a.public);
    let nonce = 42u64;
    let plaintext = b"hello p2pshare";
    let mut ciphertext = vec![0u8; plaintext.len() + 16];
    let len = left.transport.write_message(nonce, plaintext, &mut ciphertext).unwrap();
    ciphertext.truncate(len);
    let mut decrypted = vec![0u8; ciphertext.len()];
    let len = right.transport.read_message(nonce, &ciphertext, &mut decrypted).unwrap();
    assert_eq!(&decrypted[..len], plaintext);
}

#[test]
fn handshake_out_of_turn() {
    let mut left = Handshake::begin(&[1; 32], HandshakeRole::Initiator).unwrap();
    assert_eq!(noise_text(left.receive(&[0; 32])), "state error: NotTurnToRead");
    assert_eq!(noise_text(left.receive(&[0; 65536])), "input error");
    assert_eq!(
        noise_text(left.finish()),
        "remote static key unavailable post-handshake"
    );
}

#[test]
fn handshake_refuses_a_forged_message() {
    let mut left = Handshake::begin(&[1; 32], HandshakeRole::Initiator).unwrap();
    assert!(matches!(left.step().unwrap(), HandshakeStep::Send(_)));
    assert_eq!(noise_text(left.receive(&[7; 96])), "decrypt error");
    assert!(matches!(left.step().unwrap(), HandshakeStep::Receive));
}

/// A responder that waits for the third message, and that message.
fn before_the_third_message() -> (Handshake, Vec<u8>) {
    let mut left = Handshake::begin(&[1; 32], HandshakeRole::Initiator).unwrap();
    let mut right = Handshake::begin(&[2; 32], HandshakeRole::Responder).unwrap();
    if let HandshakeStep::Send(frame) = left.step().unwrap() {
        right.receive(&frame[2..]).unwrap();
    }
    if let HandshakeStep::Send(frame) = right.step().unwrap() {
        left.receive(&frame[2..]).unwrap();
    }
    match left.step().unwrap() {
        HandshakeStep::Send(frame) => (right, frame[2..].to_vec()),
        _ => panic!("the third message is due"),
    }
}

#[test]
fn damaged_third_message_spoils_the_handshake() {
    let (mut right, third) = before_the_third_message();
    let mut damaged = third.clone();
    let last = damaged.len() - 1;
    damaged[last] ^= 1;
    assert_eq!(noise_text(right.receive(&damaged)), "decrypt error");
    assert!(matches!(right.step().unwrap(), HandshakeStep::Receive));
    assert_eq!(noise_text(right.receive(&third)), "decrypt error");
}

#[test]
fn message_that_is_too_long_changes_nothing() {
    let (mut right, third) = before_the_third_message();
    assert_eq!(noise_text(right.receive(&[0; 65536])), "input error");
    right.receive(&third).unwrap();
    assert!(matches!(right.step().unwrap(), HandshakeStep::Done));
}

#[test]
fn handshake_cannot_be_finished_early() {
    let mut left = Handshake::begin(&[1; 32], HandshakeRole::Initiator).unwrap();
    let mut right = Handshake::begin(&[2; 32], HandshakeRole::Responder).unwrap();
    if let HandshakeStep::Send(frame) = left.step().unwrap() {
        right.receive(&frame[2..]).unwrap();
    }
    if let HandshakeStep::Send(frame) = right.step().unwrap() {
        left.receive(&frame[2..]).unwrap();
    }
    assert_eq!(noise_text(left.finish()), "state error: HandshakeNotFinished");
}

#[test]
fn handshake_is_over_after_three_messages() {
    let mut left = Handshake::begin(&[1; 32], HandshakeRole::Initiator).unwrap();
    let mut right = Handshake::begin(&[2; 32], HandshakeRole::Responder).unwrap();
    for _ in 0..3 {
        if let HandshakeStep::Send(frame) = left.step().unwrap() {
            right.receive(&frame[2..]).unwrap();
        }
        if let HandshakeStep::Send(frame) = right.step().unwrap() {
            left.receive(&frame[2..]).unwrap();
        }
    }
    assert_eq!(noise_text(left.receive(&[0; 64])), "state error: HandshakeAlreadyFinished");
    assert_eq!(noise_text(right.receive(&[0; 64])), "state error: NotTurnToRead");
}

#[test]
fn chunks_open_at_the_other_end() {
    let (a, b) = sessions();
    let (ra, rb) = relay_sessions();
    for len in [0usize, 1, 65519, 65520, 131038, 200000] {
        let plain: Vec<u8> = (0..len).map(|i| (i * 7 % 251) as u8).collect();
        let sealed = a.encrypt_chunk(3, &plain).unwrap();
        let pieces = (len + 65518) / 65519;
        assert_eq!(sealed.len(), 2 + len + 20 * pieces);
        assert_eq!(&sealed[..2], &(pieces as u16).to_be_bytes());
        assert_eq!(b.decrypt_chunk(3, &sealed).unwrap(), plain);
        let sealed = ra.encrypt_chunk(3, &plain).unwrap();
        assert_eq!(rb.decrypt_chunk(3, &sealed).unwrap(), plain);
    }
}

#[test]
fn chunks_are_bound_to_their_index() {
    let (a, b) = sessions();
    let sealed = a.encrypt_chunk(3, b"data").unwrap();
    assert_eq!(noise_text(b.decrypt_chunk(4, &sealed)), "decrypt error");
    assert_eq!(noise_text(a.decrypt_chunk(3, &sealed)), "decrypt error");
}

#[test]
fn damaged_chunks_are_refused() {
    let (a, b) = sessions();
    let sealed = a.encrypt_chunk(0, b"some data").unwrap();
    assert_eq!(noise_text(b.decrypt_chunk(0, &sealed[..1])), "chunk too short");
    assert_eq!(noise_text(b.decrypt_chunk(0, &sealed[..5])), "truncated sub-message length");
    assert_eq!(
        noise_text(b.decrypt_chunk(0, &sealed[..sealed.len() - 1])),
        "truncated sub-message body"
    );
    let mut bad = sealed.clone();
    bad[10] ^= 1;
    assert_eq!(noise_text(b.decrypt_chunk(0, &bad)), "decrypt error");
    assert_eq!(noise_text(b.decrypt_chunk(0, &[0, 1, 0, 0, 0, 3, 1, 2, 3])), "decrypt error");
    let mut longer = sealed.clone();
    longer.push(0);
    assert_eq!(b.decrypt_chunk(0, &longer).unwrap(), b"some data");
    let mut huge = vec![0, 1, 0, 1, 0, 0];
    huge.extend_from_slice(&[0; 65536]);
    assert_eq!(noise_text(b.decrypt_chunk(0, &huge)), "input error");
}

#[test]
fn single_pieces_can_be_opened() {
    let (a, b) = sessions();
    let plain = vec![5u8; 70000];
    let sealed = a.encrypt_chunk(9, &plain).unwrap();
    let second = &sealed[2 + 4 + 65535 + 4..];
    assert_eq!(b.decrypt_sub_message(9, 1, second).unwrap(), &plain[65519..]);
    assert!(b.decrypt_sub_message(9, 0, second).is_err());
}

#[test]
fn nonces_of_chunks() {
    assert_eq!(chunk_nonce(0, 0), 1 << 32);
    assert_eq!(chunk_nonce(1, 0), (1 << 32) + 65536);
    assert_eq!(chunk_nonce(2, 7), (1 << 32) + 2 * 65536 + 7);
    assert_eq!(chunk_nonce(u32::MAX, u32::MAX), 0x1_0000_0000 + 0xffff_ffff_0000 + 0xffff_ffff);
}

#[test]
fn control_messages_cross() {
    let (mut a, b) = sessions();
    for expected in 0u64..3 {
        let frame = a.send_ctrl(b"hello").unwrap();
        let (nonce, len) = read_header(&frame[..12]);
        assert_eq!(nonce, expected);
        assert_eq!(len as usize, frame.len() - 12);
        assert_eq!(len, 5 + 16);
        assert_eq!(b.recv_ctrl(nonce, &frame[12..]).unwrap(), b"hello");
        assert_eq!(noise_text(b.recv_ctrl(nonce + 1, &frame[12..])), "decrypt error");
    }
    assert_eq!(a.send_nonce, 3);
}

#[test]
fn control_messages_have_limits() {
    let (mut a, b) = sessions();
    assert!(a.send_ctrl(&vec![0; 65519]).is_ok());
    assert_eq!(noise_text(a.send_ctrl(&vec![0; 65520])), "input error");
    assert_eq!(a.send_nonce, 2);
    a.send_nonce = u64::MAX;
    assert_eq!(noise_text(a.send_ctrl(b"x")), "state error: Exhausted");
    assert_eq!(a.send_nonce, 0);
    assert_eq!(noise_text(b.recv_ctrl(u64::MAX, &[0; 20])), "state error: Exhausted");
    assert_eq!(noise_text(b.recv_ctrl(0, &[0; 15])), "decrypt error");
}

#[test]
fn chunk_frames_tell_index_and_length() {
    let (a, b) = sessions();
    let frame = a.encode_chunk_frame(0x01020304, b"chunk").unwrap();
    let (index, len) = read_chunk_header(&frame[..8]);
    assert_eq!(index, 0x01020304);
    assert_eq!(len as usize, frame.len() - 8);
    assert_eq!(b.decrypt_chunk(index, &frame[8..]).unwrap(), b"chunk");
}

#[test]
fn relay_frames_tell_their_kind() {
    let (mut a, b) = relay_sessions();
    let frame = a.send_ctrl(b"hello").unwrap();
    let kind = RelayKind::from_byte(frame[0]).unwrap();
    assert_eq!(kind.header_len(), 12);
    match kind.read_header(&frame[1..13]) {
        RelayHeader::Ctrl { nonce, len } => {
            assert_eq!(nonce, 0);
            assert_eq!(len as usize, frame.len() - 13);
            assert_eq!(b.recv_ctrl(nonce, &frame[13..]).unwrap(), b"hello");
        }
        _ => panic!("expected a control message"),
    }
    let frame = a.send_chunk_raw(77, b"payload");
    let kind = RelayKind::from_byte(frame[0]).unwrap();
    assert_eq!(kind.header_len(), 8);
    match kind.read_header(&frame[1..9]) {
        RelayHeader::Chunk { index, len } => {
            assert_eq!((index, len), (77, 7));
            assert_eq!(&frame[9..], b"payload");
        }
        _ => panic!("expected a chunk"),
    }
    assert_eq!(failure_text(RelayKind::from_byte(0x1f)), "relay: unknown msg type 0x1f");
    assert_eq!(failure_text(RelayKind::from_byte(2)), "relay: unknown msg type 0x2");
}

#[test]
fn relay_and_direct_sessions_seal_alike() {
    let (x, y) = shake(&[1; 32], &[2; 32]);
    let sender = PeerSession::new(x.remote_pubkey, x.transport);
    let receiver = RelaySession::new(y.remote_pubkey, String::new(), y.transport);
    for index in [0, 1, 7, u32::MAX] {
        let sealed = sender.encrypt_chunk(index, b"chunk").unwrap();
        assert_eq!(receiver.decrypt_chunk(index, &sealed).unwrap(), b"chunk");
        let sealed = receiver.encrypt_chunk(index, b"back").unwrap();
        assert_eq!(sender.decrypt_chunk(index, &sealed).unwrap(), b"back");
    }
}

#[test]
fn chunks_cut_short_are_refused() {
    let (a, b) = sessions();
    for plain in [vec![], vec![7u8; 40], vec![7u8; 65_530]] {
        let sealed = a.encrypt_chunk(3, &plain).unwrap();
        for cut in (0..sealed.len()).filter(|c| *c < 80 || *c % 997 == 0 || *c > 65_500) {
            assert!(matches!(b.decrypt_chunk(3, &sealed[..cut]), Err(Error::Noise(_))));
        }
        assert_eq!(b.decrypt_chunk(3, &sealed).unwrap(), plain);
    }
}

#[test]
fn chunk_in_place_of_a_control_message() {
    assert!(expect_ctrl(RelayMsg::Ctrl(ControlMessage::Complete)).is_ok());
    let chunk = RelayMsg::Chunk { index: 1, ciphertext: vec![] };
    assert_eq!(failure_text(expect_ctrl(chunk)), "expected ctrl msg, got chunk");
}

#[test]
fn sessions_know_their_peer() {
    let (a, _) = sessions();
    let key = a.remote_pubkey;
    let session = Session::Direct(a);
    assert_eq!(session.remote_pubkey(), &key);
    assert_eq!(session.remote_fingerprint(), to_fingerprint(&key));
    let (r, _) = relay_sessions();
    let session = Session::Relay(r);
    assert_eq!(session.remote_pubkey(), &key);
    assert_eq!(session.remote_fingerprint(), to_fingerprint(&key));
}

// ── The way to the peer ────────────────────────────────────────────────────────

fn walk(mut path: InternetPath, punch: Option<Error>) -> Vec<String> {
    let mut seen = vec![];
    let mut event = PathEvent::Done;
    let mut punch = punch;
    loop {
        let action = path.next_step(event);
        let (word, last) = match action {
            PathAction::Announce => ("announce".to_string(), false),
            PathAction::WaitForLan { secs } => (format!("wait {secs}"), false),
            PathAction::Punch => ("punch".to_string(), false),
            PathAction::KeepOpen { packets, interval_ms } => {
                (format!("keep {packets}/{interval_ms}"), false)
            }
            PathAction::ConnectDirect => ("direct".to_string(), true),
            PathAction::ConnectRelay => ("relay".to_string(), true),
            PathAction::Fail(failure) => (failure.into_error().message(), true),
        };
        event = match (word.as_str(), punch.take()) {
            ("punch", Some(e)) => PathEvent::PunchFailed(e),
            (_, left) => {
                punch = left;
                PathEvent::Done
            }
        };
        seen.push(word);
        if last {
            return seen;
        }
    }
}

#[test]
fn internet_path_of_the_sender() {
    let path = |relay, same| InternetPath::new(Side::Sender, relay, same);
    assert_eq!(walk(path(true, false), None), vec!["punch", "direct"]);
    assert_eq!(walk(path(true, false), Some(Error::HolePunchTimeout)), vec!["punch", "relay"]);
    assert_eq!(walk(path(true, true), None), vec!["wait 7", "relay"]);
    assert_eq!(
        walk(path(false, false), Some(Error::HolePunchTimeout)),
        vec!["punch", "Connection failed: hole punch timed out and relay is disabled"]
    );
    assert_eq!(
        walk(path(false, true), None),
        vec!["wait 7", "Connection failed: same-NAT: LAN path failed and relay is disabled"]
    );
    assert_eq!(
        walk(path(true, false), Some(Error::Io("gone".to_string()))),
        vec!["punch", "I/O error: gone"]
    );
}

#[test]
fn internet_path_of_the_receiver() {
    let path = |relay, same| InternetPath::new(Side::Receiver, relay, same);
    assert_eq!(
        walk(path(true, false), None),
        vec!["announce", "punch", "keep 10/60", "direct"]
    );
    assert_eq!(walk(path(true, true), None), vec!["announce", "wait 8", "relay"]);
    assert_eq!(
        walk(InternetPath::to_contact(), Some(Error::HolePunchTimeout)),
        vec!["announce", "punch", "relay"]
    );
}

#[test]
fn lan_path_survives_an_internet_miss() {
    let mut race = Race::new(Side::Receiver, true);
    let miss = RaceEvent::InternetFailed(Error::PeerNotFound);
    assert!(matches!(race.on_event(miss), RaceOutcome::Undecided));
    assert!(matches!(race.on_event(RaceEvent::LanConnected), RaceOutcome::Lan));
}

#[test]
fn two_misses_leave_the_relay() {
    for allow_relay in [true, false] {
        let mut lan_first = Race::new(Side::Receiver, allow_relay);
        assert!(matches!(lan_first.on_event(RaceEvent::LanFailed), RaceOutcome::Undecided));
        let miss = RaceEvent::InternetFailed(Error::PeerNotFound);
        let one = lan_first.on_event(miss);
        let mut lan_last = Race::new(Side::Receiver, allow_relay);
        let miss = RaceEvent::InternetFailed(Error::PeerNotFound);
        assert!(matches!(lan_last.on_event(miss), RaceOutcome::Undecided));
        let other = lan_last.on_event(RaceEvent::LanFailed);
        for outcome in [one, other] {
            if allow_relay {
                assert!(matches!(outcome, RaceOutcome::Relay));
            } else {
                assert!(matches!(outcome, RaceOutcome::Failed(Error::PeerNotFound)));
            }
        }
    }
}

#[test]
fn relay_is_not_tried_twice() {
    let mut race = Race::new(Side::Receiver, true);
    let failed = RaceEvent::RelayFailed(Error::Io("reset".to_string()));
    assert!(matches!(race.on_event(failed), RaceOutcome::Undecided));
    let end = race.on_event(RaceEvent::LanFailed);
    assert!(matches!(end, RaceOutcome::Failed(Error::PeerNotFound)));
    let mut race = Race::new(Side::Receiver, true);
    assert!(matches!(race.on_event(RaceEvent::LanFailed), RaceOutcome::Undecided));
    let failed = RaceEvent::RelayFailed(Error::Io("reset".to_string()));
    assert!(matches!(race.on_event(failed), RaceOutcome::Failed(Error::PeerNotFound)));
    let mut race = Race::new(Side::Sender, true);
    let failed = RaceEvent::RelayFailed(Error::Io("reset".to_string()));
    assert!(matches!(race.on_event(failed), RaceOutcome::Failed(Error::Io(_))));
}

#[test]
fn sender_fails_with_the_internet_path() {
    let mut race = Race::new(Side::Sender, true);
    let failed = RaceEvent::InternetFailed(Error::HolePunchTimeout);
    assert!(matches!(race.on_event(failed), RaceOutcome::Failed(Error::HolePunchTimeout)));
    let mut race = Race::new(Side::Sender, true);
    assert!(matches!(race.on_event(RaceEvent::LanFailed), RaceOutcome::Undecided));
    assert!(matches!(race.on_event(RaceEvent::InternetConnected), RaceOutcome::Internet));
    let mut race = Race::new(Side::Sender, true);
    let miss = RaceEvent::InternetFailed(Error::PeerNotFound);
    assert!(matches!(race.on_event(miss), RaceOutcome::Relay));
    let mut race = Race::new(Side::Sender, false);
    let miss = RaceEvent::InternetFailed(Error::PeerNotFound);
    assert!(matches!(race.on_event(miss), RaceOutcome::Failed(Error::PeerNotFound)));
}

#[test]
fn addresses_and_routers() {
    let own = PeerAddr::V4 { ip: 1, port: 100 };
    let near = PeerAddr::V4 { ip: 1, port: 200 };
    let far = PeerAddr::V4 { ip: 2, port: 100 };
    assert!(same_network(Some(own), &near));
    assert!(!same_network(Some(own), &far));
    assert!(!same_network(None, &near));
    assert_eq!(announce_port(Some(own), 7), 100);
    assert_eq!(announce_port(None, 7), 7);
    assert_eq!(proxy_addr(8080), "127.0.0.1:8080");
}

#[test]
fn polling_for_the_receiver() {
    let peer = PeerAddr::V4 { ip: 1, port: 1 };
    assert_eq!(poll_step(&vec![peer], 10, 5, 0), PollStep::Found(peer));
    assert_eq!(poll_step(&vec![], 5, 5, 0), PollStep::NotFound);
    assert_eq!(poll_step(&vec![], 4, 5, 0), PollStep::Again { reannounce: false });
    assert_eq!(
        poll_step(&vec![], 240_000, 300_000, 0),
        PollStep::Again { reannounce: true }
    );
    assert_eq!(wait_secs(60), 120);
    assert_eq!(wait_secs(3000), 3000);
    assert!(wait_secs_now() >= 120);
    assert!(matches!(first_peer(&vec![]), Err(Error::PeerNotFound)));
    assert_eq!(first_peer(&vec![peer]).unwrap(), peer);
}

#[test]
fn bad_connections_do_not_end_the_wait() {
    assert!(on_lan_event(LanEvent::Failed(Error::PeerNotFound)).is_none());
    assert!(matches!(on_lan_event(LanEvent::Connected), Some(Ok(()))));
    assert_eq!(failure_text(on_lan_event(LanEvent::Closed).unwrap()), "LAN endpoint closed");
    assert!(lan_not_found().message().starts_with("Connection failed: Sender not found"));
}

#[test]
fn contacts_are_verified() {
    assert_eq!(expected_key(&"0a".repeat(32)).unwrap(), [10u8; 32]);
    assert_eq!(failure_text(expected_key("zz")), "invalid contact public key");
    assert_eq!(failure_text(expected_key("0a")), "public key wrong length");
    assert_eq!(failure_text(contact_lookup_key("0")), "bad public key hex");
    assert_eq!(
        hex::encode(contact_lookup_key("00ff").unwrap()),
        "aa3e5dcdd77b153f2e59bd0d8794fde33cb4e486"
    );
    assert!(verify_contact(&[1; 32], &[1; 32]).is_ok());
    assert!(matches!(verify_contact(&[1; 32], &[2; 32]), Err(Error::IdentityMismatch)));
}
