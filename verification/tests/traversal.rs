use p2pshare_core::error::Error;
use p2pshare_core::net::PeerAddr;
use p2pshare_core::relay_server::{hex_token, token_key, Arrival, WaitMap};
use p2pshare_core::traversal::hole_punch::{on_punch_event, punch_packet, PunchEvent};
use p2pshare_core::traversal::relay::{
    clear_relay_proxy_override, on_pairing, relay_addr, relay_token_for, set_relay_proxy_override,
    PairingEvent, RelayConfig,
};
use p2pshare_core::traversal::stun::{
    build_request, match_response, new_request, parse_response, pick_server, stun_servers,
};

fn config() -> RelayConfig {
    RelayConfig { proxy_override: None, cached: None }
}

#[test]
fn test_relay_proxy_override() {
    let mut relay = config();
    set_relay_proxy_override(&mut relay, "127.0.0.1:9999".to_string());
    assert_eq!(relay_addr(&mut relay, None), "127.0.0.1:9999");
    clear_relay_proxy_override(&mut relay);
}

#[test]
fn relay_address_comes_from_the_environment_once() {
    let mut relay = config();
    assert_eq!(relay_addr(&mut relay, Some("host:1".to_string())), "host:1");
    assert_eq!(relay_addr(&mut relay, Some("other:2".to_string())), "host:1");
    set_relay_proxy_override(&mut relay, "p:3".to_string());
    assert_eq!(relay_addr(&mut relay, None), "p:3");
    clear_relay_proxy_override(&mut relay);
    assert_eq!(relay_addr(&mut relay, None), "host:1");
}

#[test]
fn blank_environment_means_the_default_relay() {
    assert_eq!(relay_addr(&mut config(), None), "xend-relay.fly.dev:8443");
    assert_eq!(relay_addr(&mut config(), Some(" \t".to_string())), "xend-relay.fly.dev:8443");
    assert_eq!(relay_addr(&mut config(), Some(" h ".to_string())), " h ");
}

#[test]
fn relay_token_ignores_case() {
    assert_eq!(hex::encode(relay_token_for("MANGO-4471")), "941ce21251779d1736dd8f9843a82001");
    assert_eq!(relay_token_for("mango-4471"), relay_token_for("MANGO-4471"));
    assert_ne!(relay_token_for("MANGO-4472"), relay_token_for("MANGO-4471"));
}

#[test]
fn pairing_byte_must_be_one() {
    assert!(on_pairing(PairingEvent::Byte(1)).is_ok());
    match on_pairing(PairingEvent::Byte(0)) {
        Err(Error::ConnectionFailed(e)) => assert_eq!(e, "relay: unexpected pairing byte 0x0"),
        _ => panic!("expected an error"),
    }
    match on_pairing(PairingEvent::Byte(0xa7)) {
        Err(Error::ConnectionFailed(e)) => assert_eq!(e, "relay: unexpected pairing byte 0xa7"),
        _ => panic!("expected an error"),
    }
    match on_pairing(PairingEvent::Timeout) {
        Err(Error::ConnectionFailed(e)) => assert_eq!(e, "relay: timed out waiting for peer"),
        _ => panic!("expected an error"),
    }
    assert!(matches!(on_pairing(PairingEvent::StreamError("x".to_string())), Err(Error::Io(_))));
}

#[test]
fn relay_server_pairs_clients() {
    let mut map = WaitMap::new();
    assert_eq!(map.arrive(5, 1), Arrival::First);
    assert_eq!(map.arrive(6, 2), Arrival::First);
    assert_eq!(map.arrive(5, 3), Arrival::Second { first: 1 });
    assert_eq!(map.arrive(5, 4), Arrival::First);
    assert_eq!(map.give_up(6), Some(2));
    assert_eq!(map.give_up(6), None);
    assert_eq!(map.arrive(6, 5), Arrival::First);
}

#[test]
fn relay_tokens_as_numbers_and_text() {
    let mut token = [0u8; 16];
    token[0] = 0x0a;
    token[15] = 0xf1;
    assert_eq!(token_key(&token), (0x0a << 120) | 0xf1);
    assert_eq!(token_key(&[0xff; 16]), u128::MAX);
    assert_eq!(hex_token(&token), "0a0000000000000000000000000000f1");
}

#[test]
fn only_the_peers_punch_counts() {
    let peer = PeerAddr::V4 { ip: 1, port: 2 };
    let other = PeerAddr::V4 { ip: 1, port: 3 };
    assert_eq!(punch_packet(), b"p2pshare-punch".to_vec());
    let punch = |from: PeerAddr, data: Vec<u8>| PunchEvent::Packet { from, data };
    assert!(matches!(on_punch_event(punch(peer, punch_packet()), &peer), Some(Ok(()))));
    assert!(on_punch_event(punch(other, punch_packet()), &peer).is_none());
    assert!(on_punch_event(punch(peer, b"p2pshare-punc".to_vec()), &peer).is_none());
    assert!(on_punch_event(punch(peer, b"p2pshare-punch!".to_vec()), &peer).is_none());
    assert!(matches!(
        on_punch_event(PunchEvent::Timeout, &peer),
        Some(Err(Error::HolePunchTimeout))
    ));
    assert!(matches!(
        on_punch_event(PunchEvent::SocketError("gone".to_string()), &peer),
        Some(Err(Error::Io(_)))
    ));
}

fn response(txn: &[u8; 12], attrs: &[u8]) -> Vec<u8> {
    let mut r = vec![1, 1, 0, attrs.len() as u8, 0x21, 0x12, 0xA4, 0x42];
    r.extend_from_slice(txn);
    r.extend_from_slice(attrs);
    r
}

#[test]
fn stun_request_layout() {
    let request = build_request(&[9; 12]);
    assert_eq!(&request[..8], &[0, 1, 0, 0, 0x21, 0x12, 0xA4, 0x42]);
    assert_eq!(&request[8..], &[9; 12]);
    let (txn, request) = new_request();
    assert_eq!(&request[8..], &txn);
    assert_ne!(new_request().0, txn);
}

#[test]
fn stun_masked_address() {
    let txn = [3; 12];
    let attrs = [0, 0x20, 0, 8, 0, 1, 0x21 ^ 0x1f, 0x12 ^ 0x90, 0x21 ^ 203, 0x12, 0xA4 ^ 113, 0x42 ^ 5];
    let expected = PeerAddr::V4 { ip: 0xCB007105, port: 0x1f90 };
    assert_eq!(parse_response(&response(&txn, &attrs), &txn), Some(expected));
}

#[test]
fn stun_plain_address_behind_another_attribute() {
    let txn = [3; 12];
    // A three-byte attribute is padded to four.
    let attrs = [0x80, 0x22, 0, 3, 1, 2, 3, 0, 0, 1, 0, 8, 0, 1, 0x1f, 0x90, 203, 0, 113, 5];
    let expected = PeerAddr::V4 { ip: 0xCB007105, port: 0x1f90 };
    assert_eq!(parse_response(&response(&txn, &attrs), &txn), Some(expected));
}

#[test]
fn stun_masked_address_is_preferred() {
    let txn = [7u8; 12];
    let plain = [0, 1, 0, 8, 0, 1, 0x03, 0xE8, 0xC6, 0x33, 0x64, 0x09];
    let masked = [0, 0x20, 0, 8, 0, 1, 0xA1, 0x47, 0xE1, 0x12, 0xA6, 0x43];
    let expected = PeerAddr::V4 { ip: 0xC0000201, port: 32853 };
    let fallback = PeerAddr::V4 { ip: 0xC6336409, port: 1000 };
    let both = [plain, masked].concat();
    assert_eq!(parse_response(&response(&txn, &both), &txn), Some(expected));
    let both = [masked, plain].concat();
    assert_eq!(parse_response(&response(&txn, &both), &txn), Some(expected));
    // An attribute that runs over the end ends the search.
    let cut = [&plain[..], &[0x80, 0x22, 0, 9, 1, 2], &masked[..2]].concat();
    assert_eq!(parse_response(&response(&txn, &cut), &txn), Some(fallback));
}

#[test]
fn stun_bad_responses() {
    let txn = [3; 12];
    let attrs = [0, 1, 0, 8, 0, 1, 0x1f, 0x90, 203, 0, 113, 5];
    let good = response(&txn, &attrs);
    assert!(parse_response(&good, &txn).is_some());
    assert_eq!(parse_response(&good, &[4; 12]), None);
    assert_eq!(parse_response(&good[..19], &txn), None);
    assert_eq!(parse_response(&good[..31], &txn), None);
    let mut error = good.clone();
    error[1] = 0x11;
    assert_eq!(parse_response(&error, &txn), None);
    let mut v6 = good.clone();
    v6[25] = 2;
    assert_eq!(parse_response(&v6, &txn), None);
    let mut long = good.clone();
    long[23] = 9;
    assert_eq!(parse_response(&long, &txn), None);
}

#[test]
fn stun_answers_must_come_from_the_server_asked() {
    let a = PeerAddr::V4 { ip: 1, port: 1 };
    let b = PeerAddr::V4 { ip: 2, port: 1 };
    let attrs = [0, 1, 0, 8, 0, 1, 0x1f, 0x90, 203, 0, 113, 5];
    let pending = vec![([1; 12], a), ([2; 12], b)];
    assert!(match_response(&pending, &b, &response(&[2; 12], &attrs)).is_some());
    assert!(match_response(&pending, &a, &response(&[2; 12], &attrs)).is_none());
    assert!(match_response(&pending, &b, b"p2pshare-punch").is_none());
}

#[test]
fn stun_servers_are_asked_over_ipv4() {
    assert_eq!(stun_servers().len(), 4);
    assert_eq!(stun_servers()[3], "stun.cloudflare.com:3478");
    let v6 = PeerAddr::V6 { ip6: 1, port: 1, flowinfo: 0, scope_id: 0 };
    let v4 = PeerAddr::V4 { ip: 1, port: 1 };
    assert_eq!(pick_server(&vec![v6, v4]), Some(v4));
    assert_eq!(pick_server(&vec![v6]), None);
}
