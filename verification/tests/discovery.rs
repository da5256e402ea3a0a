use p2pshare_core::discovery::announcement::{
    announced_addr, announcement, broadcast_targets, parse_announcement, subnet_broadcast,
};
use p2pshare_core::discovery::dht::{merge_peers, retry_step, RetryStep};
use p2pshare_core::discovery::mdns::{mdns_hostname, mdns_instance, on_resolved};
use p2pshare_core::discovery::presence::{contact_infohash, status_of, PresenceStatus};
use p2pshare_core::discovery::share_code::{
    current_hour, generate_share_code, hour_of, normalized, secs_until_expiry,
    secs_until_expiry_at, share_code_from, to_infohash, to_infohash_in, to_recv_infohash,
    to_recv_infohash_in,
};
use p2pshare_core::error::Error;
use p2pshare_core::net::{HostIp, PeerAddr};

#[test]
fn infohash_is_deterministic_within_hour() {
    let h1 = to_infohash("MANGO-4471");
    let h2 = to_infohash("MANGO-4471");
    assert_eq!(h1, h2);
}

#[test]
fn send_recv_infohashes_differ() {
    let code = "MANGO-4471";
    assert_ne!(to_infohash(code), to_recv_infohash(code));
}

#[test]
fn infohashes_of_a_known_hour() {
    assert_eq!(
        hex::encode(to_infohash_in("MANGO-4471", 0)),
        "ba0e2ebc6c1986f7764cdf304bf93348519f10a4"
    );
    assert_eq!(
        hex::encode(to_recv_infohash_in("MANGO-4471", 0)),
        "65c9cce22bf72c010c090d06c593b7041d9c1ceb"
    );
    assert_ne!(to_infohash_in("MANGO-4471", 0), to_infohash_in("MANGO-4471", 1));
}

#[test]
fn codes_expire_at_the_full_hour() {
    assert_eq!(secs_until_expiry_at(0), 3600);
    assert_eq!(secs_until_expiry_at(3540), 60);
    assert_eq!(secs_until_expiry_at(3599), 1);
    assert_eq!(secs_until_expiry_at(3600), 3600);
    assert_eq!(hour_of(3599), 0);
    assert_eq!(hour_of(3600), 1);
    let left = secs_until_expiry();
    assert!(left >= 1 && left <= 3600);
    // Later than 2020.
    assert!(current_hour() > 438_000);
}

#[test]
fn share_codes_read_word_and_number() {
    assert_eq!(share_code_from(5, 42).display, "ABSENT-0042");
    assert_eq!(share_code_from(2048 + 2047, 10_007).display, "ZOO-0007");
    let code = generate_share_code().display;
    let parts: Vec<&str> = code.split('-').collect();
    assert_eq!(parts.len(), 2);
    assert!(parts[0].chars().all(|c| c.is_ascii_uppercase()));
    assert_eq!(parts[1].len(), 4);
}

#[test]
fn share_codes_are_random() {
    let codes: Vec<String> = (0..20).map(|_| generate_share_code().display).collect();
    assert!(codes.iter().any(|c| *c != codes[0]));
}

#[test]
fn case_of_a_code_does_not_matter() {
    assert_eq!(normalized("ocean-4471"), "OCEAN-4471");
    assert_eq!(normalized("Ocean-4471"), "OCEAN-4471");
    assert_eq!(normalized("OCEAN-4471"), "OCEAN-4471");
    assert_eq!(normalized("straße"), "STRASSE");
}

#[test]
fn announcement_is_read_back() {
    let datagram = announcement("mango-4471", 50_000);
    assert_eq!(datagram, b"XEND1:MANGO-4471: 50000".to_vec());
    assert_eq!(parse_announcement(&datagram, "MANGO-4471"), Some(50_000));
    assert_eq!(parse_announcement(&datagram, "MANGO-4472"), None);
    let from = PeerAddr::V4 { ip: 0xC0A80105, port: 47474 };
    assert_eq!(
        announced_addr(&datagram, &from, "MANGO-4471"),
        Some(PeerAddr::V4 { ip: 0xC0A80105, port: 50_000 })
    );
}

#[test]
fn other_datagrams_are_ignored() {
    assert_eq!(parse_announcement(b"", "A"), None);
    assert_eq!(parse_announcement(&[0xff, 0xfe], "A"), None);
    assert_eq!(parse_announcement(b"XEND2:A: 1", "A"), None);
    assert_eq!(parse_announcement(b"XEND1:A", "A"), None);
    assert_eq!(parse_announcement(b"XEND1:A: 0", "A"), None);
    assert_eq!(parse_announcement(b"XEND1:A: 65536", "A"), None);
    assert_eq!(parse_announcement(b"XEND1:A: x", "A"), None);
    assert_eq!(parse_announcement(b"XEND1:A: ", "A"), None);
}

#[test]
fn announcements_may_be_loosely_written() {
    assert_eq!(parse_announcement(b"XEND1:  a :  +80 \n", "A"), Some(80));
    assert_eq!(parse_announcement(b"XEND1:a :80", "A"), None);
    assert_eq!(parse_announcement(b"XEND1: a:  +80 \n", "A"), Some(80));
    assert_eq!(parse_announcement(b"XEND1:a: 65535", "A"), Some(65535));
    assert_eq!(parse_announcement("XEND1:\u{a0}ß: 7".as_bytes(), "SS"), Some(7));
}

#[test]
fn broadcasts_go_to_all_and_to_the_subnet() {
    assert_eq!(subnet_broadcast(Some(HostIp::V4(0xC0A80117))), Some(0xC0A801FF));
    assert_eq!(subnet_broadcast(Some(HostIp::V6(1))), None);
    assert_eq!(subnet_broadcast(None), None);
    assert_eq!(broadcast_targets(None), vec![PeerAddr::V4 { ip: 0xFFFFFFFF, port: 47474 }]);
    assert_eq!(broadcast_targets(Some(0xC0A801FF)).len(), 2);
}

#[test]
fn mdns_names() {
    assert_eq!(mdns_hostname("MANGO-4471"), "mango-4471.local.");
    assert_eq!(mdns_hostname("A b.c_Ü-9"), "abcü-9.local.");
    assert_eq!(mdns_instance("mango-4471"), "MANGO-4471");
}

#[test]
fn resolved_service_prefers_outward_ipv4() {
    let loopback = HostIp::V4(0x7F000001);
    let v6 = HostIp::V6(7);
    let lan = HostIp::V4(0xC0A80105);
    let addr = on_resolved(Some("mango-4471"), "MANGO-4471", &[loopback, v6, lan], 9).unwrap();
    assert_eq!(addr, Some(PeerAddr::V4 { ip: 0xC0A80105, port: 9 }));
    let addr = on_resolved(Some("MANGO-4471"), "MANGO-4471", &[v6, loopback], 9).unwrap();
    assert_eq!(addr, Some(PeerAddr::V6 { ip6: 7, port: 9, flowinfo: 0, scope_id: 0 }));
    assert_eq!(on_resolved(Some("OTHER"), "MANGO-4471", &[lan], 9).unwrap(), None);
    assert_eq!(on_resolved(None, "MANGO-4471", &[lan], 9).unwrap(), None);
    match on_resolved(Some("A"), "A", &[], 9) {
        Err(Error::ConnectionFailed(e)) => {
            assert_eq!(e, "mDNS: resolved service has no addresses")
        }
        _ => panic!("expected an error"),
    }
}

#[test]
fn peers_are_merged_once_each() {
    let a = PeerAddr::V4 { ip: 1, port: 1 };
    let b = PeerAddr::V4 { ip: 1, port: 2 };
    let c = PeerAddr::V4 { ip: 2, port: 1 };
    assert_eq!(merge_peers(&vec![vec![a, b, a], vec![], vec![b, c, a]]), vec![a, b, c]);
    assert_eq!(merge_peers(&vec![]), vec![]);
}

#[test]
fn lookups_are_repeated_until_the_deadline() {
    assert_eq!(retry_step(true, 9, 8), RetryStep::Found);
    assert_eq!(retry_step(false, 7, 8), RetryStep::Again);
    assert_eq!(retry_step(false, 8, 8), RetryStep::GiveUp);
}

#[test]
fn presence_goes_by_the_first_peer() {
    let a = PeerAddr::V4 { ip: 1, port: 1 };
    let b = PeerAddr::V4 { ip: 1, port: 2 };
    assert_eq!(status_of(&vec![a, b]), PresenceStatus::Online { addr: a });
    assert_eq!(status_of(&vec![]), PresenceStatus::Offline);
    assert_eq!(
        hex::encode(contact_infohash("00ff")),
        "aa3e5dcdd77b153f2e59bd0d8794fde33cb4e486"
    );
    assert_eq!(
        hex::encode(contact_infohash("not hex")),
        "da39a3ee5e6b4b0d3255bfef95601890afd80709"
    );
}
