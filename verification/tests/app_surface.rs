use p2pshare_core::api::{
    api_add_contact, api_generate_share_code, api_get_identity, api_list_contacts,
    api_reset_identity, api_set_display_name, contact_to_api, contact_with_presence, find_contact,
    parse_contact_id, require_identity, transfer_result, SessionKind, SessionRegistry,
};
use p2pshare_core::cli::{
    add_contact, announced_lines, connected_lines, contacts_lines, contacts_lines_at, fmt_age,
    fmt_age_at, identity_lines, identity_lines_at, lookup_intro, lookup_lines,
    normalized_fingerprint, remove_contact,
};
use p2pshare_core::contacts::model::Contact;
use p2pshare_core::contacts::store::{
    contact_of, contacts_of, removal, row_id, row_of, seen_at, seen_now, ContactRow,
};
use p2pshare_core::discovery::presence::PresenceStatus;
use p2pshare_core::error::Error;
use p2pshare_core::identity::UserIdentity;
use p2pshare_core::net::PeerAddr;

fn identity() -> UserIdentity {
    UserIdentity {
        public_key: "ab".to_string(),
        private_key: "cd".to_string(),
        display_name: "Ada".to_string(),
        fingerprint: "F".to_string(),
        created_at: 100,
    }
}

fn contact() -> Contact {
    Contact {
        id: 0x0123456789ab4def8123456789abcdef,
        display_name: "Ada".to_string(),
        public_key: "ab".to_string(),
        fingerprint: "OCEAN-4471-FLUX-9912".to_string(),
        last_known_addr: Some("1.2.3.4:5".to_string()),
        added_at: u64::MAX,
        last_seen: Some(7),
    }
}

#[test]
fn errors_in_words() {
    let s = || "x".to_string();
    for (error, text) in [
        (Error::Io(s()), "I/O error: x"),
        (Error::Json(s()), "JSON error: x"),
        (Error::Database(s()), "Database error: x"),
        (Error::QuicStream(s()), "QUIC read error: x"),
        (Error::QuicWrite(s()), "QUIC write error: x"),
        (Error::QuicReadToEnd(s()), "QUIC read-to-end error: x"),
        (Error::HolePunchTimeout, "Hole punch timed out — try again or check NAT type"),
        (Error::Quic(s()), "QUIC error: x"),
        (Error::Noise(s()), "Noise protocol error: x"),
        (Error::ConnectionFailed(s()), "Connection failed: x"),
        (
            Error::PeerNotFound,
            "Peer not found on DHT — code may be expired or peer is offline",
        ),
        (Error::ShareCodeExpired, "Share code expired — please regenerate"),
        (Error::IdentityMismatch, "Identity mismatch — unexpected remote public key"),
        (
            Error::IdentityNotFound,
            "Identity file not found; run `p2pshare identity` to create one",
        ),
        (Error::ContactNotFound(s()), "Contact not found: x"),
        (Error::Hex(s()), "Hex decode error: x"),
        (Error::Dht(s()), "DHT error: x"),
        (Error::MsgPack(s()), "MessagePack error: x"),
        (Error::ChunkHashMismatch { index: 12 }, "Chunk hash mismatch for chunk 12"),
        (Error::Transfer(s()), "transfer error: x"),
    ] {
        assert_eq!(error.message(), text);
    }
}

#[test]
fn new_contacts_have_random_identifiers() {
    let new = || Contact::new("n".to_string(), String::new(), "f".to_string());
    let (a, b) = (new(), new());
    assert_ne!(a.id, b.id);
    assert_eq!((a.id >> 76) & 0xf, 4);
    assert_eq!((a.id >> 62) & 3, 2);
    assert!(a.last_seen.is_none() && a.last_known_addr.is_none());
    assert!(a.added_at > 1_577_836_800);
}

#[test]
fn contacts_are_stored_and_read_back() {
    let c = contact();
    let row = row_of(&c);
    assert_eq!(row.id, "01234567-89ab-4def-8123-456789abcdef");
    assert_eq!(row.added_at, -1);
    assert_eq!(row.last_seen, Some(7));
    let back = contact_of(row);
    assert_eq!(back.id, c.id);
    assert_eq!(back.added_at, u64::MAX);
    assert_eq!(back.last_seen, Some(7));
    assert_eq!(back.fingerprint, c.fingerprint);
    assert_eq!(back.last_known_addr, c.last_known_addr);
    assert_eq!(row_id(0), "00000000-0000-0000-0000-000000000000");
    assert_eq!(seen_at(1 << 63), i64::MIN);
    assert!(seen_now() > 1_577_836_800);
}

#[test]
fn unreadable_identifiers_are_replaced() {
    let row = |id: &str| ContactRow {
        id: id.to_string(),
        display_name: "n".to_string(),
        public_key: String::new(),
        fingerprint: "f".to_string(),
        last_known_addr: None,
        added_at: i64::MIN,
        last_seen: None,
    };
    let c = contact_of(row("nonsense"));
    assert_eq!((c.id >> 76) & 0xf, 4);
    assert_eq!(c.added_at, 1 << 63);
    let all = contacts_of(vec![row("0123456789AB4DEF8123456789ABCDEF"), row("x")]);
    assert_eq!(all.len(), 2);
    assert_eq!(all[0].id, contact().id);
}

#[test]
fn removing_nothing_is_an_error() {
    assert!(removal(1, 1).is_ok());
    match removal(1, 0) {
        Err(Error::ContactNotFound(id)) => assert_eq!(id, "00000000-0000-0000-0000-000000000001"),
        _ => panic!("expected an error"),
    }
}

#[test]
fn sessions_by_handle() {
    let mut r: SessionRegistry<&str> = SessionRegistry::new();
    assert_eq!(r.store_session(SessionKind::Direct, "a"), 1);
    assert_eq!(r.store_session(SessionKind::Relay, "b"), 2);
    assert_eq!(r.api_session_type(1), "direct");
    assert_eq!(r.api_session_type(2), "relay");
    assert_eq!(r.api_session_type(3), "unknown");
    assert_eq!(r.take_session(2), Ok((SessionKind::Relay, "b")));
    assert_eq!(r.take_session(2), Err("session not found".to_string()));
    r.api_close_session(1);
    r.api_close_session(1);
    assert_eq!(r.api_session_type(1), "unknown");
    assert_eq!(r.store_session(SessionKind::Relay, "c"), 3);
}

#[test]
fn identities_are_shown_without_the_private_key() {
    let shown = api_get_identity(Some(identity())).unwrap();
    assert_eq!(shown.display_name, "Ada");
    assert_eq!(shown.public_key, "ab");
    assert_eq!(shown.created_at, 100);
    assert!(api_get_identity(None).is_none());
    let (id, shown) = api_reset_identity(identity(), "Bob".to_string());
    assert_eq!(id.display_name, "Bob");
    assert_eq!(id.private_key, "cd");
    assert_eq!(shown.display_name, "Bob");
    assert_eq!(shown.fingerprint, "F");
    let renamed = api_set_display_name(Some(identity()), "Eve".to_string());
    assert_eq!(renamed.ok().unwrap().display_name, "Eve");
    let none = api_set_display_name(None, "Eve".to_string());
    assert_eq!(none.err().unwrap(), "no identity found");
    assert_eq!(require_identity(None).err().unwrap(), "no identity");
    assert!(require_identity(Some(identity())).is_ok());
}

#[test]
fn contacts_are_shown() {
    let shown = contact_to_api(contact());
    assert_eq!(shown.id, "01234567-89ab-4def-8123-456789abcdef");
    assert!(!shown.is_online);
    assert_eq!(shown.last_known_addr, Some("1.2.3.4:5".to_string()));
    assert_eq!(api_list_contacts(vec![contact(), contact()]).len(), 2);
    let online = PresenceStatus::Online { addr: PeerAddr::V4 { ip: 1, port: 9 } };
    let shown = contact_with_presence(contact(), Some(online), "0.0.0.1:9".to_string());
    assert!(shown.is_online);
    assert_eq!(shown.last_known_addr, Some("0.0.0.1:9".to_string()));
    let shown = contact_with_presence(contact(), Some(PresenceStatus::Offline), String::new());
    assert!(!shown.is_online);
    assert_eq!(shown.last_known_addr, Some("1.2.3.4:5".to_string()));
    let shown = contact_with_presence(contact(), None, String::new());
    assert!(!shown.is_online);
}

#[test]
fn contacts_are_added_once() {
    let added = api_add_contact(false, "F".to_string(), "Ada".to_string()).ok().unwrap();
    assert_eq!(added.fingerprint, "F");
    assert_eq!(added.public_key, "");
    let again = api_add_contact(true, "F".to_string(), "Ada".to_string());
    assert_eq!(again.err().unwrap(), "contact F already exists");
}

#[test]
fn contacts_are_found_by_identifier() {
    let id = parse_contact_id("01234567-89ab-4def-8123-456789abcdef").unwrap();
    assert_eq!(id, contact().id);
    assert!(parse_contact_id("nonsense").is_err());
    assert_eq!(find_contact(&vec![contact()], id), Ok(0));
    assert_eq!(find_contact(&vec![contact()], 1), Err("contact not found".to_string()));
}

#[test]
fn share_code_for_the_interface() {
    assert!(api_generate_share_code().contains('-'));
}

#[test]
fn received_files_are_reported() {
    let r = transfer_result(Some("f".to_string()), "d/f".to_string(), Some(4));
    assert_eq!((r.file_name.as_str(), r.file_path.as_str(), r.bytes_transferred), ("f", "d/f", 4));
    let r = transfer_result(None, "..".to_string(), None);
    assert_eq!((r.file_name.as_str(), r.bytes_transferred), ("", 0));
}

#[test]
fn ages_in_words() {
    assert_eq!(fmt_age_at(101, 100), "101s");
    assert_eq!(fmt_age_at(100, 100), "0s ago");
    assert_eq!(fmt_age_at(41, 100), "59s ago");
    assert_eq!(fmt_age_at(40, 100), "1m ago");
    assert_eq!(fmt_age_at(0, 3599), "59m ago");
    assert_eq!(fmt_age_at(0, 3600), "1h ago");
    assert_eq!(fmt_age_at(0, 86_399), "23h ago");
    assert_eq!(fmt_age_at(0, 86_400 * 3), "3d ago");
    assert!(fmt_age(0).ends_with("d ago"));
}

#[test]
fn identity_report() {
    assert_eq!(
        identity_lines_at(&identity(), 160),
        vec![
            "Name:        Ada",
            "Fingerprint: F",
            "Public key:  ab",
            "Created:     1m ago",
        ]
    );
    assert_eq!(identity_lines(&identity()).len(), 4);
}

#[test]
fn lookup_report() {
    assert_eq!(
        lookup_intro("MANGO-4471", &[1; 20]),
        vec![
            "Looking up MANGO-4471 on DHT...".to_string(),
            format!("Infohash: {}", "01".repeat(20)),
            "(retrying for up to 30s — DHT may need time to propagate)".to_string(),
        ]
    );
    assert_eq!(lookup_lines(&vec![])[0], "No peers found after 30s.");
    assert_eq!(
        lookup_lines(&vec!["1.2.3.4:5".to_string(), "6.7.8.9:10".to_string()]),
        vec!["Found 2 peer(s):", "  1.2.3.4:5", "  6.7.8.9:10"]
    );
}

#[test]
fn contact_table() {
    assert_eq!(contacts_lines_at(&vec![], 0), vec!["No contacts yet."]);
    let mut long = contact();
    long.display_name = "A name of more than twenty characters".to_string();
    long.last_seen = None;
    let lines = contacts_lines_at(&vec![contact(), long], 10);
    assert_eq!(lines[0], format!("{:<20} {:<30} {}", "Name", "Fingerprint", "Last seen"));
    assert_eq!(lines[1], "-".repeat(70));
    assert_eq!(lines[2], format!("{:<20} {:<30} {}", "Ada", "OCEAN-4471-FLUX-9912", "3s ago"));
    assert_eq!(
        lines[3],
        format!(
            "{:<20} {:<30} {}",
            "A name of more than twenty characters", "OCEAN-4471-FLUX-9912", "never"
        )
    );
    assert_eq!(contacts_lines(&vec![contact()]).len(), 3);
}

#[test]
fn contact_commands() {
    assert_eq!(normalized_fingerprint("ocean-1"), "OCEAN-1");
    let (new, lines) = add_contact(false, "F".to_string(), "Ada".to_string());
    assert_eq!(new.unwrap().display_name, "Ada");
    assert_eq!(lines, vec!["Added 'Ada' (F).", "Public key verified on first connection."]);
    let (new, lines) = add_contact(true, "F".to_string(), "Ada".to_string());
    assert!(new.is_none());
    assert_eq!(lines, vec!["Contact F already exists."]);
    let c = contact();
    assert_eq!(remove_contact(Some(&c), "F"), (Some(c.id), "Removed 'Ada'.".to_string()));
    assert_eq!(remove_contact(None, "F"), (None, "No contact with fingerprint F.".to_string()));
}

#[test]
fn session_reports() {
    assert_eq!(
        announced_lines("C", "F", &[0; 32])[2],
        format!("Remote pubkey   : {}", "00".repeat(32))
    );
    assert_eq!(announced_lines("C", "F", &[0; 32])[0], "Share code used : C");
    assert_eq!(connected_lines("F", &[0; 32])[0], "Remote peer   : F");
    assert_eq!(
        connected_lines("F", &[0; 32])[1],
        format!("Remote pubkey : {}", "00".repeat(32))
    );
}
