use p2pshare_core::identity::fingerprint::{bip39_wordlist, to_fingerprint};
use p2pshare_core::identity::keypair::Keypair;
use p2pshare_core::identity::storage::{
    config_dir, db_path, identity_of, identity_path, load_or_create, set_data_dir, spells_key,
    state_path, DataDir, UserIdentity,
};

#[test]
fn wordlist_has_2048_entries() {
    assert_eq!(bip39_wordlist().len(), 2048);
}

#[test]
fn wordlist_runs_from_abandon_to_zoo() {
    assert_eq!(bip39_wordlist()[0], "abandon");
    assert_eq!(bip39_wordlist()[2047], "zoo");
}

#[test]
fn fingerprint_is_deterministic() {
    let key = [0u8; 32];
    assert_eq!(to_fingerprint(&key), to_fingerprint(&key));
}

#[test]
fn different_keys_different_fingerprints() {
    let key1 = [0u8; 32];
    let mut key2 = [0u8; 32];
    key2[0] = 1;
    assert_ne!(to_fingerprint(&key1), to_fingerprint(&key2));
}

#[test]
fn fingerprint_format_is_word_num_word_num() {
    let key = [42u8; 32];
    let fp = to_fingerprint(&key);
    let parts: Vec<&str> = fp.split('-').collect();
    assert_eq!(parts.len(), 4);
    assert!(parts[1].len() == 4, "num1 should be zero-padded to 4 digits");
    assert!(parts[3].len() == 4, "num2 should be zero-padded to 4 digits");
    assert!(parts[1].chars().all(|c| c.is_ascii_digit()));
    assert!(parts[3].chars().all(|c| c.is_ascii_digit()));
}

#[test]
fn fingerprints_of_known_keys() {
    assert_eq!(to_fingerprint(&[0u8; 32]), "ABANDON-0000-ABANDON-0000");
    assert_eq!(to_fingerprint(&[42u8; 32]), "EARN-0794-EARN-0794");
    let mut key = [0u8; 32];
    for i in 0..32 {
        key[i] = i as u8;
    }
    assert_eq!(to_fingerprint(&key), "ABILITY-0515-LEVEL-1543");
    key[8] = 99;
    assert_eq!(to_fingerprint(&key), "ABILITY-0515-LEVEL-1543");
}

#[test]
fn public_key_belongs_to_secret_key() {
    let secret = [7u8; 32];
    let pair = Keypair::from_secret(secret);
    assert_eq!(pair.secret, secret);
    assert_eq!(
        hex::encode(pair.public),
        "13be4feaeaf204c7fd3358fc9c00721881d174278128227ec674f37f7fe97b6d"
    );
}

#[test]
fn fresh_key_pairs_differ_and_match() {
    let a = Keypair::generate();
    let b = Keypair::generate();
    assert_ne!(a.secret, b.secret);
    assert_eq!(Keypair::from_secret(a.secret).public, a.public);
}

#[test]
fn identity_keeps_its_keys() {
    let keys = Keypair::from_secret([7u8; 32]);
    let id = identity_of(&keys, None, 12);
    assert_eq!(id.display_name, "Unnamed");
    assert_eq!(id.created_at, 12);
    assert_eq!(id.private_key, "07".repeat(32));
    assert_eq!(id.public_key_bytes(), keys.public);
    assert_eq!(id.private_key_bytes(), keys.secret);
    assert_eq!(id.fingerprint, to_fingerprint(&keys.public));
}

#[test]
fn identity_is_created_only_when_missing() {
    let (id, fresh) = load_or_create(None, Some("Ada".to_string()));
    assert!(fresh);
    assert_eq!(id.display_name, "Ada");
    assert!(spells_key(&id.public_key));
    assert!(spells_key(&id.private_key));
    let key = id.public_key.clone();
    let (same, fresh) = load_or_create(Some(id), Some("Bob".to_string()));
    assert!(!fresh);
    assert_eq!(same.display_name, "Ada");
    assert_eq!(same.public_key, key);
}

#[test]
fn keys_are_recognised() {
    assert!(spells_key(&"Ab".repeat(32)));
    assert!(!spells_key(&"ab".repeat(31)));
    assert!(!spells_key("zz"));
    assert!(!spells_key("abc"));
}

#[test]
fn data_dir_is_set_once() {
    let mut dir = DataDir { dir: None };
    assert_eq!(config_dir(&dir, Some("/home/u".to_string())), vec!["/home/u", ".config", "p2pshare"]);
    assert_eq!(config_dir(&dir, None), vec![".", ".config", "p2pshare"]);
    set_data_dir(&mut dir, "/data".to_string());
    set_data_dir(&mut dir, "/other".to_string());
    assert_eq!(config_dir(&dir, Some("/home/u".to_string())), vec!["/data"]);
    assert_eq!(identity_path(&dir, None), vec!["/data", "identity.json"]);
    assert_eq!(db_path(&dir, None), vec!["/data", "contacts.db"]);
    let path = state_path(&dir, None, &[0xab; 20]);
    assert_eq!(path[1], "transfers");
    assert_eq!(path[2], format!("{}.json", "ab".repeat(20)));
}

#[test]
fn keys_in_capitals_read_the_same() {
    let id = UserIdentity {
        public_key: "AB".repeat(32),
        private_key: "ab".repeat(32),
        display_name: String::new(),
        fingerprint: String::new(),
        created_at: 0,
    };
    assert_eq!(id.public_key_bytes(), id.private_key_bytes());
    assert_eq!(id.public_key_bytes(), [0xab; 32]);
}
