//! The user's identity and where it is kept.

use vstd::prelude::*;

use crate::clock;
use crate::hexadecimal;
use crate::identity::fingerprint;
use crate::identity::keypair::Keypair;
use crate::text;
use crate::wire;

verus! {

/// The directory for identity and contacts, if one was set.
pub struct DataDir {
    pub dir: Option<String>,
}

/// Sets the directory for identity and contacts. Only the first call has an effect.
pub fn set_data_dir(data_dir: &mut DataDir, path: String)
    ensures
        final(data_dir).dir == (match old(data_dir).dir {
            Some(dir) => Some(dir),
            None => Some(path),
        }),
{
    if data_dir.dir.is_none() {
        data_dir.dir = Some(path);
    }
}

/// A path, part by part.
pub open spec fn parts(path: Seq<String>) -> Seq<Seq<char>> {
    Seq::new(path.len(), |i: int| path[i]@)
}

/// The parts of the configuration directory's path.
pub open spec fn config_parts(dir: Option<String>, home: Option<String>) -> Seq<Seq<char>> {
    match (dir, home) {
        (Some(dir), _) => seq![dir@],
        (None, Some(home)) => seq![home@, ".config"@, "p2pshare"@],
        (None, None) => seq!["."@, ".config"@, "p2pshare"@],
    }
}

/// The configuration directory, part by part: the one that was set, else one below the
/// user's home, else one below the current directory.
pub fn config_dir(data_dir: &DataDir, home: Option<String>) -> (r: Vec<String>)
    ensures
        parts(r@) == config_parts(data_dir.dir, home),
{
    let mut r: Vec<String> = Vec::new();
    match &data_dir.dir {
        Some(dir) => {
            r.push(dir.clone());
        },
        None => {
            match home {
                Some(home) => {
                    r.push(home);
                },
                None => {
                    r.push(".".to_string());
                },
            }
            r.push(".config".to_string());
            r.push("p2pshare".to_string());
        },
    }
    assert(parts(r@) =~= config_parts(data_dir.dir, home));
    r
}

/// The path of a file in the configuration directory.
fn in_config_dir(data_dir: &DataDir, home: Option<String>, name: &str) -> (r: Vec<String>)
    ensures
        parts(r@) == config_parts(data_dir.dir, home).push(name@),
{
    let mut r = config_dir(data_dir, home);
    let ghost before = r@;
    r.push(name.to_string());
    assert(parts(r@) =~= parts(before).push(name@));
    r
}

/// The path of the identity file.
pub fn identity_path(data_dir: &DataDir, home: Option<String>) -> (r: Vec<String>)
    ensures
        parts(r@) == config_parts(data_dir.dir, home).push("identity.json"@),
{
    in_config_dir(data_dir, home, "identity.json")
}

/// The path of the contacts database.
pub fn db_path(data_dir: &DataDir, home: Option<String>) -> (r: Vec<String>)
    ensures
        parts(r@) == config_parts(data_dir.dir, home).push("contacts.db"@),
{
    in_config_dir(data_dir, home, "contacts.db")
}

/// The path of the saved state of a transfer.
pub fn state_path(data_dir: &DataDir, home: Option<String>, session_id: &[u8; 20]) -> (r: Vec<
    String,
>)
    ensures
        parts(r@) == config_parts(data_dir.dir, home).push("transfers"@).push(
            text::hex_of(session_id@) + ".json"@,
        ),
{
    let mut r = in_config_dir(data_dir, home, "transfers");
    let mut name = hexadecimal::encode(session_id.as_slice());
    name.append(".json");
    let ghost before = r@;
    r.push(name);
    assert(parts(r@) =~= parts(before).push(text::hex_of(session_id@) + ".json"@));
    r
}

/// Who the user is. The keys are X25519 keys in hexadecimal.
#[derive(Debug, Clone)]
pub struct UserIdentity {
    pub public_key: String,
    pub private_key: String,
    pub display_name: String,
    pub fingerprint: String,
    pub created_at: u64,
}

/// `s` spells a key of 32 bytes.
pub open spec fn is_key(s: Seq<char>) -> bool {
    hexadecimal::bytes_of_hex(s) is Some && hexadecimal::bytes_of_hex(s)->0.len() == 32
}

/// The key that `s` spells.
fn key_bytes(s: &str) -> (r: [u8; 32])
    requires
        is_key(s@),
    ensures
        r@ == hexadecimal::bytes_of_hex(s@)->0,
{
    let decoded = hexadecimal::decode(s);
    let bytes = decoded.unwrap();
    let key = wire::array32(bytes.as_slice());
    key.unwrap()
}

/// Whether `s` spells a key of 32 bytes.
pub fn spells_key(s: &str) -> (r: bool)
    ensures
        r == is_key(s@),
{
    match hexadecimal::decode(s) {
        Some(bytes) => bytes.len() == 32,
        None => false,
    }
}

impl UserIdentity {
    pub fn public_key_bytes(&self) -> (r: [u8; 32])
        requires
            is_key(self.public_key@),
        ensures
            r@ == hexadecimal::bytes_of_hex(self.public_key@)->0,
    {
        key_bytes(self.public_key.as_str())
    }

    pub fn private_key_bytes(&self) -> (r: [u8; 32])
        requires
            is_key(self.private_key@),
        ensures
            r@ == hexadecimal::bytes_of_hex(self.private_key@)->0,
    {
        key_bytes(self.private_key.as_str())
    }
}

/// `id` belongs to `keys`.
pub open spec fn belongs(id: UserIdentity, keys: Keypair) -> bool {
    &&& id.public_key@ == text::hex_of(keys.public@)
    &&& id.private_key@ == text::hex_of(keys.secret@)
    &&& id.fingerprint@ == fingerprint::fingerprint_of(keys.public@)
}

/// The name of an identity that was given none.
pub open spec fn name_or_default(display_name: Option<String>) -> Seq<char> {
    match display_name {
        Some(name) => name@,
        None => "Unnamed"@,
    }
}

/// The identity that goes with a key pair. Its keys read back as those of the pair.
pub fn identity_of(keys: &Keypair, display_name: Option<String>, created_at: u64) -> (id:
    UserIdentity)
    ensures
        belongs(id, *keys),
        id.display_name@ == name_or_default(display_name),
        id.created_at == created_at,
        hexadecimal::bytes_of_hex(id.public_key@) == Some(keys.public@),
        hexadecimal::bytes_of_hex(id.private_key@) == Some(keys.secret@),
{
    proof {
        hexadecimal::hex_round_trip(keys.public@);
        hexadecimal::hex_round_trip(keys.secret@);
    }
    UserIdentity {
        public_key: hexadecimal::encode(keys.public.as_slice()),
        private_key: hexadecimal::encode(keys.secret.as_slice()),
        display_name: match display_name {
            Some(name) => name,
            None => "Unnamed".to_string(),
        },
        fingerprint: fingerprint::to_fingerprint(&keys.public),
        created_at,
    }
}

/// The identity that was loaded, or a fresh one. The flag says that it is fresh and has
/// to be saved.
pub fn load_or_create(loaded: Option<UserIdentity>, display_name: Option<String>) -> (r: (
    UserIdentity,
    bool,
))
    ensures
        match loaded {
            Some(id) => r == (id, false),
            None => {
                &&& r.1
                &&& r.0.display_name@ == name_or_default(display_name)
                &&& exists|keys: Keypair| #[trigger] keys.matched() && belongs(r.0, keys)
                &&& is_key(r.0.public_key@)
                &&& is_key(r.0.private_key@)
            },
        },
{
    match loaded {
        Some(id) => (id, false),
        None => {
            let keys = Keypair::generate();
            let id = identity_of(&keys, display_name, clock::unix_now());
            assert(keys.matched() && belongs(id, keys));
            (id, true)
        },
    }
}

/// The fingerprint of an identity is that of the public key it shows, its keys have 32 bytes
/// each, and its public key belongs to its private one if the pair is matched.
pub proof fn identity_is_of_one_pair(id: UserIdentity, keys: Keypair)
    requires
        belongs(id, keys),
    ensures
        is_key(id.public_key@),
        is_key(id.private_key@),
        hexadecimal::bytes_of_hex(id.public_key@)->0 == keys.public@,
        hexadecimal::bytes_of_hex(id.private_key@)->0 == keys.secret@,
        id.fingerprint@ == fingerprint::fingerprint_of(
            hexadecimal::bytes_of_hex(id.public_key@)->0,
        ),
        keys.matched() ==> hexadecimal::bytes_of_hex(id.public_key@)->0
            == crate::identity::keypair::x25519_public(
            hexadecimal::bytes_of_hex(id.private_key@)->0,
        ),
{
    hexadecimal::hex_round_trip(keys.public@);
    hexadecimal::hex_round_trip(keys.secret@);
}

/// Identities of different key pairs show different public keys.
pub proof fn identities_differ(a: UserIdentity, keys: Keypair, b: UserIdentity, others: Keypair)
    requires
        belongs(a, keys),
        belongs(b, others),
        keys.public@ != others.public@,
    ensures
        a.public_key@ != b.public_key@,
{
    text::hex_tells_bytes_apart(keys.public@, others.public@);
}

/// A key is two digits for each of its 32 bytes.
pub proof fn keys_have_64_digits(s: Seq<char>)
    ensures
        is_key(s) <==> s.len() == 64 && forall|i: int|
            0 <= i < s.len() ==> hexadecimal::is_hex(#[trigger] s[i]),
{
}

/// The directory that was set is the configuration directory, wherever the home is; else
/// that is `.config/p2pshare` below the home, or below the current directory.
pub proof fn where_the_configuration_is(dir: String, home: Option<String>)
    ensures
        config_parts(Some(dir), home) == seq![dir@],
        config_parts(None, home).len() == 3,
        home is Some ==> config_parts(None, home)[0] == home->0@,
        home is None ==> config_parts(None, home)[0] == "."@,
        config_parts(None, home)[1] == ".config"@,
        config_parts(None, home)[2] == "p2pshare"@,
{
}

/// A name that was given is kept.
pub proof fn given_name_is_kept(name: String)
    ensures
        name_or_default(Some(name)) == name@,
        name_or_default(None) == "Unnamed"@,
{
}

/// A path is its parts, one by one.
pub proof fn path_is_its_parts(path: Seq<String>, i: int)
    requires
        0 <= i < path.len(),
    ensures
        parts(path).len() == path.len(),
        parts(path)[i] == path[i]@,
{
}

} // verus!
