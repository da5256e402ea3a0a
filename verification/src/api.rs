//! The surface for user interfaces: plain records, and sessions by their handles.

use std::collections::HashMap;

use vstd::prelude::*;

use crate::contacts::model::Contact;
use crate::discovery::presence::PresenceStatus;
use crate::discovery::share_code;
use crate::error;
use crate::identity::storage::UserIdentity;
use crate::uuids;

verus! {

pub struct ApiIdentity {
    pub display_name: String,
    pub fingerprint: String,
    pub public_key: String,
    pub created_at: u64,
}

pub struct ApiContact {
    pub id: String,
    pub display_name: String,
    pub fingerprint: String,
    pub public_key: String,
    pub is_online: bool,
    pub last_known_addr: Option<String>,
    pub last_seen: Option<u64>,
}

pub struct ApiTransferResult {
    pub file_name: String,
    pub file_path: String,
    pub bytes_transferred: u64,
}

/// `r` failed with this text.
pub open spec fn refused<T>(r: Result<T, String>, text: Seq<char>) -> bool {
    r is Err && r->Err_0@ == text
}

// ── Sessions ───────────────────────────────────────────────────────────────────

#[derive(Debug, Clone, Copy, PartialEq, Eq, Structural)]
pub enum SessionKind {
    Direct,
    Relay,
}

/// The open sessions by their handles, with whatever is kept for each.
pub struct SessionRegistry<T> {
    pub next_id: u64,
    pub sessions: HashMap<u64, (SessionKind, T)>,
}

impl<T> SessionRegistry<T> {
    /// All handles in use were given out before the next one.
    pub open spec fn valid(&self) -> bool {
        forall|id: u64| #[trigger] self.sessions@.contains_key(id) ==> id < self.next_id
    }

    /// No session yet; the first handle is 1.
    pub fn new() -> (r: Self)
        ensures
            r.next_id == 1,
            r.sessions@ == Map::<u64, (SessionKind, T)>::empty(),
            r.valid(),
    {
        SessionRegistry { next_id: 1, sessions: HashMap::new() }
    }

    /// Keeps a session, and gives its handle. Until 2^64 handles have been given out, none
    /// is given out twice.
    pub fn store_session(&mut self, kind: SessionKind, session: T) -> (id: u64)
        ensures
            id == old(self).next_id,
            final(self).next_id == (old(self).next_id + 1) % 0x1_0000_0000_0000_0000,
            final(self).sessions@ == old(self).sessions@.insert(id, (kind, session)),
            old(self).valid() ==> !old(self).sessions@.contains_key(id),
            old(self).valid() && old(self).next_id < u64::MAX ==> final(self).valid(),
    {
        let id: u64 = self.next_id;
        self.next_id = id.wrapping_add(1);
        self.sessions.insert(id, (kind, session));
        id
    }

    /// Hands a session over, after which its handle is free.
    pub fn take_session(&mut self, id: u64) -> (r: Result<(SessionKind, T), String>)
        ensures
            final(self).next_id == old(self).next_id,
            final(self).sessions@ == old(self).sessions@.remove(id),
            old(self).valid() ==> final(self).valid(),
            if old(self).sessions@.contains_key(id) {
                r is Ok && r->Ok_0 == old(self).sessions@[id]
            } else {
                refused(r, "session not found"@)
            },
    {
        let taken = self.sessions.remove(&id);
        assert(self.sessions@ =~= old(self).sessions@.remove(id));
        match taken {
            Some(session) => Ok(session),
            None => Err("session not found".to_string()),
        }
    }

    /// The kind of a session in a word.
    pub fn api_session_type(&self, id: u64) -> (r: String)
        ensures
            r@ == (if !self.sessions@.contains_key(id) {
                "unknown"@
            } else if self.sessions@[id].0 == SessionKind::Direct {
                "direct"@
            } else {
                "relay"@
            }),
    {
        match self.sessions.get(&id) {
            Some(session) => match session.0 {
                SessionKind::Direct => "direct".to_string(),
                SessionKind::Relay => "relay".to_string(),
            },
            None => "unknown".to_string(),
        }
    }

    /// Lets a session go.
    pub fn api_close_session(&mut self, id: u64)
        ensures
            final(self).next_id == old(self).next_id,
            final(self).sessions@ == old(self).sessions@.remove(id),
            old(self).valid() ==> final(self).valid(),
    {
        let _ = self.take_session(id);
    }
}

/// A session that was stored is the one that its handle gives, and handing it over leaves
/// the registry as it was.
pub proof fn handle_gives_its_session<T>(
    sessions: Map<u64, (SessionKind, T)>,
    id: u64,
    session: (SessionKind, T),
)
    requires
        !sessions.contains_key(id),
    ensures
        sessions.insert(id, session).contains_key(id),
        sessions.insert(id, session)[id] == session,
        sessions.insert(id, session).remove(id) == sessions,
{
    assert(sessions.insert(id, session).remove(id) =~= sessions);
}

// ── Identity ───────────────────────────────────────────────────────────────────

/// `a` shows `id`, and not its private key.
pub open spec fn shows(a: ApiIdentity, id: UserIdentity) -> bool {
    &&& a.display_name == id.display_name
    &&& a.fingerprint == id.fingerprint
    &&& a.public_key == id.public_key
    &&& a.created_at == id.created_at
}

/// The identity as it is shown.
fn identity_to_api(id: UserIdentity) -> (a: ApiIdentity)
    ensures
        shows(a, id),
{
    ApiIdentity {
        display_name: id.display_name,
        fingerprint: id.fingerprint,
        public_key: id.public_key,
        created_at: id.created_at,
    }
}

/// The stored identity as it is shown, if there is one.
pub fn api_get_identity(loaded: Option<UserIdentity>) -> (r: Option<ApiIdentity>)
    ensures
        match loaded {
            Some(id) => r is Some && shows(r->0, id),
            None => r is None,
        },
{
    match loaded {
        Some(id) => Some(identity_to_api(id)),
        None => None,
    }
}

/// A fresh identity under a name: what to save, and what to show.
pub fn api_reset_identity(fresh: UserIdentity, display_name: String) -> (r: (
    UserIdentity,
    ApiIdentity,
))
    ensures
        r.0 == (UserIdentity { display_name, ..fresh }),
        shows(r.1, r.0),
{
    let shown = ApiIdentity {
        display_name: display_name.clone(),
        fingerprint: fresh.fingerprint.clone(),
        public_key: fresh.public_key.clone(),
        created_at: fresh.created_at,
    };
    let id = UserIdentity {
        public_key: fresh.public_key,
        private_key: fresh.private_key,
        display_name,
        fingerprint: fresh.fingerprint,
        created_at: fresh.created_at,
    };
    (id, shown)
}

/// The stored identity under another name, to be saved.
pub fn api_set_display_name(loaded: Option<UserIdentity>, name: String) -> (r: Result<
    UserIdentity,
    String,
>)
    ensures
        match loaded {
            Some(id) => r is Ok && r->Ok_0 == (UserIdentity { display_name: name, ..id }),
            None => refused(r, "no identity found"@),
        },
{
    match loaded {
        Some(id) => {
            let mut id = id;
            id.display_name = name;
            Ok(id)
        },
        None => Err("no identity found".to_string()),
    }
}

/// The identity that an operation needs.
pub fn require_identity(loaded: Option<UserIdentity>) -> (r: Result<UserIdentity, String>)
    ensures
        match loaded {
            Some(id) => r is Ok && r->Ok_0 == id,
            None => refused(r, "no identity"@),
        },
{
    match loaded {
        Some(id) => Ok(id),
        None => Err("no identity".to_string()),
    }
}

// ── Contacts ───────────────────────────────────────────────────────────────────

/// `a` shows `c`, with this status and address.
pub open spec fn shows_contact(
    a: ApiContact,
    c: Contact,
    is_online: bool,
    last_known_addr: Option<String>,
) -> bool {
    &&& a.id@ == uuids::uuid_text(c.id)
    &&& a.display_name == c.display_name
    &&& a.fingerprint == c.fingerprint
    &&& a.public_key == c.public_key
    &&& a.is_online == is_online
    &&& a.last_known_addr == last_known_addr
    &&& a.last_seen == c.last_seen
}

/// A contact as it is shown, not known to be online.
pub fn contact_to_api(c: Contact) -> (a: ApiContact)
    ensures
        shows_contact(a, c, false, c.last_known_addr),
{
    ApiContact {
        id: uuids::to_text(c.id),
        display_name: c.display_name,
        fingerprint: c.fingerprint,
        public_key: c.public_key,
        is_online: false,
        last_known_addr: c.last_known_addr,
        last_seen: c.last_seen,
    }
}

/// The contacts as they are shown, in the same order.
pub fn api_list_contacts(contacts: Vec<Contact>) -> (r: Vec<ApiContact>)
    ensures
        r@.len() == contacts@.len(),
        forall|i: int|
            0 <= i < contacts@.len() ==> shows_contact(
                #[trigger] r@[i],
                contacts@[i],
                false,
                contacts@[i].last_known_addr,
            ),
{
    let mut r: Vec<ApiContact> = Vec::new();
    for c in it: contacts
        invariant
            r@.len() == it.index(),
            it.seq() == contacts@,
            forall|i: int|
                0 <= i < r@.len() ==> shows_contact(
                    #[trigger] r@[i],
                    contacts@[i],
                    false,
                    contacts@[i].last_known_addr,
                ),
    {
        r.push(contact_to_api(c));
    }
    r
}

/// A contact as it is shown once its presence has been looked up. An online contact is
/// shown with the address it was found at, written as `addr_text`.
pub fn contact_with_presence(c: Contact, status: Option<PresenceStatus>, addr_text: String) -> (a:
    ApiContact)
    ensures
        match status {
            Some(PresenceStatus::Online { .. }) => shows_contact(a, c, true, Some(addr_text)),
            _ => shows_contact(a, c, false, c.last_known_addr),
        },
{
    let mut a = contact_to_api(c);
    if let Some(PresenceStatus::Online { .. }) = status {
        a.is_online = true;
        a.last_known_addr = Some(addr_text);
    }
    a
}

/// A new contact with this fingerprint, unless there is one already.
pub fn api_add_contact(already_known: bool, fingerprint: String, display_name: String) -> (r:
    Result<Contact, String>)
    ensures
        already_known ==> refused(r, "contact "@ + fingerprint@ + " already exists"@),
        !already_known ==> {
            &&& r is Ok
            &&& r->Ok_0.display_name == display_name
            &&& r->Ok_0.public_key@ == Seq::<char>::empty()
            &&& r->Ok_0.fingerprint == fingerprint
            &&& r->Ok_0.last_known_addr is None
            &&& r->Ok_0.last_seen is None
            &&& uuids::nibble(r->Ok_0.id, 12) == 4
            &&& 8 <= uuids::nibble(r->Ok_0.id, 16) < 12
        },
{
    if already_known {
        let mut s = error::prefixed("contact ", &fingerprint);
        s.append(" already exists");
        return Err(s);
    }
    Ok(Contact::new(display_name, String::new(), fingerprint))
}

/// The identifier that a text spells.
pub fn parse_contact_id(id: &str) -> (r: Result<u128, String>)
    ensures
        match uuids::uuid_parsed(id@) {
            Ok(number) => r is Ok && r->Ok_0 == number,
            Err(e) => refused(r, e),
        },
        forall|number: u128|
            id@ == #[trigger] uuids::uuid_text(number) ==> r is Ok && r->Ok_0 == number,
{
    uuids::parse(id)
}

/// The position of the first contact with this identifier from `from` on, or the end.
pub open spec fn first_with_id(contacts: Seq<Contact>, id: u128, from: int) -> int
    decreases contacts.len() - from,
{
    if from >= contacts.len() || contacts[from].id == id {
        from
    } else {
        first_with_id(contacts, id, from + 1)
    }
}

/// The position of the contact with this identifier.
pub fn find_contact(contacts: &Vec<Contact>, id: u128) -> (r: Result<usize, String>)
    ensures
        if first_with_id(contacts@, id, 0) < contacts@.len() {
            r is Ok && r->Ok_0 == first_with_id(contacts@, id, 0)
        } else {
            refused(r, "contact not found"@)
        },
{
    let mut i: usize = 0;
    while i < contacts.len()
        invariant
            i <= contacts@.len(),
            first_with_id(contacts@, id, 0) == first_with_id(contacts@, id, i as int),
        decreases contacts@.len() - i,
    {
        if contacts[i].id == id {
            return Ok(i);
        }
        i = i + 1;
    }
    Err("contact not found".to_string())
}

// ── Transfers ──────────────────────────────────────────────────────────────────

/// A share code to show before anything is sent.
pub fn api_generate_share_code() -> (r: String)
    ensures
        exists|word: int, number: nat|
            0 <= word < 2048 && number < 10000 && r@ == #[trigger] share_code::code_of(word, number),
        share_code::is_share_code(r@),
{
    share_code::generate_share_code().display
}

/// What a received file is reported as. A path without a file name has an empty one, and
/// a size that cannot be told is zero.
pub fn transfer_result(file_name: Option<String>, file_path: String, size: Option<u64>) -> (r:
    ApiTransferResult)
    ensures
        r.file_name@ == (match file_name {
            Some(name) => name@,
            None => Seq::empty(),
        }),
        r.file_path == file_path,
        r.bytes_transferred == (match size {
            Some(n) => n,
            None => 0,
        }),
{
    ApiTransferResult {
        file_name: match file_name {
            Some(name) => name,
            None => String::new(),
        },
        file_path,
        bytes_transferred: match size {
            Some(n) => n,
            None => 0,
        },
    }
}

// ── Laws ───────────────────────────────────────────────────────────────────────

/// The contact that is found has the identifier, and none before it has; if none is found,
/// none has it.
pub proof fn found_contact_has_the_identifier(contacts: Seq<Contact>, id: u128, from: int)
    requires
        0 <= from <= contacts.len(),
    ensures
        from <= first_with_id(contacts, id, from) <= contacts.len(),
        first_with_id(contacts, id, from) < contacts.len() ==> contacts[first_with_id(
            contacts,
            id,
            from,
        )].id == id,
        forall|i: int|
            from <= i < first_with_id(contacts, id, from) ==> (#[trigger] contacts[i]).id != id,
    decreases contacts.len() - from,
{
    if from < contacts.len() && contacts[from].id != id {
        found_contact_has_the_identifier(contacts, id, from + 1);
    }
}

/// What is shown of an identity is its name, its fingerprint, its public key and its age.
pub proof fn identity_is_shown_as_it_is(a: ApiIdentity, id: UserIdentity)
    requires
        shows(a, id),
    ensures
        a.display_name == id.display_name,
        a.fingerprint == id.fingerprint,
        a.public_key == id.public_key,
        a.created_at == id.created_at,
{
}

/// What is shown of a contact is the contact, with the status and the address given.
pub proof fn contact_is_shown_as_it_is(
    a: ApiContact,
    c: Contact,
    is_online: bool,
    last_known_addr: Option<String>,
)
    requires
        shows_contact(a, c, is_online, last_known_addr),
    ensures
        a.id@ == uuids::uuid_text(c.id),
        a.display_name == c.display_name,
        a.fingerprint == c.fingerprint,
        a.public_key == c.public_key,
        a.is_online == is_online,
        a.last_known_addr == last_known_addr,
        a.last_seen == c.last_seen,
{
}

/// A refusal has one text.
pub proof fn refusal_has_one_text(r: Result<(), String>, text: Seq<char>, other: Seq<char>)
    ensures
        refused(r, text) ==> r is Err,
        refused(r, text) && refused(r, other) ==> text == other,
{
}

} // verus!
