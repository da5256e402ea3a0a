//! What the command line prints.

use vstd::prelude::*;

use crate::clock;
use crate::contacts::model::Contact;
use crate::error;
use crate::hexadecimal;
use crate::identity::storage::UserIdentity;
use crate::text;
use crate::unicode;
use crate::uuids;

verus! {

/// The lines of a text.
pub open spec fn lines(s: Seq<String>) -> Seq<Seq<char>> {
    Seq::new(s.len(), |i: int| s[i]@)
}

/// How long ago `secs` was at `now`, in words; a time to come is given as it is.
pub open spec fn age_text(secs: u64, now: u64) -> Seq<char> {
    let d = now - secs;
    if secs > now {
        text::digits(secs as nat) + "s"@
    } else if d < 60 {
        text::digits(d as nat) + "s ago"@
    } else if d < 3600 {
        text::digits((d / 60) as nat) + "m ago"@
    } else if d < 86400 {
        text::digits((d / 3600) as nat) + "h ago"@
    } else {
        text::digits((d / 86400) as nat) + "d ago"@
    }
}

/// How long ago `secs` was at `now`.
pub fn fmt_age_at(secs: u64, now: u64) -> (r: String)
    ensures
        r@ == age_text(secs, now),
{
    if secs > now {
        let mut s = text::decimal(secs);
        s.append("s");
        return s;
    }
    let d: u64 = now - secs;
    if d < 60 {
        let mut s = text::decimal(d);
        s.append("s ago");
        s
    } else if d < 3600 {
        let mut s = text::decimal(d / 60);
        s.append("m ago");
        s
    } else if d < 86400 {
        let mut s = text::decimal(d / 3600);
        s.append("h ago");
        s
    } else {
        let mut s = text::decimal(d / 86400);
        s.append("d ago");
        s
    }
}

/// How long ago `secs` was.
pub fn fmt_age(secs: u64) -> (r: String)
    ensures
        exists|now: u64| r@ == #[trigger] age_text(secs, now),
{
    let now: u64 = clock::unix_now();
    fmt_age_at(secs, now)
}

/// The lines that describe an identity at `now`.
pub fn identity_lines_at(id: &UserIdentity, now: u64) -> (r: Vec<String>)
    ensures
        lines(r@) == seq![
            "Name:        "@ + id.display_name@,
            "Fingerprint: "@ + id.fingerprint@,
            "Public key:  "@ + id.public_key@,
            "Created:     "@ + age_text(id.created_at, now),
        ],
{
    let mut r: Vec<String> = Vec::new();
    r.push(error::prefixed("Name:        ", &id.display_name));
    r.push(error::prefixed("Fingerprint: ", &id.fingerprint));
    r.push(error::prefixed("Public key:  ", &id.public_key));
    let age = fmt_age_at(id.created_at, now);
    r.push(error::prefixed("Created:     ", &age));
    assert(lines(r@) =~= seq![
        "Name:        "@ + id.display_name@,
        "Fingerprint: "@ + id.fingerprint@,
        "Public key:  "@ + id.public_key@,
        "Created:     "@ + age_text(id.created_at, now),
    ]);
    r
}

/// The lines that describe an identity now.
pub fn identity_lines(id: &UserIdentity) -> (r: Vec<String>)
    ensures
        exists|now: u64|
            lines(r@) == seq![
                "Name:        "@ + id.display_name@,
                "Fingerprint: "@ + id.fingerprint@,
                "Public key:  "@ + id.public_key@,
                "Created:     "@ + #[trigger] age_text(id.created_at, now),
            ],
{
    let now: u64 = clock::unix_now();
    identity_lines_at(id, now)
}

/// How long the command looks a code up.
pub const LOOKUP_SECS: u64 = 30;

/// The pause between two lookups of the command.
pub const LOOKUP_INTERVAL_SECS: u64 = 3;

/// The lines in front of a lookup.
pub fn lookup_intro(code: &str, infohash: &[u8; 20]) -> (r: Vec<String>)
    ensures
        lines(r@) == seq![
            "Looking up "@ + code@ + " on DHT..."@,
            "Infohash: "@ + text::hex_of(infohash@),
            "(retrying for up to 30s — DHT may need time to propagate)"@,
        ],
{
    let mut first = error::prefixed("Looking up ", code);
    first.append(" on DHT...");
    let hash = hexadecimal::encode(infohash.as_slice());
    let mut r: Vec<String> = Vec::new();
    r.push(first);
    r.push(error::prefixed("Infohash: ", &hash));
    r.push("(retrying for up to 30s — DHT may need time to propagate)".to_string());
    assert(lines(r@) =~= seq![
        "Looking up "@ + code@ + " on DHT..."@,
        "Infohash: "@ + text::hex_of(infohash@),
        "(retrying for up to 30s — DHT may need time to propagate)"@,
    ]);
    r
}

/// The lines behind a lookup.
pub open spec fn lookup_report(peers: Seq<String>) -> Seq<Seq<char>> {
    if peers.len() == 0 {
        seq![
            "No peers found after 30s."@,
            "Check that the sender's `announce` is still running and that"@,
            "UDP traffic is not blocked by a firewall."@,
        ]
    } else {
        seq!["Found "@ + text::digits(peers.len()) + " peer(s):"@] + Seq::new(
            peers.len(),
            |i: int| "  "@ + peers[i]@,
        )
    }
}

/// The lines behind a lookup that found these addresses.
pub fn lookup_lines(peers: &Vec<String>) -> (r: Vec<String>)
    ensures
        lines(r@) == lookup_report(peers@),
{
    let mut r: Vec<String> = Vec::new();
    if peers.len() == 0 {
        r.push("No peers found after 30s.".to_string());
        r.push("Check that the sender's `announce` is still running and that".to_string());
        r.push("UDP traffic is not blocked by a firewall.".to_string());
        assert(lines(r@) =~= lookup_report(peers@));
        return r;
    }
    let mut first = "Found ".to_string();
    first.append(&text::decimal(peers.len() as u64));
    first.append(" peer(s):");
    r.push(first);
    let mut i: usize = 0;
    while i < peers.len()
        invariant
            0 < peers@.len(),
            i <= peers@.len(),
            lines(r@) =~= lookup_report(peers@).subrange(0, i + 1),
        decreases peers@.len() - i,
    {
        let ghost before = r@;
        r.push(error::prefixed("  ", &peers[i]));
        i = i + 1;
        assert(lines(r@) =~= lines(before).push("  "@ + peers@[i - 1]@));
    }
    assert(lookup_report(peers@).subrange(0, i + 1) =~= lookup_report(peers@));
    r
}

// ── Contacts ───────────────────────────────────────────────────────────────────

/// `s` with spaces behind it up to `width` characters.
pub open spec fn padded(s: Seq<char>, width: nat) -> Seq<char> {
    if s.len() >= width {
        s
    } else {
        s + Seq::new((width - s.len()) as nat, |i: int| ' ')
    }
}

/// Pads `s` with spaces up to `width` characters.
fn pad(s: &str, width: usize) -> (r: String)
    ensures
        r@ == padded(s@, width as nat),
{
    let mut r = s.to_string();
    let len: usize = s.unicode_len();
    let mut i: usize = len;
    while i < width
        invariant
            len == s@.len(),
            len <= i,
            i <= width || i == len,
            r@ =~= s@ + Seq::new((i - len) as nat, |k: int| ' '),
        decreases width - i,
    {
        r.push(' ');
        i = i + 1;
    }
    assert(r@ =~= padded(s@, width as nat));
    r
}

/// A row of the table of contacts.
pub open spec fn table_row(name: Seq<char>, fingerprint: Seq<char>, seen: Seq<char>) -> Seq<char> {
    padded(name, 20) + " "@ + padded(fingerprint, 30) + " "@ + seen
}

fn row(name: &str, fingerprint: &str, seen: &str) -> (r: String)
    ensures
        r@ == table_row(name@, fingerprint@, seen@),
{
    let mut r = pad(name, 20);
    r.append(" ");
    r.append(&pad(fingerprint, 30));
    r.append(" ");
    r.append(seen);
    r
}

/// When a contact was last seen, in words.
pub open spec fn seen_text(last_seen: Option<u64>, now: u64) -> Seq<char> {
    match last_seen {
        Some(t) => age_text(t, now),
        None => "never"@,
    }
}

/// The lines of the table of contacts at `now`.
pub open spec fn contacts_table(contacts: Seq<Contact>, now: u64) -> Seq<Seq<char>> {
    if contacts.len() == 0 {
        seq!["No contacts yet."@]
    } else {
        seq![
            table_row("Name"@, "Fingerprint"@, "Last seen"@),
            Seq::new(70, |i: int| '-'),
        ] + Seq::new(
            contacts.len(),
            |i: int|
                table_row(
                    contacts[i].display_name@,
                    contacts[i].fingerprint@,
                    seen_text(contacts[i].last_seen, now),
                ),
        )
    }
}

/// Writes the table of contacts at `now`.
pub fn contacts_lines_at(contacts: &Vec<Contact>, now: u64) -> (r: Vec<String>)
    ensures
        lines(r@) == contacts_table(contacts@, now),
{
    let mut r: Vec<String> = Vec::new();
    if contacts.len() == 0 {
        r.push("No contacts yet.".to_string());
        assert(lines(r@) =~= contacts_table(contacts@, now));
        return r;
    }
    r.push(row("Name", "Fingerprint", "Last seen"));
    let mut rule = String::new();
    let mut k: usize = 0;
    while k < 70
        invariant
            k <= 70,
            rule@ =~= Seq::new(k as nat, |i: int| '-'),
        decreases 70 - k,
    {
        rule.push('-');
        k = k + 1;
    }
    r.push(rule);
    let mut i: usize = 0;
    assert(lines(r@) =~= contacts_table(contacts@, now).subrange(0, 2));
    while i < contacts.len()
        invariant
            0 < contacts@.len(),
            i <= contacts@.len(),
            lines(r@) =~= contacts_table(contacts@, now).subrange(0, i + 2),
        decreases contacts@.len() - i,
    {
        let ghost before = r@;
        let c: &Contact = &contacts[i];
        let seen = match c.last_seen {
            Some(t) => fmt_age_at(t, now),
            None => "never".to_string(),
        };
        r.push(row(&c.display_name, &c.fingerprint, &seen));
        i = i + 1;
        assert(lines(r@) =~= lines(before).push(contacts_table(contacts@, now)[i + 1]));
    }
    assert(contacts_table(contacts@, now).subrange(0, i + 2) =~= contacts_table(contacts@, now));
    r
}

/// Writes the table of contacts now.
pub fn contacts_lines(contacts: &Vec<Contact>) -> (r: Vec<String>)
    ensures
        exists|now: u64| lines(r@) == #[trigger] contacts_table(contacts@, now),
{
    let now: u64 = clock::unix_now();
    contacts_lines_at(contacts, now)
}

/// What adding a contact comes to: the contact to store, if there was none with this
/// fingerprint, and the lines to print.
pub fn add_contact(already_known: bool, fingerprint: String, name: String) -> (r: (
    Option<Contact>,
    Vec<String>,
))
    ensures
        already_known ==> r.0 is None && lines(r.1@) == seq![
            "Contact "@ + fingerprint@ + " already exists."@,
        ],
        !already_known ==> {
            &&& r.0 is Some
            &&& r.0->0.display_name == name
            &&& r.0->0.public_key@ == Seq::<char>::empty()
            &&& r.0->0.fingerprint == fingerprint
            &&& r.0->0.last_known_addr is None
            &&& r.0->0.last_seen is None
            &&& uuids::nibble(r.0->0.id, 12) == 4
            &&& 8 <= uuids::nibble(r.0->0.id, 16) < 12
            &&& lines(r.1@) == seq![
                "Added '"@ + name@ + "' ("@ + fingerprint@ + ")."@,
                "Public key verified on first connection."@,
            ]
        },
{
    let mut out: Vec<String> = Vec::new();
    if already_known {
        let mut s = error::prefixed("Contact ", &fingerprint);
        s.append(" already exists.");
        out.push(s);
        assert(lines(out@) =~= seq!["Contact "@ + fingerprint@ + " already exists."@]);
        return (None, out);
    }
    let mut s = error::prefixed("Added '", &name);
    s.append("' (");
    s.append(&fingerprint);
    s.append(").");
    out.push(s);
    out.push("Public key verified on first connection.".to_string());
    assert(lines(out@) =~= seq![
        "Added '"@ + name@ + "' ("@ + fingerprint@ + ")."@,
        "Public key verified on first connection."@,
    ]);
    (Some(Contact::new(name, String::new(), fingerprint)), out)
}

/// What removing a contact comes to: which one to remove, if one was found, and the line
/// to print when that is done.
pub fn remove_contact(found: Option<&Contact>, fingerprint: &str) -> (r: (Option<u128>, String))
    ensures
        match found {
            Some(c) => r.0 == Some(c.id) && r.1@ == "Removed '"@ + c.display_name@ + "'."@,
            None => r.0 is None && r.1@ == "No contact with fingerprint "@ + fingerprint@ + "."@,
        },
{
    match found {
        Some(c) => {
            let mut s = error::prefixed("Removed '", &c.display_name);
            s.append("'.");
            (Some(c.id), s)
        },
        None => {
            let mut s = error::prefixed("No contact with fingerprint ", fingerprint);
            s.append(".");
            (None, s)
        },
    }
}

/// A fingerprint as the commands look for it: in upper case.
pub fn normalized_fingerprint(fingerprint: &str) -> (r: String)
    ensures
        r@ == unicode::upper(fingerprint@),
{
    unicode::to_uppercase(fingerprint)
}

// ── Sessions ───────────────────────────────────────────────────────────────────

/// The lines about the peer of a session that was set up with a share code of one's own.
pub fn announced_lines(code: &str, remote_fingerprint: &str, remote_pubkey: &[u8; 32]) -> (r: Vec<
    String,
>)
    ensures
        lines(r@) == seq![
            "Share code used : "@ + code@,
            "Remote peer     : "@ + remote_fingerprint@,
            "Remote pubkey   : "@ + text::hex_of(remote_pubkey@),
        ],
{
    let key = hexadecimal::encode(remote_pubkey.as_slice());
    let mut r: Vec<String> = Vec::new();
    r.push(error::prefixed("Share code used : ", code));
    r.push(error::prefixed("Remote peer     : ", remote_fingerprint));
    r.push(error::prefixed("Remote pubkey   : ", &key));
    assert(lines(r@) =~= seq![
        "Share code used : "@ + code@,
        "Remote peer     : "@ + remote_fingerprint@,
        "Remote pubkey   : "@ + text::hex_of(remote_pubkey@),
    ]);
    r
}

/// The lines about the peer of a session that was set up with the peer's share code.
pub fn connected_lines(remote_fingerprint: &str, remote_pubkey: &[u8; 32]) -> (r: Vec<String>)
    ensures
        lines(r@) == seq![
            "Remote peer   : "@ + remote_fingerprint@,
            "Remote pubkey : "@ + text::hex_of(remote_pubkey@),
        ],
{
    let key = hexadecimal::encode(remote_pubkey.as_slice());
    let mut r: Vec<String> = Vec::new();
    r.push(error::prefixed("Remote peer   : ", remote_fingerprint));
    r.push(error::prefixed("Remote pubkey : ", &key));
    assert(lines(r@) =~= seq![
        "Remote peer   : "@ + remote_fingerprint@,
        "Remote pubkey : "@ + text::hex_of(remote_pubkey@),
    ]);
    r
}

// ── Laws ───────────────────────────────────────────────────────────────────────

/// An age is given in the largest unit of which at least one is over, rounded down: seconds
/// below a minute, minutes below an hour, hours below a day, and days.
pub proof fn age_is_in_the_largest_unit(secs: u64, now: u64, n: nat)
    requires
        secs <= now,
    ensures
        now - secs < 60 && n == now - secs ==> age_text(secs, now) == text::digits(n) + "s ago"@,
        60 * n <= now - secs < 60 * (n + 1) && 1 <= n < 60 ==> age_text(secs, now) == text::digits(
            n,
        ) + "m ago"@,
        3600 * n <= now - secs < 3600 * (n + 1) && 1 <= n < 24 ==> age_text(secs, now)
            == text::digits(n) + "h ago"@,
        86400 * n <= now - secs < 86400 * (n + 1) && 1 <= n ==> age_text(secs, now)
            == text::digits(n) + "d ago"@,
{
}

/// A time to come is given as it is, in seconds.
pub proof fn time_to_come_is_given_as_it_is(secs: u64, now: u64)
    requires
        secs > now,
    ensures
        age_text(secs, now) == text::digits(secs as nat) + "s"@,
{
}

/// How long ago a time was depends on the distance alone.
pub proof fn age_depends_on_the_distance(secs: u64, now: u64, later: u64)
    requires
        secs <= now,
        now + later <= u64::MAX,
    ensures
        age_text(secs, now) == age_text((secs + later) as u64, (now + later) as u64),
{
}

/// A lookup reports how many were found and each of them on a line of its own, in order.
pub proof fn lookup_reports_every_peer(peers: Seq<String>, i: int)
    requires
        0 <= i < peers.len(),
    ensures
        lookup_report(peers).len() == peers.len() + 1,
        lookup_report(peers)[0] == "Found "@ + text::digits(peers.len()) + " peer(s):"@,
        lookup_report(peers)[i + 1] == "  "@ + peers[i]@,
        lookup_report(Seq::<String>::empty()).len() == 3,
        lookup_report(Seq::<String>::empty())[0] == "No peers found after 30s."@,
        lookup_report(Seq::<String>::empty())[1]
            == "Check that the sender's `announce` is still running and that"@,
        lookup_report(Seq::<String>::empty())[2] == "UDP traffic is not blocked by a firewall."@,
{
}

/// Padding puts blanks behind a text until it is wide enough, and cuts nothing off.
pub proof fn padding_cuts_nothing_off(s: Seq<char>, width: nat, k: int)
    ensures
        s.is_prefix_of(padded(s, width)),
        padded(s, width).len() == if s.len() >= width {
            s.len()
        } else {
            width
        },
        s.len() <= k < padded(s, width).len() ==> padded(s, width)[k] == ' ',
{
    assert(s =~= padded(s, width).subrange(0, s.len() as int));
}

/// In a row the name comes first, the fingerprint starts at column 21 and the time at column
/// 52, as long as name and fingerprint leave room.
pub proof fn columns_are_aligned(name: Seq<char>, fingerprint: Seq<char>, seen: Seq<char>)
    requires
        name.len() <= 20,
        fingerprint.len() <= 30,
    ensures
        ({
            let r = table_row(name, fingerprint, seen);
            &&& r.len() == 52 + seen.len()
            &&& r.subrange(0, name.len() as int) == name
            &&& r.subrange(21, 21 + fingerprint.len() as int) == fingerprint
            &&& r.subrange(52, r.len() as int) == seen
            &&& forall|k: int|
                name.len() <= k < 21 || 21 + fingerprint.len() <= k < 52 ==> #[trigger] r[k] == ' '
        }),
{
    reveal_strlit(" ");
    let r = table_row(name, fingerprint, seen);
    assert(r.subrange(0, name.len() as int) =~= name);
    assert(r.subrange(21, 21 + fingerprint.len() as int) =~= fingerprint);
    assert(r.subrange(52, r.len() as int) =~= seen);
}

/// The table has a row for every contact, in order, below two lines of heading; a contact
/// that was never seen is said to be so.
pub proof fn table_has_every_contact(contacts: Seq<Contact>, now: u64, i: int)
    requires
        0 <= i < contacts.len(),
    ensures
        contacts_table(contacts, now).len() == contacts.len() + 2,
        contacts_table(contacts, now)[0] == table_row("Name"@, "Fingerprint"@, "Last seen"@),
        contacts_table(contacts, now)[1].len() == 70,
        forall|k: int| 0 <= k < 70 ==> #[trigger] contacts_table(contacts, now)[1][k] == '-',
        contacts[i].last_seen is None ==> contacts_table(contacts, now)[i + 2] == table_row(
            contacts[i].display_name@,
            contacts[i].fingerprint@,
            "never"@,
        ),
        contacts[i].last_seen is Some ==> contacts_table(contacts, now)[i + 2] == table_row(
            contacts[i].display_name@,
            contacts[i].fingerprint@,
            age_text(contacts[i].last_seen->0, now),
        ),
        contacts_table(Seq::<Contact>::empty(), now) == seq!["No contacts yet."@],
{
}

/// The lines of a text are its lines, one by one.
pub proof fn lines_are_one_by_one(s: Seq<String>, i: int)
    requires
        0 <= i < s.len(),
    ensures
        lines(s).len() == s.len(),
        lines(s)[i] == s[i]@,
{
}

} // verus!
