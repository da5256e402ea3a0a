//! Contacts as rows of a database.

use vstd::prelude::*;

use crate::clock;
use crate::contacts::model::Contact;
use crate::error::{Error, Result};
use crate::uuids;

verus! {

/// A row of the table of contacts. The database has signed integers only.
#[derive(Debug)]
pub struct ContactRow {
    pub id: String,
    pub display_name: String,
    pub public_key: String,
    pub fingerprint: String,
    pub last_known_addr: Option<String>,
    pub added_at: i64,
    pub last_seen: Option<i64>,
}

/// The signed number with the same 64 bits.
pub open spec fn signed(x: u64) -> int {
    if x < 0x8000_0000_0000_0000 {
        x as int
    } else {
        x - 0x1_0000_0000_0000_0000
    }
}

/// The unsigned number with the same 64 bits.
pub open spec fn unsigned(x: i64) -> int {
    if x >= 0 {
        x as int
    } else {
        x + 0x1_0000_0000_0000_0000
    }
}

fn to_signed(x: u64) -> (r: i64)
    ensures
        r == signed(x),
{
    if x < 0x8000_0000_0000_0000 {
        x as i64
    } else {
        -((u64::MAX - x) as i64) - 1
    }
}

fn to_unsigned(x: i64) -> (r: u64)
    ensures
        r == unsigned(x),
{
    if x >= 0 {
        x as u64
    } else {
        u64::MAX - (-(x + 1)) as u64
    }
}

/// `row` holds what `c` holds.
pub open spec fn stores(row: ContactRow, c: Contact) -> bool {
    &&& row.id@ == uuids::uuid_text(c.id)
    &&& row.display_name == c.display_name
    &&& row.public_key == c.public_key
    &&& row.fingerprint == c.fingerprint
    &&& row.last_known_addr == c.last_known_addr
    &&& row.added_at == signed(c.added_at)
    &&& match c.last_seen {
        Some(t) => row.last_seen is Some && row.last_seen->0 == signed(t),
        None => row.last_seen is None,
    }
}

/// `c` is what `row` holds, but for its identifier.
pub open spec fn read_from(c: Contact, row: ContactRow) -> bool {
    &&& c.display_name == row.display_name
    &&& c.public_key == row.public_key
    &&& c.fingerprint == row.fingerprint
    &&& c.last_known_addr == row.last_known_addr
    &&& c.added_at == unsigned(row.added_at)
    &&& match row.last_seen {
        Some(t) => c.last_seen is Some && c.last_seen->0 == unsigned(t),
        None => c.last_seen is None,
    }
}

/// `id` is the identifier that `text` spells, or a fresh one if it spells none.
pub open spec fn id_read(id: u128, text: Seq<char>) -> bool {
    match uuids::uuid_parsed(text) {
        Ok(number) => id == number,
        Err(_) => uuids::nibble(id, 12) == 4 && 8 <= uuids::nibble(id, 16) < 12,
    }
}

/// The row to store a contact as.
pub fn row_of(c: &Contact) -> (row: ContactRow)
    ensures
        stores(row, *c),
{
    ContactRow {
        id: uuids::to_text(c.id),
        display_name: c.display_name.clone(),
        public_key: c.public_key.clone(),
        fingerprint: c.fingerprint.clone(),
        last_known_addr: match &c.last_known_addr {
            Some(addr) => Some(addr.clone()),
            None => None,
        },
        added_at: to_signed(c.added_at),
        last_seen: match c.last_seen {
            Some(t) => Some(to_signed(t)),
            None => None,
        },
    }
}

/// The contact that a row holds. An identifier that cannot be read is replaced by a
/// fresh one.
pub fn contact_of(row: ContactRow) -> (c: Contact)
    ensures
        read_from(c, row),
        id_read(c.id, row.id@),
        forall|id: u128| row.id@ == #[trigger] uuids::uuid_text(id) ==> c.id == id,
{
    let id: u128 = match uuids::parse(&row.id) {
        Ok(id) => id,
        Err(_) => uuids::new_v4(),
    };
    Contact {
        id,
        display_name: row.display_name,
        public_key: row.public_key,
        fingerprint: row.fingerprint,
        last_known_addr: row.last_known_addr,
        added_at: to_unsigned(row.added_at),
        last_seen: match row.last_seen {
            Some(t) => Some(to_unsigned(t)),
            None => None,
        },
    }
}

/// The contacts that the rows hold, row by row.
pub fn contacts_of(rows: Vec<ContactRow>) -> (r: Vec<Contact>)
    ensures
        r@.len() == rows@.len(),
        forall|i: int|
            0 <= i < rows@.len() ==> read_from(#[trigger] r@[i], rows@[i]) && id_read(
                r@[i].id,
                rows@[i].id@,
            ),
        forall|i: int, id: u128|
            0 <= i < rows@.len() && rows@[i].id@ == #[trigger] uuids::uuid_text(id) ==> (
            #[trigger] r@[i]).id == id,
{
    let mut r: Vec<Contact> = Vec::new();
    for row in it: rows
        invariant
            r@.len() == it.index(),
            it.seq() == rows@,
            forall|i: int|
                0 <= i < r@.len() ==> read_from(#[trigger] r@[i], rows@[i]) && id_read(
                    r@[i].id,
                    rows@[i].id@,
                ),
            forall|i: int, id: u128|
                0 <= i < r@.len() && rows@[i].id@ == #[trigger] uuids::uuid_text(id) ==> (
                #[trigger] r@[i]).id == id,
    {
        r.push(contact_of(row));
    }
    r
}

/// The text under which an identifier is looked up.
pub fn row_id(id: u128) -> (r: String)
    ensures
        r@ == uuids::uuid_text(id),
{
    uuids::to_text(id)
}

/// What `last_seen` becomes when a contact is seen at a time.
pub fn seen_at(now: u64) -> (r: i64)
    ensures
        r == signed(now),
{
    to_signed(now)
}

/// What `last_seen` becomes when a contact is seen now.
pub fn seen_now() -> (r: i64)
    ensures
        exists|now: u64| r == #[trigger] signed(now),
{
    let now: u64 = clock::unix_now();
    let r: i64 = seen_at(now);
    assert(r == signed(now));
    r
}

/// What the removal of a contact comes to, from the count of rows that it changed.
pub fn removal(id: u128, changed: usize) -> (r: Result<()>)
    ensures
        changed > 0 ==> r is Ok,
        changed == 0 ==> r is Err && r->Err_0 is ContactNotFound && r->Err_0->ContactNotFound_0@
            == uuids::uuid_text(id),
{
    if changed == 0 {
        return Err(Error::ContactNotFound(uuids::to_text(id)));
    }
    Ok(())
}

/// A contact that is stored and read back is the same.
pub proof fn stored_contact_reads_back(c: Contact, row: ContactRow, back: Contact)
    requires
        stores(row, c),
        read_from(back, row),
        forall|id: u128| row.id@ == #[trigger] uuids::uuid_text(id) ==> back.id == id,
    ensures
        back == c,
{
    assert(row.id@ == uuids::uuid_text(c.id));
}

/// A time is stored as the signed number of the same bits: the same number up to 2^63, and
/// 2^64 less beyond; and is read back likewise.
pub proof fn times_keep_their_bits(x: u64, y: i64)
    ensures
        i64::MIN <= signed(x) <= i64::MAX,
        x <= i64::MAX ==> signed(x) == x,
        x > i64::MAX ==> signed(x) + u64::MAX + 1 == x,
        0 <= unsigned(y) <= u64::MAX,
        y >= 0 ==> unsigned(y) == y,
        y < 0 ==> unsigned(y) == y + u64::MAX + 1,
{
}

/// Each column holds what it is called after.
pub proof fn columns_hold_their_own(row: ContactRow, c: Contact, back: Contact)
    ensures
        stores(row, c) ==> {
            &&& row.id@ == uuids::uuid_text(c.id)
            &&& row.display_name == c.display_name
            &&& row.public_key == c.public_key
            &&& row.fingerprint == c.fingerprint
            &&& row.last_known_addr == c.last_known_addr
            &&& row.last_seen is Some <==> c.last_seen is Some
        },
        read_from(back, row) ==> {
            &&& back.display_name == row.display_name
            &&& back.public_key == row.public_key
            &&& back.fingerprint == row.fingerprint
            &&& back.last_known_addr == row.last_known_addr
            &&& back.last_seen is Some <==> row.last_seen is Some
        },
{
}

/// An identifier that can be read is kept; only one that cannot is replaced.
pub proof fn readable_identifier_is_kept(id: u128, number: u128, text: Seq<char>)
    requires
        id_read(id, text),
    ensures
        uuids::uuid_parsed(text) == std::result::Result::<u128, Seq<char>>::Ok(number) ==> id
            == number,
        uuids::uuid_parsed(text) is Err ==> uuids::nibble(id, 12) == 4,
{
}

} // verus!
