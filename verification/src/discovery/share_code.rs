//! Share codes: what they look like, how they are looked up, and for how long.

use vstd::prelude::*;

use crate::clock;
use crate::hash;
use crate::identity::fingerprint;
use crate::random;
use crate::text;
use crate::unicode;

verus! {

pub struct ShareCode {
    pub display: String,
}

/// The share code made from a word of the list and a number.
pub open spec fn code_of(word: int, number: nat) -> Seq<char> {
    fingerprint::upper_word(word) + "-"@ + text::digits4(number)
}

/// `s` reads `WORD-NNNN`.
pub open spec fn is_share_code(s: Seq<char>) -> bool {
    exists|word: Seq<char>, number: nat|
        #![trigger fingerprint::is_upper_word(word), text::digits4(number)]
        fingerprint::is_upper_word(word) && number < 10000 && s == word + "-"@ + text::digits4(
            number,
        )
}

/// The share code that two random numbers select.
pub fn share_code_from(word: usize, number: u16) -> (r: ShareCode)
    ensures
        r.display@ == code_of(word as int % 2048, (number % 10000) as nat),
        is_share_code(r.display@),
{
    let w = fingerprint::word_in_capitals(word % 2048);
    let n = text::decimal4(number % 10000);
    let mut display = w.clone();
    display.append("-");
    display.append(&n);
    assert(fingerprint::is_upper_word(w@));
    assert(display@ == w@ + "-"@ + text::digits4((number % 10000) as nat));
    ShareCode { display }
}

/// A fresh share code.
pub fn generate_share_code() -> (r: ShareCode)
    ensures
        exists|word: int, number: nat|
            0 <= word < 2048 && number < 10000 && r.display@ == #[trigger] code_of(word, number),
        is_share_code(r.display@),
{
    let word: usize = random::random_usize();
    let number: u16 = random::random_u16();
    share_code_from(word, number)
}

/// The form in which a code is looked up: in upper case.
pub fn normalized(code: &str) -> (r: String)
    ensures
        r@ == unicode::upper(code@),
{
    unicode::to_uppercase(code)
}

// ── The hour ───────────────────────────────────────────────────────────────────

/// The hour since the epoch that `secs` falls in.
pub fn hour_of(secs: u64) -> (hour: u64)
    ensures
        hour == secs / 3600,
{
    secs / 3600
}

/// The current hour since the epoch.
pub fn current_hour() -> (hour: u64)
    ensures
        hour <= u64::MAX / 3600,
{
    hour_of(clock::unix_now())
}

/// Seconds from `now` to the end of its hour.
pub fn secs_until_expiry_at(now: u64) -> (secs: u64)
    ensures
        secs == (now / 3600 + 1) * 3600 - now,
        1 <= secs <= 3600,
{
    3600 - now % 3600
}

/// Seconds until the codes of the current hour expire.
pub fn secs_until_expiry() -> (secs: u64)
    ensures
        1 <= secs <= 3600,
{
    secs_until_expiry_at(clock::unix_now())
}

// ── Infohashes ─────────────────────────────────────────────────────────────────

/// What the infohash of a sender is made from.
pub open spec fn send_input(code: Seq<char>, hour: u64) -> Seq<char> {
    code + ":"@ + text::digits(hour as nat)
}

/// What the infohash of a receiver is made from.
pub open spec fn recv_input(code: Seq<char>, hour: u64) -> Seq<char> {
    code + ":recv:"@ + text::digits(hour as nat)
}

/// The infohash made from a text.
pub open spec fn infohash(input: Seq<char>) -> Seq<u8> {
    hash::sha1_of(vstd::utf8::encode_utf8(input))
}

/// The infohash under which a sender announces `code` in an hour.
pub fn to_infohash_in(code: &str, hour: u64) -> (r: [u8; 20])
    ensures
        r@ == infohash(send_input(code@, hour)),
{
    let mut input = code.to_string();
    input.append(":");
    input.append(&text::decimal(hour));
    hash::sha1(input.as_str().as_bytes())
}

/// The infohash under which a receiver announces itself for `code` in an hour.
pub fn to_recv_infohash_in(code: &str, hour: u64) -> (r: [u8; 20])
    ensures
        r@ == infohash(recv_input(code@, hour)),
{
    let mut input = code.to_string();
    input.append(":recv:");
    input.append(&text::decimal(hour));
    hash::sha1(input.as_str().as_bytes())
}

/// The infohash under which a sender announces `code` now.
pub fn to_infohash(code: &str) -> (r: [u8; 20])
    ensures
        exists|hour: u64| r@ == infohash(#[trigger] send_input(code@, hour)),
{
    to_infohash_in(code, current_hour())
}

/// The infohash under which a receiver announces itself for `code` now.
pub fn to_recv_infohash(code: &str) -> (r: [u8; 20])
    ensures
        exists|hour: u64| r@ == infohash(#[trigger] recv_input(code@, hour)),
{
    to_recv_infohash_in(code, current_hour())
}

// ── Laws ───────────────────────────────────────────────────────────────────────

/// A code stands for the same infohashes until its hour ends, and not for a second more.
pub proof fn code_lasts_until_the_hour_ends(now: u64, later: u64)
    requires
        now <= later,
    ensures
        later / 3600 == now / 3600 <==> later - now < (now / 3600 + 1) * 3600 - now,
{
}

/// Sender and receiver of the same code never hash the same text, whatever the hours.
pub proof fn send_and_recv_inputs_differ(code: Seq<char>, hour: u64, other: u64)
    ensures
        send_input(code, hour) != recv_input(code, other),
{
    let a = send_input(code, hour);
    let b = recv_input(code, other);
    let k = code.len() as int + 1;
    reveal_strlit(":");
    reveal_strlit(":recv:");
    text::digits_round_trip(hour as nat);
    assert(a[k] == text::digits(hour as nat)[0]);
    assert(text::is_digit(a[k]));
    assert(b[k] == 'r');
}

/// A share code is made of capital letters, hyphens and digits, and is not empty.
proof fn share_code_chars(code: Seq<char>)
    requires
        is_share_code(code),
    ensures
        code.len() > 0,
        forall|i: int|
            0 <= i < code.len() ==> 'A' <= #[trigger] code[i] <= 'Z' || code[i] == '-'
                || text::is_digit(code[i]),
{
    reveal_strlit("-");
    let (word, number) = choose|word: Seq<char>, number: nat|
        #![trigger fingerprint::is_upper_word(word), text::digits4(number)]
        fingerprint::is_upper_word(word) && number < 10000 && code == word + "-"@ + text::digits4(
            number,
        );
    assert forall|i: int| 0 <= i < code.len() implies 'A' <= #[trigger] code[i] <= 'Z' || code[i]
        == '-' || text::is_digit(code[i]) by {
        if i < word.len() {
            assert(code[i] == word[i]);
        } else if i == word.len() {
            assert(code[i] == '-');
        } else {
            let d = i - word.len() - 1;
            assert(code[i] == text::digits4(number)[d]);
        }
    }
}

/// A share code is ASCII and in upper case already.
pub proof fn share_code_is_upper(code: Seq<char>)
    requires
        is_share_code(code),
    ensures
        vstd::utf8::is_ascii_chars(code),
        unicode::upper(code) == code,
{
    share_code_chars(code);
    assert(unicode::ascii_upper_text(code) =~= code);
}

/// A share code is not empty and holds no white space.
pub proof fn share_code_has_no_blanks(code: Seq<char>)
    requires
        is_share_code(code),
    ensures
        code.len() > 0,
        forall|i: int| 0 <= i < code.len() ==> !unicode::white(#[trigger] code[i]),
{
    share_code_chars(code);
}

/// Case does not matter: however the letters of a share code are typed, it is looked up
/// as the code that was shown.
pub proof fn case_does_not_matter(code: Seq<char>, typed: Seq<char>)
    requires
        is_share_code(code),
        vstd::utf8::is_ascii_chars(typed),
        unicode::ascii_lower_text(typed) == unicode::ascii_lower_text(code),
    ensures
        unicode::upper(typed) == code,
{
    share_code_is_upper(code);
    assert(typed.len() == unicode::ascii_lower_text(typed).len());
    assert(code.len() == unicode::ascii_lower_text(code).len());
    assert forall|i: int| 0 <= i < code.len() implies unicode::ascii_upper(typed[i]) == code[i] by {
        assert(unicode::ascii_lower_text(typed)[i] == unicode::ascii_lower(typed[i]));
        assert(unicode::ascii_lower_text(code)[i] == unicode::ascii_lower(code[i]));
        assert(unicode::upper(code)[i] == unicode::ascii_upper(code[i]));
    }
    assert(unicode::ascii_upper_text(typed) =~= code);
}

/// `s` is three to eight capital letters, a hyphen and four digits.
pub open spec fn reads_as_code(s: Seq<char>) -> bool {
    &&& 8 <= s.len() <= 13
    &&& s[s.len() - 5] == '-'
    &&& forall|i: int| 0 <= i < s.len() - 5 ==> 'A' <= #[trigger] s[i] <= 'Z'
    &&& forall|i: int| s.len() - 4 <= i < s.len() ==> text::is_digit(#[trigger] s[i])
}

/// A share code is three to eight capital letters, a hyphen and four digits.
pub proof fn share_code_reads_so(s: Seq<char>)
    requires
        is_share_code(s),
    ensures
        reads_as_code(s),
{
    reveal_strlit("-");
    let n = s.len() as int;
    let (word, number) = choose|word: Seq<char>, number: nat|
        #![trigger fingerprint::is_upper_word(word), text::digits4(number)]
        fingerprint::is_upper_word(word) && number < 10000 && s == word + "-"@ + text::digits4(
            number,
        );
    let d = text::digits4(number);
    text::digits4_spell_the_number(number);
    assert(s.len() == word.len() + 5);
    assert forall|i: int| 0 <= i < n - 5 implies 'A' <= #[trigger] s[i] <= 'Z' by {
        assert(s[i] == word[i]);
    }
    assert forall|i: int| n - 4 <= i < n implies text::is_digit(#[trigger] s[i]) by {
        assert(s[i] == d[i - (n - 4)]);
    }
}

/// Every text that reads so is a share code.
pub proof fn what_reads_so_is_a_share_code(s: Seq<char>)
    requires
        reads_as_code(s),
    ensures
        is_share_code(s),
{
    reveal_strlit("-");
    let n = s.len() as int;
    let word = s.subrange(0, n - 5);
    let d = s.subrange(n - 4, n);
    assert forall|i: int| 0 <= i < 4 implies text::is_digit(#[trigger] d[i]) by {
        assert(d[i] == s[n - 4 + i]);
    }
    text::four_digits_are_of_their_number(d);
    assert(s =~= word + "-"@ + text::digits4(text::digits_value(d)));
    assert(fingerprint::is_upper_word(word));
}

/// The code that a word of the list and a number make is the word in capitals, a hyphen and
/// the number; so different numbers, and different words in capitals, make different codes.
pub proof fn code_spells_word_and_number(word: int, number: nat)
    requires
        number < 10000,
    ensures
        ({
            let code = code_of(word, number);
            let w = fingerprint::upper_word(word);
            let n = w.len() as int;
            &&& code.len() == n + 5
            &&& code.subrange(0, n) == w
            &&& code[n] == '-'
            &&& text::digits_value(code.subrange(n + 1, n + 5)) == number
        }),
{
    reveal_strlit("-");
    let code = code_of(word, number);
    let w = fingerprint::upper_word(word);
    let n = w.len() as int;
    text::digits4_spell_the_number(number);
    assert(code.subrange(0, n) =~= w);
    assert(code.subrange(n + 1, n + 5) =~= text::digits4(number));
}

/// Different words or numbers make different codes.
pub proof fn codes_differ(word: int, number: nat, other_word: int, other_number: nat)
    requires
        number < 10000,
        other_number < 10000,
        code_of(word, number) == code_of(other_word, other_number),
    ensures
        number == other_number,
        fingerprint::upper_word(word) == fingerprint::upper_word(other_word),
{
    code_spells_word_and_number(word, number);
    code_spells_word_and_number(other_word, other_number);
}

/// The text of a code in front of a separator and an hour gives both back.
proof fn input_is_unique(a: Seq<char>, b: Seq<char>, sep: Seq<char>, h: u64, k: u64)
    requires
        sep.len() > 0,
        sep.last() == ':',
        a + sep + text::digits(h as nat) == b + sep + text::digits(k as nat),
    ensures
        a == b,
        h == k,
{
    let (d, e) = (text::digits(h as nat), text::digits(k as nat));
    text::digits_round_trip(h as nat);
    text::digits_round_trip(k as nat);
    let s = a + sep + d;
    let t = b + sep + e;
    let (i, j) = ((a.len() + sep.len()) as int, (b.len() + sep.len()) as int);
    assert(s[i - 1] == sep.last());
    assert(t[j - 1] == sep.last());
    assert(s.len() == t.len());
    assert(s.len() == i + d.len());
    assert(t.len() == j + e.len());
    if i < j {
        assert(s[j - 1] == d[j - 1 - i]);
        assert(text::is_digit(d[j - 1 - i]));
    }
    if j < i {
        assert(t[i - 1] == e[i - 1 - j]);
        assert(text::is_digit(e[i - 1 - j]));
    }
    assert(a =~= s.subrange(0, a.len() as int));
    assert(b =~= t.subrange(0, b.len() as int));
    assert(d =~= s.subrange(i, s.len() as int));
    assert(e =~= t.subrange(j, t.len() as int));
}

/// Different codes, and different hours, never hash the same text.
pub proof fn inputs_tell_codes_and_hours_apart(a: Seq<char>, b: Seq<char>, h: u64, k: u64)
    ensures
        send_input(a, h) == send_input(b, k) ==> a == b && h == k,
        recv_input(a, h) == recv_input(b, k) ==> a == b && h == k,
{
    reveal_strlit(":");
    reveal_strlit(":recv:");
    if send_input(a, h) == send_input(b, k) {
        input_is_unique(a, b, ":"@, h, k);
    }
    if recv_input(a, h) == recv_input(b, k) {
        input_is_unique(a, b, ":recv:"@, h, k);
    }
}

/// The bytes that an ASCII code is hashed in for an hour: the code as it is, a separator and
/// the hour in decimal.
pub open spec fn spells_input(bytes: Seq<u8>, code: Seq<char>, sep: Seq<u8>, hour: u64) -> bool {
    let n = code.len() as int;
    let m = n + sep.len();
    &&& bytes.len() == m + text::digits(hour as nat).len()
    &&& forall|i: int| 0 <= i < n ==> #[trigger] bytes[i] as int == code[i] as int
    &&& bytes.subrange(n, m) == sep
    &&& forall|i: int|
        m <= i < bytes.len() ==> #[trigger] bytes[i] as int == text::digits(hour as nat)[i
            - m] as int
}

proof fn ascii_input(code: Seq<char>, sep: Seq<char>, bytes: Seq<u8>, hour: u64)
    requires
        vstd::utf8::is_ascii_chars(code),
        vstd::utf8::is_ascii_chars(sep),
        spells_input(bytes, code, vstd::utf8::encode_utf8(sep), hour),
    ensures
        bytes == vstd::utf8::encode_utf8(code + sep + text::digits(hour as nat)),
{
    let d = text::digits(hour as nat);
    let s = code + sep + d;
    let n = code.len() as int;
    let m = n + sep.len();
    text::digits_round_trip(hour as nat);
    vstd::utf8::is_ascii_chars_encode_utf8(sep);
    assert(vstd::utf8::is_ascii_chars(s)) by {
        assert forall|i: int| 0 <= i < s.len() implies '\0' <= #[trigger] s[i] <= '\u{7f}' by {
            if i < n {
                assert(s[i] == code[i]);
            } else if i < m {
                assert(s[i] == sep[i - n]);
            } else {
                assert(s[i] == d[i - m]);
                assert(text::is_digit(d[i - m]));
            }
        }
    }
    vstd::utf8::is_ascii_chars_encode_utf8(s);
    let e = vstd::utf8::encode_utf8(s);
    assert forall|i: int| 0 <= i < bytes.len() implies bytes[i] == e[i] by {
        assert(s[i] as u8 == e[i]);
        if i < n {
            assert(s[i] == code[i]);
            assert(bytes[i] as int == code[i] as int);
        } else if i < m {
            assert(s[i] == sep[i - n]);
            assert(bytes[i] == bytes.subrange(n, m)[i - n]);
            assert(sep[i - n] as u8 == vstd::utf8::encode_utf8(sep)[i - n]);
        } else {
            assert(s[i] == d[i - m]);
            assert(text::is_digit(d[i - m]));
            assert(bytes[i] as int == d[i - m] as int);
        }
    }
    assert(bytes =~= e);
}

/// The infohash of a sender is the hash of the code, a colon and the hour; that of a
/// receiver of the code, `:recv:` and the hour. The code and the hour go in whole.
pub proof fn infohash_hashes_code_and_hour(code: Seq<char>, hour: u64, bytes: Seq<u8>)
    requires
        vstd::utf8::is_ascii_chars(code),
    ensures
        spells_input(bytes, code, seq![0x3au8], hour) ==> infohash(send_input(code, hour))
            == hash::sha1_of(bytes),
        spells_input(
            bytes,
            code,
            seq![0x3au8, 0x72u8, 0x65u8, 0x63u8, 0x76u8, 0x3au8],
            hour,
        ) ==> infohash(recv_input(code, hour)) == hash::sha1_of(bytes),
{
    reveal_strlit(":");
    reveal_strlit(":recv:");
    vstd::utf8::is_ascii_chars_encode_utf8(":"@);
    vstd::utf8::is_ascii_chars_encode_utf8(":recv:"@);
    assert(vstd::utf8::encode_utf8(":"@) =~= seq![0x3au8]);
    assert(vstd::utf8::encode_utf8(":recv:"@) =~= seq![
        0x3au8, 0x72u8, 0x65u8, 0x63u8, 0x76u8, 0x3au8,
    ]);
    if spells_input(bytes, code, seq![0x3au8], hour) {
        ascii_input(code, ":"@, bytes, hour);
    }
    if spells_input(bytes, code, seq![0x3au8, 0x72u8, 0x65u8, 0x63u8, 0x76u8, 0x3au8], hour) {
        ascii_input(code, ":recv:"@, bytes, hour);
    }
}

/// An infohash is the hash of the bytes that the text is written in, all of them.
pub proof fn infohash_hashes_the_whole_text(input: Seq<char>, bytes: Seq<u8>)
    requires
        vstd::utf8::valid_utf8(bytes),
        vstd::utf8::decode_utf8(bytes) == input,
    ensures
        infohash(input) == hash::sha1_of(bytes),
{
    vstd::utf8::decode_utf8_encode_utf8(bytes);
}

} // verus!
