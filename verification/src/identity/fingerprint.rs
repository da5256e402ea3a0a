//! A public key as words and numbers that people can compare.

use vstd::prelude::*;

use crate::text;
use crate::unicode;
use crate::wire;

verus! {

/// Word `i` of the English BIP-39 list, counted from zero.
pub uninterp spec fn bip39_word(i: int) -> Seq<char>;

/// `s` is made of three to eight letters from `a` to `z`.
pub open spec fn is_lower_word(s: Seq<char>) -> bool {
    &&& 3 <= s.len() <= 8
    &&& forall|i: int| 0 <= i < s.len() ==> 'a' <= #[trigger] s[i] <= 'z'
}

/// `s` is made of three to eight letters from `A` to `Z`.
pub open spec fn is_upper_word(s: Seq<char>) -> bool {
    &&& 3 <= s.len() <= 8
    &&& forall|i: int| 0 <= i < s.len() ==> 'A' <= #[trigger] s[i] <= 'Z'
}

/// Word `i` of the list in upper case.
pub open spec fn upper_word(i: int) -> Seq<char> {
    unicode::ascii_upper_text(bip39_word(i))
}

/// The 16-bit number at `at` in `key`.
pub open spec fn key_part(key: Seq<u8>, at: int) -> int {
    wire::from_be16(key.subrange(at, key.len() as int)) as int
}

/// The fingerprint of `key`: word, number, word, number, from its first eight bytes.
pub open spec fn fingerprint_of(key: Seq<u8>) -> Seq<char> {
    upper_word(key_part(key, 0) % 2048) + "-"@ + text::digits4((key_part(key, 2) % 10000) as nat)
        + "-"@ + upper_word(key_part(key, 4) % 2048) + "-"@ + text::digits4(
        (key_part(key, 6) % 10000) as nat,
    )
}

/// `s` reads `WORD-NNNN-WORD-NNNN`.
pub open spec fn is_fingerprint(s: Seq<char>) -> bool {
    exists|a: Seq<char>, m: nat, b: Seq<char>, n: nat|
        #![trigger is_upper_word(a), text::digits4(m), is_upper_word(b), text::digits4(n)]
        is_upper_word(a) && m < 10000 && is_upper_word(b) && n < 10000 && s == a + "-"@
            + text::digits4(m) + "-"@ + b + "-"@ + text::digits4(n)
}

/// `bip39::Language::word_list` of `Language::English`: 2048 different words, each of
/// three to eight lower-case letters.
#[verifier::external_body]
fn wordlist() -> (r: &'static [&'static str; 2048])
    ensures
        forall|i: int|
            0 <= i < 2048 ==> #[trigger] r@[i]@ == bip39_word(i) && is_lower_word(r@[i]@),
        forall|i: int, j: int|
            0 <= i < j < 2048 ==> (#[trigger] r@[i])@ != (#[trigger] r@[j])@,
{
    bip39::Language::English.word_list()
}

/// The upper-case form of a word of the list is a word in upper case.
proof fn upper_word_is_upper(w: Seq<char>)
    requires
        is_lower_word(w),
    ensures
        is_upper_word(unicode::ascii_upper_text(w)),
        vstd::utf8::is_ascii_chars(w),
{
}

/// Word `i` of the list in upper case.
pub(crate) fn word_in_capitals(i: usize) -> (w: String)
    requires
        i < 2048,
    ensures
        w@ == upper_word(i as int),
        is_upper_word(w@),
{
    let words = wordlist();
    let word: &str = words[i];
    proof {
        upper_word_is_upper(word@);
    }
    unicode::to_uppercase(word)
}

/// The fingerprint of a public key.
pub fn to_fingerprint(pubkey: &[u8; 32]) -> (r: String)
    ensures
        r@ == fingerprint_of(pubkey@),
        is_fingerprint(r@),
{
    let key: &[u8] = pubkey.as_slice();
    let w1: usize = wire::get16(key, 0) as usize % 2048;
    let n1: u16 = wire::get16(key, 2) % 10000;
    let w2: usize = wire::get16(key, 4) as usize % 2048;
    let n2: u16 = wire::get16(key, 6) % 10000;
    let first = word_in_capitals(w1);
    let second = word_in_capitals(w2);
    let number1 = text::decimal4(n1);
    let number2 = text::decimal4(n2);
    let mut r = first.clone();
    r.append("-");
    r.append(&number1);
    r.append("-");
    r.append(&second);
    r.append("-");
    r.append(&number2);
    proof {
        let a = first@;
        let b = second@;
        assert(is_upper_word(a) && is_upper_word(b));
        assert(r@ == a + "-"@ + text::digits4(n1 as nat) + "-"@ + b + "-"@ + text::digits4(
            n2 as nat,
        ));
    }
    r
}

/// The English BIP-39 word list.
pub fn bip39_wordlist() -> (r: &'static [&'static str; 2048])
    ensures
        forall|i: int|
            0 <= i < 2048 ==> #[trigger] r@[i]@ == bip39_word(i) && is_lower_word(r@[i]@),
        forall|i: int, j: int|
            0 <= i < j < 2048 ==> (#[trigger] r@[i])@ != (#[trigger] r@[j])@,
{
    wordlist()
}

/// Keys with the same first eight bytes have the same fingerprint.
pub proof fn fingerprint_depends_on_head(a: Seq<u8>, b: Seq<u8>)
    requires
        a.len() >= 8,
        b.len() >= 8,
        a.subrange(0, 8) == b.subrange(0, 8),
    ensures
        fingerprint_of(a) == fingerprint_of(b),
{
    assert forall|i: int| 0 <= i < 8 implies a[i] == b[i] by {
        assert(a[i] == a.subrange(0, 8)[i]);
        assert(b[i] == b.subrange(0, 8)[i]);
    }
}

/// The fingerprint is spelled by the first eight bytes of the key, two for each part: the
/// words have the numbers of the first and third pair in the list of 2048, and the digits
/// spell those of the second and fourth pair, but for their ten thousands.
pub proof fn fingerprint_spells_the_key(key: Seq<u8>)
    requires
        key.len() >= 8,
    ensures
        ({
            let f = fingerprint_of(key);
            let a = upper_word((key[0] * 256 + key[1]) % 2048);
            let b = upper_word((key[4] * 256 + key[5]) % 2048);
            let i = a.len() as int;
            let j = i + 6 + b.len();
            &&& f.len() == a.len() + b.len() + 11
            &&& f.subrange(0, i) == a
            &&& f[i] == '-'
            &&& text::digits_value(f.subrange(i + 1, i + 5)) == (key[2] * 256 + key[3]) % 10000
            &&& f[i + 5] == '-'
            &&& f.subrange(i + 6, j) == b
            &&& f[j] == '-'
            &&& text::digits_value(f.subrange(j + 1, j + 5)) == (key[6] * 256 + key[7]) % 10000
        }),
{
    let m = ((key[2] * 256 + key[3]) % 10000) as nat;
    let n = ((key[6] * 256 + key[7]) % 10000) as nat;
    assert(key_part(key, 0) == key[0] * 256 + key[1]);
    assert(key_part(key, 2) == key[2] * 256 + key[3]);
    assert(key_part(key, 4) == key[4] * 256 + key[5]);
    assert(key_part(key, 6) == key[6] * 256 + key[7]);
    let a = upper_word((key[0] * 256 + key[1]) % 2048);
    let b = upper_word((key[4] * 256 + key[5]) % 2048);
    four_parts(a, m, b, n);
    assert(fingerprint_of(key) == a + "-"@ + text::digits4(m) + "-"@ + b + "-"@ + text::digits4(
        n,
    ));
}

/// Where the four parts stand.
proof fn four_parts(a: Seq<char>, m: nat, b: Seq<char>, n: nat)
    requires
        m < 10000,
        n < 10000,
    ensures
        ({
            let f = a + "-"@ + text::digits4(m) + "-"@ + b + "-"@ + text::digits4(n);
            let i = a.len() as int;
            let j = i + 6 + b.len();
            &&& f.len() == a.len() + b.len() + 11
            &&& f.subrange(0, i) == a
            &&& f[i] == '-'
            &&& text::digits_value(f.subrange(i + 1, i + 5)) == m
            &&& f[i + 5] == '-'
            &&& f.subrange(i + 6, j) == b
            &&& f[j] == '-'
            &&& text::digits_value(f.subrange(j + 1, j + 5)) == n
        }),
{
    reveal_strlit("-");
    let (d, e) = (text::digits4(m), text::digits4(n));
    let f = a + "-"@ + d + "-"@ + b + "-"@ + e;
    let i = a.len() as int;
    let j = i + 6 + b.len();
    text::digits4_spell_the_number(m);
    text::digits4_spell_the_number(n);
    assert(f.subrange(0, i) =~= a);
    assert(f.subrange(i + 1, i + 5) =~= d);
    assert(f.subrange(i + 6, j) =~= b);
    assert(f.subrange(j + 1, j + 5) =~= e);
}

/// Of a list of different words made of letters, all parts of a fingerprint can be told
/// apart: keys with the same fingerprint have the same words and the same numbers, so keys
/// whose numbers differ by less than ten thousand have different fingerprints.
pub proof fn fingerprint_tells_keys_apart(a: Seq<u8>, b: Seq<u8>)
    requires
        a.len() >= 8,
        b.len() >= 8,
    ensures
        fingerprint_of(a) == fingerprint_of(b) ==> (a[6] * 256 + a[7]) % 10000 == (b[6] * 256
            + b[7]) % 10000,
        words_are_letters() && fingerprint_of(a) == fingerprint_of(b) ==> {
            &&& (a[2] * 256 + a[3]) % 10000 == (b[2] * 256 + b[3]) % 10000
            &&& upper_word((a[0] * 256 + a[1]) % 2048) == upper_word((b[0] * 256 + b[1]) % 2048)
            &&& upper_word((a[4] * 256 + a[5]) % 2048) == upper_word((b[4] * 256 + b[5]) % 2048)
        },
{
    fingerprint_spells_the_key(a);
    fingerprint_spells_the_key(b);
    let (f, g) = (fingerprint_of(a), fingerprint_of(b));
    if f == g {
        let n = f.len() as int;
        assert(f.subrange(n - 4, n) == g.subrange(n - 4, n));
        if words_are_letters() {
            let (v, w) = ((a[0] * 256 + a[1]) % 2048, (b[0] * 256 + b[1]) % 2048);
            assert(is_lower_word(bip39_word(v)) && is_lower_word(bip39_word(w)));
            upper_word_is_upper(bip39_word(v));
            upper_word_is_upper(bip39_word(w));
            let (i, k) = (upper_word(v).len() as int, upper_word(w).len() as int);
            if i < k {
                assert(f[i] == '-');
                assert(g[i] == g.subrange(0, k)[i]);
            }
            if k < i {
                assert(g[k] == '-');
                assert(f[k] == f.subrange(0, i)[k]);
            }
        }
    }
}

/// Every word of the list is made of three to eight small letters.
pub open spec fn words_are_letters() -> bool {
    forall|i: int| 0 <= i < 2048 ==> is_lower_word(#[trigger] bip39_word(i))
}

/// In upper case a word is the same word, letter by letter.
pub proof fn upper_word_is_the_word(i: int, k: int)
    requires
        0 <= k < bip39_word(i).len(),
    ensures
        upper_word(i).len() == bip39_word(i).len(),
        'a' <= bip39_word(i)[k] <= 'z' ==> upper_word(i)[k] as int - 'A' as int == bip39_word(i)[k]
            as int - 'a' as int,
{
}

/// In upper case different words stay different.
pub proof fn upper_words_differ(i: int, j: int)
    requires
        0 <= i < 2048,
        0 <= j < 2048,
    ensures
        words_are_letters() ==> is_upper_word(upper_word(i)),
        words_are_letters() && upper_word(i) == upper_word(j) ==> bip39_word(i) == bip39_word(j),
{
    if words_are_letters() {
        let (v, w) = (bip39_word(i), bip39_word(j));
        assert(is_lower_word(v) && is_lower_word(w));
        upper_word_is_upper(v);
        if upper_word(i) == upper_word(j) {
            assert(upper_word(i).len() == upper_word(j).len());
            assert forall|k: int| 0 <= k < v.len() implies v[k] == w[k] by {
                assert(upper_word(i)[k] == unicode::ascii_upper(v[k]));
                assert(upper_word(j)[k] == unicode::ascii_upper(w[k]));
                assert('a' <= v[k] <= 'z' && 'a' <= w[k] <= 'z');
            }
            assert(v =~= w);
        }
    }
}

} // verus!
