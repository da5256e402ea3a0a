//! Text: its characters, and numbers written out and read.

use vstd::prelude::*;

verus! {

/// `String::push` appends one character.
pub assume_specification[ String::push ](s: &mut String, c: char)
    ensures
        final(s)@ == old(s)@.push(c),
;

/// The decimal digit of value `d`.
pub open spec fn digit(d: nat) -> char {
    (48 + d) as char
}

/// The hexadecimal digit of value `d`, in lower case.
pub open spec fn hex_digit(d: nat) -> char {
    if d < 10 {
        (48 + d) as char
    } else {
        (87 + d) as char
    }
}

/// `n` in decimal.
pub open spec fn digits(n: nat) -> Seq<char>
    decreases n,
{
    if n < 10 {
        seq![digit(n)]
    } else {
        digits(n / 10).push(digit(n % 10))
    }
}

/// `n`, below ten thousand, in four decimal digits.
pub open spec fn digits4(n: nat) -> Seq<char> {
    seq![digit(n / 1000), digit(n / 100 % 10), digit(n / 10 % 10), digit(n % 10)]
}

/// `bytes` in hexadecimal, two digits each.
pub open spec fn hex_of(bytes: Seq<u8>) -> Seq<char> {
    Seq::new(
        2 * bytes.len(),
        |i: int|
            if i % 2 == 0 {
                hex_digit((bytes[i / 2] / 16) as nat)
            } else {
                hex_digit((bytes[i / 2] % 16) as nat)
            },
    )
}

/// A byte as `0x` and its hexadecimal digits, without a leading zero.
pub open spec fn hex_literal(b: u8) -> Seq<char> {
    if b < 16 {
        seq!['0', 'x', hex_digit(b as nat)]
    } else {
        seq!['0', 'x', hex_digit((b / 16) as nat), hex_digit((b % 16) as nat)]
    }
}

pub open spec fn is_digit(c: char) -> bool {
    '0' <= c <= '9'
}

/// The number that `s`, decimal digits only, spells.
pub open spec fn digits_value(s: Seq<char>) -> nat
    decreases s.len(),
{
    if s.len() == 0 {
        0
    } else {
        digits_value(s.drop_last()) * 10 + (s.last() as nat - 48) as nat
    }
}

/// The 16-bit number that `s` spells in decimal digits.
pub open spec fn plain_number16(s: Seq<char>) -> Option<u16> {
    if s.len() > 0 && (forall|i: int| 0 <= i < s.len() ==> is_digit(#[trigger] s[i]))
        && digits_value(s) <= 0xffff {
        Some(digits_value(s) as u16)
    } else {
        None
    }
}

/// The 16-bit number that `s` spells: digits, with or without a plus sign.
pub open spec fn number16(s: Seq<char>) -> Option<u16> {
    if s.len() > 0 && s[0] == '+' {
        plain_number16(s.subrange(1, s.len() as int))
    } else {
        plain_number16(s)
    }
}

/// What `digits` writes is digits, at least one, and reads back as the number.
pub proof fn digits_round_trip(n: nat)
    ensures
        digits(n).len() > 0,
        forall|i: int| 0 <= i < digits(n).len() ==> is_digit(#[trigger] digits(n)[i]),
        digits_value(digits(n)) == n,
    decreases n,
{
    if n < 10 {
        assert(digits(n).drop_last() =~= Seq::empty());
        assert(digits_value(digits(n).drop_last()) == 0);
    } else {
        digits_round_trip(n / 10);
        assert(digits(n).drop_last() =~= digits(n / 10));
    }
}

/// The value of digits never falls below that of their head.
proof fn digits_value_grows(s: Seq<char>, n: int)
    requires
        0 <= n <= s.len(),
    ensures
        digits_value(s.subrange(0, n)) <= digits_value(s),
    decreases s.len() - n,
{
    if n < s.len() {
        digits_value_grows(s, n + 1);
        assert(s.subrange(0, n + 1).drop_last() =~= s.subrange(0, n));
    } else {
        assert(s.subrange(0, n) =~= s);
    }
}

fn hex_digit_char(d: u8) -> (c: char)
    requires
        d < 16,
    ensures
        c == hex_digit(d as nat),
{
    if d < 10 {
        (48 + d) as char
    } else {
        (87 + d) as char
    }
}

/// Writes `n` in decimal.
pub fn decimal(n: u64) -> (s: String)
    ensures
        s@ == digits(n as nat),
    decreases n,
{
    if n < 10 {
        let mut s = String::new();
        s.push((48 + n as u8) as char);
        assert(s@ =~= digits(n as nat));
        s
    } else {
        let mut s = decimal(n / 10);
        s.push((48 + (n % 10) as u8) as char);
        s
    }
}

/// Writes `n` in four decimal digits.
pub fn decimal4(n: u16) -> (s: String)
    requires
        n < 10000,
    ensures
        s@ == digits4(n as nat),
{
    let mut s = String::new();
    s.push((48 + (n / 1000) as u8) as char);
    s.push((48 + (n / 100 % 10) as u8) as char);
    s.push((48 + (n / 10 % 10) as u8) as char);
    s.push((48 + (n % 10) as u8) as char);
    assert(s@ =~= digits4(n as nat));
    s
}

/// Writes `bytes` in hexadecimal.
pub fn hex_text(bytes: &[u8]) -> (s: String)
    ensures
        s@ == hex_of(bytes@),
{
    let mut s = String::new();
    let mut i: usize = 0;
    while i < bytes.len()
        invariant
            i <= bytes@.len(),
            s@ == hex_of(bytes@.subrange(0, i as int)),
        decreases bytes@.len() - i,
    {
        let b: u8 = bytes[i];
        s.push(hex_digit_char(b / 16));
        s.push(hex_digit_char(b % 16));
        i = i + 1;
        assert(s@ =~= hex_of(bytes@.subrange(0, i as int)));
    }
    assert(bytes@.subrange(0, i as int) =~= bytes@);
    s
}

/// Writes a byte as a hexadecimal literal.
pub fn hex_literal_text(b: u8) -> (s: String)
    ensures
        s@ == hex_literal(b),
{
    let mut s = String::new();
    s.push('0');
    s.push('x');
    if b >= 16 {
        s.push(hex_digit_char(b / 16));
    }
    s.push(hex_digit_char(b % 16));
    assert(s@ =~= hex_literal(b));
    s
}

/// Whether `a` and `b` are the same text.
pub fn equal(a: &str, b: &str) -> (r: bool)
    ensures
        r == (a@ == b@),
{
    a.to_string() == b.to_string()
}

/// The characters of `s`.
pub fn chars_of(s: &str) -> (v: Vec<char>)
    ensures
        v@ == s@,
{
    let mut v: Vec<char> = Vec::new();
    for c in it: s.chars()
        invariant
            v@ == it.seq().subrange(0, it.index() as int),
    {
        v.push(c);
        assert(v@ =~= it.seq().subrange(0, it.index() + 1));
    }
    assert(v@ =~= s@);
    v
}

/// The text made of `chars`.
pub fn text_of(chars: &[char]) -> (s: String)
    ensures
        s@ == chars@,
{
    let mut s = String::new();
    let mut i: usize = 0;
    while i < chars.len()
        invariant
            i <= chars@.len(),
            s@ == chars@.subrange(0, i as int),
        decreases chars@.len() - i,
    {
        s.push(chars[i]);
        i = i + 1;
        assert(s@ =~= chars@.subrange(0, i as int));
    }
    assert(s@ =~= chars@);
    s
}

/// Reads a 16-bit number: digits, with or without a plus sign.
pub fn parse16(s: &[char]) -> (r: Option<u16>)
    ensures
        r == number16(s@),
{
    let start: usize = if s.len() > 0 && s[0] == '+' {
        1
    } else {
        0
    };
    let ghost t = if s@.len() > 0 && s@[0] == '+' {
        s@.subrange(1, s@.len() as int)
    } else {
        s@
    };
    if start == s.len() {
        return None;
    }
    let mut value: u32 = 0;
    let mut i: usize = start;
    assert(t.subrange(0, 0) =~= Seq::empty());
    assert(t =~= s@.subrange(start as int, s@.len() as int));
    while i < s.len()
        invariant
            start <= i <= s@.len(),
            start <= 1,
            t == s@.subrange(start as int, s@.len() as int),
            number16(s@) == plain_number16(t),
            forall|j: int| 0 <= j < i - start ==> is_digit(#[trigger] t[j]),
            value == digits_value(t.subrange(0, i - start)),
            value <= 0xffff,
        decreases s@.len() - i,
    {
        let c: char = s[i];
        assert(t[i - start] == c);
        if c < '0' || c > '9' {
            return None;
        }
        assert(t.subrange(0, i + 1 - start).drop_last() =~= t.subrange(0, i - start));
        value = value * 10 + (c as u32 - 48);
        i = i + 1;
        if value > 0xffff {
            proof {
                digits_value_grows(t, i - start);
            }
            return None;
        }
    }
    assert(t.subrange(0, i - start) =~= t);
    Some(value as u16)
}

/// The numbers in decimal, with a comma and a space between one and the next.
pub open spec fn joined_numbers(items: Seq<u64>) -> Seq<char>
    decreases items.len(),
{
    if items.len() == 0 {
        Seq::empty()
    } else if items.len() == 1 {
        digits(items[0] as nat)
    } else {
        joined_numbers(items.drop_last()) + ", "@ + digits(items.last() as nat)
    }
}

/// The numbers as a list in square brackets.
pub open spec fn number_list(items: Seq<u64>) -> Seq<char> {
    "["@ + joined_numbers(items) + "]"@
}

/// Writes the numbers as a list in square brackets.
pub fn number_list_text(items: &[u64]) -> (s: String)
    ensures
        s@ == number_list(items@),
{
    let mut s = "[".to_string();
    let mut i: usize = 0;
    assert(items@.subrange(0, 0) =~= Seq::empty());
    assert("["@ + Seq::<char>::empty() =~= "["@);
    while i < items.len()
        invariant
            i <= items@.len(),
            s@ == "["@ + joined_numbers(items@.subrange(0, i as int)),
        decreases items@.len() - i,
    {
        let ghost before = s@;
        if i > 0 {
            s.append(", ");
        }
        let number = decimal(items[i]);
        s.append(&number);
        i = i + 1;
        proof {
            let head = items@.subrange(0, i as int);
            assert(head.drop_last() =~= items@.subrange(0, i - 1));
            if i == 1 {
                assert(items@.subrange(0, 0) =~= Seq::empty());
                assert(before =~= "["@);
                assert(s@ =~= "["@ + joined_numbers(head));
            } else {
                assert(s@ =~= "["@ + joined_numbers(head));
            }
        }
    }
    assert(items@.subrange(0, i as int) =~= items@);
    s.append("]");
    s
}

// ── Laws ───────────────────────────────────────────────────────────────────────

/// One more digit behind a number makes it ten times as large and adds the digit: this is
/// decimal, most significant digit first.
pub proof fn digits_are_decimal(n: nat, d: nat)
    requires
        n > 0,
        d < 10,
    ensures
        digits(10 * n + d).len() == digits(n).len() + 1,
        digits(10 * n + d).drop_last() == digits(n),
        digits(10 * n + d).last() as int == '0' as int + d,
        digits(d).len() == 1,
        digits(d)[0] as int == '0' as int + d,
{
    assert((10 * n + d) / 10 == n && (10 * n + d) % 10 == d);
    assert(digits(10 * n + d).drop_last() =~= digits(n));
}

/// No number but zero is written with a zero in front.
pub proof fn digits_have_no_leading_zero(n: nat)
    requires
        n > 0,
    ensures
        digits(n).len() > 0,
        digits(n)[0] != '0',
    decreases n,
{
    if n >= 10 {
        digits_have_no_leading_zero(n / 10);
    }
}

/// Different numbers are written differently.
pub proof fn digits_tell_numbers_apart(m: nat, n: nat)
    requires
        digits(m) == digits(n),
    ensures
        m == n,
{
    digits_round_trip(m);
    digits_round_trip(n);
}

/// The value of digits is their positional one: a digit behind them makes ten times as much.
pub proof fn digits_value_is_positional(s: Seq<char>, c: char)
    requires
        is_digit(c),
    ensures
        digits_value(Seq::<char>::empty()) == 0,
        digits_value(s.push(c)) == 10 * digits_value(s) + (c as int - '0' as int),
{
    assert(s.push(c).drop_last() =~= s);
}

/// Four digits are four, with zeros in front where the number is small, and spell the
/// number.
pub proof fn digits4_spell_the_number(n: nat)
    requires
        n < 10000,
    ensures
        digits4(n).len() == 4,
        forall|i: int| 0 <= i < 4 ==> is_digit(#[trigger] digits4(n)[i]),
        digits_value(digits4(n)) == n,
{
    let s = digits4(n);
    reveal_with_fuel(digits_value, 5);
    assert(s.drop_last() =~= seq![s[0], s[1], s[2]]);
    assert(s.drop_last().drop_last() =~= seq![s[0], s[1]]);
    assert(s.drop_last().drop_last().drop_last() =~= seq![s[0]]);
    assert(s.drop_last().drop_last().drop_last().drop_last() =~= Seq::<char>::empty());
}

/// Every four digits are those of the number that they spell.
pub proof fn four_digits_are_of_their_number(s: Seq<char>)
    requires
        s.len() == 4,
        forall|i: int| 0 <= i < 4 ==> is_digit(#[trigger] s[i]),
    ensures
        digits_value(s) < 10000,
        digits4(digits_value(s)) == s,
{
    reveal_with_fuel(digits_value, 5);
    assert(s.drop_last() =~= seq![s[0], s[1], s[2]]);
    assert(s.drop_last().drop_last() =~= seq![s[0], s[1]]);
    assert(s.drop_last().drop_last().drop_last() =~= seq![s[0]]);
    assert(s.drop_last().drop_last().drop_last().drop_last() =~= Seq::<char>::empty());
    assert(is_digit(s[0]) && is_digit(s[1]) && is_digit(s[2]) && is_digit(s[3]));
    let a = s[0] as int - 48;
    let b = s[1] as int - 48;
    let c = s[2] as int - 48;
    let d = s[3] as int - 48;
    assert(digits_value(s) == 1000 * a + 100 * b + 10 * c + d);
    assert(digits4(digits_value(s)) =~= s);
}

/// Reading gives back every 16-bit number that was written, with or without a plus sign in
/// front, and refuses every larger one.
pub proof fn written_number_is_read(n: nat)
    ensures
        n <= 0xffff ==> number16(digits(n)) == Some(n as u16),
        n <= 0xffff ==> number16(seq!['+'] + digits(n)) == Some(n as u16),
        n > 0xffff ==> number16(digits(n)) is None,
{
    digits_round_trip(n);
    assert(is_digit(digits(n)[0]));
    let s = seq!['+'] + digits(n);
    assert(s.subrange(1, s.len() as int) =~= digits(n));
}

/// Digits are read as the number that they spell, with zeros in front or without, and with
/// a plus sign or without, as long as it has no more than 16 bits.
pub proof fn digits_are_read(s: Seq<char>)
    requires
        s.len() > 0,
        forall|i: int| 0 <= i < s.len() ==> is_digit(#[trigger] s[i]),
    ensures
        digits_value(s) <= 0xffff ==> number16(s) == Some(digits_value(s) as u16),
        digits_value(s) <= 0xffff ==> number16(seq!['+'] + s) == Some(digits_value(s) as u16),
        digits_value(s) > 0xffff ==> number16(s) is None && number16(seq!['+'] + s) is None,
        number16(seq!['+']) is None,
{
    let t = seq!['+'] + s;
    assert(is_digit(s[0]));
    assert(t.subrange(1, t.len() as int) =~= s);
    assert(seq!['+'].subrange(1, 1) =~= Seq::<char>::empty());
}

/// What holds anything but digits, or no digit at all, is no number.
pub proof fn other_texts_are_no_number(s: Seq<char>, k: int)
    requires
        s.len() == 0 || (0 <= k < s.len() && !is_digit(s[k]) && (k > 0 || s[0] != '+')),
    ensures
        number16(s) is None,
{
    if s.len() > 0 && s[0] == '+' {
        let t = s.subrange(1, s.len() as int);
        assert(t[k - 1] == s[k]);
    }
}

/// Hexadecimal text has two digits for each byte, from `0` to `9` and `a` to `f`, and
/// different bytes are written differently.
pub proof fn hex_tells_bytes_apart(a: Seq<u8>, b: Seq<u8>)
    ensures
        hex_of(a).len() == 2 * a.len(),
        forall|i: int|
            0 <= i < hex_of(a).len() ==> is_digit(#[trigger] hex_of(a)[i]) || 'a' <= hex_of(a)[i]
                <= 'f',
        hex_of(a) == hex_of(b) ==> a == b,
{
    assert forall|i: int| 0 <= i < hex_of(a).len() implies is_digit(#[trigger] hex_of(a)[i]) || 'a'
        <= hex_of(a)[i] <= 'f' by {
        let x = a[i / 2];
        assert(x / 16 < 16);
    }
    if hex_of(a) == hex_of(b) {
        assert(hex_of(a).len() == hex_of(b).len());
        assert forall|i: int| 0 <= i < a.len() implies a[i] == b[i] by {
            let (x, y) = (a[i], b[i]);
            assert((2 * i) / 2 == i && (2 * i + 1) / 2 == i);
            assert(hex_of(a)[2 * i] == hex_digit((x / 16) as nat));
            assert(hex_of(b)[2 * i] == hex_digit((y / 16) as nat));
            assert(hex_of(a)[2 * i + 1] == hex_digit((x % 16) as nat));
            assert(hex_of(b)[2 * i + 1] == hex_digit((y % 16) as nat));
            assert(x / 16 < 16 && y / 16 < 16);
            assert(x / 16 == y / 16 && x % 16 == y % 16);
        }
        assert(a =~= b);
    }
}

/// A byte as a literal is `0x` and what the byte is in hexadecimal, but for a zero in front.
pub proof fn hex_literal_is_hex(b: u8)
    ensures
        hex_literal(b).subrange(0, 2) == seq!['0', 'x'],
        b >= 16 ==> hex_literal(b).subrange(2, hex_literal(b).len() as int) == hex_of(seq![b]),
        b < 16 ==> seq!['0'] + hex_literal(b).subrange(2, hex_literal(b).len() as int) == hex_of(
            seq![b],
        ),
{
    let s = hex_literal(b);
    assert(s.subrange(0, 2) =~= seq!['0', 'x']);
    if b >= 16 {
        assert(s.subrange(2, s.len() as int) =~= hex_of(seq![b]));
    } else {
        assert(seq!['0'] + s.subrange(2, s.len() as int) =~= hex_of(seq![b]));
    }
}

/// A list of numbers stands in square brackets; one more number comes behind a comma and a
/// space.
pub proof fn number_list_grows(items: Seq<u64>, x: u64)
    requires
        items.len() > 0,
    ensures
        number_list(Seq::empty()) == "[]"@,
        number_list(seq![x]) == "["@ + digits(x as nat) + "]"@,
        number_list(items.push(x)) == number_list(items).drop_last() + ", "@ + digits(x as nat)
            + "]"@,
{
    reveal_strlit("[");
    reveal_strlit("]");
    reveal_strlit("[]");
    assert(number_list(Seq::empty()) =~= "[]"@);
    assert(items.push(x).drop_last() =~= items);
    assert(number_list(items).drop_last() =~= "["@ + joined_numbers(items));
    assert(number_list(items.push(x)) =~= number_list(items).drop_last() + ", "@ + digits(x as nat)
        + "]"@);
}

} // verus!
