//! Properties of characters and conversions of text that rest on Unicode's tables.

use vstd::prelude::*;

verus! {

/// The upper-case equivalent of a text that is not all ASCII.
pub uninterp spec fn upper_of(s: Seq<char>) -> Seq<char>;

/// The lower-case equivalent of a text that is not all ASCII.
pub uninterp spec fn lower_of(s: Seq<char>) -> Seq<char>;

/// A character outside ASCII has the property White_Space.
pub uninterp spec fn is_white(c: char) -> bool;

/// A character outside ASCII is alphabetic or numeric.
pub uninterp spec fn is_alnum(c: char) -> bool;

/// `s` between quotation marks, with its special characters escaped.
pub uninterp spec fn quoted(s: Seq<char>) -> Seq<char>;

/// The upper-case form of an ASCII character.
pub open spec fn ascii_upper(c: char) -> char {
    if 'a' <= c <= 'z' {
        (c as u32 - 32) as char
    } else {
        c
    }
}

/// The lower-case form of an ASCII character.
pub open spec fn ascii_lower(c: char) -> char {
    if 'A' <= c <= 'Z' {
        (c as u32 + 32) as char
    } else {
        c
    }
}

/// `s` with each ASCII letter in upper case.
pub open spec fn ascii_upper_text(s: Seq<char>) -> Seq<char> {
    Seq::new(s.len(), |i: int| ascii_upper(s[i]))
}

/// `s` with each ASCII letter in lower case.
pub open spec fn ascii_lower_text(s: Seq<char>) -> Seq<char> {
    Seq::new(s.len(), |i: int| ascii_lower(s[i]))
}

/// `s` in upper case.
pub open spec fn upper(s: Seq<char>) -> Seq<char> {
    if vstd::utf8::is_ascii_chars(s) {
        ascii_upper_text(s)
    } else {
        upper_of(s)
    }
}

/// `s` in lower case.
pub open spec fn lower(s: Seq<char>) -> Seq<char> {
    if vstd::utf8::is_ascii_chars(s) {
        ascii_lower_text(s)
    } else {
        lower_of(s)
    }
}

/// `c` is white space.
pub open spec fn white(c: char) -> bool {
    if c as u32 <= 0x7f {
        c == ' ' || 0x09 <= c as u32 <= 0x0d
    } else {
        is_white(c)
    }
}

/// `c` is a letter or a number.
pub open spec fn alnum(c: char) -> bool {
    if c as u32 <= 0x7f {
        '0' <= c <= '9' || 'A' <= c <= 'Z' || 'a' <= c <= 'z'
    } else {
        is_alnum(c)
    }
}

/// The first position from `from` on that holds no white space, or the end.
pub open spec fn skip_white(s: Seq<char>, from: int) -> int
    decreases s.len() - from,
{
    if 0 <= from < s.len() && white(s[from]) {
        skip_white(s, from + 1)
    } else {
        from
    }
}

/// `s` up to its last character that is no white space.
pub open spec fn trimmed_end(s: Seq<char>) -> Seq<char>
    decreases s.len(),
{
    if s.len() > 0 && white(s.last()) {
        trimmed_end(s.drop_last())
    } else {
        s
    }
}

/// `s` without the white space at its two ends.
pub open spec fn trimmed(s: Seq<char>) -> Seq<char> {
    trimmed_end(s.subrange(skip_white(s, 0), s.len() as int))
}

/// `str::to_uppercase`. It maps the ASCII characters among themselves.
#[verifier::external_body]
pub(crate) fn to_uppercase(s: &str) -> (r: String)
    ensures
        vstd::utf8::is_ascii_chars(s@) ==> r@ == ascii_upper_text(s@),
        !vstd::utf8::is_ascii_chars(s@) ==> r@ == upper_of(s@),
{
    s.to_uppercase()
}

/// `str::to_lowercase`. It maps the ASCII characters among themselves.
#[verifier::external_body]
pub(crate) fn to_lowercase(s: &str) -> (r: String)
    ensures
        vstd::utf8::is_ascii_chars(s@) ==> r@ == ascii_lower_text(s@),
        !vstd::utf8::is_ascii_chars(s@) ==> r@ == lower_of(s@),
{
    s.to_lowercase()
}

/// `char::is_whitespace`. Of the ASCII characters these are the space and U+0009 to
/// U+000D.
#[verifier::external_body]
pub(crate) fn is_whitespace(c: char) -> (r: bool)
    ensures
        c as u32 <= 0x7f ==> r == (c == ' ' || 0x09 <= c as u32 <= 0x0d),
        c as u32 > 0x7f ==> r == is_white(c),
{
    c.is_whitespace()
}

/// `char::is_alphanumeric`. Of the ASCII characters these are the letters and digits.
#[verifier::external_body]
pub(crate) fn is_alphanumeric(c: char) -> (r: bool)
    ensures
        c as u32 <= 0x7f ==> r == ('0' <= c <= '9' || 'A' <= c <= 'Z' || 'a' <= c <= 'z'),
        c as u32 > 0x7f ==> r == is_alnum(c),
{
    c.is_alphanumeric()
}

/// `<str as Debug>::fmt`.
#[verifier::external_body]
pub(crate) fn quote(s: &str) -> (r: String)
    ensures
        r@ == quoted(s@),
{
    format!("{:?}", s)
}

/// `str::from_utf8`: the text whose encoding `bytes` is, if it is one.
#[verifier::external_body]
pub(crate) fn from_utf8(bytes: &[u8]) -> (r: Option<&str>)
    ensures
        r is Some <==> vstd::utf8::valid_utf8(bytes@),
        r is Some ==> vstd::utf8::encode_utf8(r->0@) == bytes@,
{
    std::str::from_utf8(bytes).ok()
}

/// Removes the white space at the two ends of `s`.
pub fn trim(s: &[char]) -> (r: &[char])
    ensures
        r@ == trimmed(s@),
{
    let mut start: usize = 0;
    while start < s.len() && is_whitespace(s[start])
        invariant
            start <= s@.len(),
            skip_white(s@, 0) == skip_white(s@, start as int),
        decreases s@.len() - start,
    {
        start = start + 1;
    }
    let ghost rest = s@.subrange(start as int, s@.len() as int);
    let mut end: usize = s.len();
    assert(rest =~= s@.subrange(start as int, end as int));
    while end > start && is_whitespace(s[end - 1])
        invariant
            start <= end <= s@.len(),
            trimmed_end(rest) == trimmed_end(s@.subrange(start as int, end as int)),
        decreases end,
    {
        assert(s@.subrange(start as int, end as int).drop_last() =~= s@.subrange(
            start as int,
            end - 1,
        ));
        end = end - 1;
    }
    vstd::slice::slice_subrange(s, start, end)
}

// ── Laws ───────────────────────────────────────────────────────────────────────

proof fn skip_white_stops(s: Seq<char>, from: int)
    requires
        0 <= from <= s.len(),
    ensures
        from <= skip_white(s, from) <= s.len(),
        forall|i: int| from <= i < skip_white(s, from) ==> white(#[trigger] s[i]),
        skip_white(s, from) < s.len() ==> !white(s[skip_white(s, from)]),
    decreases s.len() - from,
{
    if from < s.len() && white(s[from]) {
        skip_white_stops(s, from + 1);
    }
}

proof fn trimmed_end_stops(s: Seq<char>)
    ensures
        trimmed_end(s).len() <= s.len(),
        trimmed_end(s) == s.subrange(0, trimmed_end(s).len() as int),
        forall|i: int| trimmed_end(s).len() <= i < s.len() ==> white(#[trigger] s[i]),
        trimmed_end(s).len() > 0 ==> !white(trimmed_end(s).last()),
    decreases s.len(),
{
    if s.len() > 0 && white(s.last()) {
        let t = s.drop_last();
        trimmed_end_stops(t);
        assert(t.subrange(0, trimmed_end(t).len() as int) =~= s.subrange(
            0,
            trimmed_end(t).len() as int,
        ));
        assert forall|i: int| trimmed_end(s).len() <= i < s.len() implies white(#[trigger] s[i]) by {
            if i < t.len() {
                assert(t[i] == s[i]);
            }
        }
    } else {
        assert(s.subrange(0, s.len() as int) =~= s);
    }
}

/// Trimming takes white space from the two ends and nothing else: some number of
/// characters in front and some behind, all of them white, and none is left there.
pub proof fn trimming_takes_blanks_only(s: Seq<char>)
    ensures
        exists|front: Seq<char>, back: Seq<char>|
            #![trigger front + trimmed(s) + back]
            {
                &&& s == front + trimmed(s) + back
                &&& forall|i: int| 0 <= i < front.len() ==> white(#[trigger] front[i])
                &&& forall|i: int| 0 <= i < back.len() ==> white(#[trigger] back[i])
            },
        trimmed(s).len() > 0 ==> !white(trimmed(s)[0]) && !white(trimmed(s).last()),
{
    skip_white_stops(s, 0);
    let k = skip_white(s, 0);
    let rest = s.subrange(k, s.len() as int);
    trimmed_end_stops(rest);
    let t = trimmed(s);
    let front = s.subrange(0, k);
    let back = rest.subrange(t.len() as int, rest.len() as int);
    assert(s =~= front + t + back);
    if t.len() > 0 {
        assert(t[0] == s[k]);
    }
}

/// A text without white space at its ends stays what it is.
pub proof fn trimming_leaves_the_rest(s: Seq<char>)
    requires
        s.len() > 0 ==> !white(s[0]) && !white(s.last()),
    ensures
        trimmed(s) == s,
{
    assert(s.subrange(0, s.len() as int) =~= s);
}

/// Two texts with no white space at their ends, put between blanks, are told apart.
pub proof fn trimming_undoes_padding(front: Seq<char>, s: Seq<char>, back: Seq<char>)
    requires
        s.len() > 0,
        !white(s[0]),
        !white(s.last()),
        forall|i: int| 0 <= i < front.len() ==> white(#[trigger] front[i]),
        forall|i: int| 0 <= i < back.len() ==> white(#[trigger] back[i]),
    ensures
        trimmed(front + s + back) == s,
{
    let all = front + s + back;
    skip_white_stops(all, 0);
    let k = skip_white(all, 0);
    assert(all[front.len() as int] == s[0]);
    if k < front.len() {
        assert(all[k] == front[k]);
    }
    if k > front.len() {
        assert(white(all[front.len() as int]));
    }
    let rest = all.subrange(k, all.len() as int);
    assert(rest =~= s + back);
    trimmed_end_stops(rest);
    let n = trimmed_end(rest).len();
    if n < s.len() {
        assert(rest[s.len() - 1] == s.last());
        assert(white(rest[s.len() - 1]));
    }
    if n > s.len() {
        assert(trimmed_end(rest).last() == rest[n - 1]);
        assert(rest[n - 1] == back[n - 1 - s.len()]);
    }
    assert(rest.subrange(0, n as int) =~= s);
}

/// Upper case and lower case of ASCII text keep its length and everything but letters;
/// letters stay the letters they were.
pub proof fn ascii_case_is_by_letter(s: Seq<char>, i: int)
    requires
        vstd::utf8::is_ascii_chars(s),
        0 <= i < s.len(),
    ensures
        upper(s).len() == s.len(),
        lower(s).len() == s.len(),
        'a' <= s[i] <= 'z' ==> upper(s)[i] as int - 'A' as int == s[i] as int - 'a' as int,
        !('a' <= s[i] <= 'z') ==> upper(s)[i] == s[i],
        'A' <= s[i] <= 'Z' ==> lower(s)[i] as int - 'a' as int == s[i] as int - 'A' as int,
        !('A' <= s[i] <= 'Z') ==> lower(s)[i] == s[i],
{
}

} // verus!
