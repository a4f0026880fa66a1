//! Text helpers: the few `std` string operations the parsers need, and
//! lower-case hexadecimal encoding.

use vstd::prelude::*;

verus! {

/// The characters `String::from_utf8_lossy` produces for `bytes`.
pub uninterp spec fn utf8_lossy_chars(bytes: Seq<u8>) -> Seq<char>;

/// The characters `std::str::from_utf8` decodes `bytes` to, `None` when
/// they are not valid UTF-8.
pub uninterp spec fn utf8_decoded(bytes: Seq<u8>) -> Option<Seq<char>>;

/// The characters `str::trim` leaves of `chars`.
pub uninterp spec fn trimmed_chars(chars: Seq<char>) -> Seq<char>;

/// Appends `c` to `s` with `String::push`.
#[verifier::external_body]
pub(crate) fn push_char(s: &mut String, c: char)
    ensures
        final(s)@ == old(s)@.push(c),
{
    s.push(c);
}

/// Decodes `bytes` with `String::from_utf8_lossy`: the result is named by
/// `utf8_lossy_chars` and nothing more is claimed of it.
#[verifier::external_body]
pub(crate) fn utf8_lossy(bytes: &[u8]) -> (s: String)
    ensures
        s@ == utf8_lossy_chars(bytes@),
{
    String::from_utf8_lossy(bytes).into_owned()
}

/// Decodes `bytes` with `std::str::from_utf8`, copying the text on
/// success; the outcome is named by `utf8_decoded` and nothing more is
/// claimed of it.
#[verifier::external_body]
pub(crate) fn utf8_strict(bytes: &[u8]) -> (r: Option<String>)
    ensures
        match r {
            Some(s) => utf8_decoded(bytes@) == Some(s@),
            None => utf8_decoded(bytes@) is None,
        },
{
    match std::str::from_utf8(bytes) {
        Ok(s) => Some(s.to_string()),
        Err(_) => None,
    }
}

/// Copies `s` without leading and trailing white space (`str::trim`); the
/// result is named by `trimmed_chars` and nothing more is claimed of it.
#[verifier::external_body]
pub(crate) fn trim_to_string(s: &str) -> (r: String)
    ensures
        r@ == trimmed_chars(s@),
{
    s.trim().to_string()
}

/// Compares two strings with `<str as PartialEq>::eq`, which is character
/// equality.
#[verifier::external_body]
pub(crate) fn str_eq(a: &str, b: &str) -> (r: bool)
    ensures
        r == (a@ == b@),
{
    a == b
}

/// `c` with an ASCII capital letter lowered.
pub open spec fn ascii_lower_char(c: char) -> char {
    if 'A' <= c && c <= 'Z' {
        ((c as int) + 32) as char
    } else {
        c
    }
}

/// `s` with every ASCII capital letter lowered, other characters kept.
pub open spec fn ascii_lower(s: Seq<char>) -> Seq<char> {
    Seq::new(s.len(), |i: int| ascii_lower_char(s[i]))
}

/// Copies `s` with its ASCII letters lowered (`str::to_ascii_lowercase`,
/// which maps 'A'..='Z' to 'a'..='z' and keeps every other character).
#[verifier::external_body]
pub(crate) fn to_ascii_lowercase(s: &str) -> (r: String)
    ensures
        r@ == ascii_lower(s@),
{
    s.to_ascii_lowercase()
}

/// The `String` holding the characters of a string literal.
pub(crate) fn owned(s: &str) -> (r: String)
    ensures
        r@ == s@,
{
    s.to_owned()
}

/// The characters of four raw bytes, each byte taken as the character with
/// that code point.
pub open spec fn latin1_chars(b: Seq<u8>) -> Seq<char> {
    Seq::new(b.len(), |i: int| b[i] as char)
}

/// Builds the string whose characters are the given bytes read as code
/// points (`b as char`).
pub fn latin1_string(b: &[u8]) -> (s: String)
    ensures
        s@ == latin1_chars(b@),
{
    let mut s = String::new();
    let mut i: usize = 0;
    while i < b.len()
        invariant
            i <= b@.len(),
            s@ == latin1_chars(b@.subrange(0, i as int)),
        decreases b.len() - i,
    {
        push_char(&mut s, b[i] as char);
        i = i + 1;
        assert(s@ =~= latin1_chars(b@.subrange(0, i as int)));
    }
    assert(b@.subrange(0, b@.len() as int) =~= b@);
    s
}

/// Decimal digits of `n`, most significant first, no leading zeros ("0"
/// for zero).
pub open spec fn decimal_chars(n: nat) -> Seq<char>
    decreases n,
{
    if n < 10 {
        seq![(48 + n) as char]
    } else {
        decimal_chars(n / 10).push((48 + n % 10) as char)
    }
}

/// Appends the decimal digits of `n` to `s`.
pub fn push_decimal(s: &mut String, n: u32)
    ensures
        final(s)@ == old(s)@ + decimal_chars(n as nat),
    decreases n,
{
    if n >= 10 {
        push_decimal(s, n / 10);
    }
    push_char(s, ((48 + n % 10) as u8) as char);
    proof {
        if n >= 10 {
            assert(old(s)@ + decimal_chars(n as nat) =~= old(s)@ + decimal_chars((n / 10) as nat) + seq![(48 + n % 10) as char]);
        } else {
            assert(old(s)@ + decimal_chars(n as nat) =~= old(s)@.push((48 + n % 10) as char));
        }
    }
}

} // verus!
