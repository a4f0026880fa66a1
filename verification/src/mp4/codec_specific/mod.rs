//! Codec configuration boxes found inside sample entries.

use vstd::prelude::*;
use crate::text::push_char;

pub mod av1c;
pub mod avcc;
pub mod colr;
pub mod dvcc;
pub mod esds;
pub mod hvcc;
pub mod pasp;

verus! {

/// The first four bytes of `pl` are `tag`.
pub open spec fn tagged(pl: Seq<u8>, tag: Seq<u8>) -> bool {
    &&& pl.len() >= 4
    &&& pl[0] == tag[0]
    &&& pl[1] == tag[1]
    &&& pl[2] == tag[2]
    &&& pl[3] == tag[3]
}

/// `true` when `pl` starts with the four bytes `a b c d`.
pub fn has_tag(pl: &[u8], a: u8, b: u8, c: u8, d: u8) -> (r: bool)
    ensures
        r == tagged(pl@, seq![a, b, c, d]),
{
    pl.len() >= 4 && pl[0] == a && pl[1] == b && pl[2] == c && pl[3] == d
}

/// Lower-case hexadecimal digit for `n < 16`.
pub open spec fn hex_digit(n: int) -> char {
    if n < 10 {
        (48 + n) as char
    } else {
        (87 + n) as char
    }
}

/// Two lower-case hexadecimal digits per byte, most significant first.
pub open spec fn hex_chars(bytes: Seq<u8>) -> Seq<char>
    decreases bytes.len(),
{
    if bytes.len() == 0 {
        Seq::empty()
    } else {
        let b = bytes.last();
        hex_chars(bytes.drop_last()).push(hex_digit((b / 16) as int)).push(hex_digit((b % 16) as int))
    }
}

fn hex_digit_exec(n: u8) -> (c: char)
    requires
        n < 16,
    ensures
        c == hex_digit(n as int),
{
    if n < 10 {
        (48 + n) as char
    } else {
        (87 + n) as char
    }
}

/// Hex-encode a byte slice using lower-case digits.
pub fn hex_encode(bytes: &[u8]) -> (s: String)
    ensures
        s@ == hex_chars(bytes@),
{
    let mut s = String::new();
    let mut i: usize = 0;
    while i < bytes.len()
        invariant
            i <= bytes@.len(),
            s@ == hex_chars(bytes@.subrange(0, i as int)),
        decreases bytes.len() - i,
    {
        let b = bytes[i];
        push_char(&mut s, hex_digit_exec(b / 16));
        push_char(&mut s, hex_digit_exec(b % 16));
        proof {
            let next = bytes@.subrange(0, i + 1);
            assert(next.drop_last() =~= bytes@.subrange(0, i as int));
        }
        i = i + 1;
    }
    assert(bytes@.subrange(0, bytes@.len() as int) =~= bytes@);
    s
}

/// The value of a lower-case hexadecimal digit.
pub open spec fn hex_value(c: char) -> int {
    if '0' <= c && c <= '9' {
        c as int - 48
    } else {
        c as int - 87
    }
}

/// The bytes of a run of hexadecimal digit pairs, most significant digit
/// first; a trailing odd digit is ignored.
pub open spec fn hex_bytes(s: Seq<char>) -> Seq<u8>
    decreases s.len(),
{
    if s.len() < 2 {
        Seq::empty()
    } else {
        hex_bytes(s.subrange(0, s.len() - 2)).push((hex_value(s[s.len() - 2]) * 16 + hex_value(s[s.len() - 1])) as u8)
    }
}

/// Hexadecimal encoding can be undone: it writes two digits per byte, and
/// reading the digit pairs back gives the bytes that were encoded.
pub proof fn law_hex_round_trip(bytes: Seq<u8>)
    ensures
        hex_chars(bytes).len() == 2 * bytes.len(),
        hex_bytes(hex_chars(bytes)) == bytes,
    decreases bytes.len(),
{
    if bytes.len() > 0 {
        let d = bytes.drop_last();
        let b = bytes.last();
        law_hex_round_trip(d);
        let h = hex_chars(bytes);
        assert(h.subrange(0, h.len() - 2) =~= hex_chars(d));
        assert(hex_value(hex_digit((b / 16) as int)) == b / 16);
        assert(hex_value(hex_digit((b % 16) as int)) == b % 16);
        assert(bytes =~= d.push(b));
    }
}

} // verus!
