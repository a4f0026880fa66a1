//! `mdhd` (media header) box: media timescale, duration and the packed
//! ISO-639-2/T language code (three 5-bit letters, each stored as its ASCII
//! value minus 0x60).

use vstd::prelude::*;
use crate::source::{FileSource, ParseError, be16, be32, be64};
use crate::text::push_char;
use crate::mp4::atom::{BoxHeader, payload_or_zero};

verus! {

#[derive(Debug)]
pub struct MediaHeader {
    pub version: u8,
    pub timescale: u32,
    pub duration: u64,
    pub language_iso_639_2: Option<String>,
}

/// The character a packed 5-bit code stands for: `a`..`z` for 1..=26,
/// `?` otherwise.
pub open spec fn packed_char(packed: int) -> char {
    if 1 <= packed <= 26 {
        (packed + 0x60) as char
    } else {
        '?'
    }
}

/// The three packed 5-bit codes of `raw` (the top bit is reserved).
pub open spec fn packed_codes(raw: u16) -> (int, int, int) {
    (((raw / 1024) % 32) as int, ((raw / 32) % 32) as int, (raw % 32) as int)
}

/// The language a packed code stands for: present when all three codes are
/// letters.
pub open spec fn packed_language(raw: u16) -> Option<Seq<char>> {
    let (c0, c1, c2) = packed_codes(raw);
    if 1 <= c0 <= 26 && 1 <= c1 <= 26 && 1 <= c2 <= 26 {
        Some(seq![packed_char(c0), packed_char(c1), packed_char(c2)])
    } else {
        None
    }
}

/// Character for a packed 5-bit code.
pub fn decode_char(packed: u8) -> (c: char)
    ensures
        c == packed_char(packed as int),
{
    if 1 <= packed && packed <= 26 {
        (packed + 0x60) as char
    } else {
        '?'
    }
}

/// Decode the packed language code, keeping it only when all three letters
/// are lower-case ASCII.
pub fn decode_packed_language_opt(raw: u16) -> (r: Option<String>)
    ensures
        r matches Some(s) ==> packed_language(raw) == Some(s@),
        r is None ==> packed_language(raw) is None,
{
    let c0 = ((raw / 1024) % 32) as u8;
    let c1 = ((raw / 32) % 32) as u8;
    let c2 = (raw % 32) as u8;
    if !(1 <= c0 && c0 <= 26 && 1 <= c1 && c1 <= 26 && 1 <= c2 && c2 <= 26) {
        return None;
    }
    let mut s = String::new();
    push_char(&mut s, decode_char(c0));
    push_char(&mut s, decode_char(c1));
    push_char(&mut s, decode_char(c2));
    assert(s@ =~= seq![packed_char(c0 as int), packed_char(c1 as int), packed_char(c2 as int)]);
    Some(s)
}

/// Decode the packed language code; the empty string when it is not three
/// lower-case letters.
pub fn decode_packed_language(raw: u16) -> (s: String)
    ensures
        s@ == match packed_language(raw) {
            Some(l) => l,
            None => Seq::<char>::empty(),
        },
{
    match decode_packed_language_opt(raw) {
        Some(s) => s,
        None => String::new(),
    }
}

/// `m` holds what the `mdhd` payload at `p` says.
pub open spec fn mdhd_matches(bytes: Seq<u8>, p: int, m: MediaHeader) -> bool {
    let v = bytes[p];
    let lang_at = if v == 0 { p + 20 } else { p + 32 };
    &&& m.version == v
    &&& v == 0 ==> m.timescale == be32(bytes, p + 12) && m.duration == be32(bytes, p + 16)
    &&& v != 0 ==> m.timescale == be32(bytes, p + 20) && m.duration == be64(bytes, p + 24)
    &&& match m.language_iso_639_2 {
        Some(s) => packed_language(be16(bytes, lang_at) as u16) == Some(s@),
        None => packed_language(be16(bytes, lang_at) as u16) is None,
    }
}

/// Payload bytes `mdhd::parse` reads for `version`.
pub open spec fn mdhd_len(version: u8) -> int {
    if version == 0 { 24 } else { 36 }
}

/// Parse the `mdhd` payload at the cursor.  `Malformed` for a payload under
/// 24 bytes, a version above 1 or a zero timescale; `UnexpectedEof` when the
/// data ends before the field the next check needs.
pub fn parse(src: &mut FileSource, header: &BoxHeader) -> (r: Result<MediaHeader, ParseError>)
    ensures
        final(src).bytes() == old(src).bytes(),
        ({
            let p = old(src).pos();
            let bytes = old(src).bytes();
            let v = bytes[p];
            let ts = if v == 0 { be32(bytes, p + 12) } else { be32(bytes, p + 20) };
            if payload_or_zero(header@) < 24 {
                r == Err::<MediaHeader, ParseError>(ParseError::Malformed { offset: header.start })
            } else if p + 4 > bytes.len() {
                r matches Err(e) && e is UnexpectedEof
            } else if v > 1 {
                r == Err::<MediaHeader, ParseError>(ParseError::Malformed { offset: header.start })
            } else if p + mdhd_len(v) - 4 > bytes.len() {
                r matches Err(e) && e is UnexpectedEof
            } else if ts == 0 {
                r == Err::<MediaHeader, ParseError>(ParseError::Malformed { offset: header.start })
            } else if p + mdhd_len(v) > bytes.len() {
                r matches Err(e) && e is UnexpectedEof
            } else {
                &&& r matches Ok(m) && mdhd_matches(bytes, p, m)
                &&& final(src).pos() == p + mdhd_len(v)
            }
        }),
{
    let payload = match header.payload_size() {
        Some(s) => s,
        None => 0,
    };
    if payload < 24 {
        return Err(ParseError::Malformed { offset: header.start });
    }
    let version = src.read_u8()?;
    src.skip(3)?;
    if version > 1 {
        return Err(ParseError::Malformed { offset: header.start });
    }
    let (timescale, duration) = if version == 0 {
        src.skip(8)?;
        let ts = src.read_u32_be()?;
        let dur = src.read_u32_be()? as u64;
        (ts, dur)
    } else {
        src.skip(16)?;
        let ts = src.read_u32_be()?;
        let dur = src.read_u64_be()?;
        (ts, dur)
    };
    if timescale == 0 {
        return Err(ParseError::Malformed { offset: header.start });
    }
    let raw_language = src.read_u16_be()?;
    let language = decode_packed_language_opt(raw_language);
    src.skip(2)?;
    Ok(MediaHeader { version, timescale, duration, language_iso_639_2: language })
}

/// The packed code of a three-letter lower-case language: five bits per
/// letter, `a` as 1.
pub open spec fn pack_language(l: Seq<char>) -> int {
    (l[0] as int - 0x60) * 1024 + (l[1] as int - 0x60) * 32 + (l[2] as int - 0x60)
}

/// Decoding a packed language code undoes packing: every three-letter
/// lower-case language packs into 15 bits and decodes back to itself.
pub proof fn law_packed_language_round_trip(l: Seq<char>)
    requires
        l.len() == 3,
        forall|i: int| 0 <= i < 3 ==> 'a' <= #[trigger] l[i] && l[i] <= 'z',
    ensures
        0 <= pack_language(l) < 32768,
        packed_language(pack_language(l) as u16) == Some(l),
{
    let c0 = l[0] as int - 0x60;
    let c1 = l[1] as int - 0x60;
    let c2 = l[2] as int - 0x60;
    let raw = pack_language(l);
    assert(1 <= c0 <= 26 && 1 <= c1 <= 26 && 1 <= c2 <= 26);
    assert(raw / 1024 == c0 && (raw / 32) % 32 == c1 && raw % 32 == c2) by (nonlinear_arith)
        requires
            raw == c0 * 1024 + c1 * 32 + c2,
            1 <= c0 <= 26,
            1 <= c1 <= 26,
            1 <= c2 <= 26,
    ;
    let r = raw as u16;
    assert(r as int == raw);
    assert(packed_codes(r) == (c0, c1, c2));
    assert(packed_char(c0) == l[0] && packed_char(c1) == l[1] && packed_char(c2) == l[2]);
    assert(seq![packed_char(c0), packed_char(c1), packed_char(c2)] =~= l);
}

} // verus!
