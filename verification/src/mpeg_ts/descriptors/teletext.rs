//! Teletext descriptor.  Its body is a run of five-byte entries: language
//! (3 bytes), a byte holding the teletext type (top five bits) and the
//! magazine (low three bits, 0 meaning 8), and the page number within the
//! magazine as two binary-coded decimal digits.

use vstd::prelude::*;
use super::{entry_language, entry_language_chars};

verus! {

/// One teletext entry.
#[derive(Debug, Clone, PartialEq, Eq)]
pub struct TeletextEntry {
    pub language_iso_639_2: String,
    /// The five-bit teletext type.
    pub teletext_type: u8,
    /// Magazine times 100 plus the page within it.
    pub page: u32,
}

/// An entry as values: language, type, page.
pub open spec fn teletext_view(e: TeletextEntry) -> (Seq<char>, u8, u32) {
    (e.language_iso_639_2@, e.teletext_type, e.page)
}

/// Whether the page byte `p` is two decimal digits.
pub open spec fn bcd_page(p: u8) -> bool {
    p / 16 <= 9 && p % 16 <= 9
}

/// The magazine of a type/magazine byte, 0 read as 8.
pub open spec fn magazine(tm: u8) -> int {
    if tm % 8 == 0 { 8 } else { (tm % 8) as int }
}

/// The entry of the five bytes at `pos`.
pub open spec fn teletext_entry_at(body: Seq<u8>, pos: int) -> (Seq<char>, u8, u32) {
    (
        entry_language_chars(body.subrange(pos, pos + 3)),
        body[pos + 3] / 8,
        (magazine(body[pos + 3]) * 100 + (body[pos + 4] / 16) * 10 + body[pos + 4] % 16) as u32,
    )
}

/// The entries of the first `n` five-byte groups of a body, those whose
/// page byte is not two decimal digits left out.
pub open spec fn teletext_entries_upto(body: Seq<u8>, n: nat) -> Seq<(Seq<char>, u8, u32)>
    decreases n,
{
    if n == 0 {
        Seq::empty()
    } else {
        let rest = teletext_entries_upto(body, (n - 1) as nat);
        let pos = 5 * (n - 1);
        if bcd_page(body[pos + 4]) {
            rest.push(teletext_entry_at(body, pos))
        } else {
            rest
        }
    }
}

/// The entries of a body: one per whole five bytes with a decimal page,
/// a shorter tail ignored.
pub open spec fn teletext_entries(body: Seq<u8>) -> Seq<(Seq<char>, u8, u32)> {
    teletext_entries_upto(body, body.len() / 5)
}

impl TeletextEntry {
    /// Whether the entry is a subtitle page (type 2) or a subtitle page for
    /// the hearing impaired (type 5).
    pub fn is_subtitle(&self) -> (r: bool)
        ensures
            r == (self.teletext_type == 2 || self.teletext_type == 5),
    {
        self.teletext_type == 2 || self.teletext_type == 5
    }

    /// Whether the entry is a subtitle page for the hearing impaired.
    pub fn is_hearing_impaired(&self) -> (r: bool)
        ensures
            r == (self.teletext_type == 5),
    {
        self.teletext_type == 5
    }
}

/// Decode every entry of a teletext descriptor body.
pub fn decode_all(body: &[u8]) -> (r: Vec<TeletextEntry>)
    ensures
        r@.map_values(|e: TeletextEntry| teletext_view(e)) == teletext_entries(body@),
{
    let mut out: Vec<TeletextEntry> = Vec::new();
    let mut pos: usize = 0;
    while 5 <= body.len() - pos
        invariant
            pos % 5 == 0,
            pos <= body@.len(),
            out@.map_values(|e: TeletextEntry| teletext_view(e)) == teletext_entries_upto(body@, (pos / 5) as nat),
        decreases body.len() - pos,
    {
        let type_magazine = body[pos + 3];
        let page_byte = body[pos + 4];
        let teletext_type = type_magazine / 8;
        let mag = (type_magazine % 8) as u32;
        let mag_norm = if mag == 0 { 8 } else { mag };
        let tens = (page_byte / 16) as u32;
        let units = (page_byte % 16) as u32;
        let ghost before = out@;
        if tens <= 9 && units <= 9 {
            let page = mag_norm * 100 + tens * 10 + units;
            let language_iso_639_2 = entry_language(vstd::slice::slice_subrange(body, pos, pos + 3));
            out.push(TeletextEntry { language_iso_639_2, teletext_type, page });
            assert(out@.map_values(|e: TeletextEntry| teletext_view(e)) =~= before.map_values(|e: TeletextEntry| teletext_view(e)).push(teletext_entry_at(body@, pos as int)));
        }
        pos = pos + 5;
    }
    out
}

/// The page of the first entry with a decimal page, if any.
pub fn decode(body: &[u8]) -> (r: Option<u32>)
    ensures
        r == (if teletext_entries(body@).len() > 0 { Some(teletext_entries(body@)[0].2) } else { None::<u32> }),
{
    let all = decode_all(body);
    proof {
        if all@.len() > 0 {
            assert(all@.map_values(|e: TeletextEntry| teletext_view(e))[0] == teletext_view(all@[0]));
        }
    }
    if all.len() > 0 {
        Some(all[0].page)
    } else {
        None
    }
}

proof fn lemma_teletext_entries_upto(body: Seq<u8>, n: nat)
    requires
        5 * n <= body.len(),
    ensures
        forall|i: int| 0 <= i < teletext_entries_upto(body, n).len() ==> {
            let e = #[trigger] teletext_entries_upto(body, n)[i];
            100 <= e.2 <= 899 && e.1 < 32
        },
    decreases n,
{
    if n > 0 {
        lemma_teletext_entries_upto(body, (n - 1) as nat);
        let pos = 5 * (n - 1);
        let rest = teletext_entries_upto(body, (n - 1) as nat);
        if bcd_page(body[pos + 4]) {
            let e = teletext_entry_at(body, pos);
            assert(100 <= e.2 <= 899);
            assert forall|i: int| 0 <= i < rest.push(e).len() implies {
                let f = #[trigger] rest.push(e)[i];
                100 <= f.2 <= 899 && f.1 < 32
            } by {
                if i < rest.len() {
                    assert(rest.push(e)[i] == rest[i]);
                }
            }
        }
    }
}

/// Every teletext entry names a page from 100 to 899 (magazines 1 to 8,
/// pages 00 to 99) and a five-bit type.
pub proof fn law_teletext_pages_in_range(body: Seq<u8>)
    ensures
        forall|i: int| 0 <= i < teletext_entries(body).len() ==> {
            let e = #[trigger] teletext_entries(body)[i];
            100 <= e.2 <= 899 && e.1 < 32
        },
{
    lemma_teletext_entries_upto(body, body.len() / 5);
}

/// A teletext entry's five bytes: its type is the top five bits of the
/// fourth byte, and its page number is the magazine (the low three bits of
/// that byte, 0 meaning 8) in the hundreds and the two decimal digits of
/// the fifth byte.
pub proof fn law_teletext_entry(body: Seq<u8>, pos: int)
    requires
        0 <= pos,
        pos + 5 <= body.len(),
    ensures
        teletext_entry_at(body, pos).1 == body[pos + 3] >> 3,
        teletext_entry_at(body, pos).2 == (if body[pos + 3] & 7 == 0 { 8 } else { body[pos + 3] & 7 }) * 100
            + (body[pos + 4] >> 4) * 10 + (body[pos + 4] & 15),
{
    let b = body[pos + 3];
    let p = body[pos + 4];
    assert(b >> 3 == b / 8) by (bit_vector);
    assert(b & 7 == b % 8) by (bit_vector);
    assert(p >> 4 == p / 16) by (bit_vector);
    assert(p & 15 == p % 16) by (bit_vector);
}

} // verus!
