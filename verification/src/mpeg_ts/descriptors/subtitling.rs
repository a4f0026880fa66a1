//! DVB subtitling descriptor.  Its body is a run of eight-byte entries:
//! language (3 bytes), subtitling type (1), composition page id (2, big
//! endian) and ancillary page id (2, big endian).

use vstd::prelude::*;
use crate::source::be16;
use super::{entry_language, entry_language_chars};

verus! {

/// One subtitling entry.
#[derive(Debug, Clone, PartialEq, Eq)]
pub struct SubtitlingEntry {
    pub language_iso_639_2: String,
    pub subtitling_type: u8,
    pub composition_page_id: u16,
    pub ancillary_page_id: u16,
}

/// An entry as values: language, type, composition page, ancillary page.
pub open spec fn subtitling_view(e: SubtitlingEntry) -> (Seq<char>, u8, u16, u16) {
    (e.language_iso_639_2@, e.subtitling_type, e.composition_page_id, e.ancillary_page_id)
}

/// The entry whose eight bytes start at `pos`.
pub open spec fn subtitling_entry_at(body: Seq<u8>, pos: int) -> (Seq<char>, u8, u16, u16) {
    (
        entry_language_chars(body.subrange(pos, pos + 3)),
        body[pos + 3],
        be16(body, pos + 4) as u16,
        be16(body, pos + 6) as u16,
    )
}

/// The entries of a body: one per whole eight bytes, a shorter tail
/// ignored.
pub open spec fn subtitling_entries(body: Seq<u8>) -> Seq<(Seq<char>, u8, u16, u16)> {
    Seq::new(body.len() / 8, |i: int| subtitling_entry_at(body, 8 * i))
}

impl SubtitlingEntry {
    /// The five-byte codec private data of a DVB subtitle track: the
    /// composition page and the ancillary page (each big endian), then the
    /// subtitling type.
    pub fn codec_private(&self) -> (r: [u8; 5])
        ensures
            r@ == seq![
                (self.composition_page_id / 256) as u8,
                (self.composition_page_id % 256) as u8,
                (self.ancillary_page_id / 256) as u8,
                (self.ancillary_page_id % 256) as u8,
                self.subtitling_type,
            ],
    {
        let r = [
            (self.composition_page_id / 256) as u8,
            (self.composition_page_id % 256) as u8,
            (self.ancillary_page_id / 256) as u8,
            (self.ancillary_page_id % 256) as u8,
            self.subtitling_type,
        ];
        assert(r@ =~= seq![r[0], r[1], r[2], r[3], r[4]]);
        r
    }
}

/// Decode every entry of a subtitling descriptor body.
pub fn decode_all(body: &[u8]) -> (r: Vec<SubtitlingEntry>)
    ensures
        r@.map_values(|e: SubtitlingEntry| subtitling_view(e)) == subtitling_entries(body@),
{
    let mut out: Vec<SubtitlingEntry> = Vec::new();
    let mut pos: usize = 0;
    while 8 <= body.len() - pos
        invariant
            pos % 8 == 0,
            pos <= body@.len(),
            out@.len() == pos / 8,
            forall|i: int| 0 <= i < out@.len() ==> subtitling_view(#[trigger] out@[i]) == subtitling_entry_at(body@, 8 * i),
        decreases body.len() - pos,
    {
        let language_iso_639_2 = entry_language(vstd::slice::slice_subrange(body, pos, pos + 3));
        let subtitling_type = body[pos + 3];
        let composition_page_id = (body[pos + 4] as u16) * 256 + body[pos + 5] as u16;
        let ancillary_page_id = (body[pos + 6] as u16) * 256 + body[pos + 7] as u16;
        out.push(SubtitlingEntry { language_iso_639_2, subtitling_type, composition_page_id, ancillary_page_id });
        pos = pos + 8;
    }
    assert(out@.map_values(|e: SubtitlingEntry| subtitling_view(e)) =~= subtitling_entries(body@));
    out
}

} // verus!
