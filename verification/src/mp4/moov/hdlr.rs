//! `hdlr` (handler reference) box: the 4-byte handler type that decides the
//! track type, and the handler name.

use vstd::prelude::*;
use crate::source::{FileSource, ParseError};
use crate::model::TrackType;
use crate::text::{utf8_lossy, utf8_lossy_chars};
use crate::mp4::atom::{BoxHeader, payload_or_zero};

verus! {

#[derive(Debug)]
pub struct Handler {
    pub handler_type: [u8; 4],
    pub name: String,
}

/// Four bytes as a sequence.
pub open spec fn fourcc(a: u8, b: u8, c: u8, d: u8) -> Seq<u8> {
    seq![a, b, c, d]
}

/// `t` equals the four bytes given.
pub fn is_fourcc(t: &[u8; 4], a: u8, b: u8, c: u8, d: u8) -> (r: bool)
    ensures
        r == (t@ == fourcc(a, b, c, d)),
{
    let r = t[0] == a && t[1] == b && t[2] == c && t[3] == d;
    proof {
        if r {
            assert(t@ =~= fourcc(a, b, c, d));
        }
    }
    r
}

/// Track type of a handler type: `vide` video, `soun` audio, `subt`,
/// `sbtl`, `text` and `subp` subtitles, anything else unknown.
pub open spec fn handler_track_type(t: Seq<u8>) -> TrackType {
    if t == fourcc(0x76, 0x69, 0x64, 0x65) {
        TrackType::Video
    } else if t == fourcc(0x73, 0x6f, 0x75, 0x6e) {
        TrackType::Audio
    } else if t == fourcc(0x73, 0x75, 0x62, 0x74) || t == fourcc(0x73, 0x62, 0x74, 0x6c)
        || t == fourcc(0x74, 0x65, 0x78, 0x74) || t == fourcc(0x73, 0x75, 0x62, 0x70) {
        TrackType::Subtitles
    } else {
        TrackType::Unknown
    }
}

/// `meta` and `mdir` handlers carry metadata, not a track.
pub open spec fn is_metadata_handler_type(t: Seq<u8>) -> bool {
    t == fourcc(0x6d, 0x65, 0x74, 0x61) || t == fourcc(0x6d, 0x64, 0x69, 0x72)
}

impl Handler {
    /// Track type of the handler.
    pub fn classify(&self) -> (r: TrackType)
        ensures
            r == handler_track_type(self.handler_type@),
    {
        classify_handler_type(&self.handler_type)
    }

    /// `true` for the non-track handlers `meta` and `mdir`.
    pub fn is_metadata_handler(&self) -> (r: bool)
        ensures
            r == is_metadata_handler_type(self.handler_type@),
    {
        is_fourcc(&self.handler_type, 0x6d, 0x65, 0x74, 0x61) || is_fourcc(&self.handler_type, 0x6d, 0x64, 0x69, 0x72)
    }
}

/// Track type of a raw handler type.
pub fn classify_handler_type(t: &[u8; 4]) -> (r: TrackType)
    ensures
        r == handler_track_type(t@),
{
    if is_fourcc(t, 0x76, 0x69, 0x64, 0x65) {
        TrackType::Video
    } else if is_fourcc(t, 0x73, 0x6f, 0x75, 0x6e) {
        TrackType::Audio
    } else if is_fourcc(t, 0x73, 0x75, 0x62, 0x74) || is_fourcc(t, 0x73, 0x62, 0x74, 0x6c)
        || is_fourcc(t, 0x74, 0x65, 0x78, 0x74) || is_fourcc(t, 0x73, 0x75, 0x62, 0x70) {
        TrackType::Subtitles
    } else {
        TrackType::Unknown
    }
}

/// `s` without its trailing zero bytes.
pub open spec fn strip_trailing_zeros(s: Seq<u8>) -> Seq<u8>
    decreases s.len(),
{
    if s.len() > 0 && s.last() == 0 {
        strip_trailing_zeros(s.drop_last())
    } else {
        s
    }
}

/// Parse the `hdlr` payload at the cursor: 8 bytes of version, flags and
/// pre-defined, the handler type, 12 reserved bytes, then the name, whose
/// trailing NUL bytes are dropped before it is decoded as UTF-8 (invalid
/// sequences replaced).  `Malformed` for a payload under 24 bytes,
/// `UnexpectedEof` when the data ends inside the payload.
pub fn parse(src: &mut FileSource, header: &BoxHeader) -> (r: Result<Handler, ParseError>)
    ensures
        final(src).bytes() == old(src).bytes(),
        ({
            let p = old(src).pos();
            let bytes = old(src).bytes();
            let size = payload_or_zero(header@);
            if size < 24 {
                r == Err::<Handler, ParseError>(ParseError::Malformed { offset: header.start })
            } else if p + size > bytes.len() {
                r matches Err(e) && e is UnexpectedEof
            } else {
                &&& r matches Ok(h) && h.handler_type@ == bytes.subrange(p + 8, p + 12)
                    && h.name@ == utf8_lossy_chars(strip_trailing_zeros(bytes.subrange(p + 24, p + size)))
                &&& final(src).pos() == p + size
            }
        }),
{
    let payload = match header.payload_size() {
        Some(s) => s,
        None => 0,
    };
    if payload < 24 {
        return Err(ParseError::Malformed { offset: header.start });
    }
    src.skip(8)?;
    let handler_type = src.read_array4()?;
    src.skip(12)?;
    let name_len = payload - 24;
    let mut raw = src.read_exact(name_len)?;
    let ghost full = raw@;
    while raw.len() > 0 && raw[raw.len() - 1] == 0
        invariant
            strip_trailing_zeros(raw@) == strip_trailing_zeros(full),
        decreases raw.len(),
    {
        let ghost before = raw@;
        raw.pop();
        assert(raw@ =~= before.drop_last());
    }
    let name = utf8_lossy(raw.as_slice());
    Ok(Handler { handler_type, name })
}

/// Handler types, entry by entry: `vide` is video, `soun` audio, `subt`,
/// `sbtl`, `text` and `subp` subtitles, any other type unknown; `meta` and
/// `mdir` carry metadata.
pub proof fn law_handler_types(t: Seq<u8>)
    ensures
        t == seq![0x76u8, 0x69, 0x64, 0x65] ==> handler_track_type(t) == TrackType::Video,
        t == seq![0x73u8, 0x6f, 0x75, 0x6e] ==> handler_track_type(t) == TrackType::Audio,
        (t == seq![0x73u8, 0x75, 0x62, 0x74] || t == seq![0x73u8, 0x62, 0x74, 0x6c] || t == seq![0x74u8, 0x65, 0x78, 0x74]
            || t == seq![0x73u8, 0x75, 0x62, 0x70]) ==> handler_track_type(t) == TrackType::Subtitles,
        !(t == seq![0x76u8, 0x69, 0x64, 0x65] || t == seq![0x73u8, 0x6f, 0x75, 0x6e] || t == seq![0x73u8, 0x75, 0x62, 0x74]
            || t == seq![0x73u8, 0x62, 0x74, 0x6c] || t == seq![0x74u8, 0x65, 0x78, 0x74] || t == seq![0x73u8, 0x75, 0x62, 0x70])
            ==> handler_track_type(t) == TrackType::Unknown,
        is_metadata_handler_type(t) <==> (t == seq![0x6du8, 0x65, 0x74, 0x61] || t == seq![0x6du8, 0x64, 0x69, 0x72]),
{
    assert(fourcc(0x76, 0x69, 0x64, 0x65) =~= seq![0x76u8, 0x69, 0x64, 0x65]);
    assert(fourcc(0x73, 0x6f, 0x75, 0x6e) =~= seq![0x73u8, 0x6f, 0x75, 0x6e]);
    assert(fourcc(0x73, 0x75, 0x62, 0x74) =~= seq![0x73u8, 0x75, 0x62, 0x74]);
    assert(fourcc(0x73, 0x62, 0x74, 0x6c) =~= seq![0x73u8, 0x62, 0x74, 0x6c]);
    assert(fourcc(0x74, 0x65, 0x78, 0x74) =~= seq![0x74u8, 0x65, 0x78, 0x74]);
    assert(fourcc(0x73, 0x75, 0x62, 0x70) =~= seq![0x73u8, 0x75, 0x62, 0x70]);
    assert(fourcc(0x6d, 0x65, 0x74, 0x61) =~= seq![0x6du8, 0x65, 0x74, 0x61]);
    assert(fourcc(0x6d, 0x64, 0x69, 0x72) =~= seq![0x6du8, 0x64, 0x69, 0x72]);
}

} // verus!
