//! `avcC` (AVC decoder configuration record).  Bytes: version, profile,
//! profile compatibility, level, `lengthSizeMinusOne` (low two bits), the
//! SPS count (low five bits) and the SPS units (each a big-endian `u16`
//! length and that many bytes), the PPS count (a byte) and the PPS units,
//! then for High-family profiles three bytes: chroma format (low two bits),
//! luma and chroma bit depth minus 8 (low three bits each).

use vstd::prelude::*;
use crate::source::{FileSource, ParseError, be16, be16_at};
use crate::model::{ChromaFormat, VideoCodecConfig};
use crate::mp4::atom::{BoxHeader, payload_read, read_payload};
use crate::mp4::codec_specific::{hex_chars, hex_encode};
use crate::mp4::codec_specific::colr::{depth_synced, sync_bit_depth};
use crate::mp4::moov::trak::TrackBuilder;
use crate::text::{decimal_chars, owned, push_char, push_decimal};

verus! {

/// Largest `avcC` payload accepted.
pub const MAX_PAYLOAD: u64 = 4096;

/// Offset after skipping `count` length-prefixed units from `off`: the walk
/// stops early (keeping `off`) when fewer than two bytes remain, and fails
/// (`None`) when a unit runs past the end.
pub open spec fn skip_units(pl: Seq<u8>, off: int, count: int) -> Option<int>
    decreases count,
{
    if count <= 0 || off + 2 > pl.len() {
        Some(off)
    } else {
        let next = off + 2 + be16(pl, off);
        if next > pl.len() {
            None
        } else {
            skip_units(pl, next, count - 1)
        }
    }
}

/// The High-family profiles, whose records carry the chroma / bit-depth
/// extension.
pub open spec fn high_family(profile: int) -> bool {
    profile == 100 || profile == 110 || profile == 122 || profile == 144 || profile == 44
        || profile == 83 || profile == 86 || profile == 118 || profile == 128 || profile == 138
        || profile == 139 || profile == 134 || profile == 135
}

/// Chroma format of a `chroma_format_idc`.
pub open spec fn chroma_of_idc(idc: int) -> ChromaFormat {
    if idc == 0 {
        ChromaFormat::Monochrome
    } else if idc == 1 {
        ChromaFormat::Yuv420
    } else if idc == 2 {
        ChromaFormat::Yuv422
    } else if idc == 3 {
        ChromaFormat::Yuv444
    } else {
        ChromaFormat::Other
    }
}

/// Name of an AVC `profile_idc`.
pub open spec fn avc_profile_name(idc: int) -> Seq<char> {
    if idc == 66 {
        "Baseline"@
    } else if idc == 77 {
        "Main"@
    } else if idc == 88 {
        "Extended"@
    } else if idc == 100 {
        "High"@
    } else if idc == 110 {
        "High 10"@
    } else if idc == 122 {
        "High 4:2:2"@
    } else if idc == 144 {
        "High 4:4:4"@
    } else if idc == 44 {
        "CAVLC 4:4:4"@
    } else if idc == 83 {
        "Scalable Baseline"@
    } else if idc == 86 {
        "Scalable High"@
    } else if idc == 118 {
        "Multiview High"@
    } else if idc == 128 {
        "Stereo High"@
    } else {
        "Unknown"@
    }
}

/// Level text: `major.minor` from `idc / 10` and `idc % 10`, `0` for zero.
pub open spec fn avc_level_name(idc: nat) -> Seq<char> {
    if idc == 0 {
        seq!['0']
    } else {
        decimal_chars(idc / 10) + seq!['.'] + decimal_chars(idc % 10)
    }
}

/// Fields every decoded `avcC` sets: profile and level numbers, level
/// text, the record in hex, and "not an elementary stream".
pub open spec fn avc_common(c: VideoCodecConfig, pl: Seq<u8>) -> bool {
    &&& c.profile_idc == Some(pl[1] as u32)
    &&& c.level_idc == Some(pl[3] as u32)
    &&& c.level_name matches Some(l) && l@ == avc_level_name(pl[3] as nat)
    &&& c.raw_hex matches Some(h) && h@ == hex_chars(pl)
    &&& c.is_elementary_stream == Some(false)
    &&& c.tier is None
    &&& c.sample_aspect_ratio is None
}

/// The extension block (at `end`, after the PPS units) is read.
pub open spec fn avc_has_ext(pl: Seq<u8>, end: int) -> bool {
    high_family(pl[1] as int) && end + 3 <= pl.len()
}

/// Luma bit depth from the extension block at `end`.
pub open spec fn avc_luma_depth(pl: Seq<u8>, end: int) -> u32 {
    (pl[end + 1] % 8 + 8) as u32
}

/// The configuration of a full record whose PPS units end at `end`.
pub open spec fn avc_full_config(c: VideoCodecConfig, pl: Seq<u8>, end: int) -> bool {
    &&& avc_common(c, pl)
    &&& c.profile_name matches Some(pn) && pn@ == avc_profile_name(pl[1] as int)
    &&& if avc_has_ext(pl, end) {
        &&& c.chroma_format == Some(chroma_of_idc((pl[end] % 4) as int))
        &&& c.bit_depth_luma == Some(avc_luma_depth(pl, end))
        &&& c.bit_depth_chroma == Some((pl[end + 2] % 8 + 8) as u32)
    } else {
        &&& c.chroma_format is None
        &&& c.bit_depth_luma is None
        &&& c.bit_depth_chroma is None
    }
}

/// Outcome of a record whose PPS units end at `end` (inside the payload).
pub open spec fn avc_full(o: TrackBuilder, n: TrackBuilder, pl: Seq<u8>, end: int) -> bool {
    let ext = avc_has_ext(pl, end);
    &&& n == (TrackBuilder {
        codec_private_hex: n.codec_private_hex,
        video_codec_config: n.video_codec_config,
        video: n.video,
        ..o
    })
    &&& n.codec_private_hex matches Some(h) && h@ == hex_chars(pl)
    &&& n.video_codec_config matches Some(c) && avc_full_config(c, pl, end)
    &&& n.video == if ext {
        depth_synced(o.video, avc_luma_depth(pl, end))
    } else {
        o.video
    }
}

/// What parsing the `avcC` payload `pl` gives: the result `r` and the new
/// builder `n` from the old one `o`.
pub open spec fn avcc_outcome(o: TrackBuilder, n: TrackBuilder, r: Result<(), ParseError>, pl: Seq<u8>, start: u64) -> bool {
    let bad = r == Err::<(), ParseError>(ParseError::Malformed { offset: start }) && n == o;
    if pl.len() < 6 {
        bad
    } else {
        match skip_units(pl, 6, (pl[5] % 32) as int) {
            None => bad,
            Some(sps_end) => if sps_end >= pl.len() {
                &&& r is Ok
                &&& n == (TrackBuilder { video_codec_config: n.video_codec_config, ..o })
                &&& n.video_codec_config matches Some(c) && avc_common(c, pl)
                    && c.profile_name is None && c.chroma_format is None
                    && c.bit_depth_luma is None && c.bit_depth_chroma is None
            } else {
                match skip_units(pl, sps_end + 1, pl[sps_end] as int) {
                    None => bad,
                    Some(pps_end) => r is Ok && avc_full(o, n, pl, pps_end),
                }
            },
        }
    }
}

/// Offset after the `count` units from `start` (see [`skip_units`]), or
/// `None` when one runs past the end.
fn walk_units(pl: &[u8], start: usize, count: u8) -> (r: Option<usize>)
    requires
        start <= pl@.len() <= MAX_PAYLOAD,
    ensures
        match skip_units(pl@, start as int, count as int) {
            Some(e) => r == Some(e as usize) && start <= e <= pl@.len(),
            None => r is None,
        },
{
    let len = pl.len();
    let mut offset = start;
    let mut i: u8 = 0;
    while i < count && offset + 2 <= len
        invariant
            start <= offset <= len,
            len == pl@.len() <= MAX_PAYLOAD,
            i <= count,
            skip_units(pl@, start as int, count as int) == skip_units(pl@, offset as int, (count - i) as int),
        decreases count - i,
    {
        let unit = be16_at(pl, offset) as usize;
        offset = offset + 2 + unit;
        if offset > len {
            return None;
        }
        i = i + 1;
    }
    Some(offset)
}

/// Parse an `avcC` box at the cursor (payload refused above
/// [`MAX_PAYLOAD`]).
pub fn parse(src: &mut FileSource, header: &BoxHeader, builder: &mut TrackBuilder) -> (r: Result<(), ParseError>)
    ensures
        final(src).bytes() == old(src).bytes(),
        match payload_read(old(src).bytes(), old(src).pos(), header@, MAX_PAYLOAD) {
            Err(e) => r == Err::<(), ParseError>(e) && *final(builder) == *old(builder),
            Ok(pl) => avcc_outcome(*old(builder), *final(builder), r, pl, header.start),
        },
{
    let payload = read_payload(src, header, MAX_PAYLOAD)?;
    let pl = payload.as_slice();
    let len = pl.len();
    if len < 6 {
        return Err(ParseError::Malformed { offset: header.start });
    }
    let profile_idc = pl[1] as u32;
    let level_idc = pl[3] as u32;
    let length_size_minus_one = pl[4] % 4;
    let sps_end = match walk_units(pl, 6, pl[5] % 32) {
        Some(e) => e,
        None => return Err(ParseError::Malformed { offset: header.start }),
    };
    if sps_end >= len {
        builder.video_codec_config = Some(VideoCodecConfig {
            profile_idc: Some(profile_idc),
            profile_name: None,
            level_idc: Some(level_idc),
            level_name: Some(format_level(level_idc)),
            tier: None,
            chroma_format: None,
            bit_depth_luma: None,
            bit_depth_chroma: None,
            raw_hex: Some(hex_encode(pl)),
            is_elementary_stream: Some(false),
            sample_aspect_ratio: None,
        });
        update_video_with_length_size(builder, length_size_minus_one);
        return Ok(());
    }
    let pps_end = match walk_units(pl, sps_end + 1, pl[sps_end]) {
        Some(e) => e,
        None => return Err(ParseError::Malformed { offset: header.start }),
    };
    let ext = is_high_family_profile(profile_idc) && pps_end + 3 <= len;
    let (chroma_format, bit_depth_luma, bit_depth_chroma) = if ext {
        (
            Some(classify_chroma_idc(pl[pps_end] % 4)),
            Some((pl[pps_end + 1] % 8) as u32 + 8),
            Some((pl[pps_end + 2] % 8) as u32 + 8),
        )
    } else {
        (None, None, None)
    };
    builder.codec_private_hex = Some(hex_encode(pl));
    let cfg = VideoCodecConfig {
        profile_idc: Some(profile_idc),
        profile_name: Some(owned(format_profile(profile_idc))),
        level_idc: Some(level_idc),
        level_name: Some(format_level(level_idc)),
        tier: None,
        chroma_format,
        bit_depth_luma,
        bit_depth_chroma,
        raw_hex: Some(hex_encode(pl)),
        is_elementary_stream: Some(false),
        sample_aspect_ratio: None,
    };
    if let Some(bd_luma) = bit_depth_luma {
        sync_bit_depth(&mut builder.video, bd_luma);
    }
    builder.video_codec_config = Some(cfg);
    update_video_with_length_size(builder, length_size_minus_one);
    Ok(())
}

/// The NAL length size (`length_size_minus_one + 1`) is not recorded
/// anywhere yet: the builder is left as it is.
pub fn update_video_with_length_size(builder: &mut TrackBuilder, length_size_minus_one: u8)
    ensures
        *final(builder) == *old(builder),
{
}

/// `profile` is one of the High-family profiles.
pub fn is_high_family_profile(profile: u32) -> (r: bool)
    ensures
        r == high_family(profile as int),
{
    profile == 100 || profile == 110 || profile == 122 || profile == 144 || profile == 44
        || profile == 83 || profile == 86 || profile == 118 || profile == 128 || profile == 138
        || profile == 139 || profile == 134 || profile == 135
}

/// Chroma format of a `chroma_format_idc`.
pub fn classify_chroma_idc(idc: u8) -> (c: ChromaFormat)
    ensures
        c == chroma_of_idc(idc as int),
{
    if idc == 0 {
        ChromaFormat::Monochrome
    } else if idc == 1 {
        ChromaFormat::Yuv420
    } else if idc == 2 {
        ChromaFormat::Yuv422
    } else if idc == 3 {
        ChromaFormat::Yuv444
    } else {
        ChromaFormat::Other
    }
}

/// Name of an AVC `profile_idc`.
pub fn format_profile(idc: u32) -> (s: &'static str)
    ensures
        s@ == avc_profile_name(idc as int),
{
    if idc == 66 {
        "Baseline"
    } else if idc == 77 {
        "Main"
    } else if idc == 88 {
        "Extended"
    } else if idc == 100 {
        "High"
    } else if idc == 110 {
        "High 10"
    } else if idc == 122 {
        "High 4:2:2"
    } else if idc == 144 {
        "High 4:4:4"
    } else if idc == 44 {
        "CAVLC 4:4:4"
    } else if idc == 83 {
        "Scalable Baseline"
    } else if idc == 86 {
        "Scalable High"
    } else if idc == 118 {
        "Multiview High"
    } else if idc == 128 {
        "Stereo High"
    } else {
        "Unknown"
    }
}

/// Level text of a `level_idc`: `major.minor`, or `0`.
pub fn format_level(idc: u32) -> (s: String)
    ensures
        s@ == avc_level_name(idc as nat),
{
    let mut s = String::new();
    if idc == 0 {
        push_char(&mut s, '0');
        return s;
    }
    push_decimal(&mut s, idc / 10);
    push_char(&mut s, '.');
    push_decimal(&mut s, idc % 10);
    assert(s@ =~= avc_level_name(idc as nat));
    s
}

/// AVC profile names, entry by entry (66 Baseline, 77 Main, 88 Extended,
/// 100 High, 110 High 10, 122 High 4:2:2, 144 High 4:4:4, 44 CAVLC 4:4:4,
/// 83 Scalable Baseline, 86 Scalable High, 118 Multiview High, 128 Stereo
/// High, any other Unknown), and the chroma formats of
/// `chroma_format_idc` 0 to 3 (monochrome, 4:2:0, 4:2:2, 4:4:4).
pub proof fn law_avc_names(idc: int)
    ensures
        idc == 66 ==> avc_profile_name(idc) == "Baseline"@,
        idc == 77 ==> avc_profile_name(idc) == "Main"@,
        idc == 88 ==> avc_profile_name(idc) == "Extended"@,
        idc == 100 ==> avc_profile_name(idc) == "High"@,
        idc == 110 ==> avc_profile_name(idc) == "High 10"@,
        idc == 122 ==> avc_profile_name(idc) == "High 4:2:2"@,
        idc == 144 ==> avc_profile_name(idc) == "High 4:4:4"@,
        idc == 44 ==> avc_profile_name(idc) == "CAVLC 4:4:4"@,
        idc == 83 ==> avc_profile_name(idc) == "Scalable Baseline"@,
        idc == 86 ==> avc_profile_name(idc) == "Scalable High"@,
        idc == 118 ==> avc_profile_name(idc) == "Multiview High"@,
        idc == 128 ==> avc_profile_name(idc) == "Stereo High"@,
        !(idc == 66 || idc == 77 || idc == 88 || idc == 100 || idc == 110 || idc == 122 || idc == 144 || idc == 44
            || idc == 83 || idc == 86 || idc == 118 || idc == 128) ==> avc_profile_name(idc) == "Unknown"@,
        idc == 0 ==> chroma_of_idc(idc) == ChromaFormat::Monochrome,
        idc == 1 ==> chroma_of_idc(idc) == ChromaFormat::Yuv420,
        idc == 2 ==> chroma_of_idc(idc) == ChromaFormat::Yuv422,
        idc == 3 ==> chroma_of_idc(idc) == ChromaFormat::Yuv444,
        !(0 <= idc <= 3) ==> chroma_of_idc(idc) == ChromaFormat::Other,
{
}

} // verus!
