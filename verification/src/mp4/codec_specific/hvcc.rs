//! `hvcC` (HEVC decoder configuration record).  The 23 bytes before the
//! parameter-set arrays hold: version (byte 0, must be 1), tier flag (bit 5
//! of byte 1) and profile (its low five bits), level (byte 12), chroma
//! format (low two bits of byte 16), luma and chroma bit depth minus 8 (low
//! three bits of bytes 17 and 18).

use vstd::prelude::*;
use crate::source::{FileSource, ParseError};
use crate::model::{ChromaFormat, HevcTier, VideoCodecConfig};
use crate::mp4::atom::{BoxHeader, payload_read, read_payload};
use crate::mp4::codec_specific::{hex_chars, hex_encode};
use crate::mp4::codec_specific::avcc::chroma_of_idc;
use crate::mp4::codec_specific::colr::{depth_synced, sync_bit_depth};
use crate::mp4::moov::trak::TrackBuilder;
use crate::text::{decimal_chars, push_char, push_decimal};

verus! {

/// Largest `hvcC` payload accepted.
pub const MAX_PAYLOAD: u64 = 4096;

/// Bytes before the parameter-set arrays.
pub const HEADER_BYTES: usize = 23;

/// Name of an HEVC `general_profile_idc`.
pub open spec fn hevc_profile_name(idc: int) -> Seq<char> {
    if idc == 1 {
        "Main"@
    } else if idc == 2 {
        "Main 10"@
    } else if idc == 3 {
        "Main Still Picture"@
    } else if idc == 4 {
        "Range Extensions"@
    } else {
        "Unknown"@
    }
}

/// Level text of a `general_level_idc` (thirty times the level):
/// `major.minor` with the tenths rounded to nearest, `0` for zero.
pub open spec fn hevc_level_name(idc: nat) -> Seq<char> {
    if idc == 0 {
        seq!['0']
    } else {
        decimal_chars(idc / 30) + seq!['.'] + decimal_chars(((idc % 30) + 1) / 3)
    }
}

/// The configuration decoded from a version-1 record `pl`.
pub open spec fn hevc_config(c: VideoCodecConfig, pl: Seq<u8>) -> bool {
    &&& c.profile_idc == Some((pl[1] % 32) as u32)
    &&& c.profile_name matches Some(n) && n@ == hevc_profile_name((pl[1] % 32) as int)
    &&& c.level_idc == Some(pl[12] as u32)
    &&& c.level_name matches Some(l) && l@ == hevc_level_name(pl[12] as nat)
    &&& c.tier == Some(if (pl[1] / 32) % 2 == 0 { HevcTier::Main } else { HevcTier::High })
    &&& c.chroma_format == Some(chroma_of_idc((pl[16] % 4) as int))
    &&& c.bit_depth_luma == Some((pl[17] % 8 + 8) as u32)
    &&& c.bit_depth_chroma == Some((pl[18] % 8 + 8) as u32)
    &&& c.raw_hex matches Some(h) && h@ == hex_chars(pl)
    &&& c.is_elementary_stream == Some(false)
    &&& c.sample_aspect_ratio is None
}

/// What parsing the `hvcC` payload `pl` gives: the result `r` and the new
/// builder `n` from the old one `o`.
pub open spec fn hvcc_outcome(o: TrackBuilder, n: TrackBuilder, r: Result<(), ParseError>, pl: Seq<u8>, start: u64) -> bool {
    if pl.len() < HEADER_BYTES {
        r == Err::<(), ParseError>(ParseError::Malformed { offset: start }) && n == o
    } else {
        &&& r is Ok
        &&& n.codec_private_hex matches Some(h) && h@ == hex_chars(pl)
        &&& if pl[0] != 1 {
            &&& n == (TrackBuilder {
                codec_private_hex: n.codec_private_hex,
                video_codec_config: n.video_codec_config,
                ..o
            })
            &&& n.video_codec_config matches Some(c) && c.raw_hex matches Some(h) && h@ == hex_chars(pl)
                && (VideoCodecConfig { raw_hex: None, is_elementary_stream: None, ..c }).is_empty()
                && c.is_elementary_stream == Some(false)
        } else {
            &&& n == (TrackBuilder {
                codec_private_hex: n.codec_private_hex,
                video_codec_config: n.video_codec_config,
                video: n.video,
                ..o
            })
            &&& n.video_codec_config matches Some(c) && hevc_config(c, pl)
            &&& n.video == depth_synced(o.video, (pl[17] % 8 + 8) as u32)
        }
    }
}

/// Parse an `hvcC` box at the cursor (payload refused above
/// [`MAX_PAYLOAD`], `Malformed` under [`HEADER_BYTES`]).  A record of
/// another version is kept as raw hex only.
pub fn parse(src: &mut FileSource, header: &BoxHeader, builder: &mut TrackBuilder) -> (r: Result<(), ParseError>)
    ensures
        final(src).bytes() == old(src).bytes(),
        match payload_read(old(src).bytes(), old(src).pos(), header@, MAX_PAYLOAD) {
            Err(e) => r == Err::<(), ParseError>(e) && *final(builder) == *old(builder),
            Ok(pl) => hvcc_outcome(*old(builder), *final(builder), r, pl, header.start),
        },
{
    let payload = read_payload(src, header, MAX_PAYLOAD)?;
    let pl = payload.as_slice();
    if pl.len() < HEADER_BYTES {
        return Err(ParseError::Malformed { offset: header.start });
    }
    if pl[0] != 1 {
        builder.codec_private_hex = Some(hex_encode(pl));
        builder.video_codec_config = Some(VideoCodecConfig {
            profile_idc: None,
            profile_name: None,
            level_idc: None,
            level_name: None,
            tier: None,
            chroma_format: None,
            bit_depth_luma: None,
            bit_depth_chroma: None,
            raw_hex: Some(hex_encode(pl)),
            is_elementary_stream: Some(false),
            sample_aspect_ratio: None,
        });
        return Ok(());
    }
    let b1 = pl[1];
    let profile_idc = (b1 % 32) as u32;
    let level_idc = pl[12] as u32;
    let bd_luma = (pl[17] % 8) as u32 + 8;
    let bd_chroma = (pl[18] % 8) as u32 + 8;
    let cfg = VideoCodecConfig {
        profile_idc: Some(profile_idc),
        profile_name: Some(crate::text::owned(format_hevc_profile(profile_idc))),
        level_idc: Some(level_idc),
        level_name: Some(format_hevc_level(level_idc)),
        tier: Some(if (b1 / 32) % 2 == 0 { HevcTier::Main } else { HevcTier::High }),
        chroma_format: Some(classify_chroma_idc(pl[16] % 4)),
        bit_depth_luma: Some(bd_luma),
        bit_depth_chroma: Some(bd_chroma),
        raw_hex: Some(hex_encode(pl)),
        is_elementary_stream: Some(false),
        sample_aspect_ratio: None,
    };
    sync_bit_depth(&mut builder.video, bd_luma);
    builder.codec_private_hex = Some(hex_encode(pl));
    builder.video_codec_config = Some(cfg);
    Ok(())
}

/// Chroma format of a `chroma_format_idc`.
pub fn classify_chroma_idc(idc: u8) -> (c: ChromaFormat)
    ensures
        c == chroma_of_idc(idc as int),
{
    crate::mp4::codec_specific::avcc::classify_chroma_idc(idc)
}

/// Name of an HEVC `general_profile_idc`.
pub fn format_hevc_profile(idc: u32) -> (s: &'static str)
    ensures
        s@ == hevc_profile_name(idc as int),
{
    if idc == 1 {
        "Main"
    } else if idc == 2 {
        "Main 10"
    } else if idc == 3 {
        "Main Still Picture"
    } else if idc == 4 {
        "Range Extensions"
    } else {
        "Unknown"
    }
}

/// Level text of a `general_level_idc`.
pub fn format_hevc_level(idc: u32) -> (s: String)
    ensures
        s@ == hevc_level_name(idc as nat),
{
    let mut s = String::new();
    if idc == 0 {
        push_char(&mut s, '0');
        return s;
    }
    push_decimal(&mut s, idc / 30);
    push_char(&mut s, '.');
    push_decimal(&mut s, ((idc % 30) + 1) / 3);
    assert(s@ =~= hevc_level_name(idc as nat));
    s
}

/// HEVC profile names, entry by entry: 1 Main, 2 Main 10, 3 Main Still
/// Picture, 4 Range Extensions, any other Unknown.
pub proof fn law_hevc_profile_names(idc: int)
    ensures
        idc == 1 ==> hevc_profile_name(idc) == "Main"@,
        idc == 2 ==> hevc_profile_name(idc) == "Main 10"@,
        idc == 3 ==> hevc_profile_name(idc) == "Main Still Picture"@,
        idc == 4 ==> hevc_profile_name(idc) == "Range Extensions"@,
        !(1 <= idc <= 4) ==> hevc_profile_name(idc) == "Unknown"@,
{
}

} // verus!
