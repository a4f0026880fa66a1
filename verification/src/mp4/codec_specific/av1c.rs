//! `av1C` (AV1 codec configuration).  Four fixed bytes: marker and version
//! (the marker is the top bit of the first byte), then `seq_profile` in the
//! top three bits of the second byte, then a byte of flags: high bit depth
//! (bit 6), twelve bit (bit 5), monochrome (bit 4), chroma subsampling x
//! (bit 3) and y (bit 2).

use vstd::prelude::*;
use crate::source::{FileSource, ParseError};
use crate::model::{ChromaFormat, VideoCodecConfig};
use crate::mp4::atom::{BoxHeader, payload_read, read_payload};
use crate::mp4::codec_specific::{hex_chars, hex_encode};
use crate::mp4::moov::trak::TrackBuilder;
use crate::text::owned;

verus! {

/// Name of an AV1 `seq_profile`.
pub open spec fn av1_profile_name(profile: int) -> Seq<char> {
    if profile == 0 {
        "Main"@
    } else if profile == 1 {
        "High"@
    } else if profile == 2 {
        "Professional"@
    } else {
        "Unknown"@
    }
}

/// Bit depth given by the flags byte: 12, 10 or 8.
pub open spec fn av1_bit_depth(flags: u8) -> int {
    if (flags / 32) % 2 == 1 {
        12
    } else if (flags / 64) % 2 == 1 {
        10
    } else {
        8
    }
}

/// Chroma format given by the flags byte.
pub open spec fn av1_chroma(flags: u8) -> ChromaFormat {
    let x = (flags / 8) % 2;
    let y = (flags / 4) % 2;
    if (flags / 16) % 2 == 1 {
        ChromaFormat::Monochrome
    } else if x == 1 && y == 1 {
        ChromaFormat::Yuv420
    } else if x == 1 && y == 0 {
        ChromaFormat::Yuv422
    } else if x == 0 && y == 0 {
        ChromaFormat::Yuv444
    } else {
        ChromaFormat::Other
    }
}

/// The configuration an `av1C` payload `pl` (at least 4 bytes, marker set)
/// describes; nothing else of it is set.
pub open spec fn av1_config(c: VideoCodecConfig, pl: Seq<u8>) -> bool {
    &&& c.profile_idc == Some((pl[1] / 32) as u32)
    &&& c.profile_name matches Some(n) && n@ == av1_profile_name((pl[1] / 32) as int)
    &&& c.bit_depth_luma == Some(av1_bit_depth(pl[2]) as u32)
    &&& c.bit_depth_chroma == Some(av1_bit_depth(pl[2]) as u32)
    &&& c.chroma_format == Some(av1_chroma(pl[2]))
    &&& c.raw_hex matches Some(h) && h@ == hex_chars(pl)
    &&& c.is_elementary_stream == Some(false)
    &&& c.level_idc is None
    &&& c.level_name is None
    &&& c.tier is None
    &&& c.sample_aspect_ratio is None
}

/// What `av1C` does to a track: the private data becomes the payload in
/// hex; a payload of at least 4 bytes with the marker bit set also replaces
/// the video codec configuration.
pub open spec fn av1_applied(o: TrackBuilder, n: TrackBuilder, pl: Seq<u8>) -> bool {
    &&& n.codec_private_hex matches Some(h) && h@ == hex_chars(pl)
    &&& if pl.len() >= 4 && pl[0] >= 0x80 {
        &&& n == (TrackBuilder {
            codec_private_hex: n.codec_private_hex,
            video_codec_config: n.video_codec_config,
            ..o
        })
        &&& n.video_codec_config matches Some(c) && av1_config(c, pl)
    } else {
        n == (TrackBuilder { codec_private_hex: n.codec_private_hex, ..o })
    }
}

/// Parse an `av1C` box with no caller cap.
pub fn parse(src: &mut FileSource, header: &BoxHeader, builder: &mut TrackBuilder) -> (r: Result<(), ParseError>)
    ensures
        final(src).bytes() == old(src).bytes(),
        match payload_read(old(src).bytes(), old(src).pos(), header@, u64::MAX) {
            Err(e) => r == Err::<(), ParseError>(e) && *final(builder) == *old(builder),
            Ok(pl) => r is Ok && av1_applied(*old(builder), *final(builder), pl),
        },
{
    parse_with_cap(src, header, builder, u64::MAX)
}

/// Parse an `av1C` box at the cursor, its payload refused above
/// `payload_cap`.
pub fn parse_with_cap(src: &mut FileSource, header: &BoxHeader, builder: &mut TrackBuilder, payload_cap: u64) -> (r: Result<(), ParseError>)
    ensures
        final(src).bytes() == old(src).bytes(),
        match payload_read(old(src).bytes(), old(src).pos(), header@, payload_cap) {
            Err(e) => r == Err::<(), ParseError>(e) && *final(builder) == *old(builder),
            Ok(pl) => r is Ok && av1_applied(*old(builder), *final(builder), pl),
        },
{
    let payload = read_payload(src, header, payload_cap)?;
    let pl = payload.as_slice();
    builder.codec_private_hex = Some(hex_encode(pl));
    if pl.len() < 4 || pl[0] < 0x80 {
        return Ok(());
    }
    let b1 = pl[1];
    let b2 = pl[2];
    let seq_profile = b1 / 32;
    let bit_depth: u32 = if (b2 / 32) % 2 == 1 {
        12
    } else if (b2 / 64) % 2 == 1 {
        10
    } else {
        8
    };
    let x = (b2 / 8) % 2;
    let y = (b2 / 4) % 2;
    let chroma = if (b2 / 16) % 2 == 1 {
        ChromaFormat::Monochrome
    } else if x == 1 && y == 1 {
        ChromaFormat::Yuv420
    } else if x == 1 && y == 0 {
        ChromaFormat::Yuv422
    } else if x == 0 && y == 0 {
        ChromaFormat::Yuv444
    } else {
        ChromaFormat::Other
    };
    let cfg = VideoCodecConfig {
        profile_idc: Some(seq_profile as u32),
        profile_name: Some(owned(profile_name(seq_profile))),
        level_idc: None,
        level_name: None,
        tier: None,
        chroma_format: Some(chroma),
        bit_depth_luma: Some(bit_depth),
        bit_depth_chroma: Some(bit_depth),
        raw_hex: Some(hex_encode(pl)),
        is_elementary_stream: Some(false),
        sample_aspect_ratio: None,
    };
    builder.video_codec_config = Some(cfg);
    Ok(())
}

/// Name of an AV1 `seq_profile`.
pub fn profile_name(profile: u8) -> (s: &'static str)
    ensures
        s@ == av1_profile_name(profile as int),
{
    if profile == 0 {
        "Main"
    } else if profile == 1 {
        "High"
    } else if profile == 2 {
        "Professional"
    } else {
        "Unknown"
    }
}

/// Each AV1 `seq_profile` has its own name: 0 is Main, 1 is High, 2 is
/// Professional, and every other value, and only those, is Unknown.
pub proof fn law_av1_profile_names(profile: int)
    ensures
        av1_profile_name(profile) == "Main"@ <==> profile == 0,
        av1_profile_name(profile) == "High"@ <==> profile == 1,
        av1_profile_name(profile) == "Professional"@ <==> profile == 2,
        av1_profile_name(profile) == "Unknown"@ <==> (profile < 0 || profile > 2),
{
    reveal_strlit("Main");
    reveal_strlit("High");
    reveal_strlit("Professional");
    reveal_strlit("Unknown");
    assert("Main"@[0] == 'M' && "High"@[0] == 'H' && "Professional"@[0] == 'P' && "Unknown"@[0] == 'U');
}

/// The bit depth and chroma format of an `av1C` flags byte: 12 bits when
/// the twelve-bit flag (0x20) is set, else 10 with the high-bitdepth flag
/// (0x40), else 8; monochrome (0x10), else by the subsampling flags x
/// (0x08) and y (0x04): both 4:2:0, x alone 4:2:2, neither 4:4:4.
pub proof fn law_av1_flags(flags: u8)
    ensures
        flags & 0x20 != 0 ==> av1_bit_depth(flags) == 12,
        flags & 0x60 == 0x40 ==> av1_bit_depth(flags) == 10,
        flags & 0x60 == 0 ==> av1_bit_depth(flags) == 8,
        flags & 0x10 != 0 ==> av1_chroma(flags) == ChromaFormat::Monochrome,
        flags & 0x1C == 0x0C ==> av1_chroma(flags) == ChromaFormat::Yuv420,
        flags & 0x1C == 0x08 ==> av1_chroma(flags) == ChromaFormat::Yuv422,
        flags & 0x1C == 0x00 ==> av1_chroma(flags) == ChromaFormat::Yuv444,
        flags & 0x1C == 0x04 ==> av1_chroma(flags) == ChromaFormat::Other,
{
    assert((flags & 0x20 != 0) == ((flags / 32) % 2 == 1)) by (bit_vector);
    assert((flags & 0x60 == 0x40) == ((flags / 32) % 2 == 0 && (flags / 64) % 2 == 1)) by (bit_vector);
    assert((flags & 0x60 == 0) == ((flags / 32) % 2 == 0 && (flags / 64) % 2 == 0)) by (bit_vector);
    assert((flags & 0x10 != 0) == ((flags / 16) % 2 == 1)) by (bit_vector);
    assert((flags & 0x1C == 0x0C) == ((flags / 16) % 2 == 0 && (flags / 8) % 2 == 1 && (flags / 4) % 2 == 1)) by (bit_vector);
    assert((flags & 0x1C == 0x08) == ((flags / 16) % 2 == 0 && (flags / 8) % 2 == 1 && (flags / 4) % 2 == 0)) by (bit_vector);
    assert((flags & 0x1C == 0x00) == ((flags / 16) % 2 == 0 && (flags / 8) % 2 == 0 && (flags / 4) % 2 == 0)) by (bit_vector);
    assert((flags & 0x1C == 0x04) == ((flags / 16) % 2 == 0 && (flags / 8) % 2 == 0 && (flags / 4) % 2 == 1)) by (bit_vector);
}

} // verus!
