//! `colr` (colour information).  `nclx` / `nclc` carry the H.273 colour
//! primaries, transfer characteristics and matrix coefficients, `nclx` also
//! a full-range flag in the top bit of its eleventh byte; `prof` (an ICC
//! profile) and unknown kinds only record that colour information exists.

use vstd::prelude::*;
use crate::source::{FileSource, ParseError, be16, be16_at};
use crate::model::{ColorMetadata, ColorRange, VideoTrackProperties};
use crate::mp4::atom::{BoxHeader, payload_read, read_payload};
use crate::mp4::codec_specific::{has_tag, tagged};
use crate::mp4::moov::trak::TrackBuilder;

verus! {

/// Colour metadata with no field set.
pub open spec fn empty_color() -> ColorMetadata {
    ColorMetadata {
        bits_per_channel: None,
        primaries: None,
        transfer_characteristics: None,
        matrix_coefficients: None,
        range: None,
    }
}

/// The colour metadata a `colr` box updates: the track's, or empty.
pub open spec fn base_color(video: Option<VideoTrackProperties>) -> ColorMetadata {
    match video {
        Some(v) => match v.color {
            Some(c) => c,
            None => empty_color(),
        },
        None => empty_color(),
    }
}

/// The video properties after a decoder configuration reports luma bit
/// depth `depth`: when the track has video properties, their colour
/// metadata (created empty when absent) takes `depth` as bits per channel
/// unless one is already recorded.
pub open spec fn depth_synced(video: Option<VideoTrackProperties>, depth: u32) -> Option<VideoTrackProperties> {
    match video {
        None => None,
        Some(v) => {
            let b = base_color(video);
            Some(VideoTrackProperties {
                color: Some(ColorMetadata {
                    bits_per_channel: Some(match b.bits_per_channel {
                        Some(d) => d,
                        None => depth,
                    }),
                    ..b
                }),
                ..v
            })
        },
    }
}

/// Record luma bit depth `depth` in the colour metadata of `video`, as
/// [`depth_synced`] says.
pub fn sync_bit_depth(video: &mut Option<VideoTrackProperties>, depth: u32)
    ensures
        *final(video) == depth_synced(*old(video), depth),
{
    if let Some(mut v) = video.take() {
        let mut color = match v.color.take() {
            Some(c) => c,
            None => ColorMetadata::default(),
        };
        if color.bits_per_channel.is_none() {
            color.bits_per_channel = Some(depth);
        }
        v.color = Some(color);
        *video = Some(v);
    }
}

/// `c` updated by the `colr` payload `pl`.
pub open spec fn colr_applied(c: ColorMetadata, pl: Seq<u8>) -> ColorMetadata {
    let nclx = tagged(pl, seq![0x6eu8, 0x63, 0x6c, 0x78]);
    let nclc = tagged(pl, seq![0x6eu8, 0x63, 0x6c, 0x63]);
    if (nclx || nclc) && pl.len() >= 10 {
        let c1 = ColorMetadata {
            primaries: Some(be16(pl, 4) as u32),
            transfer_characteristics: Some(be16(pl, 6) as u32),
            matrix_coefficients: Some(be16(pl, 8) as u32),
            ..c
        };
        if nclx && pl.len() >= 11 {
            ColorMetadata {
                range: Some(if pl[10] >= 0x80 { ColorRange::Full } else { ColorRange::Broadcast }),
                ..c1
            }
        } else {
            c1
        }
    } else {
        c
    }
}

/// `n` is `o` with its video properties (created empty when absent) holding
/// the colour metadata updated by `pl`.
pub open spec fn with_colour(o: TrackBuilder, n: TrackBuilder, pl: Seq<u8>) -> bool {
    &&& n == (TrackBuilder { video: n.video, ..o })
    &&& n.video matches Some(nv) && nv.color == Some(colr_applied(base_color(o.video), pl))
        && match o.video {
            Some(ov) => nv == (VideoTrackProperties { color: nv.color, ..ov }),
            None => (VideoTrackProperties { color: None, ..nv }).is_empty(),
        }
}

/// Parse a `colr` box with no caller cap.
pub fn parse(src: &mut FileSource, header: &BoxHeader, builder: &mut TrackBuilder) -> (r: Result<(), ParseError>)
    ensures
        final(src).bytes() == old(src).bytes(),
        match payload_read(old(src).bytes(), old(src).pos(), header@, u64::MAX) {
            Err(e) => r == Err::<(), ParseError>(e) && *final(builder) == *old(builder),
            Ok(pl) => r is Ok && if pl.len() < 4 {
                *final(builder) == *old(builder)
            } else {
                with_colour(*old(builder), *final(builder), pl)
            },
        },
{
    parse_with_cap(src, header, builder, u64::MAX)
}

/// Parse a `colr` box at the cursor, its payload refused above
/// `payload_cap`.  A payload under 4 bytes changes nothing; a truncated
/// `nclx` / `nclc` leaves the colour fields as they were.
pub fn parse_with_cap(src: &mut FileSource, header: &BoxHeader, builder: &mut TrackBuilder, payload_cap: u64) -> (r: Result<(), ParseError>)
    ensures
        final(src).bytes() == old(src).bytes(),
        match payload_read(old(src).bytes(), old(src).pos(), header@, payload_cap) {
            Err(e) => r == Err::<(), ParseError>(e) && *final(builder) == *old(builder),
            Ok(pl) => r is Ok && if pl.len() < 4 {
                *final(builder) == *old(builder)
            } else {
                with_colour(*old(builder), *final(builder), pl)
            },
        },
{
    let payload = read_payload(src, header, payload_cap)?;
    let len = payload.len();
    if len < 4 {
        return Ok(());
    }
    let pl = payload.as_slice();
    let mut video = match builder.video.take() {
        Some(v) => v,
        None => VideoTrackProperties::default(),
    };
    let mut color = match video.color.take() {
        Some(c) => c,
        None => ColorMetadata::default(),
    };
    let nclx = has_tag(pl, 0x6e, 0x63, 0x6c, 0x78);
    let nclc = has_tag(pl, 0x6e, 0x63, 0x6c, 0x63);
    if (nclx || nclc) && len >= 10 {
        color.primaries = Some(be16_at(pl, 4) as u32);
        color.transfer_characteristics = Some(be16_at(pl, 6) as u32);
        color.matrix_coefficients = Some(be16_at(pl, 8) as u32);
        if nclx && len >= 11 {
            color.range = Some(if pl[10] >= 0x80 { ColorRange::Full } else { ColorRange::Broadcast });
        }
    }
    video.color = Some(color);
    builder.video = Some(video);
    Ok(())
}

} // verus!
