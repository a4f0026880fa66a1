//! `pasp` (pixel aspect ratio): two big-endian `u32`, numerator and
//! denominator.

use vstd::prelude::*;
use crate::source::{FileSource, ParseError, be32, be32_at};
use crate::model::{SampleAspectRatio, VideoCodecConfig};
use crate::mp4::atom::{BoxHeader, payload_read, read_payload};
use crate::mp4::moov::trak::TrackBuilder;

verus! {

/// `n` is `o` with the video codec configuration's sample aspect ratio set
/// to `sar` (the configuration created empty when absent).
pub open spec fn with_sample_aspect_ratio(o: TrackBuilder, n: TrackBuilder, sar: SampleAspectRatio) -> bool {
    &&& n == (TrackBuilder { video_codec_config: n.video_codec_config, ..o })
    &&& n.video_codec_config matches Some(c) && c.sample_aspect_ratio == Some(sar) && match o.video_codec_config {
        Some(oc) => c == (VideoCodecConfig { sample_aspect_ratio: c.sample_aspect_ratio, ..oc }),
        None => (VideoCodecConfig { sample_aspect_ratio: None, ..c }).is_empty(),
    }
}

/// Parse a `pasp` payload at the cursor into the video codec
/// configuration.  Payloads over 16 bytes are refused (`OversizedElement`),
/// under 8 bytes are `Malformed`.
pub fn parse(src: &mut FileSource, header: &BoxHeader, builder: &mut TrackBuilder) -> (r: Result<(), ParseError>)
    ensures
        final(src).bytes() == old(src).bytes(),
        match payload_read(old(src).bytes(), old(src).pos(), header@, 16) {
            Err(e) => r == Err::<(), ParseError>(e) && *final(builder) == *old(builder),
            Ok(pl) => if pl.len() < 8 {
                r == Err::<(), ParseError>(ParseError::Malformed { offset: header.start })
                    && *final(builder) == *old(builder)
            } else {
                r is Ok && with_sample_aspect_ratio(
                    *old(builder),
                    *final(builder),
                    SampleAspectRatio { num: be32(pl, 0) as u32, den: be32(pl, 4) as u32 },
                )
            },
        },
{
    let payload = read_payload(src, header, 16)?;
    if payload.len() < 8 {
        return Err(ParseError::Malformed { offset: header.start });
    }
    let num = be32_at(payload.as_slice(), 0);
    let den = be32_at(payload.as_slice(), 4);
    let mut cfg = match builder.video_codec_config.take() {
        Some(c) => c,
        None => VideoCodecConfig::default(),
    };
    cfg.sample_aspect_ratio = Some(SampleAspectRatio { num, den });
    builder.video_codec_config = Some(cfg);
    Ok(())
}

} // verus!
