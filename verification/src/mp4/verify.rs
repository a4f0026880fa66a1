//! The first-sample track verification: codec families, the verdicts on
//! video and audio tracks and the decoder-configuration gates behind them,
//! the first-frame decoder an audio track needs, parameter recovery, and
//! the bounded read of a track's first bytes.

use vstd::prelude::*;
use vstd::string::StrSliceExecFns;
use crate::source::{FileSource, ParseError};
use crate::model::{AudioTrackProperties, SampleRate, TrackType};
use crate::mp4::identify::{effective_codec, effective_codec_id};
use crate::mp4::moov::hdlr::{Handler, handler_track_type, is_metadata_handler_type};
use crate::mp4::moov::trak::TrackBuilder;
use crate::mp4::moov::MoovBuilder;
use crate::text::str_eq;

verus! {

/// Largest number of first bytes read for a track.
pub const MAX_FIRST_BYTES: u64 = 16384;

/// Bytes of the ALAC box's full-box header.
pub const ALAC_FULLBOX_HEADER: u64 = 4;

/// Bytes of an ALACSpecificConfig.
pub const ALAC_CODEC_CONFIG_SIZE: u64 = 24;

/// Track type of a builder by its handler: `None` without a handler or for
/// a metadata handler.
pub open spec fn builder_track_type(b: TrackBuilder) -> Option<TrackType> {
    match b.handler_type {
        None => None,
        Some(h) => if is_metadata_handler_type(h@) {
            None
        } else {
            Some(handler_track_type(h@))
        },
    }
}

/// Track type of a builder by its handler (see [`builder_track_type`]).
pub fn classify(builder: &TrackBuilder) -> (r: Option<TrackType>)
    ensures
        r == builder_track_type(*builder),
{
    let handler_type = match builder.handler_type {
        Some(h) => h,
        None => return None,
    };
    let handler = Handler { handler_type, name: String::new() };
    if handler.is_metadata_handler() {
        return None;
    }
    Some(handler.classify())
}

/// AVC codec ids.
pub fn is_avc(codec: &str) -> (r: bool)
    ensures
        r == (codec@ == "avc1"@ || codec@ == "avc3"@ || codec@ == "V_MPEG4/ISO/AVC"@),
{
    str_eq(codec, "avc1") || str_eq(codec, "avc3") || str_eq(codec, "V_MPEG4/ISO/AVC")
}

/// HEVC codec ids.
pub fn is_hevc(codec: &str) -> (r: bool)
    ensures
        r == (codec@ == "hvc1"@ || codec@ == "hev1"@ || codec@ == "V_MPEGH/ISO/HEVC"@),
{
    str_eq(codec, "hvc1") || str_eq(codec, "hev1") || str_eq(codec, "V_MPEGH/ISO/HEVC")
}

/// MPEG-4 Visual codec ids.
pub fn is_mp4v(codec: &str) -> (r: bool)
    ensures
        r == (codec@ == "mp4v"@ || codec@ == "V_MPEG4/ISO/ASP"@),
{
    str_eq(codec, "mp4v") || str_eq(codec, "V_MPEG4/ISO/ASP")
}

/// DTS codec ids.
pub fn is_dts(codec: &str) -> (r: bool)
    ensures
        r == (codec@ == "A_DTS"@ || codec@ == "dtsc"@ || codec@ == "dtsh"@ || codec@ == "dtse"@
            || codec@ == "dts "@),
{
    str_eq(codec, "A_DTS") || str_eq(codec, "dtsc") || str_eq(codec, "dtsh") || str_eq(codec, "dtse")
        || str_eq(codec, "dts ")
}

/// MPEG audio layer II / III codec ids.
pub fn is_mp2_mp3(codec: &str) -> (r: bool)
    ensures
        r == (codec@ == "A_MPEG/L3"@ || codec@ == "A_MPEG/L2"@ || codec@ == ".mp3"@ || codec@ == "mp3 "@),
{
    str_eq(codec, "A_MPEG/L3") || str_eq(codec, "A_MPEG/L2") || str_eq(codec, ".mp3") || str_eq(codec, "mp3 ")
}

/// AC-3 codec ids.
pub fn is_ac3(codec: &str) -> (r: bool)
    ensures
        r == (codec@ == "A_AC3"@ || codec@ == "ac-3"@ || codec@ == "ac3 "@ || codec@ == "sac3"@),
{
    str_eq(codec, "A_AC3") || str_eq(codec, "ac-3") || str_eq(codec, "ac3 ") || str_eq(codec, "sac3")
}

/// Apple Lossless codec ids.
pub fn is_alac(codec: &str) -> (r: bool)
    ensures
        r == (codec@ == "alac"@ || codec@ == "A_ALAC"@),
{
    str_eq(codec, "alac") || str_eq(codec, "A_ALAC")
}

/// The track has a decoder configuration record of at least `min_len`
/// bytes (its hexadecimal text holds two digits per byte).
pub open spec fn decoder_config_at_least(b: TrackBuilder, min_len: int) -> bool {
    b.video_codec_config matches Some(c) && c.raw_hex matches Some(h) && h@.len() / 2 >= min_len
}

/// Whether the track has a decoder configuration record of at least
/// `min_len` bytes.
pub fn has_decoder_config(builder: &TrackBuilder, min_len: usize) -> (r: bool)
    ensures
        r == decoder_config_at_least(*builder, min_len as int),
{
    match &builder.video_codec_config {
        Some(c) => match &c.raw_hex {
            Some(hex) => hex.as_str().unicode_len() / 2 >= min_len,
            None => false,
        },
        None => false,
    }
}

/// The ALAC cookie (full-box header and ALACSpecificConfig) is present.
pub open spec fn alac_cookie_present(b: TrackBuilder) -> bool {
    b.codec_private_hex matches Some(h) && h@.len() / 2 >= ALAC_FULLBOX_HEADER + ALAC_CODEC_CONFIG_SIZE
}

/// Whether the ALAC cookie is present (see [`alac_cookie_present`]).
pub fn alac_config_present(builder: &TrackBuilder) -> (r: bool)
    ensures
        r == alac_cookie_present(*builder),
{
    match &builder.codec_private_hex {
        Some(hex) => (hex.as_str().unicode_len() / 2) as u64 >= ALAC_FULLBOX_HEADER + ALAC_CODEC_CONFIG_SIZE,
        None => false,
    }
}

/// A VobSub track needs at least 64 bytes of DecoderSpecificInfo.
pub open spec fn vobsub_rejected(b: TrackBuilder) -> bool {
    effective_codec(b) == "S_VOBSUB"@ && match b.esds_decoder_specific_len {
        Some(n) => n < 64,
        None => true,
    }
}

/// Reject a VobSub track whose DecoderSpecificInfo is under 64 bytes.
pub fn verify_subtitles(builder: &mut TrackBuilder)
    ensures
        *final(builder) == (TrackBuilder {
            probe_failed: old(builder).probe_failed || vobsub_rejected(*old(builder)),
            ..*old(builder)
        }),
{
    let codec = effective_codec_id(builder);
    let short = match builder.esds_decoder_specific_len {
        Some(n) => n < 64,
        None => true,
    };
    if str_eq(codec.as_str(), "S_VOBSUB") && short {
        builder.probe_failed = true;
    }
}

/// The rate is absent or zero.
pub open spec fn rate_is_zero(r: Option<SampleRate>) -> bool {
    match r {
        None => true,
        Some(SampleRate::Hz(v)) => v == 0,
        Some(SampleRate::Fixed16(v)) => v == 0,
        Some(SampleRate::Float64Bits(b)) => b == 0 || b == 0x8000_0000_0000_0000,
    }
}

/// `a` with the channel count, rate and bit depth recovered from a first
/// frame filled in where missing or zero, and only with values that are
/// not zero.
pub open spec fn recovered_audio(a: AudioTrackProperties, channels: u32, sample_rate: u32, bits: u32) -> AudioTrackProperties {
    AudioTrackProperties {
        channels: if (a.channels is None || a.channels == Some(0u32)) && channels != 0 {
            Some(channels)
        } else {
            a.channels
        },
        sampling_frequency: if rate_is_zero(a.sampling_frequency) && sample_rate != 0 {
            Some(SampleRate::Hz(sample_rate))
        } else {
            a.sampling_frequency
        },
        bit_depth: if a.bit_depth is None && bits != 0 {
            Some(bits)
        } else {
            a.bit_depth
        },
        ..a
    }
}

/// Audio properties with nothing known.
pub open spec fn empty_audio() -> AudioTrackProperties {
    AudioTrackProperties {
        channels: None,
        sampling_frequency: None,
        output_sampling_frequency: None,
        bit_depth: None,
        codec_config: None,
    }
}

/// The audio properties of a track, empty ones when it has none.
pub open spec fn audio_or_empty(a: Option<AudioTrackProperties>) -> AudioTrackProperties {
    match a {
        Some(a) => a,
        None => empty_audio(),
    }
}

/// Fill in audio parameters found in a first frame where the track lacks
/// them (see [`recovered_audio`]).
pub fn recover_audio_params(builder: &mut TrackBuilder, channels: u32, sample_rate: u32, bits: u32)
    ensures
        *final(builder) == (TrackBuilder {
            audio: Some(recovered_audio(audio_or_empty(old(builder).audio), channels, sample_rate, bits)),
            ..*old(builder)
        }),
{
    let mut audio = match builder.audio.take() {
        Some(a) => a,
        None => AudioTrackProperties {
            channels: None,
            sampling_frequency: None,
            output_sampling_frequency: None,
            bit_depth: None,
            codec_config: None,
        },
    };
    let no_channels = match audio.channels {
        Some(c) => c == 0,
        None => true,
    };
    if no_channels && channels != 0 {
        audio.channels = Some(channels);
    }
    let no_rate = match audio.sampling_frequency {
        None => true,
        Some(SampleRate::Hz(v)) => v == 0,
        Some(SampleRate::Fixed16(v)) => v == 0,
        Some(SampleRate::Float64Bits(b)) => b == 0 || b == 0x8000_0000_0000_0000,
    };
    if no_rate && sample_rate != 0 {
        audio.sampling_frequency = Some(SampleRate::Hz(sample_rate));
    }
    if audio.bit_depth.is_none() && bits != 0 {
        audio.bit_depth = Some(bits);
    }
    builder.audio = Some(audio);
}

/// The samples a first-bytes read goes through: the recorded first samples,
/// else the first sample alone when its offset is known (size 0 when
/// unknown).
pub open spec fn sample_index(b: TrackBuilder) -> Seq<(u64, u64)> {
    if b.first_samples@.len() > 0 {
        b.first_samples@
    } else {
        match b.first_sample_file_offset {
            Some(off) => seq![(off, match b.first_sample_size {
                Some(s) => s,
                None => 0,
            })],
            None => Seq::empty(),
        }
    }
}

/// The bytes gathered from the samples `idx` after `acc`, up to `total`:
/// from each sample as much as is still wanted, no more than its size (when
/// not zero) and no more than the data holds; the read stops at the first
/// sample at or past the end of the data.
pub open spec fn gather(bytes: Seq<u8>, idx: Seq<(u64, u64)>, acc: Seq<u8>, total: int) -> Seq<u8>
    decreases idx.len(),
{
    if idx.len() == 0 || acc.len() >= total {
        acc
    } else {
        let off = idx[0].0 as int;
        let size = idx[0].1 as int;
        let remaining = total - acc.len();
        let wanted = if size > 0 && size < remaining { size } else { remaining };
        if off >= bytes.len() {
            acc
        } else {
            let want = if wanted < bytes.len() - off { wanted } else { bytes.len() - off };
            gather(bytes, idx.drop_first(), acc + bytes.subrange(off, off + want), total)
        }
    }
}

/// The first bytes of a track: up to `min(max, MAX_FIRST_BYTES)` bytes
/// gathered over its sample index; `None` when that is empty or nothing was
/// gathered.
pub open spec fn first_bytes(bytes: Seq<u8>, b: TrackBuilder, max: u64) -> Option<Seq<u8>> {
    let total: int = if max < MAX_FIRST_BYTES { max as int } else { MAX_FIRST_BYTES as int };
    if total == 0 || sample_index(b).len() == 0 {
        None
    } else {
        let got = gather(bytes, sample_index(b), Seq::empty(), total);
        if got.len() == 0 {
            None
        } else {
            Some(got)
        }
    }
}

/// The view of an optional byte vector.
pub open spec fn opt_bytes(v: Option<Vec<u8>>) -> Option<Seq<u8>> {
    match v {
        Some(b) => Some(b@),
        None => None,
    }
}

/// Read the first bytes of a track (see [`first_bytes`]).
pub fn read_first_bytes(src: &mut FileSource, builder: &TrackBuilder, max: u64) -> (r: Result<Option<Vec<u8>>, ParseError>)
    ensures
        final(src).bytes() == old(src).bytes(),
        r matches Ok(v) && opt_bytes(v) == first_bytes(old(src).bytes(), *builder, max),
{
    let ghost bytes = src.bytes();
    let want_total = if max < MAX_FIRST_BYTES { max } else { MAX_FIRST_BYTES };
    if want_total == 0 {
        return Ok(None);
    }
    let single: Vec<(u64, u64)>;
    let index: &Vec<(u64, u64)> = if builder.first_samples.len() > 0 {
        &builder.first_samples
    } else {
        match builder.first_sample_file_offset {
            Some(off) => {
                let size = match builder.first_sample_size {
                    Some(s) => s,
                    None => 0,
                };
                single = vec![(off, size)];
                &single
            },
            None => return Ok(None),
        }
    };
    proof {
        assert(index@ =~= sample_index(*builder));
    }
    let len = src.length();
    let mut buf: Vec<u8> = Vec::new();
    let mut i: usize = 0;
    assert(index@.skip(0) =~= index@);
    while i < index.len()
        invariant_except_break
            gather(bytes, index@, Seq::empty(), want_total as int) == gather(bytes, index@.skip(i as int), buf@, want_total as int),
        invariant
            src.bytes() == bytes,
            len == bytes.len(),
            i <= index@.len(),
            buf@.len() <= want_total,
            want_total <= MAX_FIRST_BYTES,
            want_total > 0,
        ensures
            gather(bytes, index@, Seq::empty(), want_total as int) == buf@,
        decreases index@.len() - i,
    {
        proof {
            let rest = index@.skip(i as int);
            assert(rest[0] == index@[i as int]);
            assert(rest.drop_first() =~= index@.skip(i + 1));
        }
        let remaining = want_total - buf.len() as u64;
        if remaining == 0 {
            break;
        }
        let (offset, size) = index[i];
        let mut want = remaining;
        if size > 0 && size < want {
            want = size;
        }
        if offset >= len {
            break;
        }
        if len - offset < want {
            want = len - offset;
        }
        src.seek_to(offset);
        let chunk = src.read_at_most(want);
        let ghost before = buf@;
        let mut k: usize = 0;
        while k < chunk.len()
            invariant
                k <= chunk@.len(),
                buf@ == before + chunk@.subrange(0, k as int),
            decreases chunk@.len() - k,
        {
            buf.push(chunk[k]);
            k = k + 1;
            assert(buf@ =~= before + chunk@.subrange(0, k as int));
        }
        proof {
            assert(chunk@.subrange(0, k as int) =~= chunk@);
            assert(chunk@ == bytes.subrange(offset as int, offset + want));
        }
        i = i + 1;
    }
    proof {
        assert(buf@.len() == 0 ==> buf@ =~= Seq::<u8>::empty());
    }
    if buf.len() == 0 {
        return Ok(None);
    }
    Ok(Some(buf))
}

/// What the first-sample check decides of a video track before any
/// decoding: drop it, keep it, or keep it only if an AVC configuration can
/// be derived from its first frames.
#[derive(Debug, Clone, Copy, PartialEq, Eq, Structural)]
pub enum VideoVerdict {
    Keep,
    Drop,
    DeriveAvcConfig,
}

/// The verdict on a video track: dropped without a pixel width and height;
/// an MPEG-4 Visual track needs an `esds` object type and DecoderSpecificInfo;
/// an AVC track is kept with a configuration record of at least 4 bytes and
/// otherwise needs one derived from its bitstream; an HEVC track needs a
/// record of at least 23 bytes; other video tracks are kept.
pub open spec fn video_verdict_of(b: TrackBuilder) -> VideoVerdict {
    let (w, h) = match b.video {
        Some(v) => match v.pixel_dimensions {
            Some(d) => (d.width, d.height),
            None => (0u32, 0u32),
        },
        None => (0u32, 0u32),
    };
    let c = effective_codec(b);
    if w == 0 || h == 0 {
        VideoVerdict::Drop
    } else if c == "mp4v"@ || c == "V_MPEG4/ISO/ASP"@ {
        if b.esds_object_type is None || b.esds_decoder_specific_len is None || b.esds_decoder_specific_len == Some(0usize) {
            VideoVerdict::Drop
        } else {
            VideoVerdict::Keep
        }
    } else if c == "avc1"@ || c == "avc3"@ || c == "V_MPEG4/ISO/AVC"@ {
        if decoder_config_at_least(b, 4) { VideoVerdict::Keep } else { VideoVerdict::DeriveAvcConfig }
    } else if c == "hvc1"@ || c == "hev1"@ || c == "V_MPEGH/ISO/HEVC"@ {
        if decoder_config_at_least(b, 23) { VideoVerdict::Keep } else { VideoVerdict::Drop }
    } else {
        VideoVerdict::Keep
    }
}

/// The verdict on a video track (see [`video_verdict_of`]).
pub fn video_verdict(builder: &TrackBuilder) -> (r: VideoVerdict)
    ensures
        r == video_verdict_of(*builder),
{
    let (width, height) = match &builder.video {
        Some(v) => match v.pixel_dimensions {
            Some(d) => (d.width, d.height),
            None => (0, 0),
        },
        None => (0, 0),
    };
    if width == 0 || height == 0 {
        return VideoVerdict::Drop;
    }
    let codec = effective_codec_id(builder);
    let c = codec.as_str();
    if is_mp4v(c) {
        let len = match builder.esds_decoder_specific_len {
            Some(n) => n,
            None => 0,
        };
        return if builder.esds_object_type.is_none() || len == 0 { VideoVerdict::Drop } else { VideoVerdict::Keep };
    }
    if is_avc(c) {
        return if has_decoder_config(builder, 4) { VideoVerdict::Keep } else { VideoVerdict::DeriveAvcConfig };
    }
    if is_hevc(c) {
        return if has_decoder_config(builder, 23) { VideoVerdict::Keep } else { VideoVerdict::Drop };
    }
    VideoVerdict::Keep
}

/// The first-frame decoder that recovers missing audio parameters.
#[derive(Debug, Clone, Copy, PartialEq, Eq, Structural)]
pub enum FrameProbe {
    MpegAudio,
    Ac3,
    Dts,
}

/// The first-frame decoder for an audio codec id: MPEG audio layer II or
/// III, AC-3, DTS; none for other codecs.
pub open spec fn frame_probe_of(c: Seq<char>) -> Option<FrameProbe> {
    if c == "A_MPEG/L3"@ || c == "A_MPEG/L2"@ || c == ".mp3"@ || c == "mp3 "@ {
        Some(FrameProbe::MpegAudio)
    } else if c == "A_AC3"@ || c == "ac-3"@ || c == "ac3 "@ || c == "sac3"@ {
        Some(FrameProbe::Ac3)
    } else if c == "A_DTS"@ || c == "dtsc"@ || c == "dtsh"@ || c == "dtse"@ || c == "dts "@ {
        Some(FrameProbe::Dts)
    } else {
        None
    }
}

/// The first-frame decoder for an audio track and the number of first
/// bytes it reads: 64 for MPEG audio and AC-3, [`MAX_FIRST_BYTES`] for DTS.
pub fn frame_probe(builder: &TrackBuilder) -> (r: Option<(FrameProbe, u64)>)
    ensures
        match r {
            Some((p, n)) => frame_probe_of(effective_codec(*builder)) == Some(p)
                && n == (if p == FrameProbe::Dts { MAX_FIRST_BYTES } else { 64 }),
            None => frame_probe_of(effective_codec(*builder)) is None,
        },
{
    let codec = effective_codec_id(builder);
    let c = codec.as_str();
    if is_mp2_mp3(c) {
        Some((FrameProbe::MpegAudio, 64))
    } else if is_ac3(c) {
        Some((FrameProbe::Ac3, 64))
    } else if is_dts(c) {
        Some((FrameProbe::Dts, MAX_FIRST_BYTES))
    } else {
        None
    }
}

/// What the first-sample check decides of an audio track once missing
/// parameters have been recovered: drop it, keep it, or keep it only if a
/// DTS header is found in its first bytes.
#[derive(Debug, Clone, Copy, PartialEq, Eq, Structural)]
pub enum AudioVerdict {
    Keep,
    Drop,
    NeedsDtsHeader,
}

/// The verdict on an audio track: dropped with no channels or no rate; an
/// ALAC track needs its cookie; a DTS track needs a header in its first
/// bytes; other audio tracks are kept.
pub open spec fn audio_verdict_of(b: TrackBuilder) -> AudioVerdict {
    let (channels, rate) = match b.audio {
        Some(a) => (match a.channels { Some(c) => c, None => 0u32 }, a.sampling_frequency),
        None => (0u32, None),
    };
    let c = effective_codec(b);
    if channels == 0 || rate_is_zero(rate) {
        AudioVerdict::Drop
    } else if c == "alac"@ || c == "A_ALAC"@ {
        if alac_cookie_present(b) { AudioVerdict::Keep } else { AudioVerdict::Drop }
    } else if c == "A_DTS"@ || c == "dtsc"@ || c == "dtsh"@ || c == "dtse"@ || c == "dts "@ {
        AudioVerdict::NeedsDtsHeader
    } else {
        AudioVerdict::Keep
    }
}

/// The verdict on an audio track (see [`audio_verdict_of`]).
pub fn audio_verdict(builder: &TrackBuilder) -> (r: AudioVerdict)
    ensures
        r == audio_verdict_of(*builder),
{
    let (channels, zero_rate) = match &builder.audio {
        Some(a) => (
            match a.channels {
                Some(c) => c,
                None => 0,
            },
            match a.sampling_frequency {
                None => true,
                Some(SampleRate::Hz(v)) => v == 0,
                Some(SampleRate::Fixed16(v)) => v == 0,
                Some(SampleRate::Float64Bits(b)) => b == 0 || b == 0x8000_0000_0000_0000,
            },
        ),
        None => (0, true),
    };
    if channels == 0 || zero_rate {
        return AudioVerdict::Drop;
    }
    let codec = effective_codec_id(builder);
    let c = codec.as_str();
    if is_alac(c) {
        return if alac_config_present(builder) { AudioVerdict::Keep } else { AudioVerdict::Drop };
    }
    if is_dts(c) {
        return AudioVerdict::NeedsDtsHeader;
    }
    AudioVerdict::Keep
}

/// Apply the checks on a video track that need no decoder: the track is
/// rejected when its verdict is to drop it. An AVC track without a usable
/// configuration record is left as it is, with the verdict telling the
/// caller to derive one from its first frames (and to reject the track when
/// that fails).
pub fn verify_video(builder: &mut TrackBuilder) -> (r: VideoVerdict)
    ensures
        r == video_verdict_of(*old(builder)),
        *final(builder) == (TrackBuilder {
            probe_failed: old(builder).probe_failed || r == VideoVerdict::Drop,
            ..*old(builder)
        }),
{
    let verdict = video_verdict(builder);
    if verdict == VideoVerdict::Drop {
        builder.probe_failed = true;
    }
    verdict
}

/// The track after the parameters that its first-frame decoder found
/// (channels, rate, bit depth) were filled in; unchanged when the codec has
/// no such decoder or the decoder found no header.
pub open spec fn with_frame(b: TrackBuilder, frame: Option<(u32, u32, u32)>) -> TrackBuilder {
    match frame {
        Some((c, r, bits)) => if frame_probe_of(effective_codec(b)) is Some {
            TrackBuilder { audio: Some(recovered_audio(audio_or_empty(b.audio), c, r, bits)), ..b }
        } else {
            b
        },
        None => b,
    }
}

/// An audio track is rejected when, after recovery, its verdict is to drop
/// it, or it is a DTS track whose first bytes held no header.
pub open spec fn audio_rejected(b: TrackBuilder, frame: Option<(u32, u32, u32)>) -> bool {
    let v = audio_verdict_of(with_frame(b, frame));
    v == AudioVerdict::Drop || (v == AudioVerdict::NeedsDtsHeader && frame is None)
}

/// Apply the checks on an audio track. `frame` is what the first-frame
/// decoder of the track's codec (see [`frame_probe`]) found in its first
/// bytes: channels, sample rate and bit depth, `None` when it found no
/// header; it is ignored for a codec without such a decoder. The found
/// parameters fill in missing ones; then the track is rejected on its
/// verdict, or as a DTS track without a header.
pub fn verify_audio(builder: &mut TrackBuilder, frame: Option<(u32, u32, u32)>)
    ensures
        *final(builder) == (TrackBuilder {
            probe_failed: old(builder).probe_failed || audio_rejected(*old(builder), frame),
            ..with_frame(*old(builder), frame)
        }),
{
    let probe = frame_probe(builder);
    let found = if probe.is_some() { frame } else { None };
    if let Some((channels, sample_rate, bits)) = found {
        recover_audio_params(builder, channels, sample_rate, bits);
    }
    let verdict = audio_verdict(builder);
    if verdict == AudioVerdict::Drop || (verdict == AudioVerdict::NeedsDtsHeader && frame.is_none()) {
        builder.probe_failed = true;
    }
}

/// A track still in play that needs a decoder before its check is done: an
/// audio track whose codec has a first-frame decoder, or a video track that
/// must derive an AVC configuration record.
pub open spec fn needs_decoder(b: TrackBuilder) -> bool {
    &&& !b.probe_failed
    &&& !b.media_invalid
    &&& match builder_track_type(b) {
        Some(TrackType::Audio) => frame_probe_of(effective_codec(b)) is Some,
        Some(TrackType::Video) => video_verdict_of(b) == VideoVerdict::DeriveAvcConfig,
        _ => false,
    }
}

/// A track after the checks that need no decoder: tracks already rejected
/// or with an invalid media header are left alone, as are tracks that need
/// a decoder; audio, video and subtitle tracks are checked; other tracks
/// have no check.
pub open spec fn track_checked(b: TrackBuilder) -> TrackBuilder {
    if b.probe_failed || b.media_invalid || needs_decoder(b) {
        b
    } else {
        match builder_track_type(b) {
            Some(TrackType::Audio) => TrackBuilder {
                probe_failed: audio_rejected(b, None),
                ..b
            },
            Some(TrackType::Video) => TrackBuilder {
                probe_failed: video_verdict_of(b) == VideoVerdict::Drop,
                ..b
            },
            Some(TrackType::Subtitles) => TrackBuilder {
                probe_failed: vobsub_rejected(b),
                ..b
            },
            _ => b,
        }
    }
}

/// Indices, in order, of the tracks of `ts` that need a decoder.
pub open spec fn pending_tracks(ts: Seq<TrackBuilder>) -> Seq<usize>
    decreases ts.len(),
{
    if ts.len() == 0 {
        Seq::empty()
    } else {
        let rest = pending_tracks(ts.drop_last());
        if needs_decoder(ts.last()) {
            rest.push((ts.len() - 1) as usize)
        } else {
            rest
        }
    }
}

/// Run the checks that need no decoder over every track of `moov` (see
/// [`track_checked`]) and list the tracks that need one (see
/// [`needs_decoder`]): for those the caller decodes the first bytes and
/// finishes with [`verify_audio`], or derives the AVC record.
pub fn verify_tracks(moov: &mut MoovBuilder) -> (pending: Vec<usize>)
    ensures
        final(moov).tracks@ == old(moov).tracks@.map_values(|b: TrackBuilder| track_checked(b)),
        *final(moov) == (MoovBuilder { tracks: final(moov).tracks, ..*old(moov) }),
        pending@ == pending_tracks(old(moov).tracks@),
{
    let ghost all = moov.tracks@;
    let ghost fixed = *moov;
    let count = moov.tracks.len();
    assert(all.len() == count);
    let mut rest: Vec<TrackBuilder> = Vec::new();
    std::mem::swap(&mut rest, &mut moov.tracks);
    let mut pending: Vec<usize> = Vec::new();
    let mut i: usize = 0;
    assert(all.skip(0) =~= all);
    assert(all.take(0) =~= Seq::<TrackBuilder>::empty());
    while rest.len() > 0
        invariant
            rest@ == all.skip(i as int),
            i + rest@.len() == all.len(),
            all.len() <= usize::MAX,
            moov.tracks@ == all.take(i as int).map_values(|b: TrackBuilder| track_checked(b)),
            pending@ == pending_tracks(all.take(i as int)),
            *moov == (MoovBuilder { tracks: moov.tracks, ..fixed }),
        decreases rest@.len(),
    {
        let mut b = rest.remove(0);
        let ghost orig = b;
        proof {
            assert(orig == all[i as int]);
        }
        if !b.probe_failed && !b.media_invalid {
            match classify(&b) {
                Some(TrackType::Audio) => {
                    if frame_probe(&b).is_some() {
                        pending.push(i);
                    } else {
                        verify_audio(&mut b, None);
                    }
                },
                Some(TrackType::Video) => {
                    if verify_video(&mut b) == VideoVerdict::DeriveAvcConfig {
                        pending.push(i);
                    }
                },
                Some(TrackType::Subtitles) => verify_subtitles(&mut b),
                _ => {},
            }
        }
        proof {
            assert(b == track_checked(orig));
        }
        moov.tracks.push(b);
        proof {
            let t = all.take(i + 1);
            assert(t.drop_last() =~= all.take(i as int));
            assert(t.last() == orig);
            assert(all.skip(i as int).drop_first() =~= all.skip(i + 1));
        }
        i = i + 1;
        proof {
            assert(moov.tracks@ =~= all.take(i as int).map_values(|b: TrackBuilder| track_checked(b)));
        }
    }
    assert(all.take(i as int) =~= all);
    pending
}

} // verus!
