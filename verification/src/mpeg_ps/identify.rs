//! Classification of program-stream streams: by the Program Stream Map
//! `stream_type` when one is known, else by the private-stream-1 sub-stream
//! id, else by the stream id itself; the DVD LPCM header; and the
//! assembly of tracks from streams whose payload has been decoded.

use vstd::prelude::*;
use crate::model::{
    AudioTrackProperties, CodecInfo, CommonTrackProperties, ContainerFormat, MediaMetadata,
    SubtitleTrackProperties, Track, TrackProperties, TrackType, VideoTrackProperties,
};
use crate::text::{owned, str_eq};
use crate::model::SampleRate;
use vstd::string::StrSliceExecFns;
use crate::codec::{TrackKind, Codec, CodecView, cv, codec_view, codec};

verus! {

/// The codec a Program Stream Map `stream_type` names.
pub open spec fn stream_type_codec(st: u8) -> Option<CodecView> {
    if st == 0x01 {
        Some(cv(TrackKind::Video, "V_MPEG1", "MPEG-1 Video"))
    } else if st == 0x02 {
        Some(cv(TrackKind::Video, "V_MPEG2", "MPEG-2 Video"))
    } else if st == 0x03 {
        Some(cv(TrackKind::Audio, "A_MPEG/L2", "MPEG-1 Audio"))
    } else if st == 0x04 {
        Some(cv(TrackKind::Audio, "A_MPEG/L2", "MPEG-2 Audio"))
    } else if st == 0x0F || st == 0x11 {
        Some(cv(TrackKind::Audio, "A_AAC", "AAC"))
    } else if st == 0x10 {
        Some(cv(TrackKind::Video, "V_MPEG4/ISO/ASP", "MPEG-4 Visual"))
    } else if st == 0x1B {
        Some(cv(TrackKind::Video, "V_MPEG4/ISO/AVC", "AVC/H.264"))
    } else if st == 0x80 {
        Some(cv(TrackKind::Audio, "A_PCM/INT/BIG", "LPCM"))
    } else if st == 0x81 {
        Some(cv(TrackKind::Audio, "A_AC3", "AC-3"))
    } else {
        None
    }
}

/// The codec a private-stream-1 sub-stream id names.
pub open spec fn sub_id_codec(sub: u8) -> Option<CodecView> {
    if 0x20 <= sub <= 0x3F {
        Some(cv(TrackKind::Subtitle, "S_VOBSUB", "VobSub"))
    } else if 0x80 <= sub <= 0x87 || 0xC0 <= sub <= 0xC7 {
        Some(cv(TrackKind::Audio, "A_AC3", "AC-3"))
    } else if 0x88 <= sub <= 0x9F {
        Some(cv(TrackKind::Audio, "A_DTS", "DTS"))
    } else if 0xA0 <= sub <= 0xA7 {
        Some(cv(TrackKind::Audio, "A_PCM/INT/BIG", "LPCM"))
    } else if 0xB0 <= sub <= 0xBF {
        Some(cv(TrackKind::Audio, "A_TRUEHD", "TrueHD"))
    } else {
        None
    }
}

/// The codec a bare stream id names.
pub open spec fn bare_id_codec(id: u8) -> Option<CodecView> {
    if 0xC0 <= id <= 0xDF {
        Some(cv(TrackKind::Audio, "A_MPEG/L3", "MPEG-1/2 Audio"))
    } else if 0xE0 <= id <= 0xEF {
        Some(cv(TrackKind::Video, "V_MPEG2", "MPEG-2 Video"))
    } else if id == 0xFD {
        Some(cv(TrackKind::Video, "V_VC1", "VC-1"))
    } else {
        None
    }
}

/// The codec a Program Stream Map `stream_type` names.
pub fn codec_from_stream_type(stream_type: u8) -> (r: Option<Codec>)
    ensures
        codec_view(r) == stream_type_codec(stream_type),
{
    if stream_type == 0x01 {
        Some(codec(TrackKind::Video, "V_MPEG1", "MPEG-1 Video"))
    } else if stream_type == 0x02 {
        Some(codec(TrackKind::Video, "V_MPEG2", "MPEG-2 Video"))
    } else if stream_type == 0x03 {
        Some(codec(TrackKind::Audio, "A_MPEG/L2", "MPEG-1 Audio"))
    } else if stream_type == 0x04 {
        Some(codec(TrackKind::Audio, "A_MPEG/L2", "MPEG-2 Audio"))
    } else if stream_type == 0x0F || stream_type == 0x11 {
        Some(codec(TrackKind::Audio, "A_AAC", "AAC"))
    } else if stream_type == 0x10 {
        Some(codec(TrackKind::Video, "V_MPEG4/ISO/ASP", "MPEG-4 Visual"))
    } else if stream_type == 0x1B {
        Some(codec(TrackKind::Video, "V_MPEG4/ISO/AVC", "AVC/H.264"))
    } else if stream_type == 0x80 {
        Some(codec(TrackKind::Audio, "A_PCM/INT/BIG", "LPCM"))
    } else if stream_type == 0x81 {
        Some(codec(TrackKind::Audio, "A_AC3", "AC-3"))
    } else {
        None
    }
}

/// The codec a private-stream-1 sub-stream id names (`None` for ids in no
/// documented range).
pub fn codec_from_sub_id(sub_id: u8) -> (r: Option<Codec>)
    ensures
        codec_view(r) == sub_id_codec(sub_id),
{
    if 0x20 <= sub_id && sub_id <= 0x3F {
        Some(codec(TrackKind::Subtitle, "S_VOBSUB", "VobSub"))
    } else if (0x80 <= sub_id && sub_id <= 0x87) || (0xC0 <= sub_id && sub_id <= 0xC7) {
        Some(codec(TrackKind::Audio, "A_AC3", "AC-3"))
    } else if 0x88 <= sub_id && sub_id <= 0x9F {
        Some(codec(TrackKind::Audio, "A_DTS", "DTS"))
    } else if 0xA0 <= sub_id && sub_id <= 0xA7 {
        Some(codec(TrackKind::Audio, "A_PCM/INT/BIG", "LPCM"))
    } else if 0xB0 <= sub_id && sub_id <= 0xBF {
        Some(codec(TrackKind::Audio, "A_TRUEHD", "TrueHD"))
    } else {
        None
    }
}

/// The codec a bare stream id names: MPEG audio, MPEG video, VC-1.
pub fn codec_from_bare_id(id: u8) -> (r: Option<Codec>)
    ensures
        codec_view(r) == bare_id_codec(id),
{
    if 0xC0 <= id && id <= 0xDF {
        Some(codec(TrackKind::Audio, "A_MPEG/L3", "MPEG-1/2 Audio"))
    } else if 0xE0 <= id && id <= 0xEF {
        Some(codec(TrackKind::Video, "V_MPEG2", "MPEG-2 Video"))
    } else if id == 0xFD {
        Some(codec(TrackKind::Video, "V_VC1", "VC-1"))
    } else {
        None
    }
}

/// A stream found in the program stream, with its collected elementary
/// payload.
#[derive(Debug)]
pub struct StreamObservation {
    pub stream_id: u8,
    pub sub_id: Option<u8>,
    pub psm_stream_type: Option<u8>,
    pub payload: Vec<u8>,
}

/// An observation for a bare stream id with a codec, nothing else known.
pub fn classify_stream_id(id: u8) -> (r: Option<StreamObservation>)
    ensures
        r is Some <==> bare_id_codec(id) is Some,
        r matches Some(o) ==> o.stream_id == id && o.sub_id is None && o.psm_stream_type is None
            && o.payload@.len() == 0,
{
    if codec_from_bare_id(id).is_none() {
        return None;
    }
    Some(StreamObservation { stream_id: id, sub_id: None, psm_stream_type: None, payload: Vec::new() })
}

/// The codec of an observation: the map's `stream_type` when known (even
/// when it names no codec), else the sub-stream id for private stream 1,
/// else the bare stream id.
pub open spec fn observed_codec(stream_id: u8, sub_id: Option<u8>, psm: Option<u8>) -> Option<CodecView> {
    match psm {
        Some(st) => stream_type_codec(st),
        None => if stream_id == 0xBD {
            match sub_id {
                Some(s) => sub_id_codec(s),
                None => None,
            }
        } else {
            bare_id_codec(stream_id)
        },
    }
}

/// The codec of an observation (see [`observed_codec`]).
pub fn resolve_codec(obs: &StreamObservation) -> (r: Option<Codec>)
    ensures
        codec_view(r) == observed_codec(obs.stream_id, obs.sub_id, obs.psm_stream_type),
{
    if let Some(st) = obs.psm_stream_type {
        return codec_from_stream_type(st);
    }
    if obs.stream_id == 0xBD {
        return match obs.sub_id {
            Some(s) => codec_from_sub_id(s),
            None => None,
        };
    }
    codec_from_bare_id(obs.stream_id)
}

/// Sample rates of the DVD LPCM frequency code.
pub open spec fn lpcm_rate(code: int) -> u32 {
    if code == 0 {
        48000
    } else if code == 1 {
        96000
    } else if code == 2 {
        44100
    } else {
        32000
    }
}

/// The DVD LPCM header of `payload`: from its second byte, bits per sample
/// (`16 + 4 * top two bits`), sample rate (next two bits) and channels
/// (low three bits plus one).  `None` when fewer than two bytes are given
/// or for 28 bits per sample.
pub open spec fn lpcm_header(payload: Seq<u8>) -> Option<(u32, u32, u32)> {
    if payload.len() < 2 {
        None
    } else {
        let b = payload[1];
        let bits = 16 + (b / 64) * 4;
        if bits == 28 {
            None
        } else {
            Some((((b % 8) + 1) as u32, lpcm_rate(((b / 16) % 4) as int), bits as u32))
        }
    }
}

/// Decode the DVD LPCM header as `(channels, sample_rate, bits_per_sample)`
/// (see [`lpcm_header`]).
pub fn decode_lpcm_header(payload: &[u8]) -> (r: Option<(u32, u32, u32)>)
    ensures
        r == lpcm_header(payload@),
{
    if payload.len() < 2 {
        return None;
    }
    let b = payload[1];
    let bits_per_sample = 16 + (b / 64) as u32 * 4;
    let code = (b / 16) % 4;
    let sample_rate: u32 = if code == 0 {
        48000
    } else if code == 1 {
        96000
    } else if code == 2 {
        44100
    } else {
        32000
    };
    let channels = (b % 8) as u32 + 1;
    if bits_per_sample == 28 {
        return None;
    }
    Some((channels, sample_rate, bits_per_sample))
}

/// Sort bucket of a track type: video, audio, subtitles, then the rest.
pub fn track_sort_bucket(track_type: TrackType) -> (r: u32)
    ensures
        r == match track_type {
            TrackType::Video => 0u32,
            TrackType::Audio => 1,
            TrackType::Subtitles => 2,
            _ => 3,
        },
{
    match track_type {
        TrackType::Video => 0,
        TrackType::Audio => 1,
        TrackType::Subtitles => 2,
        _ => 3,
    }
}

/// Stream id and sub-stream id (zero when absent) as one number, the
/// stream id in the high byte.
pub fn encoded_stream_id(obs: &StreamObservation) -> (r: u32)
    ensures
        r == obs.stream_id * 256 + match obs.sub_id {
            Some(s) => s as int,
            None => 0,
        },
{
    let sub = match obs.sub_id {
        Some(s) => s as u32,
        None => 0,
    };
    (obs.stream_id as u32) * 256 + sub
}

/// A stream ready to become a track: its ids, its codec as payload
/// decoding settled it, its track type and the properties decoding found.
#[derive(Debug)]
pub struct PreparedStream {
    pub stream_id: u8,
    pub sub_id: Option<u8>,
    pub codec: Codec,
    pub track_type: TrackType,
    pub video: Option<VideoTrackProperties>,
    pub audio: Option<AudioTrackProperties>,
}

/// The elementary stream decoder a stream's payload has to go through
/// before the stream can become a track.
#[derive(Debug, Clone, Copy, PartialEq, Eq, Structural)]
pub enum PayloadDecoder {
    /// AVC sequence parameter set.
    Avc,
    /// VC-1 sequence header.
    Vc1,
    /// MPEG-1/2 video (after a check for AVC in the payload).
    MpegVideo,
    /// AC-3 or E-AC-3 frame.
    Ac3,
    /// DTS core header.
    Dts,
    /// TrueHD sync frame.
    TrueHd,
    /// MPEG audio frame header.
    MpegAudio,
}

/// How far a stream gets towards a track without an elementary stream
/// decoder.
#[derive(Debug)]
pub enum Preparation {
    /// Ready to become a track.
    Ready(PreparedStream),
    /// The stream does not become a track.
    Dropped,
    /// The stream, its codec and the decoder its payload needs.
    NeedsDecoder(StreamObservation, Codec, PayloadDecoder),
}

/// Whether a codec id starts with "A_MPEG".
pub open spec fn mpeg_audio_id(id: Seq<char>) -> bool {
    id.len() >= 6 && id.subrange(0, 6) == "A_MPEG"@
}

/// What a codec needs before its stream becomes a track: `Ok(None)` for a
/// subtitle, which needs nothing, `Ok(Some(d))` for a codec whose payload
/// goes to decoder `d`, `Err(true)` for DVD LPCM, whose header the library
/// reads itself, `Err(false)` for a codec that is not taken.
pub open spec fn codec_need(c: CodecView) -> Result<Option<PayloadDecoder>, bool> {
    match c.kind {
        TrackKind::Subtitle => Ok(None),
        TrackKind::Video => if c.id == "V_MPEG4/ISO/AVC"@ {
            Ok(Some(PayloadDecoder::Avc))
        } else if c.id == "V_VC1"@ {
            Ok(Some(PayloadDecoder::Vc1))
        } else if c.id == "V_MPEG1"@ || c.id == "V_MPEG2"@ {
            Ok(Some(PayloadDecoder::MpegVideo))
        } else {
            Err(false)
        },
        TrackKind::Audio => if c.id == "A_AC3"@ || c.id == "A_EAC3"@ {
            Ok(Some(PayloadDecoder::Ac3))
        } else if c.id == "A_DTS"@ {
            Ok(Some(PayloadDecoder::Dts))
        } else if c.id == "A_TRUEHD"@ {
            Ok(Some(PayloadDecoder::TrueHd))
        } else if c.id == "A_PCM/INT/BIG"@ {
            Err(true)
        } else if mpeg_audio_id(c.id) {
            Ok(Some(PayloadDecoder::MpegAudio))
        } else {
            Err(false)
        },
        _ => Err(false),
    }
}

/// What a codec needs (see [`codec_need`]).
fn codec_need_of(c: &Codec) -> (r: Result<Option<PayloadDecoder>, bool>)
    ensures
        r == codec_need(c@),
{
    match c.kind {
        TrackKind::Subtitle => Ok(None),
        TrackKind::Video => if str_eq(c.id, "V_MPEG4/ISO/AVC") {
            Ok(Some(PayloadDecoder::Avc))
        } else if str_eq(c.id, "V_VC1") {
            Ok(Some(PayloadDecoder::Vc1))
        } else if str_eq(c.id, "V_MPEG1") || str_eq(c.id, "V_MPEG2") {
            Ok(Some(PayloadDecoder::MpegVideo))
        } else {
            Err(false)
        },
        TrackKind::Audio => if str_eq(c.id, "A_AC3") || str_eq(c.id, "A_EAC3") {
            Ok(Some(PayloadDecoder::Ac3))
        } else if str_eq(c.id, "A_DTS") {
            Ok(Some(PayloadDecoder::Dts))
        } else if str_eq(c.id, "A_TRUEHD") {
            Ok(Some(PayloadDecoder::TrueHd))
        } else if str_eq(c.id, "A_PCM/INT/BIG") {
            Err(true)
        } else if c.id.unicode_len() >= 6 && str_eq(c.id.substring_char(0, 6), "A_MPEG") {
            Ok(Some(PayloadDecoder::MpegAudio))
        } else {
            Err(false)
        },
        _ => Err(false),
    }
}

/// Audio properties of a DVD LPCM header: channels, rate and bit depth.
pub open spec fn lpcm_audio(a: AudioTrackProperties, h: (u32, u32, u32)) -> bool {
    &&& a.channels == Some(h.0)
    &&& a.sampling_frequency == Some(SampleRate::Hz(h.1))
    &&& a.bit_depth == Some(h.2)
    &&& a.output_sampling_frequency is None
    &&& a.codec_config is None
}

/// An observation as values: stream id, sub-stream id, map type, payload.
pub open spec fn observation_view(o: StreamObservation) -> (u8, Option<u8>, Option<u8>, Seq<u8>) {
    (o.stream_id, o.sub_id, o.psm_stream_type, o.payload@)
}

/// Whether `r` is how preparing the observation `o` turns out (see
/// [`prepare_stream`]).
pub open spec fn prep_outcome(o: (u8, Option<u8>, Option<u8>, Seq<u8>), r: Preparation) -> bool {
    match observed_codec(o.0, o.1, o.2) {
        None => r is Dropped,
        Some(c) => match codec_need(c) {
            Err(false) => r is Dropped,
            Ok(None) => r matches Preparation::Ready(p) && p.stream_id == o.0 && p.sub_id == o.1
                && p.codec@ == c && p.track_type == TrackType::Subtitles && p.video is None && p.audio is None,
            Err(true) => match lpcm_header(o.3) {
                None => r is Dropped,
                Some(h) => r matches Preparation::Ready(p) && p.stream_id == o.0 && p.sub_id == o.1
                    && p.codec@ == c && p.track_type == TrackType::Audio && p.video is None
                    && (p.audio matches Some(a) && lpcm_audio(a, h)),
            },
            Ok(Some(d)) => r matches Preparation::NeedsDecoder(ob, k, n) && observation_view(ob) == o && k@ == c
                && n == d,
        },
    }
}

/// Which way preparing the observation `o` goes: 0 ready, 1 dropped, 2
/// handed back for a decoder.
pub open spec fn prep_class(o: (u8, Option<u8>, Option<u8>, Seq<u8>)) -> int {
    match observed_codec(o.0, o.1, o.2) {
        None => 1,
        Some(c) => match codec_need(c) {
            Err(false) => 1,
            Ok(None) => 0,
            Err(true) => if lpcm_header(o.3) is Some { 0 } else { 1 },
            Ok(Some(_)) => 2,
        },
    }
}

/// Prepares a stream for a track as far as no elementary stream decoder
/// is needed: a stream without a codec, or whose codec is not taken, is
/// dropped; a subtitle stream is ready as it is; a DVD LPCM stream is
/// ready with the parameters of its header, and dropped without one;
/// every other stream is handed back with the decoder it needs (see
/// [`codec_need`]).
pub fn prepare_stream(obs: StreamObservation) -> (r: Preparation)
    ensures
        prep_outcome(observation_view(obs), r),
        r matches Preparation::NeedsDecoder(o, _, _) ==> o == obs,
{
    let codec = match resolve_codec(&obs) {
        Some(c) => c,
        None => {
            return Preparation::Dropped;
        },
    };
    match codec_need_of(&codec) {
        Err(false) => Preparation::Dropped,
        Ok(None) => Preparation::Ready(PreparedStream {
            stream_id: obs.stream_id,
            sub_id: obs.sub_id,
            codec,
            track_type: TrackType::Subtitles,
            video: None,
            audio: None,
        }),
        Err(true) => match decode_lpcm_header(obs.payload.as_slice()) {
            None => Preparation::Dropped,
            Some((channels, rate, bits)) => {
                let mut a = AudioTrackProperties::default();
                a.channels = Some(channels);
                a.sampling_frequency = Some(SampleRate::Hz(rate));
                a.bit_depth = Some(bits);
                Preparation::Ready(PreparedStream {
                    stream_id: obs.stream_id,
                    sub_id: obs.sub_id,
                    codec,
                    track_type: TrackType::Audio,
                    video: None,
                    audio: Some(a),
                })
            },
        },
        Ok(Some(d)) => Preparation::NeedsDecoder(obs, codec, d),
    }
}

/// The sort bucket of a track type.
pub open spec fn bucket(t: TrackType) -> int {
    match t {
        TrackType::Video => 0,
        TrackType::Audio => 1,
        TrackType::Subtitles => 2,
        _ => 3,
    }
}

/// The order of tracks: by bucket, then by stream id and sub-stream id.
pub open spec fn sort_key(p: PreparedStream) -> int {
    bucket(p.track_type) * 65536 + p.stream_id * 256 + match p.sub_id {
        Some(s) => s as int,
        None => 0,
    }
}

/// Where `x` goes in the sorted `s`: after every element whose key is not
/// greater than its own.
pub open spec fn insert_pos(s: Seq<PreparedStream>, x: PreparedStream) -> int
    decreases s.len(),
{
    if s.len() == 0 {
        0
    } else if sort_key(s.last()) <= sort_key(x) {
        s.len() as int
    } else {
        insert_pos(s.drop_last(), x)
    }
}

/// `s` stably sorted by [`sort_key`]: each element inserted in turn after
/// the elements before it with a key not greater than its own.
pub open spec fn sorted_streams(s: Seq<PreparedStream>) -> Seq<PreparedStream>
    decreases s.len(),
{
    if s.len() == 0 {
        Seq::empty()
    } else {
        let t = sorted_streams(s.drop_last());
        t.insert(insert_pos(t, s.last()), s.last())
    }
}

proof fn lemma_insert_pos_bounds(s: Seq<PreparedStream>, x: PreparedStream)
    ensures
        0 <= insert_pos(s, x) <= s.len(),
    decreases s.len(),
{
    if s.len() > 0 && sort_key(s.last()) > sort_key(x) {
        lemma_insert_pos_bounds(s.drop_last(), x);
    }
}

proof fn lemma_sorted_len(s: Seq<PreparedStream>)
    ensures
        sorted_streams(s).len() == s.len(),
    decreases s.len(),
{
    if s.len() > 0 {
        lemma_sorted_len(s.drop_last());
        lemma_insert_pos_bounds(sorted_streams(s.drop_last()), s.last());
    }
}

/// The key of a prepared stream (see [`sort_key`]).
fn key_of(p: &PreparedStream) -> (r: u32)
    ensures
        r == sort_key(*p),
{
    let b: u32 = match p.track_type {
        TrackType::Video => 0,
        TrackType::Audio => 1,
        TrackType::Subtitles => 2,
        _ => 3,
    };
    let sub: u32 = match p.sub_id {
        Some(s) => s as u32,
        None => 0,
    };
    b * 65536 + (p.stream_id as u32) * 256 + sub
}

/// Inserts `x` into `v` at [`insert_pos`].
fn insert_sorted(v: &mut Vec<PreparedStream>, x: PreparedStream)
    ensures
        final(v)@ == old(v)@.insert(insert_pos(old(v)@, x), x),
{
    let kx = key_of(&x);
    let mut pos = v.len();
    assert(v@.subrange(0, pos as int) =~= v@);
    while pos > 0 && key_of(&v[pos - 1]) > kx
        invariant
            kx == sort_key(x),
            pos <= v@.len(),
            v@ == old(v)@,
            insert_pos(v@, x) == insert_pos(v@.subrange(0, pos as int), x),
        decreases pos,
    {
        proof {
            assert(v@.subrange(0, pos as int).drop_last() =~= v@.subrange(0, pos - 1));
            assert(v@.subrange(0, pos as int).last() == v@[pos - 1]);
            assert(sort_key(v@[pos - 1]) > sort_key(x));
            assert(insert_pos(v@.subrange(0, pos as int), x) == insert_pos(v@.subrange(0, pos - 1), x));
        }
        pos = pos - 1;
    }
    proof {
        if pos > 0 {
            assert(v@.subrange(0, pos as int).last() == v@[pos - 1]);
        }
        assert(insert_pos(v@.subrange(0, pos as int), x) == pos);
    }
    v.insert(pos, x);
}

/// The codec info of a track from a codec.
pub open spec fn codec_info_of(c: Codec, i: CodecInfo) -> bool {
    &&& i.id@ == c.id@
    &&& i.name matches Some(n) && n@ == c.name@
    &&& i.codec_private is None
}

/// The track a prepared stream becomes at position `idx`: numbered by its
/// sub-stream id (high 32 bits) and stream id, with its ids recorded, its
/// video or audio properties (empty ones when decoding found none) by its
/// track type, and VobSub image subtitle properties for a subtitle track.
pub open spec fn track_of(p: PreparedStream, idx: int, t: Track) -> bool {
    let sub = match p.sub_id { Some(s) => s as int, None => 0 };
    let c = t.properties.common;
    &&& t.id == idx
    &&& t.track_type == p.track_type
    &&& codec_info_of(p.codec, t.codec)
    &&& c.number == Some((sub * 4294967296 + p.stream_id) as u64)
    &&& c.stream_id == Some(p.stream_id as u32)
    &&& c.sub_stream_id == match p.sub_id { Some(s) => Some(s as u32), None => None::<u32> }
    &&& c.track_name is None && c.language is None && c.enabled is None && c.num_index_entries is None
    &&& c.program_number is None && c.teletext_page is None && c.hearing_impaired is None
    &&& t.properties.tags@.len() == 0
    &&& (p.track_type == TrackType::Video ==> match p.video {
        Some(v) => t.properties.video == Some(v),
        None => t.properties.video matches Some(v) && v.is_empty(),
    })
    &&& (p.track_type != TrackType::Video ==> t.properties.video is None)
    &&& (p.track_type == TrackType::Audio ==> match p.audio {
        Some(a) => t.properties.audio == Some(a),
        None => t.properties.audio matches Some(a) && a.is_empty(),
    })
    &&& (p.track_type != TrackType::Audio ==> t.properties.audio is None)
    &&& (p.track_type == TrackType::Subtitles ==> (t.properties.subtitle matches Some(s)
        && !s.text_subtitles && s.encoding is None && s.teletext_page is None
        && (s.variant matches Some(v) && v@ == "VobSub"@)))
    &&& (p.track_type != TrackType::Subtitles ==> t.properties.subtitle is None)
}

/// The track of a prepared stream at position `idx` (see [`track_of`]).
fn make_track(p: PreparedStream, idx: usize) -> (t: Track)
    requires
        idx <= i64::MAX,
    ensures
        track_of(p, idx as int, t),
{
    let ghost gp = p;
    let sub: u64 = match p.sub_id {
        Some(s) => s as u64,
        None => 0,
    };
    let mut common = CommonTrackProperties::default();
    common.number = Some(sub * 4294967296 + p.stream_id as u64);
    common.stream_id = Some(p.stream_id as u32);
    common.sub_stream_id = match p.sub_id {
        Some(s) => Some(s as u32),
        None => None,
    };
    let video = match p.track_type {
        TrackType::Video => match p.video {
            Some(v) => Some(v),
            None => Some(VideoTrackProperties::default()),
        },
        _ => None,
    };
    let audio = match p.track_type {
        TrackType::Audio => match p.audio {
            Some(a) => Some(a),
            None => Some(AudioTrackProperties::default()),
        },
        _ => None,
    };
    let subtitle = match p.track_type {
        TrackType::Subtitles => Some(SubtitleTrackProperties {
            text_subtitles: false,
            encoding: None,
            variant: Some(owned("VobSub")),
            teletext_page: None,
        }),
        _ => None,
    };
    let properties = TrackProperties { common, tags: Vec::new(), video, audio, subtitle };
    Track {
        id: idx as i64,
        track_type: p.track_type,
        codec: CodecInfo { id: owned(p.codec.id), name: Some(owned(p.codec.name)), codec_private: None },
        properties,
    }
}

/// What finalising the prepared streams `prepared` does to the metadata
/// `o` (see [`finalise_prepared`]).
pub open spec fn prepared_effect(prepared: Seq<PreparedStream>, o: MediaMetadata, n: MediaMetadata) -> bool {
    &&& n.format == ContainerFormat::MpegPs
    &&& n.recognized
    &&& n.supported
    &&& n.properties.is_fragmented == Some(false)
    &&& n.properties.title == o.properties.title
    &&& n.properties.muxing_app == o.properties.muxing_app
    &&& n.properties.movie_timescale == o.properties.movie_timescale
    &&& n.properties.duration_ns == o.properties.duration_ns
    &&& n.properties.major_brand == o.properties.major_brand
    &&& n.properties.compatible_brands == o.properties.compatible_brands
    &&& n.properties.programs == o.properties.programs
    &&& n.global_tags == o.global_tags
    &&& n.chapters == o.chapters
    &&& n.attachments == o.attachments
    &&& n.per_track_tag_count == o.per_track_tag_count
    &&& n.tracks@.len() == o.tracks@.len() + prepared.len()
    &&& forall|i: int| 0 <= i < o.tracks@.len() ==> n.tracks@[i] == o.tracks@[i]
    &&& forall|i: int| 0 <= i < prepared.len() ==>
        track_of(#[trigger] sorted_streams(prepared)[i], i, n.tracks@[o.tracks@.len() + i])
}

/// Marks `out` as an MPEG program stream (recognised, supported, not
/// fragmented) and appends a track per prepared stream, in the order of
/// [`sorted_streams`], numbered from 0 (see [`track_of`]).
pub fn finalise_prepared(prepared: Vec<PreparedStream>, out: &mut MediaMetadata)
    requires
        prepared@.len() <= i64::MAX,
    ensures
        prepared_effect(prepared@, *old(out), *final(out)),
{
    out.format = ContainerFormat::MpegPs;
    out.recognized = true;
    out.supported = true;
    out.properties.is_fragmented = Some(false);
    let ghost input = prepared@;
    let mut rest = prepared;
    let mut sorted: Vec<PreparedStream> = Vec::new();
    let mut i: usize = 0;
    let n = rest.len();
    while i < n
        invariant
            n == input.len(),
            i <= n,
            rest@ == input.subrange(i as int, n as int),
            sorted@ == sorted_streams(input.subrange(0, i as int)),
        decreases n - i,
    {
        let x = rest.remove(0);
        proof {
            assert(input.subrange(0, i + 1).drop_last() =~= input.subrange(0, i as int));
            assert(input.subrange(0, i + 1).last() == x);
        }
        insert_sorted(&mut sorted, x);
        i = i + 1;
        assert(rest@ =~= input.subrange(i as int, n as int));
    }
    assert(input.subrange(0, n as int) =~= input);
    proof {
        lemma_sorted_len(input);
    }
    let ghost order = sorted@;
    let ghost base = out.tracks@;
    let ghost old_out = *out;
    let mut j: usize = 0;
    while j < n
        invariant
            n == order.len(),
            j <= n,
            n <= i64::MAX,
            sorted@ == order.subrange(j as int, n as int),
            out.tracks@.len() == base.len() + j,
            forall|k: int| 0 <= k < base.len() ==> out.tracks@[k] == base[k],
            forall|k: int| 0 <= k < j ==> track_of(#[trigger] order[k], k, out.tracks@[base.len() + k]),
            out.format == old_out.format,
            out.recognized == old_out.recognized,
            out.supported == old_out.supported,
            out.properties == old_out.properties,
            out.global_tags == old_out.global_tags,
            out.chapters == old_out.chapters,
            out.attachments == old_out.attachments,
            out.per_track_tag_count == old_out.per_track_tag_count,
        decreases n - j,
    {
        let p = sorted.remove(0);
        let t = make_track(p, j);
        out.tracks.push(t);
        j = j + 1;
        assert(sorted@ =~= order.subrange(j as int, n as int));
    }
}

proof fn lemma_insert_pos(t: Seq<PreparedStream>, x: PreparedStream)
    ensures
        0 <= insert_pos(t, x) <= t.len(),
        forall|i: int| insert_pos(t, x) <= i < t.len() ==> sort_key(#[trigger] t[i]) > sort_key(x),
        insert_pos(t, x) > 0 ==> sort_key(t[insert_pos(t, x) - 1]) <= sort_key(x),
    decreases t.len(),
{
    if t.len() > 0 && sort_key(t.last()) > sort_key(x) {
        let d = t.drop_last();
        lemma_insert_pos(d, x);
        assert forall|i: int| insert_pos(t, x) <= i < t.len() implies sort_key(#[trigger] t[i]) > sort_key(x) by {
            if i < d.len() {
                assert(t[i] == d[i]);
            }
        }
    }
}

/// Tracks come out in order: [`sorted_streams`] keeps every prepared
/// stream (the same multiset, so the same count) and orders them by
/// bucket, then stream id and sub-stream id.
pub proof fn law_sorted_streams(s: Seq<PreparedStream>)
    ensures
        sorted_streams(s).len() == s.len(),
        sorted_streams(s).to_multiset() == s.to_multiset(),
        forall|i: int, j: int| 0 <= i < j < s.len() ==>
            sort_key(#[trigger] sorted_streams(s)[i]) <= sort_key(#[trigger] sorted_streams(s)[j]),
    decreases s.len(),
{
    broadcast use vstd::seq_lib::to_multiset_build, vstd::seq_lib::to_multiset_insert;
    if s.len() == 0 {
        assert(sorted_streams(s) =~= s);
    } else {
        let d = s.drop_last();
        let x = s.last();
        law_sorted_streams(d);
        let t = sorted_streams(d);
        let p = insert_pos(t, x);
        lemma_insert_pos(t, x);
        t.insert_ensures(p, x);
        let r = t.insert(p, x);
        assert(s =~= d.push(x));
        assert forall|i: int, j: int| 0 <= i < j < r.len() implies sort_key(#[trigger] r[i]) <= sort_key(#[trigger] r[j]) by {
            if j < p {
                assert(r[i] == t[i] && r[j] == t[j]);
            } else if j == p {
                assert(r[i] == t[i]);
                assert(sort_key(t[i]) <= sort_key(t[p - 1]));
            } else if i < p {
                assert(r[i] == t[i] && r[j] == t[j - 1]);
                assert(sort_key(t[i]) <= sort_key(t[p - 1]));
            } else if i == p {
                assert(r[j] == t[j - 1]);
            } else {
                assert(r[i] == t[i - 1] && r[j] == t[j - 1]);
            }
        }
    }
}

/// The codec of each Program Stream Map stream type, entry by entry:
/// MPEG-1 and MPEG-2 video, MPEG-1 and MPEG-2 audio (layer II), AAC (0x0F
/// and 0x11), MPEG-4 Visual, AVC, LPCM and AC-3; no other stream type
/// names one. An MPEG audio stream type goes to the MPEG audio decoder, so
/// a stream the map types so is handed back, never dropped.
pub proof fn law_map_stream_types(st: u8, o: (u8, Option<u8>, Option<u8>, Seq<u8>))
    ensures
        st == 0x01 ==> stream_type_codec(st) == Some(CodecView { kind: TrackKind::Video, id: "V_MPEG1"@, name: "MPEG-1 Video"@ }),
        st == 0x02 ==> stream_type_codec(st) == Some(CodecView { kind: TrackKind::Video, id: "V_MPEG2"@, name: "MPEG-2 Video"@ }),
        st == 0x03 ==> stream_type_codec(st) == Some(CodecView { kind: TrackKind::Audio, id: "A_MPEG/L2"@, name: "MPEG-1 Audio"@ }),
        st == 0x04 ==> stream_type_codec(st) == Some(CodecView { kind: TrackKind::Audio, id: "A_MPEG/L2"@, name: "MPEG-2 Audio"@ }),
        (st == 0x0F || st == 0x11) ==> stream_type_codec(st) == Some(CodecView { kind: TrackKind::Audio, id: "A_AAC"@, name: "AAC"@ }),
        st == 0x10 ==> stream_type_codec(st) == Some(CodecView { kind: TrackKind::Video, id: "V_MPEG4/ISO/ASP"@, name: "MPEG-4 Visual"@ }),
        st == 0x1B ==> stream_type_codec(st) == Some(CodecView { kind: TrackKind::Video, id: "V_MPEG4/ISO/AVC"@, name: "AVC/H.264"@ }),
        st == 0x80 ==> stream_type_codec(st) == Some(CodecView { kind: TrackKind::Audio, id: "A_PCM/INT/BIG"@, name: "LPCM"@ }),
        st == 0x81 ==> stream_type_codec(st) == Some(CodecView { kind: TrackKind::Audio, id: "A_AC3"@, name: "AC-3"@ }),
        stream_type_codec(st) is None <==> !(st == 0x01 || st == 0x02 || st == 0x03 || st == 0x04 || st == 0x0F
            || st == 0x11 || st == 0x10 || st == 0x1B || st == 0x80 || st == 0x81),
        (st == 0x03 || st == 0x04) ==> codec_need(stream_type_codec(st)->0) == Ok::<Option<PayloadDecoder>, bool>(Some(PayloadDecoder::MpegAudio)),
        (o.2 == Some(0x03u8) || o.2 == Some(0x04u8)) ==> prep_class(o) == 2,
{
    reveal_strlit("A_MPEG/L2");
    reveal_strlit("A_MPEG");
    reveal_strlit("A_AC3");
    reveal_strlit("A_EAC3");
    reveal_strlit("A_DTS");
    reveal_strlit("A_TRUEHD");
    reveal_strlit("A_PCM/INT/BIG");
    let id = "A_MPEG/L2"@;
    assert(id.subrange(0, 6) =~= "A_MPEG"@);
    assert(id[2] == 'M');
    assert("A_AC3"@[2] == 'A' && "A_EAC3"@[2] == 'E' && "A_DTS"@[2] == 'D' && "A_TRUEHD"@[2] == 'T'
        && "A_PCM/INT/BIG"@[2] == 'P');
    assert(id != "A_AC3"@ && id != "A_EAC3"@ && id != "A_DTS"@ && id != "A_TRUEHD"@ && id != "A_PCM/INT/BIG"@);
}

/// The codec of a private-stream-1 sub-stream id, range by range (0x20 to
/// 0x3F VobSub; 0x80 to 0x87 and 0xC0 to 0xC7 AC-3; 0x88 to 0x9F DTS; 0xA0
/// to 0xA7 LPCM; 0xB0 to 0xBF TrueHD; none otherwise), and of a bare stream
/// id (0xC0 to 0xDF MPEG audio, 0xE0 to 0xEF MPEG-2 video, 0xFD VC-1, none
/// otherwise).
pub proof fn law_stream_id_codecs(sub: u8, id: u8)
    ensures
        0x20 <= sub <= 0x3F ==> sub_id_codec(sub) == Some(CodecView { kind: TrackKind::Subtitle, id: "S_VOBSUB"@, name: "VobSub"@ }),
        (0x80 <= sub <= 0x87 || 0xC0 <= sub <= 0xC7) ==> sub_id_codec(sub) == Some(CodecView { kind: TrackKind::Audio, id: "A_AC3"@, name: "AC-3"@ }),
        0x88 <= sub <= 0x9F ==> sub_id_codec(sub) == Some(CodecView { kind: TrackKind::Audio, id: "A_DTS"@, name: "DTS"@ }),
        0xA0 <= sub <= 0xA7 ==> sub_id_codec(sub) == Some(CodecView { kind: TrackKind::Audio, id: "A_PCM/INT/BIG"@, name: "LPCM"@ }),
        0xB0 <= sub <= 0xBF ==> sub_id_codec(sub) == Some(CodecView { kind: TrackKind::Audio, id: "A_TRUEHD"@, name: "TrueHD"@ }),
        sub_id_codec(sub) is None <==> !(0x20 <= sub <= 0x3F || 0x80 <= sub <= 0xA7 || 0xB0 <= sub <= 0xBF || 0xC0 <= sub <= 0xC7),
        0xC0 <= id <= 0xDF ==> bare_id_codec(id) == Some(CodecView { kind: TrackKind::Audio, id: "A_MPEG/L3"@, name: "MPEG-1/2 Audio"@ }),
        0xE0 <= id <= 0xEF ==> bare_id_codec(id) == Some(CodecView { kind: TrackKind::Video, id: "V_MPEG2"@, name: "MPEG-2 Video"@ }),
        id == 0xFD ==> bare_id_codec(id) == Some(CodecView { kind: TrackKind::Video, id: "V_VC1"@, name: "VC-1"@ }),
        bare_id_codec(id) is None <==> !(0xC0 <= id <= 0xEF || id == 0xFD),
{
}

/// The DVD LPCM header in its second byte: channels are the low three bits
/// plus one, the rate is 48, 96, 44.1 or 32 kHz by bits 4 and 5, the
/// sample size is 16, 20 or 24 bits by the top two bits, and 28 bits (top
/// bits 3) is refused; under two bytes there is no header.
pub proof fn law_dvd_lpcm_header(p: Seq<u8>)
    ensures
        p.len() < 2 ==> lpcm_header(p) is None,
        p.len() >= 2 && p[1] & 0xC0 == 0xC0 ==> lpcm_header(p) is None,
        p.len() >= 2 && p[1] & 0xC0 != 0xC0 ==> (lpcm_header(p) matches Some(h) && {
            &&& h.0 == (p[1] & 7) + 1
            &&& h.2 == 16 + 4 * (p[1] >> 6)
            &&& (p[1] & 0x30 == 0x00 ==> h.1 == 48000)
            &&& (p[1] & 0x30 == 0x10 ==> h.1 == 96000)
            &&& (p[1] & 0x30 == 0x20 ==> h.1 == 44100)
            &&& (p[1] & 0x30 == 0x30 ==> h.1 == 32000)
        }),
{
    if p.len() >= 2 {
        let b = p[1];
        assert((b & 0xC0 == 0xC0) == (b / 64 == 3)) by (bit_vector);
        assert(b & 7 == b % 8) by (bit_vector);
        assert(b >> 6 == b / 64) by (bit_vector);
        assert((b & 0x30 == 0x00) == ((b / 16) % 4 == 0)) by (bit_vector);
        assert((b & 0x30 == 0x10) == ((b / 16) % 4 == 1)) by (bit_vector);
        assert((b & 0x30 == 0x20) == ((b / 16) % 4 == 2)) by (bit_vector);
        assert((b & 0x30 == 0x30) == ((b / 16) % 4 == 3)) by (bit_vector);
    }
}

/// Tracks sort video first, then audio, then subtitles, then the rest.
pub proof fn law_track_buckets(t: TrackType)
    ensures
        bucket(TrackType::Video) < bucket(TrackType::Audio),
        bucket(TrackType::Audio) < bucket(TrackType::Subtitles),
        !(t == TrackType::Video || t == TrackType::Audio || t == TrackType::Subtitles) ==> bucket(TrackType::Subtitles) < bucket(t),
{
}

} // verus!
