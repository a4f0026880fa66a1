//! Final assembly of an MP4 file's tracks: each [`TrackBuilder`] gathered
//! over the `moov` walk becomes a [`Track`] (or is dropped), ids are
//! assigned compactly, chapter-source tracks become chapters, and the
//! container properties are completed.

use std::collections::HashMap;
use vstd::prelude::*;
use vstd::string::StrSliceExecFns;
use crate::model::{
    AudioTrackProperties, BlockAdditionMapping, Chapters, CodecInfo, CodecPrivate, CommonTrackProperties,
    ContainerProperties, DisplayOrientation, Dimensions2D, MediaMetadata, SubtitleTrackProperties, Track,
    TrackProperties, TrackType, VideoTrackProperties,
};
use crate::mp4::moov::{MoovBuilder, movie_duration_ns};
use crate::mp4::codec_specific::{hex_chars, hex_encode};
use crate::mp4::fragments::{TrexDefaults, TrexEntry, first_duration};
use crate::mp4::moov::hdlr::{Handler, handler_track_type, is_metadata_handler_type};
use crate::mp4::moov::trak::TrackBuilder;
use crate::text::{ascii_lower, owned, str_eq, to_ascii_lowercase};

verus! {

/// Codec id and display name for an MPEG-4 objectTypeIndication, for the
/// object types that take precedence over the sample-entry FOURCC.
pub open spec fn object_type_codec(ot: u8) -> Option<(Seq<char>, Seq<char>)> {
    if ot == 0x40 || ot == 0x66 || ot == 0x67 || ot == 0x68 {
        Some(("A_AAC"@, "AAC"@))
    } else if ot == 0x69 {
        Some(("A_MPEG/L3"@, "MP3"@))
    } else if ot == 0x6B {
        Some(("A_MPEG/L2"@, "MP2"@))
    } else if ot == 0xA9 {
        Some(("A_DTS"@, "DTS"@))
    } else if ot == 0xDD {
        Some(("A_VORBIS"@, "Vorbis"@))
    } else if 0x60 <= ot <= 0x65 || ot == 0x6A {
        Some(("V_MPEG12"@, "MPEG-1/2"@))
    } else if ot == 0x20 {
        Some(("V_MPEG4/ISO/ASP"@, "MPEG-4 Visual"@))
    } else if ot == 0xE0 {
        Some(("S_VOBSUB"@, "VobSub"@))
    } else {
        None
    }
}

/// The views of an optional pair of strings.
pub open spec fn pair_chars(p: Option<(&str, &str)>) -> Option<(Seq<char>, Seq<char>)> {
    match p {
        Some((a, b)) => Some((a@, b@)),
        None => None,
    }
}

/// Codec id and display name for an MPEG-4 objectTypeIndication (see
/// [`object_type_codec`]).
pub fn codec_from_object_type(object_type: u8) -> (r: Option<(&'static str, &'static str)>)
    ensures
        pair_chars(r) == object_type_codec(object_type),
{
    if object_type == 0x40 || object_type == 0x66 || object_type == 0x67 || object_type == 0x68 {
        Some(("A_AAC", "AAC"))
    } else if object_type == 0x69 {
        Some(("A_MPEG/L3", "MP3"))
    } else if object_type == 0x6B {
        Some(("A_MPEG/L2", "MP2"))
    } else if object_type == 0xA9 {
        Some(("A_DTS", "DTS"))
    } else if object_type == 0xDD {
        Some(("A_VORBIS", "Vorbis"))
    } else if (0x60 <= object_type && object_type <= 0x65) || object_type == 0x6A {
        Some(("V_MPEG12", "MPEG-1/2"))
    } else if object_type == 0x20 {
        Some(("V_MPEG4/ISO/ASP", "MPEG-4 Visual"))
    } else if object_type == 0xE0 {
        Some(("S_VOBSUB", "VobSub"))
    } else {
        None
    }
}

/// PCM codec id and name for a sample-entry FOURCC already lowered:
/// `twos` big-endian, `sowt` / `raw ` / `in24` / `pcm ` little-endian, and
/// `lpcm` by its format flags (bit 0 float, else bit 1 big-endian, else
/// little-endian).
pub open spec fn pcm_codec(lower: Seq<char>, flags: Option<u32>) -> Option<(Seq<char>, Seq<char>)> {
    let big = ("A_PCM/INT/BIG"@, "PCM (signed integer, big-endian)"@);
    let little = ("A_PCM/INT/LIT"@, "PCM (signed integer, little-endian)"@);
    if lower == "twos"@ {
        Some(big)
    } else if lower == "sowt"@ || lower == "raw "@ || lower == "in24"@ || lower == "pcm "@ {
        Some(little)
    } else if lower == "lpcm"@ {
        let f: u32 = match flags {
            Some(v) => v,
            None => 0,
        };
        if f % 2 == 1 {
            Some(("A_PCM/FLOAT/IEEE"@, "PCM (IEEE float)"@))
        } else if (f / 2) % 2 == 1 {
            Some(big)
        } else {
            Some(little)
        }
    } else {
        None
    }
}

/// PCM codec of a track by its sample-entry FOURCC, compared without
/// regard to ASCII case.
pub open spec fn sample_entry_pcm(b: TrackBuilder) -> Option<(Seq<char>, Seq<char>)> {
    match b.codec_id_str {
        Some(s) => pcm_codec(ascii_lower(s@), b.audio_format_flags),
        None => None,
    }
}

/// The PCM codec id and name a track's sample entry names (see
/// [`sample_entry_pcm`]).
pub fn pcm_codec_from_sample_entry(builder: &TrackBuilder) -> (r: Option<(&'static str, &'static str)>)
    ensures
        pair_chars(r) == sample_entry_pcm(*builder),
{
    let codec_id = match &builder.codec_id_str {
        Some(s) => s,
        None => return None,
    };
    let lowered = to_ascii_lowercase(codec_id.as_str());
    let key = lowered.as_str();
    let big = ("A_PCM/INT/BIG", "PCM (signed integer, big-endian)");
    let little = ("A_PCM/INT/LIT", "PCM (signed integer, little-endian)");
    if str_eq(key, "twos") {
        Some(big)
    } else if str_eq(key, "sowt") || str_eq(key, "raw ") || str_eq(key, "in24") || str_eq(key, "pcm ") {
        Some(little)
    } else if str_eq(key, "lpcm") {
        let flags: u32 = match builder.audio_format_flags {
            Some(v) => v,
            None => 0,
        };
        if flags % 2 == 1 {
            Some(("A_PCM/FLOAT/IEEE", "PCM (IEEE float)"))
        } else if (flags / 2) % 2 == 1 {
            Some(big)
        } else {
            Some(little)
        }
    } else {
        None
    }
}

/// The codec id a track ends up with: the `esds` object type's when the
/// table knows it, else the PCM variant its sample entry names, else the
/// sample-entry FOURCC (empty when there is none).
pub open spec fn effective_codec(b: TrackBuilder) -> Seq<char> {
    match (match b.esds_object_type {
        Some(ot) => object_type_codec(ot),
        None => None,
    }) {
        Some((id, _)) => id,
        None => match sample_entry_pcm(b) {
            Some((id, _)) => id,
            None => match b.codec_id_str {
                Some(s) => s@,
                None => Seq::empty(),
            },
        },
    }
}

/// The codec id a track ends up with (see [`effective_codec`]).
pub fn effective_codec_id(builder: &TrackBuilder) -> (r: String)
    ensures
        r@ == effective_codec(*builder),
{
    if let Some(ot) = builder.esds_object_type {
        if let Some((id, _name)) = codec_from_object_type(ot) {
            return owned(id);
        }
    }
    if let Some((id, _name)) = pcm_codec_from_sample_entry(builder) {
        return owned(id);
    }
    match &builder.codec_id_str {
        Some(s) => s.clone(),
        None => String::new(),
    }
}

/// Whole pixels of a 16.16 fixed-point display size; `None` for zero or
/// absent.
pub open spec fn fixed_pixels(f: Option<u32>) -> Option<u32> {
    match f {
        Some(v) => if v != 0 { Some((v / 65536) as u32) } else { None },
        None => None,
    }
}

/// Display width and height in whole pixels from the 16.16 fixed-point
/// `tkhd` sizes (see [`fixed_pixels`]).
pub fn display_from_fixed(width_fixed: Option<u32>, height_fixed: Option<u32>) -> (r: (Option<u32>, Option<u32>))
    ensures
        r == (fixed_pixels(width_fixed), fixed_pixels(height_fixed)),
{
    let w = match width_fixed {
        Some(f) => if f != 0 { Some(f / 65536) } else { None },
        None => None,
    };
    let h = match height_fixed {
        Some(f) => if f != 0 { Some(f / 65536) } else { None },
        None => None,
    };
    (w, h)
}

/// Cell `[i][j]` of the product of a track and a movie display matrix:
/// each term of the sum is shifted right (rounded down) by 16 for the two
/// 16.16 columns and by 30 for the 2.30 column.
pub open spec fn combined_cell(t: [[i32; 3]; 3], m: [[i32; 3]; 3], i: int, j: int) -> int {
    (t[i][0] * m[0][j]) / 0x1_0000 + (t[i][1] * m[1][j]) / 0x1_0000 + (t[i][2] * m[2][j]) / 0x4000_0000
}

/// `p` divided by `d`, rounded down.
fn floor_div(p: i64, d: i64) -> (r: i64)
    requires
        0 < d <= 0x4000_0000,
        -0x4000_0000_0000_0000 <= p <= 0x4000_0000_0000_0000,
    ensures
        r == p / d,
{
    if p >= 0 {
        let q = (p as u64) / (d as u64);
        proof {
            assert(q == p / d) by (nonlinear_arith)
                requires
                    p >= 0,
                    d > 0,
                    q == (p as int) / (d as int);
        }
        q as i64
    } else {
        let n = (-p) as u64;
        let du = d as u64;
        let q = (n + du - 1) / du;
        proof {
            let ni = n as int;
            let di = du as int;
            let rem = (ni + di - 1) % di;
            assert(ni + di - 1 == q * di + rem && 0 <= rem < di) by (nonlinear_arith)
                requires
                    di > 0,
                    ni >= 0,
                    q == (ni + di - 1) / di,
                    rem == (ni + di - 1) % di;
            assert(q <= ni) by (nonlinear_arith)
                requires
                    di > 0,
                    ni >= 0,
                    ni + di - 1 == q * di + rem,
                    0 <= rem < di;
            assert(p / d == -q) by (nonlinear_arith)
                requires
                    di > 0,
                    d == di,
                    p == -ni,
                    ni + di - 1 == q * di + rem,
                    0 <= rem < di;
        }
        -(q as i64)
    }
}

/// Cell `[i][j]` of the combined display matrix (see [`combined_cell`]).
fn combined(t: &[[i32; 3]; 3], m: &[[i32; 3]; 3], i: usize, j: usize) -> (r: i64)
    requires
        i < 3,
        j < 3,
    ensures
        r == combined_cell(*t, *m, i as int, j as int),
        -0x1_0000_0000_0000 <= r <= 0x1_0000_0000_0000,
{
    proof {
        let (x0, y0, x1, y1, x2, y2) = (t[i as int][0] as int, m[0][j as int] as int, t[i as int][1] as int,
            m[1][j as int] as int, t[i as int][2] as int, m[2][j as int] as int);
        assert(-0x4000_0000_0000_0000 <= x0 * y0 <= 0x4000_0000_0000_0000) by (nonlinear_arith)
            requires
                -0x8000_0000 <= x0 < 0x8000_0000,
                -0x8000_0000 <= y0 < 0x8000_0000;
        assert(-0x4000_0000_0000_0000 <= x1 * y1 <= 0x4000_0000_0000_0000) by (nonlinear_arith)
            requires
                -0x8000_0000 <= x1 < 0x8000_0000,
                -0x8000_0000 <= y1 < 0x8000_0000;
        assert(-0x4000_0000_0000_0000 <= x2 * y2 <= 0x4000_0000_0000_0000) by (nonlinear_arith)
            requires
                -0x8000_0000 <= x2 < 0x8000_0000,
                -0x8000_0000 <= y2 < 0x8000_0000;
    }
    let a0 = (t[i][0] as i64) * (m[0][j] as i64);
    let a1 = (t[i][1] as i64) * (m[1][j] as i64);
    let a2 = (t[i][2] as i64) * (m[2][j] as i64);
    let q0 = floor_div(a0, 0x1_0000);
    let q1 = floor_div(a1, 0x1_0000);
    let q2 = floor_div(a2, 0x4000_0000);
    proof {
        assert(-0x4000_0000_0000 <= q0 <= 0x4000_0000_0000) by (nonlinear_arith)
            requires
                q0 == a0 / 0x1_0000,
                -0x4000_0000_0000_0000 <= a0 <= 0x4000_0000_0000_0000;
        assert(-0x4000_0000_0000 <= q1 <= 0x4000_0000_0000) by (nonlinear_arith)
            requires
                q1 == a1 / 0x1_0000,
                -0x4000_0000_0000_0000 <= a1 <= 0x4000_0000_0000_0000;
        assert(-0x1_0000_0000 <= q2 <= 0x1_0000_0000) by (nonlinear_arith)
            requires
                q2 == a2 / 0x4000_0000,
                -0x4000_0000_0000_0000 <= a2 <= 0x4000_0000_0000_0000;
    }
    q0 + q1 + q2
}

/// Orientation from the combined matrix of `t` and `m`: `None` for a
/// perspective transform (a non-zero third column in the first two rows)
/// or a zero first row; yaw 0 for a rotation, 180 for a mirrored rotation,
/// `None` for anything else.
pub open spec fn orientation_of(t: [[i32; 3]; 3], m: [[i32; 3]; 3]) -> Option<DisplayOrientation> {
    let m00 = combined_cell(t, m, 0, 0);
    let m01 = combined_cell(t, m, 0, 1);
    let m02 = combined_cell(t, m, 0, 2);
    let m10 = combined_cell(t, m, 1, 0);
    let m11 = combined_cell(t, m, 1, 1);
    let m12 = combined_cell(t, m, 1, 2);
    if m02 != 0 || m12 != 0 {
        None
    } else if m00 == 0 && m01 == 0 {
        None
    } else if m00 == m11 && -m01 == m10 {
        Some(DisplayOrientation { yaw_degrees: 0, m10: m10 as i64, m11: m11 as i64 })
    } else if -m00 == m11 && m01 == m10 {
        Some(DisplayOrientation { yaw_degrees: 180, m10: m10 as i64, m11: m11 as i64 })
    } else {
        None
    }
}

/// Orientation of a track from its display matrix and the movie's (see
/// [`orientation_of`]); the roll angle is the angle of `(m11, m10)`.
pub fn compute_projection_pose(track: &[[i32; 3]; 3], movie: &[[i32; 3]; 3]) -> (r: Option<DisplayOrientation>)
    ensures
        r == orientation_of(*track, *movie),
{
    let m00 = combined(track, movie, 0, 0);
    let m01 = combined(track, movie, 0, 1);
    let m02 = combined(track, movie, 0, 2);
    let m10 = combined(track, movie, 1, 0);
    let m11 = combined(track, movie, 1, 1);
    let m12 = combined(track, movie, 1, 2);
    if m02 != 0 || m12 != 0 {
        return None;
    }
    if m00 == 0 && m01 == 0 {
        return None;
    }
    if m00 == m11 && -m01 == m10 {
        Some(DisplayOrientation { yaw_degrees: 0, m10, m11 })
    } else if -m00 == m11 && m01 == m10 {
        Some(DisplayOrientation { yaw_degrees: 180, m10, m11 })
    } else {
        None
    }
}

/// The codec display name a track ends up with: the `esds` object type's,
/// else the PCM variant's, else the one gathered from the sample entry.
pub open spec fn effective_name(b: TrackBuilder) -> Option<Seq<char>> {
    match (match b.esds_object_type {
        Some(ot) => object_type_codec(ot),
        None => None,
    }) {
        Some((_, name)) => Some(name),
        None => match sample_entry_pcm(b) {
            Some((_, name)) => Some(name),
            None => match b.codec_name {
                Some(s) => Some(s@),
                None => None,
            },
        },
    }
}

/// The builder's handler type.
pub open spec fn handler_of(b: TrackBuilder) -> Seq<u8> {
    match b.handler_type {
        Some(h) => h@,
        None => Seq::empty(),
    }
}

/// A track is dropped when verification rejected it, its media header was
/// invalid, it has no codec id or no handler, its handler is a metadata
/// handler or of no track type, its codec stays a bare `mp4a`, or it is AAC
/// without an AudioSpecificConfig.
pub open spec fn track_dropped(b: TrackBuilder) -> bool {
    ||| b.probe_failed
    ||| b.media_invalid
    ||| !(b.codec_id_str matches Some(s) && s@.len() > 0)
    ||| b.handler_type is None
    ||| is_metadata_handler_type(handler_of(b))
    ||| handler_track_type(handler_of(b)) == TrackType::Unknown
    ||| effective_codec(b) == "mp4a"@
    ||| (effective_codec(b) == "A_AAC"@ && !(b.audio_codec_config matches Some(c) && c.aac_object_type is Some))
}

/// The index-entry count: the fragment sample total for the track id when
/// fragments name it, else the `stsz` sample count.
pub open spec fn index_entries(b: TrackBuilder, counts: Map<u32, u32>) -> Option<u64> {
    if b.track_id matches Some(tid) && counts.contains_key(tid) {
        Some(counts[b.track_id->0] as u64)
    } else {
        match b.sample_count {
            Some(c) => Some(c as u64),
            None => None,
        }
    }
}

/// `units` at `timescale` ticks per second in nanoseconds, rounded down.
pub open spec fn units_to_ns(units: u32, timescale: u32) -> u64 {
    (units * 1_000_000_000 / timescale as int) as u64
}

/// Default frame duration: from the first `stts` delta when the media
/// timescale is known and not zero, else from the `trex` default of the
/// track.
pub open spec fn default_duration(b: TrackBuilder, trex: Seq<TrexEntry>) -> Option<u64> {
    if b.media_timescale matches Some(ts) && b.stts_first_sample_delta is Some && ts > 0 {
        Some(units_to_ns(b.stts_first_sample_delta->0, b.media_timescale->0))
    } else if b.track_id matches Some(tid) && b.media_timescale matches Some(ts) && ts > 0
        && first_duration(trex, tid) is Some {
        Some(units_to_ns(first_duration(trex, b.track_id->0)->0, b.media_timescale->0))
    } else {
        None
    }
}

/// `ms` lists the block additions `adds` as mappings, their payloads in
/// hexadecimal.
pub open spec fn mappings_of(adds: Seq<(String, Vec<u8>)>, ms: Seq<BlockAdditionMapping>) -> bool {
    &&& ms.len() == adds.len()
    &&& forall|i: int| 0 <= i < ms.len() ==> (#[trigger] ms[i]).id_type@ == adds[i].0@
        && ms[i].data_hex@ == hex_chars(adds[i].1@)
}

/// Display size: the one the video properties have, else the `tkhd` size
/// when both of its fixed-point values give whole pixels.
pub open spec fn display_size(b: TrackBuilder) -> Option<Dimensions2D> {
    if b.video matches Some(bv) && bv.display_dimensions is Some {
        b.video->0.display_dimensions
    } else if fixed_pixels(b.display_width_fixed) is Some && fixed_pixels(b.display_height_fixed) is Some {
        Some(Dimensions2D {
            width: fixed_pixels(b.display_width_fixed)->0,
            height: fixed_pixels(b.display_height_fixed)->0,
        })
    } else {
        None
    }
}

/// Orientation: from the track and movie matrices when they combine into a
/// rotation, else whatever the video properties had.
pub open spec fn orientation(b: TrackBuilder, movie: [[i32; 3]; 3]) -> Option<DisplayOrientation> {
    if b.display_matrix matches Some(tm) && orientation_of(tm, movie) is Some {
        orientation_of(b.display_matrix->0, movie)
    } else {
        match b.video {
            Some(bv) => bv.orientation,
            None => None,
        }
    }
}

/// The video properties of a built video track: those gathered (or empty
/// ones) with the block-addition mappings, display size, default duration
/// and orientation filled in.
pub open spec fn video_built(b: TrackBuilder, trex: Seq<TrexEntry>, movie: [[i32; 3]; 3], v: VideoTrackProperties) -> bool {
    &&& match b.video {
        Some(bv) => v == (VideoTrackProperties {
            display_dimensions: v.display_dimensions,
            default_duration_ns: v.default_duration_ns,
            block_addition_mappings: v.block_addition_mappings,
            orientation: v.orientation,
            ..bv
        }),
        None => v.pixel_dimensions is None && v.color is None && v.codec_config is None
            && v.rotation_degrees is None && v.flipped is None,
    }
    &&& mappings_of(b.block_additions@, v.block_addition_mappings@)
    &&& v.display_dimensions == display_size(b)
    &&& v.default_duration_ns == default_duration(b, trex)
    &&& v.orientation == orientation(b, movie)
}

/// Codecs whose subtitles are text.
pub open spec fn is_text_subtitle_codec(c: Seq<char>) -> bool {
    c == "text"@ || c == "tx3g"@ || c == "wvtt"@ || c == "stpp"@
}

/// `t` is the track built from `b` with id `id`.
pub open spec fn track_built(b: TrackBuilder, id: i64, trex: Seq<TrexEntry>, counts: Map<u32, u32>, movie: [[i32; 3]; 3], t: Track) -> bool {
    let kind = handler_track_type(handler_of(b));
    let codec = effective_codec(b);
    &&& t.id == id
    &&& t.track_type == kind
    &&& t.codec.id@ == codec
    &&& match t.codec.name {
        Some(n) => effective_name(b) == Some(n@),
        None => effective_name(b) is None,
    }
    &&& match b.codec_private_hex {
        Some(h) => t.codec.codec_private matches Some(cp) && cp.hex@ == h@ && cp.length == h@.len() / 2,
        None => t.codec.codec_private is None,
    }
    &&& t.properties.common.number == match b.track_id {
        Some(tid) => Some(tid as u64),
        None => None,
    }
    &&& t.properties.common.track_name == b.handler_name
    &&& t.properties.common.language == b.language_iso_639_2
    &&& t.properties.common.enabled == b.enabled
    &&& t.properties.common.num_index_entries == index_entries(b, counts)
    &&& t.properties.common.stream_id is None
    &&& t.properties.common.sub_stream_id is None
    &&& t.properties.common.program_number is None
    &&& t.properties.common.teletext_page is None
    &&& t.properties.common.hearing_impaired is None
    &&& t.properties.tags == b.tags
    &&& if kind == TrackType::Video {
        &&& t.properties.video matches Some(v) && video_built(b, trex, movie, v)
        &&& t.properties.audio is None
        &&& t.properties.subtitle is None
    } else if kind == TrackType::Audio {
        &&& t.properties.video is None
        &&& t.properties.audio matches Some(a) && match b.audio {
            Some(ba) => a == ba,
            None => a.is_empty(),
        }
        &&& t.properties.subtitle is None
    } else {
        &&& t.properties.video is None
        &&& t.properties.audio is None
        &&& t.properties.subtitle matches Some(st)
        &&& t.properties.subtitle->0.text_subtitles == is_text_subtitle_codec(codec)
        &&& t.properties.subtitle->0.encoding is None
        &&& t.properties.subtitle->0.teletext_page is None
        &&& t.properties.subtitle->0.variant matches Some(var)
        &&& t.properties.subtitle->0.variant->0@ == codec
    }
}

/// Build the track for `b` with id `id`, or `None` when it is dropped (see
/// [`track_dropped`] and [`track_built`]).
pub fn build_track(
    builder: TrackBuilder,
    id: i64,
    mvex: &TrexDefaults,
    fragment_track_counts: &HashMap<u32, u32>,
    movie_matrix: &[[i32; 3]; 3],
) -> (r: Option<Track>)
    ensures
        match r {
            None => track_dropped(builder),
            Some(t) => !track_dropped(builder)
                && track_built(builder, id, mvex.entries@, fragment_track_counts@, *movie_matrix, t),
        },
{
    broadcast use vstd::std_specs::hash::group_hash_axioms;
    if builder.probe_failed {
        return None;
    }
    if builder.media_invalid {
        return None;
    }
    let raw_empty = match &builder.codec_id_str {
        Some(s) => s.as_str().is_empty(),
        None => true,
    };
    if raw_empty {
        return None;
    }
    let handler_type = match builder.handler_type {
        Some(h) => h,
        None => return None,
    };
    let handler = Handler { handler_type, name: String::new() };
    if handler.is_metadata_handler() {
        return None;
    }
    let track_type = handler.classify();
    if track_type == TrackType::Unknown {
        return None;
    }
    let codec_id = effective_codec_id(&builder);
    let esds_codec = match builder.esds_object_type {
        Some(ot) => codec_from_object_type(ot),
        None => None,
    };
    let codec_name: Option<String> = match esds_codec {
        Some((_, n)) => Some(owned(n)),
        None => match pcm_codec_from_sample_entry(&builder) {
            Some((_, n)) => Some(owned(n)),
            None => match &builder.codec_name {
                Some(n) => Some(n.clone()),
                None => None,
            },
        },
    };
    if str_eq(codec_id.as_str(), "mp4a") {
        return None;
    }
    let has_aac_config = match &builder.audio_codec_config {
        Some(c) => c.aac_object_type.is_some(),
        None => false,
    };
    if str_eq(codec_id.as_str(), "A_AAC") && !has_aac_config {
        return None;
    }

    let mut num_index_entries: Option<u64> = match builder.sample_count {
        Some(c) => Some(c as u64),
        None => None,
    };
    if let Some(track_id) = builder.track_id {
        if let Some(count) = fragment_track_counts.get(&track_id) {
            num_index_entries = Some(*count as u64);
        }
    }

    let mut default_duration_ns: Option<u64> = None;
    if let (Some(timescale), Some(delta)) = (builder.media_timescale, builder.stts_first_sample_delta) {
        if timescale > 0 {
            default_duration_ns = Some((delta as u64) * 1_000_000_000 / (timescale as u64));
        }
    }
    if default_duration_ns.is_none() {
        if let (Some(track_id), Some(timescale)) = (builder.track_id, builder.media_timescale) {
            if let Some(dur) = mvex.default_duration_for(track_id) {
                if timescale > 0 {
                    default_duration_ns = Some((dur as u64) * 1_000_000_000 / (timescale as u64));
                }
            }
        }
    }

    let codec_private = match &builder.codec_private_hex {
        Some(hex) => Some(CodecPrivate { length: (hex.as_str().unicode_len() / 2) as u64, hex: hex.clone() }),
        None => None,
    };

    let mut mappings: Vec<BlockAdditionMapping> = Vec::new();
    let mut i: usize = 0;
    while i < builder.block_additions.len()
        invariant
            i <= builder.block_additions@.len(),
            mappings_of(builder.block_additions@.subrange(0, i as int), mappings@),
        decreases builder.block_additions@.len() - i,
    {
        let entry = &builder.block_additions[i];
        let m = BlockAdditionMapping { id_type: entry.0.clone(), data_hex: hex_encode(entry.1.as_slice()) };
        mappings.push(m);
        i = i + 1;
        proof {
            let adds = builder.block_additions@.subrange(0, i as int);
            assert forall|k: int| 0 <= k < mappings@.len() implies (#[trigger] mappings@[k]).id_type@ == adds[k].0@
                && mappings@[k].data_hex@ == hex_chars(adds[k].1@) by {
                if k < i - 1 {
                    assert(adds[k] == builder.block_additions@.subrange(0, i - 1)[k]);
                }
            }
        }
    }
    proof {
        assert(builder.block_additions@.subrange(0, i as int) =~= builder.block_additions@);
    }

    let (w, h) = display_from_fixed(builder.display_width_fixed, builder.display_height_fixed);
    let pose = match &builder.display_matrix {
        Some(tm) => compute_projection_pose(tm, movie_matrix),
        None => None,
    };

    let TrackBuilder { track_id, enabled, handler_name, language_iso_639_2, video, audio, tags, .. } = builder;
    let common = CommonTrackProperties {
        number: match track_id {
            Some(tid) => Some(tid as u64),
            None => None,
        },
        track_name: handler_name,
        language: language_iso_639_2,
        enabled,
        num_index_entries,
        stream_id: None,
        sub_stream_id: None,
        program_number: None,
        teletext_page: None,
        hearing_impaired: None,
    };

    let (video_props, audio_props, subtitle_props) = match track_type {
        TrackType::Video => {
            let mut v = match video {
                Some(v) => v,
                None => VideoTrackProperties::default(),
            };
            v.block_addition_mappings = mappings;
            if v.display_dimensions.is_none() {
                if let (Some(w), Some(h)) = (w, h) {
                    v.display_dimensions = Some(Dimensions2D { width: w, height: h });
                }
            }
            v.default_duration_ns = default_duration_ns;
            if let Some(o) = pose {
                v.orientation = Some(o);
            }
            (Some(v), None, None)
        },
        TrackType::Audio => {
            let a = match audio {
                Some(a) => a,
                None => AudioTrackProperties::default(),
            };
            (None, Some(a), None)
        },
        _ => {
            let text = str_eq(codec_id.as_str(), "text") || str_eq(codec_id.as_str(), "tx3g")
                || str_eq(codec_id.as_str(), "wvtt") || str_eq(codec_id.as_str(), "stpp");
            let sub = SubtitleTrackProperties {
                text_subtitles: text,
                encoding: None,
                variant: Some(codec_id.clone()),
                teletext_page: None,
            };
            (None, None, Some(sub))
        },
    };
    let properties = TrackProperties {
        common,
        tags,
        video: video_props,
        audio: audio_props,
        subtitle: subtitle_props,
    };
    Some(Track {
        id,
        track_type,
        codec: CodecInfo { id: codec_id, name: codec_name, codec_private },
        properties,
    })
}

/// `tid` is named by the `tref/chap` of one of `tracks`.
pub open spec fn is_chapter_source(tracks: Seq<TrackBuilder>, tid: u32) -> bool {
    exists|i: int, j: int|
        0 <= i < tracks.len() && 0 <= j < tracks[i].chapter_track_ids@.len()
            && #[trigger] tracks[i].chapter_track_ids@[j] == tid
}

/// `b` is a chapter-source track among `all`.
pub open spec fn chapter_track(all: Seq<TrackBuilder>, b: TrackBuilder) -> bool {
    b.track_id matches Some(tid) && is_chapter_source(all, tid)
}

/// The ids every `tref/chap` of `tracks` names.
pub fn collect_chapter_ids(tracks: &Vec<TrackBuilder>) -> (ids: Vec<u32>)
    ensures
        forall|tid: u32| ids@.contains(tid) <==> is_chapter_source(tracks@, tid),
{
    let mut ids: Vec<u32> = Vec::new();
    let mut i: usize = 0;
    while i < tracks.len()
        invariant
            i <= tracks@.len(),
            forall|tid: u32| ids@.contains(tid) <==> is_chapter_source(tracks@.subrange(0, i as int), tid),
        decreases tracks@.len() - i,
    {
        let chap = &tracks[i].chapter_track_ids;
        let mut j: usize = 0;
        while j < chap.len()
            invariant
                i < tracks@.len(),
                *chap == tracks@[i as int].chapter_track_ids,
                j <= chap@.len(),
                forall|tid: u32| ids@.contains(tid) <==> (is_chapter_source(tracks@.subrange(0, i as int), tid)
                    || exists|k: int| 0 <= k < j && #[trigger] chap@[k] == tid),
            decreases chap@.len() - j,
        {
            let ghost before = ids@;
            ids.push(chap[j]);
            proof {
                assert forall|tid: u32| ids@.contains(tid) <==> (is_chapter_source(tracks@.subrange(0, i as int), tid)
                    || exists|k: int| 0 <= k < j + 1 && #[trigger] chap@[k] == tid) by {
                    if ids@.contains(tid) && !before.contains(tid) {
                        assert(chap@[j as int] == tid);
                    }
                    if exists|k: int| 0 <= k < j + 1 && #[trigger] chap@[k] == tid {
                        let k = choose|k: int| 0 <= k < j + 1 && #[trigger] chap@[k] == tid;
                        if k == j {
                            assert(ids@[before.len() as int] == tid);
                        }
                    }
                    if before.contains(tid) {
                        let w = choose|w: int| 0 <= w < before.len() && before[w] == tid;
                        assert(ids@[w] == tid);
                    }
                }
            }
            j = j + 1;
        }
        proof {
            let prev = tracks@.subrange(0, i as int);
            let next = tracks@.subrange(0, i + 1);
            assert forall|tid: u32| is_chapter_source(next, tid) <==> (is_chapter_source(prev, tid)
                || exists|k: int| 0 <= k < chap@.len() && #[trigger] chap@[k] == tid) by {
                if is_chapter_source(next, tid) {
                    let (a, b) = choose|a: int, b: int|
                        0 <= a < next.len() && 0 <= b < next[a].chapter_track_ids@.len()
                            && #[trigger] next[a].chapter_track_ids@[b] == tid;
                    if a < i {
                        assert(prev[a].chapter_track_ids@[b] == tid);
                    } else {
                        assert(chap@[b] == tid);
                    }
                }
                if is_chapter_source(prev, tid) {
                    let (a, b) = choose|a: int, b: int|
                        0 <= a < prev.len() && 0 <= b < prev[a].chapter_track_ids@.len()
                            && #[trigger] prev[a].chapter_track_ids@[b] == tid;
                    assert(next[a].chapter_track_ids@[b] == tid);
                }
                if exists|k: int| 0 <= k < chap@.len() && #[trigger] chap@[k] == tid {
                    let k = choose|k: int| 0 <= k < chap@.len() && #[trigger] chap@[k] == tid;
                    assert(next[i as int].chapter_track_ids@[k] == tid);
                }
            }
        }
        i = i + 1;
    }
    proof {
        assert(tracks@.subrange(0, tracks@.len() as int) =~= tracks@);
    }
    ids
}

/// `v` holds `x`.
fn contains_id(v: &Vec<u32>, x: u32) -> (r: bool)
    ensures
        r == v@.contains(x),
{
    let mut i: usize = 0;
    while i < v.len()
        invariant
            i <= v@.len(),
            forall|k: int| 0 <= k < i ==> v@[k] != x,
        decreases v@.len() - i,
    {
        if v[i] == x {
            return true;
        }
        i = i + 1;
    }
    false
}

/// The positive sample count of the first chapter-source track of `ts`.
pub open spec fn chapter_count(all: Seq<TrackBuilder>, ts: Seq<TrackBuilder>) -> Option<u32>
    decreases ts.len(),
{
    if ts.len() == 0 {
        None
    } else if chapter_track(all, ts[0]) && (ts[0].sample_count matches Some(c) && c > 0) {
        ts[0].sample_count
    } else {
        chapter_count(all, ts.drop_first())
    }
}

/// `out` are the tracks built from `ts` (part of `all`) with ids counting
/// up from `id`: chapter-source and dropped tracks take no id.
pub open spec fn tracks_built(
    all: Seq<TrackBuilder>,
    ts: Seq<TrackBuilder>,
    id: int,
    trex: Seq<TrexEntry>,
    counts: Map<u32, u32>,
    movie: [[i32; 3]; 3],
    out: Seq<Track>,
) -> bool
    decreases ts.len(),
{
    if ts.len() == 0 {
        out.len() == 0
    } else if chapter_track(all, ts[0]) || track_dropped(ts[0]) {
        tracks_built(all, ts.drop_first(), id, trex, counts, movie, out)
    } else {
        &&& out.len() > 0
        &&& track_built(ts[0], id as i64, trex, counts, movie, out[0])
        &&& tracks_built(all, ts.drop_first(), id + 1, trex, counts, movie, out.drop_first())
    }
}

/// The positive sample count of the first chapter-source track (see
/// [`chapter_count`]); `ids` are the chapter-source ids.
fn first_chapter_count(tracks: &Vec<TrackBuilder>, ids: &Vec<u32>) -> (r: Option<u32>)
    requires
        forall|tid: u32| ids@.contains(tid) <==> is_chapter_source(tracks@, tid),
    ensures
        r == chapter_count(tracks@, tracks@),
{
    let ghost all = tracks@;
    let mut i: usize = 0;
    assert(all.skip(0) =~= all);
    while i < tracks.len()
        invariant
            all == tracks@,
            i <= all.len(),
            forall|tid: u32| ids@.contains(tid) <==> is_chapter_source(all, tid),
            chapter_count(all, all) == chapter_count(all, all.skip(i as int)),
        decreases all.len() - i,
    {
        assert(all.skip(i as int).drop_first() =~= all.skip(i + 1));
        let t = &tracks[i];
        let source = match t.track_id {
            Some(tid) => contains_id(ids, tid),
            None => false,
        };
        if source {
            if let Some(c) = t.sample_count {
                if c > 0 {
                    return Some(c);
                }
            }
        }
        i = i + 1;
    }
    None
}

/// [`tag_total`] is never negative.
proof fn lemma_tag_total_nonneg(ts: Seq<Track>)
    ensures
        tag_total(ts) >= 0,
    decreases ts.len(),
{
    if ts.len() > 0 {
        lemma_tag_total_nonneg(ts.drop_last());
    }
}

/// `t` with the display size of its video taken from the pixel size when it
/// has none.
pub open spec fn with_display_filled(t: Track) -> Track {
    match t.properties.video {
        Some(v) => if v.display_dimensions is None {
            Track {
                properties: TrackProperties {
                    video: Some(VideoTrackProperties { display_dimensions: v.pixel_dimensions, ..v }),
                    ..t.properties
                },
                ..t
            }
        } else {
            t
        },
        None => t,
    }
}

/// Fill the display size of a video track from its pixel size when absent.
pub fn fill_display(t: Track) -> (r: Track)
    ensures
        r == with_display_filled(t),
{
    let Track { id, track_type, codec, properties } = t;
    let TrackProperties { common, tags, video, audio, subtitle } = properties;
    let video = match video {
        Some(v) => {
            let mut v = v;
            if v.display_dimensions.is_none() {
                v.display_dimensions = v.pixel_dimensions;
            }
            Some(v)
        },
        None => None,
    };
    Track { id, track_type, codec, properties: TrackProperties { common, tags, video, audio, subtitle } }
}

/// Number of tags over `ts`.
pub open spec fn tag_total(ts: Seq<Track>) -> int
    decreases ts.len(),
{
    if ts.len() == 0 {
        0
    } else {
        ts.last().properties.tags@.len() + tag_total(ts.drop_last())
    }
}

/// Container properties after the movie header's timescale and duration
/// and the fragmented flag are recorded.
pub open spec fn finalised_properties(m: MoovBuilder, p: ContainerProperties, fragmented: bool) -> ContainerProperties {
    ContainerProperties {
        movie_timescale: if m.timescale is Some { m.timescale } else { p.movie_timescale },
        duration_ns: match (m.timescale, m.duration_units) {
            (Some(ts), Some(units)) => if ts > 0 {
                Some(movie_duration_ns(units, ts))
            } else {
                p.duration_ns
            },
            _ => p.duration_ns,
        },
        is_fragmented: Some(fragmented),
        ..p
    }
}

/// What assembling the tracks of `moov` does to the metadata `o` (see
/// [`finalise`]).
pub open spec fn finalise_effect(moov: MoovBuilder, fragmented: bool, counts: Map<u32, u32>, o: MediaMetadata, n: MediaMetadata) -> bool {
    let all = moov.tracks@;
    let chapters = if o.chapters.num_entries == 0 && chapter_count(all, all) is Some {
        Chapters { num_entries: chapter_count(all, all)->0, num_editions: 1 }
    } else {
        o.chapters
    };
    &&& n == (MediaMetadata {
        properties: finalised_properties(moov, o.properties, fragmented),
        chapters,
        tracks: n.tracks,
        per_track_tag_count: n.per_track_tag_count,
        ..o
    })
    &&& exists|built: Seq<Track>|
        tracks_built(all, all, 0, moov.mvex_defaults.entries@, counts, moov.movie_matrix, built)
            && n.tracks@ == (o.tracks@ + built).map_values(|t: Track| with_display_filled(t))
    &&& n.per_track_tag_count == tag_total(n.tracks@) % 0x1_0000_0000
}

/// Assemble the tracks of `moov` into `out`: container properties
/// completed, the first chapter-source track with samples counted as a
/// chapter edition when no chapters are known yet, the other tracks built
/// with compact ids and appended, display sizes filled from pixel sizes
/// (over all tracks of `out`), and the tags over all tracks counted
/// (modulo 2^32).
pub fn finalise(moov: MoovBuilder, is_fragmented: bool, fragment_track_counts: HashMap<u32, u32>, out: &mut MediaMetadata)
    ensures
        finalise_effect(moov, is_fragmented, fragment_track_counts@, *old(out), *final(out)),
{
    let ghost all = moov.tracks@;
    let ghost old_out = *out;
    let track_count = moov.tracks.len();
    moov.finalise_container(&mut out.properties);
    out.properties.is_fragmented = Some(is_fragmented);
    let chapter_ids = collect_chapter_ids(&moov.tracks);

    if out.chapters.num_entries == 0 {
        if let Some(c) = first_chapter_count(&moov.tracks, &chapter_ids) {
            out.chapters = Chapters { num_entries: c, num_editions: 1 };
        }
    }

    let MoovBuilder { tracks, mvex_defaults, movie_matrix, .. } = moov;
    let mut rest = tracks;
    let ghost prefix = old_out.tracks@.map_values(|t: Track| with_display_filled(t));
    let mut previous: Vec<Track> = Vec::new();
    std::mem::swap(&mut previous, &mut out.tracks);
    let ghost fixed = *out;
    let ghost mut k: int = 0;
    assert(old_out.tracks@.skip(0) =~= old_out.tracks@);
    while previous.len() > 0
        invariant
            previous@ == old_out.tracks@.skip(k),
            0 <= k <= old_out.tracks@.len(),
            prefix.len() == old_out.tracks@.len(),
            prefix == old_out.tracks@.map_values(|t: Track| with_display_filled(t)),
            k + previous@.len() == old_out.tracks@.len(),
            out.tracks@ == prefix.subrange(0, k),
            *out == (MediaMetadata { tracks: out.tracks, ..fixed }),
        decreases previous@.len(),
    {
        let t = previous.remove(0);
        proof {
            assert(t == old_out.tracks@[k]);
            assert(prefix[k] == with_display_filled(t));
        }
        out.tracks.push(fill_display(t));
        proof {
            assert(old_out.tracks@.skip(k).drop_first() =~= old_out.tracks@.skip(k + 1));
            k = k + 1;
            assert(out.tracks@ =~= prefix.subrange(0, k));
        }
    }
    assert(k == old_out.tracks@.len());
    assert(prefix.subrange(0, k) =~= prefix);

    let mut next_id: usize = 0;
    let ghost mut built: Seq<Track> = Seq::empty();
    let ghost mut j: int = 0;
    assert(all.skip(0) =~= all);
    while rest.len() > 0
        invariant
            rest@ == all.skip(j),
            0 <= j <= all.len(),
            j + rest@.len() == all.len(),
            all.len() == track_count,
            0 <= next_id <= j,
            forall|tid: u32| chapter_ids@.contains(tid) <==> is_chapter_source(all, tid),
            out.tracks@ == prefix + built.map_values(|t: Track| with_display_filled(t)),
            *out == (MediaMetadata { tracks: out.tracks, ..fixed }),
            forall|r: Seq<Track>|
                #[trigger] tracks_built(all, all.skip(j as int), next_id as int, mvex_defaults.entries@,
                    fragment_track_counts@, movie_matrix, r)
                    ==> tracks_built(all, all, 0, mvex_defaults.entries@, fragment_track_counts@, movie_matrix, built + r),
        decreases rest@.len(),
    {
        let b = rest.remove(0);
        let ghost gb = b;
        let ghost cur = next_id as int;
        assert(all.skip(j as int)[0] == gb);
        assert(all.skip(j as int).drop_first() =~= all.skip(j + 1));
        let source = match b.track_id {
            Some(tid) => contains_id(&chapter_ids, tid),
            None => false,
        };
        if source {
            proof {
                assert(chapter_track(all, gb));
                assert forall|r: Seq<Track>|
                    #[trigger] tracks_built(all, all.skip(j + 1), cur, mvex_defaults.entries@,
                        fragment_track_counts@, movie_matrix, r)
                        implies tracks_built(all, all, 0, mvex_defaults.entries@, fragment_track_counts@,
                        movie_matrix, built + r) by {
                    assert(tracks_built(all, all.skip(j as int), cur, mvex_defaults.entries@,
                        fragment_track_counts@, movie_matrix, r));
                }
            }
        } else {
            proof {
                assert(!chapter_track(all, gb));
            }
            let built_track = build_track(b, next_id as i64, &mvex_defaults, &fragment_track_counts, &movie_matrix);
            if built_track.is_none() {
                proof {
                    assert forall|r: Seq<Track>|
                        #[trigger] tracks_built(all, all.skip(j + 1), cur, mvex_defaults.entries@,
                            fragment_track_counts@, movie_matrix, r)
                            implies tracks_built(all, all, 0, mvex_defaults.entries@, fragment_track_counts@,
                            movie_matrix, built + r) by {
                        assert(tracks_built(all, all.skip(j as int), cur, mvex_defaults.entries@,
                            fragment_track_counts@, movie_matrix, r));
                    }
                }
            }
            if let Some(t) = built_track {
                let ghost gt = t;
                out.tracks.push(fill_display(t));
                proof {
                    assert forall|r: Seq<Track>|
                        #[trigger] tracks_built(all, all.skip(j + 1), cur + 1, mvex_defaults.entries@,
                            fragment_track_counts@, movie_matrix, r)
                            implies tracks_built(all, all, 0, mvex_defaults.entries@, fragment_track_counts@,
                            movie_matrix, built.push(gt) + r) by {
                        let rr = seq![gt] + r;
                        assert(rr.drop_first() =~= r);
                        assert(tracks_built(all, all.skip(j as int), cur, mvex_defaults.entries@,
                            fragment_track_counts@, movie_matrix, rr));
                        assert(built + rr =~= built.push(gt) + r);
                    }
                    built = built.push(gt);
                    assert(out.tracks@ =~= prefix + built.map_values(|t: Track| with_display_filled(t)));
                }
                next_id = next_id + 1;
            }
        }
        proof {
            j = j + 1;
        }
    }
    proof {
        assert(all.skip(j as int).len() == 0);
        assert(tracks_built(all, all.skip(j as int), next_id as int, mvex_defaults.entries@, fragment_track_counts@,
            movie_matrix, Seq::empty()));
        assert(built + Seq::<Track>::empty() =~= built);
        assert((old_out.tracks@ + built).map_values(|t: Track| with_display_filled(t))
            =~= prefix + built.map_values(|t: Track| with_display_filled(t)));
    }

    let mut total: u32 = 0;
    let mut m: usize = 0;
    while m < out.tracks.len()
        invariant
            m <= out.tracks@.len(),
            total == tag_total(out.tracks@.subrange(0, m as int)) % 0x1_0000_0000,
            *out == (MediaMetadata { tracks: out.tracks, ..fixed }),
            tracks_built(all, all, 0, mvex_defaults.entries@, fragment_track_counts@, movie_matrix, built),
            out.tracks@ == (old_out.tracks@ + built).map_values(|t: Track| with_display_filled(t)),
        decreases out.tracks@.len() - m,
    {
        let n = (out.tracks[m].properties.tags.len() as u64) % 0x1_0000_0000;
        let sum = (total as u64 + n) % 0x1_0000_0000;
        proof {
            let s = out.tracks@.subrange(0, m + 1);
            assert(s.drop_last() =~= out.tracks@.subrange(0, m as int));
            assert(s.last() == out.tracks@[m as int]);
            let a = tag_total(out.tracks@.subrange(0, m as int));
            lemma_tag_total_nonneg(out.tracks@.subrange(0, m as int));
            let l = out.tracks@[m as int].properties.tags@.len() as int;
            assert((a % 0x1_0000_0000 + l % 0x1_0000_0000) % 0x1_0000_0000 == (a + l) % 0x1_0000_0000) by (nonlinear_arith)
                requires
                    a >= 0,
                    l >= 0;
        }
        total = sum as u32;
        m = m + 1;
    }
    assert(out.tracks@.subrange(0, m as int) =~= out.tracks@);
    out.per_track_tag_count = total;
}

/// Built tracks are numbered without gaps: the tracks built from a list
/// of track builders, numbering from `id`, have the ids `id`, `id + 1`, ...
/// in order, one for each builder that is neither a chapter source nor
/// dropped (while the ids fit in `i64`).
pub proof fn law_track_ids_compact(
    all: Seq<TrackBuilder>,
    ts: Seq<TrackBuilder>,
    id: int,
    trex: Seq<TrexEntry>,
    counts: Map<u32, u32>,
    movie: [[i32; 3]; 3],
    out: Seq<Track>,
)
    requires
        tracks_built(all, ts, id, trex, counts, movie, out),
        0 <= id,
        id + ts.len() <= i64::MAX,
    ensures
        out.len() <= ts.len(),
        forall|i: int| 0 <= i < out.len() ==> #[trigger] out[i].id == id + i,
    decreases ts.len(),
{
    if ts.len() > 0 {
        if chapter_track(all, ts[0]) || track_dropped(ts[0]) {
            law_track_ids_compact(all, ts.drop_first(), id, trex, counts, movie, out);
        } else {
            law_track_ids_compact(all, ts.drop_first(), id + 1, trex, counts, movie, out.drop_first());
            assert forall|i: int| 0 <= i < out.len() implies #[trigger] out[i].id == id + i by {
                if i > 0 {
                    assert(out[i] == out.drop_first()[i - 1]);
                }
            }
        }
    }
}

/// The codec of each MPEG-4 objectTypeIndication, entry by entry: every
/// object type the `esds` parser treats as AAC (0x40 and the MPEG-2 AAC
/// profiles 0x66 to 0x68) is AAC; 0x69 MP3; 0x6B MPEG audio layer II;
/// 0xA9 DTS; 0xDD Vorbis; 0x60 to 0x65 and 0x6A MPEG-1/2 video; 0x20
/// MPEG-4 Visual; 0xE0 VobSub; no other object type names a codec.
pub proof fn law_object_type_codecs(ot: u8)
    ensures
        crate::mp4::codec_specific::esds::aac_object_type(ot) ==> object_type_codec(ot) == Some(("A_AAC"@, "AAC"@)),
        ot == 0x69 ==> object_type_codec(ot) == Some(("A_MPEG/L3"@, "MP3"@)),
        ot == 0x6B ==> object_type_codec(ot) == Some(("A_MPEG/L2"@, "MP2"@)),
        ot == 0xA9 ==> object_type_codec(ot) == Some(("A_DTS"@, "DTS"@)),
        ot == 0xDD ==> object_type_codec(ot) == Some(("A_VORBIS"@, "Vorbis"@)),
        (0x60 <= ot <= 0x65 || ot == 0x6A) ==> object_type_codec(ot) == Some(("V_MPEG12"@, "MPEG-1/2"@)),
        ot == 0x20 ==> object_type_codec(ot) == Some(("V_MPEG4/ISO/ASP"@, "MPEG-4 Visual"@)),
        ot == 0xE0 ==> object_type_codec(ot) == Some(("S_VOBSUB"@, "VobSub"@)),
        object_type_codec(ot) is None <==> !(crate::mp4::codec_specific::esds::aac_object_type(ot) || ot == 0x69
            || ot == 0x6B || ot == 0xA9 || ot == 0xDD || (0x60 <= ot <= 0x65) || ot == 0x6A || ot == 0x20 || ot == 0xE0),
{
}

/// A track whose `esds` names an AAC object type has the AAC codec,
/// whatever its sample-entry FOURCC; and the PCM sample entries map, in
/// any letter case, to their PCM variants: `twos` big-endian integer;
/// `sowt`, `raw `, `in24` and `pcm ` little-endian integer; `lpcm` float
/// when bit 0 of its format flags is set, else big-endian when bit 1 is,
/// else little-endian.
pub proof fn law_effective_codecs(b: TrackBuilder, f: u32)
    ensures
        (b.esds_object_type matches Some(ot) && crate::mp4::codec_specific::esds::aac_object_type(ot))
            ==> effective_codec(b) == "A_AAC"@,
        pcm_codec("twos"@, Some(f)) == Some(("A_PCM/INT/BIG"@, "PCM (signed integer, big-endian)"@)),
        pcm_codec("sowt"@, Some(f)) == Some(("A_PCM/INT/LIT"@, "PCM (signed integer, little-endian)"@)),
        pcm_codec("raw "@, Some(f)) == Some(("A_PCM/INT/LIT"@, "PCM (signed integer, little-endian)"@)),
        pcm_codec("in24"@, Some(f)) == Some(("A_PCM/INT/LIT"@, "PCM (signed integer, little-endian)"@)),
        pcm_codec("pcm "@, Some(f)) == Some(("A_PCM/INT/LIT"@, "PCM (signed integer, little-endian)"@)),
        f & 1 == 1 ==> pcm_codec("lpcm"@, Some(f)) == Some(("A_PCM/FLOAT/IEEE"@, "PCM (IEEE float)"@)),
        f & 3 == 2 ==> pcm_codec("lpcm"@, Some(f)) == Some(("A_PCM/INT/BIG"@, "PCM (signed integer, big-endian)"@)),
        f & 3 == 0 ==> pcm_codec("lpcm"@, Some(f)) == Some(("A_PCM/INT/LIT"@, "PCM (signed integer, little-endian)"@)),
{
    reveal_strlit("twos");
    reveal_strlit("sowt");
    reveal_strlit("raw ");
    reveal_strlit("in24");
    reveal_strlit("pcm ");
    reveal_strlit("lpcm");
    assert("twos"@[0] == 't' && "sowt"@[0] == 's' && "raw "@[0] == 'r' && "in24"@[0] == 'i' && "pcm "@[0] == 'p'
        && "lpcm"@[0] == 'l');
    assert("pcm "@[1] == 'c' && "lpcm"@[1] == 'p');
    assert((f & 1 == 1) == (f % 2 == 1)) by (bit_vector);
    assert((f & 3 == 2) == (f % 2 == 0 && (f / 2) % 2 == 1)) by (bit_vector);
    assert((f & 3 == 0) == (f % 2 == 0 && (f / 2) % 2 == 0)) by (bit_vector);
}

} // verus!
