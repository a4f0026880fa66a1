//! Per-track state gathered over a `trak` walk.

use vstd::prelude::*;
use crate::source::{FileSource, ParseError, be32};
use crate::mp4::atom::{
    BoxHeader, BoxHeaderView, children_of, fold_children, lemma_fold_step, payload_or_zero, payload_read,
    walk_children_prefix, child_walk, fold_walk, lemma_fold_walk,
    read_payload, stage, walk_children,
};
use crate::mp4::moov::edts::{self, edts_steps};
use crate::mp4::moov::hdlr::{fourcc, is_fourcc};
use crate::mp4::moov::mdia::{self, mdia_steps};
use crate::mp4::moov::stbl::stsd::{base_audio, eof_err};
use crate::mp4::moov::tkhd::{self, TrackHeader, fixed_to_pixels, tkhd_len, tkhd_matches};
use crate::model::{Dimensions2D, AudioCodecConfig, AudioTrackProperties, TagEntry, VideoCodecConfig, VideoTrackProperties};

verus! {

/// Collector filled while walking a `trak` box and its sample tables.
#[derive(Debug)]
pub struct TrackBuilder {
    pub track_id: Option<u32>,
    pub enabled: Option<bool>,
    pub display_width_fixed: Option<u32>,
    pub display_height_fixed: Option<u32>,
    pub rotation_degrees: Option<u32>,
    pub flipped: bool,
    pub display_matrix: Option<[[i32; 3]; 3]>,
    pub media_timescale: Option<u32>,
    pub media_duration_units: Option<u64>,
    pub language_iso_639_2: Option<String>,
    pub handler_type: Option<[u8; 4]>,
    pub handler_name: Option<String>,
    /// FOURCC of the first sample entry.
    pub sample_entry_kind: Option<[u8; 4]>,
    pub codec_name: Option<String>,
    /// The first sample entry's FOURCC as text.
    pub codec_id_str: Option<String>,
    pub video: Option<VideoTrackProperties>,
    pub audio: Option<AudioTrackProperties>,
    pub stts_first_sample_delta: Option<u32>,
    pub stts_first_sample_count: Option<u32>,
    /// Sum of the edit-list segment durations.
    pub edts_total_duration: Option<u64>,
    /// The edit list has an entry whose media time is neither 0 nor -1.
    pub edts_has_offset: bool,
    pub tags: Vec<TagEntry>,
    /// Hex-encoded codec private data.
    pub codec_private_hex: Option<String>,
    pub video_codec_config: Option<VideoCodecConfig>,
    pub audio_codec_config: Option<AudioCodecConfig>,
    /// `esds` objectTypeIndication.
    pub esds_object_type: Option<u8>,
    /// Length of the `esds` DecoderSpecificInfo.
    pub esds_decoder_specific_len: Option<usize>,
    /// Bytes of the `esds` DecoderSpecificInfo.
    pub esds_decoder_specific_data: Option<Vec<u8>>,
    /// The `mdhd` was unsupported or had a zero timescale.
    pub media_invalid: bool,
    /// Sample count from `stsz` / `stz2`.
    pub sample_count: Option<u32>,
    /// Track ids named by `tref/chap`.
    pub chapter_track_ids: Vec<u32>,
    /// `(fourcc, payload)` of Dolby Vision configuration boxes.
    pub block_additions: Vec<(String, Vec<u8>)>,
    /// File offset of the first chunk (`stco` / `co64`).
    pub first_sample_file_offset: Option<u64>,
    /// Size of the first sample (`stsz`).
    pub first_sample_size: Option<u64>,
    /// `(file offset, size)` of the first samples, in order.
    pub first_samples: Vec<(u64, u64)>,
    /// The track was rejected by first-sample verification.
    pub probe_failed: bool,
    /// Format flags of an `lpcm` sound description.
    pub audio_format_flags: Option<u32>,
}

impl TrackBuilder {
    /// Nothing collected yet.
    pub open spec fn is_empty(&self) -> bool {
        &&& self.track_id is None
        &&& self.enabled is None
        &&& self.display_width_fixed is None
        &&& self.display_height_fixed is None
        &&& self.rotation_degrees is None
        &&& !self.flipped
        &&& self.display_matrix is None
        &&& self.media_timescale is None
        &&& self.media_duration_units is None
        &&& self.language_iso_639_2 is None
        &&& self.handler_type is None
        &&& self.handler_name is None
        &&& self.sample_entry_kind is None
        &&& self.codec_name is None
        &&& self.codec_id_str is None
        &&& self.video is None
        &&& self.audio is None
        &&& self.stts_first_sample_delta is None
        &&& self.stts_first_sample_count is None
        &&& self.edts_total_duration is None
        &&& !self.edts_has_offset
        &&& self.tags@.len() == 0
        &&& self.codec_private_hex is None
        &&& self.video_codec_config is None
        &&& self.audio_codec_config is None
        &&& self.esds_object_type is None
        &&& self.esds_decoder_specific_len is None
        &&& self.esds_decoder_specific_data is None
        &&& !self.media_invalid
        &&& self.sample_count is None
        &&& self.chapter_track_ids@.len() == 0
        &&& self.block_additions@.len() == 0
        &&& self.first_sample_file_offset is None
        &&& self.first_sample_size is None
        &&& self.first_samples@.len() == 0
        &&& !self.probe_failed
        &&& self.audio_format_flags is None
    }
}

impl Default for TrackBuilder {
    fn default() -> (b: Self)
        ensures
            b.is_empty(),
    {
        TrackBuilder {
            track_id: None,
            enabled: None,
            display_width_fixed: None,
            display_height_fixed: None,
            rotation_degrees: None,
            flipped: false,
            display_matrix: None,
            media_timescale: None,
            media_duration_units: None,
            language_iso_639_2: None,
            handler_type: None,
            handler_name: None,
            sample_entry_kind: None,
            codec_name: None,
            codec_id_str: None,
            video: None,
            audio: None,
            stts_first_sample_delta: None,
            stts_first_sample_count: None,
            edts_total_duration: None,
            edts_has_offset: false,
            tags: Vec::new(),
            codec_private_hex: None,
            video_codec_config: None,
            audio_codec_config: None,
            esds_object_type: None,
            esds_decoder_specific_len: None,
            esds_decoder_specific_data: None,
            media_invalid: false,
            sample_count: None,
            chapter_track_ids: Vec::new(),
            block_additions: Vec::new(),
            first_sample_file_offset: None,
            first_sample_size: None,
            first_samples: Vec::new(),
            probe_failed: false,
            audio_format_flags: None,
        }
    }
}

/// Pixel size of a 16.16 fixed-point dimension (see `tkhd::fixed_to_pixels`).
pub open spec fn pixels(fixed: u32) -> u32 {
    ((fixed + 0x8000) / 65536) as u32
}

/// The display size given by the `tkhd` width and height, when both are
/// known and non-zero.
pub open spec fn display_dims(b: TrackBuilder) -> Option<Dimensions2D> {
    match (b.display_width_fixed, b.display_height_fixed) {
        (Some(w), Some(h)) => if w != 0 && h != 0 {
            Some(Dimensions2D { width: pixels(w), height: pixels(h) })
        } else {
            None
        },
        _ => None,
    }
}

impl TrackBuilder {
    /// Display size in pixels from the 16.16 `tkhd` fields.
    pub fn display_dimensions(&self) -> (r: Option<Dimensions2D>)
        ensures
            r == display_dims(*self),
    {
        match (self.display_width_fixed, self.display_height_fixed) {
            (Some(w), Some(h)) => if w != 0 && h != 0 {
                Some(Dimensions2D { width: fixed_to_pixels(w), height: fixed_to_pixels(h) })
            } else {
                None
            },
            _ => None,
        }
    }
}

impl VideoCodecConfig {
    /// A copy equal to `self`.
    pub fn duplicate(&self) -> (c: Self)
        ensures
            c == *self,
    {
        VideoCodecConfig {
            profile_idc: self.profile_idc,
            profile_name: copy_text(&self.profile_name),
            level_idc: self.level_idc,
            level_name: copy_text(&self.level_name),
            tier: self.tier,
            chroma_format: self.chroma_format,
            bit_depth_luma: self.bit_depth_luma,
            bit_depth_chroma: self.bit_depth_chroma,
            raw_hex: copy_text(&self.raw_hex),
            is_elementary_stream: self.is_elementary_stream,
            sample_aspect_ratio: self.sample_aspect_ratio,
        }
    }
}

impl AudioCodecConfig {
    /// A copy equal to `self`.
    pub fn duplicate(&self) -> (c: Self)
        ensures
            c == *self,
    {
        AudioCodecConfig {
            raw_hex: copy_text(&self.raw_hex),
            profile_name: copy_text(&self.profile_name),
            aac_object_type: self.aac_object_type,
        }
    }
}

/// A copy of an optional string, equal to it.
fn copy_text(s: &Option<String>) -> (c: Option<String>)
    ensures
        c == *s,
{
    match s {
        Some(t) => Some(t.clone()),
        None => None,
    }
}

/// The track's rotation or flip is to be carried into its video properties.
pub open spec fn has_orientation(o: TrackBuilder) -> bool {
    o.rotation_degrees is Some || o.flipped
}

/// The video properties after [`TrackBuilder::merge_codec_config`]: the
/// codec configuration (when decoded), the rotation (unless one is
/// recorded) and the flip (when signalled and none is recorded), the video
/// properties created empty when the track has none and one of these
/// applies.
pub open spec fn video_merged(o: TrackBuilder, nv: Option<VideoTrackProperties>) -> bool {
    if o.video_codec_config is None && !has_orientation(o) {
        nv == o.video
    } else {
        let base_cc = match o.video { Some(v) => v.codec_config, None => None };
        let base_rot = match o.video { Some(v) => v.rotation_degrees, None => None };
        let base_flip = match o.video { Some(v) => v.flipped, None => None };
        &&& nv matches Some(v) && match o.video {
            Some(ov) => v == (VideoTrackProperties {
                codec_config: v.codec_config,
                rotation_degrees: v.rotation_degrees,
                flipped: v.flipped,
                ..ov
            }),
            None => (VideoTrackProperties { codec_config: None, rotation_degrees: None, flipped: None, ..v }).is_empty(),
        }
        &&& nv->0.codec_config == (if o.video_codec_config is Some { o.video_codec_config } else { base_cc })
        &&& nv->0.rotation_degrees == (if has_orientation(o) && base_rot is None { o.rotation_degrees } else { base_rot })
        &&& nv->0.flipped == (if has_orientation(o) && base_flip is None && o.flipped { Some(true) } else { base_flip })
    }
}

/// `n` is `o` after [`TrackBuilder::merge_codec_config`].
pub open spec fn merged(o: TrackBuilder, n: TrackBuilder) -> bool {
    &&& n == (TrackBuilder { video: n.video, audio: n.audio, ..o })
    &&& video_merged(o, n.video)
    &&& n.audio == match o.audio_codec_config {
        Some(c) => Some(AudioTrackProperties { codec_config: Some(c), ..base_audio(o.audio) }),
        None => o.audio,
    }
}

impl TrackBuilder {
    /// Carry the decoded codec configurations into the video and audio
    /// properties, and the track's rotation and flip into the video ones.
    pub fn merge_codec_config(&mut self)
        ensures
            merged(*old(self), *final(self)),
    {
        if let Some(cfg) = &self.video_codec_config {
            let cfg = cfg.duplicate();
            let mut video = match self.video.take() {
                Some(v) => v,
                None => VideoTrackProperties::default(),
            };
            video.codec_config = Some(cfg);
            self.video = Some(video);
        }
        if let Some(cfg) = &self.audio_codec_config {
            let cfg = cfg.duplicate();
            let mut audio = match self.audio.take() {
                Some(a) => a,
                None => AudioTrackProperties::default(),
            };
            audio.codec_config = Some(cfg);
            self.audio = Some(audio);
        }
        if self.rotation_degrees.is_some() || self.flipped {
            let mut video = match self.video.take() {
                Some(v) => v,
                None => VideoTrackProperties::default(),
            };
            if video.rotation_degrees.is_none() {
                video.rotation_degrees = self.rotation_degrees;
            }
            if video.flipped.is_none() && self.flipped {
                video.flipped = Some(true);
            }
            self.video = Some(video);
        }
    }
}

/// The track ids of a `chap` payload: one big-endian `u32` per whole
/// 4-byte group.
pub open spec fn chap_ids(pl: Seq<u8>) -> Seq<u32> {
    Seq::new(pl.len() / 4, |i: int| be32(pl, 4 * i) as u32)
}

/// What the child `h` of `tref` does: a `chap` reference (payload refused
/// above 4096 bytes) appends its track ids.
pub open spec fn tref_step(bytes: Seq<u8>, h: BoxHeaderView, o: TrackBuilder, n: TrackBuilder, r: Result<(), ParseError>) -> bool {
    if h.kind == fourcc(0x63, 0x68, 0x61, 0x70) {
        match payload_read(bytes, h.payload_start(), h, 4096) {
            Err(e) => r == Err::<(), ParseError>(e) && n == o,
            Ok(pl) => {
                &&& r is Ok
                &&& n == (TrackBuilder { chapter_track_ids: n.chapter_track_ids, ..o })
                &&& n.chapter_track_ids@ == o.chapter_track_ids@ + chap_ids(pl)
            },
        }
    } else {
        r is Ok && n == o
    }
}

/// [`tref_step`] as a value.
pub open spec fn tref_steps() -> spec_fn(Seq<u8>, BoxHeaderView, TrackBuilder, TrackBuilder, Result<(), ParseError>) -> bool {
    |bytes: Seq<u8>, h: BoxHeaderView, o: TrackBuilder, n: TrackBuilder, r: Result<(), ParseError>| tref_step(bytes, h, o, n, r)
}

/// Append the track ids of a `chap` payload.
fn push_chap_ids(ids: &mut Vec<u32>, payload: &[u8])
    ensures
        final(ids)@ == old(ids)@ + chap_ids(payload@),
{
    let len = payload.len();
    let n = len / 4;
    let mut i: usize = 0;
    while i < n
        invariant
            len == payload@.len(),
            n == payload@.len() / 4,
            i <= n,
            ids@ == old(ids)@ + chap_ids(payload@).take(i as int),
        decreases n - i,
    {
        let v = crate::source::be32_at(payload, 4 * i);
        ids.push(v);
        i = i + 1;
        assert(chap_ids(payload@).take(i as int) =~= chap_ids(payload@).take(i - 1).push(v));
    }
    assert(chap_ids(payload@).take(n as int) =~= chap_ids(payload@));
}

/// Parse a `tref` box: the track ids of its `chap` children.
pub fn parse_tref(src: &mut FileSource, parent: &BoxHeader, builder: &mut TrackBuilder) -> (r: Result<(), ParseError>)
    requires
        parent.wf(),
    ensures
        final(src).bytes() == old(src).bytes(),
        fold_walk(old(src).bytes(), parent@, tref_steps(), *old(builder), *final(builder), r),
{
    let (children, tail) = walk_children_prefix(src, parent);
    let ghost bytes = src.bytes();
    let ghost hs = children@.map_values(|h: BoxHeader| h@);
    let mut i: usize = 0;
    assert(hs.skip(0) =~= hs);
    while i < children.len()
        invariant
            src.bytes() == bytes,
            bytes == old(src).bytes(),
            child_walk(bytes, parent@).0 == hs,
            hs == children@.map_values(|h: BoxHeader| h@),
            forall|j: int| 0 <= j < children@.len() ==> (#[trigger] children@[j]).wf(),
            i <= children@.len(),
            forall|nn: TrackBuilder, rr: Result<(), ParseError>|
                #[trigger] fold_children(bytes, hs.skip(i as int), tref_steps(), *builder, nn, rr)
                    ==> fold_children(bytes, hs, tref_steps(), *old(builder), nn, rr),
        decreases children@.len() - i,
    {
        let child = children[i];
        let ghost before = *builder;
        src.seek_to(child.payload_start());
        let rc = if is_fourcc(&child.kind.0, 0x63, 0x68, 0x61, 0x70) {
            match read_payload(src, &child, 4096) {
                Ok(payload) => {
                    push_chap_ids(&mut builder.chapter_track_ids, payload.as_slice());
                    Ok(())
                },
                Err(e) => Err(e),
            }
        } else {
            Ok(())
        };
        proof {
            let rest = hs.skip(i as int);
            assert(rest[0] == child@);
            assert(rest.drop_first() =~= hs.skip(i + 1));
            assert(tref_steps()(bytes, rest[0], before, *builder, rc));
        }
        if let Err(e) = rc {
            proof {
                lemma_fold_step(bytes, hs.skip(i as int), tref_steps(), before, *builder, rc, *builder, rc);
                lemma_fold_walk(bytes, parent@, tref_steps(), *old(builder), *builder, rc, rc);
            }
            return Err(e);
        }
        proof {
            let rest = hs.skip(i as int);
            assert forall|nn: TrackBuilder, rr: Result<(), ParseError>|
                #[trigger] fold_children(bytes, hs.skip(i + 1), tref_steps(), *builder, nn, rr)
                    implies fold_children(bytes, hs, tref_steps(), *old(builder), nn, rr) by {
                lemma_fold_step(bytes, rest, tref_steps(), before, *builder, rc, nn, rr);
            }
        }
        i = i + 1;
    }
    proof {
        assert(fold_children(bytes, hs.skip(i as int), tref_steps(), *builder, *builder, Ok(())));
    }
    proof {
        lemma_fold_walk(bytes, parent@, tref_steps(), *old(builder), *builder, Ok(()), tail);
    }
    tail
}

/// `n` is `o` with the fields of the track header `t`.
pub open spec fn with_track_header(o: TrackBuilder, n: TrackBuilder, t: TrackHeader) -> bool {
    n == (TrackBuilder {
        track_id: Some(t.track_id),
        display_width_fixed: Some(t.width_fixed),
        display_height_fixed: Some(t.height_fixed),
        enabled: Some(t.enabled),
        rotation_degrees: t.rotation_degrees,
        flipped: t.flipped,
        display_matrix: Some(t.matrix),
        ..o
    })
}

/// What the child `h` of `trak` does: the track header (`tkhd`), media
/// (`mdia`), edits (`edts`) and references (`tref`) fill the track.
pub open spec fn trak_step(bytes: Seq<u8>, h: BoxHeaderView, o: TrackBuilder, n: TrackBuilder, r: Result<(), ParseError>) -> bool {
    let p = h.payload_start();
    let k = h.kind;
    if k == fourcc(0x74, 0x6b, 0x68, 0x64) {
        if payload_or_zero(h) < 84 {
            r == Err::<(), ParseError>(ParseError::Malformed { offset: h.start as u64 }) && n == o
        } else if p + 1 > bytes.len() || p + tkhd_len(bytes[p]) > bytes.len() {
            eof_err(r) && n == o
        } else {
            r is Ok && exists|t: TrackHeader| #[trigger] tkhd_matches(bytes, p, t) && with_track_header(o, n, t)
        }
    } else if k == fourcc(0x6d, 0x64, 0x69, 0x61) || k == fourcc(0x65, 0x64, 0x74, 0x73)
        || k == fourcc(0x74, 0x72, 0x65, 0x66) {
        fold_walk(bytes, h, if k == fourcc(0x6d, 0x64, 0x69, 0x61) {
            mdia_steps()
        } else if k == fourcc(0x65, 0x64, 0x74, 0x73) {
            edts_steps()
        } else {
            tref_steps()
        }, o, n, r)
    } else {
        r is Ok && n == o
    }
}

/// [`trak_step`] as a value.
pub open spec fn trak_steps() -> spec_fn(Seq<u8>, BoxHeaderView, TrackBuilder, TrackBuilder, Result<(), ParseError>) -> bool {
    |bytes: Seq<u8>, h: BoxHeaderView, o: TrackBuilder, n: TrackBuilder, r: Result<(), ParseError>| trak_step(bytes, h, o, n, r)
}

/// Handle the `trak` child `child` (cursor at its payload).
fn trak_child(src: &mut FileSource, child: &BoxHeader, builder: &mut TrackBuilder) -> (r: Result<(), ParseError>)
    requires
        child.wf(),
        old(src).pos() == child@.payload_start(),
    ensures
        final(src).bytes() == old(src).bytes(),
        trak_step(old(src).bytes(), child@, *old(builder), *final(builder), r),
{
    let k = &child.kind.0;
    if is_fourcc(k, 0x74, 0x6b, 0x68, 0x64) {
        let t = tkhd::parse(src, child)?;
        builder.track_id = Some(t.track_id);
        builder.display_width_fixed = Some(t.width_fixed);
        builder.display_height_fixed = Some(t.height_fixed);
        builder.enabled = Some(t.enabled);
        builder.rotation_degrees = t.rotation_degrees;
        builder.flipped = t.flipped;
        builder.display_matrix = Some(t.matrix);
        Ok(())
    } else if is_fourcc(k, 0x6d, 0x64, 0x69, 0x61) {
        mdia::parse(src, child, builder)
    } else if is_fourcc(k, 0x65, 0x64, 0x74, 0x73) {
        edts::parse(src, child, builder)
    } else if is_fourcc(k, 0x74, 0x72, 0x65, 0x66) {
        parse_tref(src, child, builder)
    } else {
        Ok(())
    }
}

/// Walk the children of a `trak` box into `builder`, each as
/// [`trak_step`] says.
pub fn parse_into(src: &mut FileSource, parent: &BoxHeader, builder: &mut TrackBuilder) -> (r: Result<(), ParseError>)
    requires
        parent.wf(),
    ensures
        final(src).bytes() == old(src).bytes(),
        fold_walk(old(src).bytes(), parent@, trak_steps(), *old(builder), *final(builder), r),
{
    let (children, tail) = walk_children_prefix(src, parent);
    let ghost bytes = src.bytes();
    let ghost hs = children@.map_values(|h: BoxHeader| h@);
    let mut i: usize = 0;
    assert(hs.skip(0) =~= hs);
    while i < children.len()
        invariant
            src.bytes() == bytes,
            bytes == old(src).bytes(),
            child_walk(bytes, parent@).0 == hs,
            hs == children@.map_values(|h: BoxHeader| h@),
            forall|j: int| 0 <= j < children@.len() ==> (#[trigger] children@[j]).wf(),
            i <= children@.len(),
            forall|nn: TrackBuilder, rr: Result<(), ParseError>|
                #[trigger] fold_children(bytes, hs.skip(i as int), trak_steps(), *builder, nn, rr)
                    ==> fold_children(bytes, hs, trak_steps(), *old(builder), nn, rr),
        decreases children@.len() - i,
    {
        let child = children[i];
        let ghost before = *builder;
        src.seek_to(child.payload_start());
        let rc = trak_child(src, &child, builder);
        proof {
            let rest = hs.skip(i as int);
            assert(rest[0] == child@);
            assert(rest.drop_first() =~= hs.skip(i + 1));
            assert(trak_steps()(bytes, rest[0], before, *builder, rc));
        }
        if let Err(e) = rc {
            proof {
                lemma_fold_step(bytes, hs.skip(i as int), trak_steps(), before, *builder, rc, *builder, rc);
                lemma_fold_walk(bytes, parent@, trak_steps(), *old(builder), *builder, rc, rc);
            }
            return Err(e);
        }
        proof {
            let rest = hs.skip(i as int);
            assert forall|nn: TrackBuilder, rr: Result<(), ParseError>|
                #[trigger] fold_children(bytes, hs.skip(i + 1), trak_steps(), *builder, nn, rr)
                    implies fold_children(bytes, hs, trak_steps(), *old(builder), nn, rr) by {
                lemma_fold_step(bytes, rest, trak_steps(), before, *builder, rc, nn, rr);
            }
        }
        i = i + 1;
    }
    proof {
        assert(fold_children(bytes, hs.skip(i as int), trak_steps(), *builder, *builder, Ok(())));
    }
    proof {
        lemma_fold_walk(bytes, parent@, trak_steps(), *old(builder), *builder, Ok(()), tail);
    }
    tail
}

/// What parsing the `trak` box `h` gives: from an empty track, its
/// children handled as [`trak_step`] says, then on success the codec
/// configurations and orientation merged in.
pub open spec fn trak_parsed(bytes: Seq<u8>, h: BoxHeaderView, r: Result<TrackBuilder, ParseError>) -> bool {
    exists|b0: TrackBuilder, b1: TrackBuilder, rc: Result<(), ParseError>|
        #[trigger] stage((b0, b1), rc) && fold_walk(bytes, h, trak_steps(), b0, b1, rc) && b0.is_empty()
            && match rc {
                Err(e) => r == Err::<TrackBuilder, ParseError>(e),
                Ok(_) => r matches Ok(t) && merged(b1, t),
            }
}

/// Parse a `trak` box into a new track: its children from an empty track
/// (see [`parse_into`]), then the codec configurations and orientation
/// carried into the video and audio properties.
pub fn parse(src: &mut FileSource, parent: &BoxHeader) -> (r: Result<TrackBuilder, ParseError>)
    requires
        parent.wf(),
    ensures
        final(src).bytes() == old(src).bytes(),
        trak_parsed(old(src).bytes(), parent@, r),
{
    let mut builder = TrackBuilder::default();
    let ghost b0 = builder;
    let rc = parse_into(src, parent, &mut builder);
    let ghost b1 = builder;
    assert(stage((b0, b1), rc));
    match rc {
        Err(e) => Err(e),
        Ok(()) => {
            builder.merge_codec_config();
            Ok(builder)
        },
    }
}

} // verus!
