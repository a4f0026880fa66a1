use lib::model::{AudioCodecConfig, ContainerProperties, SampleRate, TrackType, VideoCodecConfig};
use lib::mp4::atom::{read_box_header, BoxHeader};
use lib::mp4::fragments::{parse_moof, parse_mvex, TrexDefaults};
use lib::mp4::moov::mdhd::{decode_packed_language, decode_packed_language_opt};
use lib::mp4::moov::stbl::stsc::StscEntry;
use lib::mp4::moov::tkhd::{decode_matrix, fixed_to_pixels};
use lib::mp4::moov::trak::TrackBuilder;
use lib::mp4::moov::{edts, hdlr, mdhd, mdia, mvhd, stbl, tkhd, trak, MoovBuilder};
use lib::source::{FileSource, ParseError};

fn encode_box(kind: &[u8; 4], payload: &[u8]) -> Vec<u8> {
    let total = (8 + payload.len()) as u32;
    let mut out = Vec::new();
    out.extend_from_slice(&total.to_be_bytes());
    out.extend_from_slice(kind);
    out.extend_from_slice(payload);
    out
}

fn read(bytes: Vec<u8>) -> (BoxHeader, FileSource) {
    let mut s = FileSource::from_bytes(bytes);
    let h = read_box_header(&mut s).unwrap();
    (h, s)
}

// ---- builders ----

fn encode_packed_language(language: &str) -> u16 {
    let mut bytes = language.as_bytes().iter().copied();
    let c0 = bytes.next().unwrap_or(0).saturating_sub(0x60);
    let c1 = bytes.next().unwrap_or(0).saturating_sub(0x60);
    let c2 = bytes.next().unwrap_or(0).saturating_sub(0x60);
    (((c0 as u16) & 0x1F) << 10) | (((c1 as u16) & 0x1F) << 5) | ((c2 as u16) & 0x1F)
}

fn build_mdhd_payload_v0(timescale: u32, duration: u32, language: &str) -> Vec<u8> {
    let mut p = Vec::with_capacity(24);
    p.push(0);
    p.extend_from_slice(&[0u8; 3]);
    p.extend_from_slice(&0u32.to_be_bytes());
    p.extend_from_slice(&0u32.to_be_bytes());
    p.extend_from_slice(&timescale.to_be_bytes());
    p.extend_from_slice(&duration.to_be_bytes());
    p.extend_from_slice(&encode_packed_language(language).to_be_bytes());
    p.extend_from_slice(&0u16.to_be_bytes());
    p
}

fn build_hdlr_payload(handler_type: &[u8; 4], name: &str) -> Vec<u8> {
    let mut p = Vec::new();
    p.push(0);
    p.extend_from_slice(&[0u8; 3]);
    p.extend_from_slice(&[0u8; 4]);
    p.extend_from_slice(handler_type);
    p.extend_from_slice(&[0u8; 12]);
    p.extend_from_slice(name.as_bytes());
    p.push(0);
    p
}

fn build_mvhd_payload_v0(timescale: u32, duration: u32, next_track_id: u32) -> Vec<u8> {
    let mut p = Vec::with_capacity(100);
    p.push(0);
    p.extend_from_slice(&[0u8; 3]);
    p.extend_from_slice(&0u32.to_be_bytes());
    p.extend_from_slice(&0u32.to_be_bytes());
    p.extend_from_slice(&timescale.to_be_bytes());
    p.extend_from_slice(&duration.to_be_bytes());
    p.extend_from_slice(&0u32.to_be_bytes());
    p.extend_from_slice(&[0u8; 2]);
    p.extend_from_slice(&[0u8; 10]);
    p.extend_from_slice(&[0u8; 36]);
    p.extend_from_slice(&[0u8; 24]);
    p.extend_from_slice(&next_track_id.to_be_bytes());
    p
}

fn build_mvhd_payload_v1(timescale: u32, duration: u64, next_track_id: u32) -> Vec<u8> {
    let mut p = Vec::with_capacity(112);
    p.push(1);
    p.extend_from_slice(&[0u8; 3]);
    p.extend_from_slice(&0u64.to_be_bytes());
    p.extend_from_slice(&0u64.to_be_bytes());
    p.extend_from_slice(&timescale.to_be_bytes());
    p.extend_from_slice(&duration.to_be_bytes());
    p.extend_from_slice(&0u32.to_be_bytes());
    p.extend_from_slice(&[0u8; 2]);
    p.extend_from_slice(&[0u8; 10]);
    p.extend_from_slice(&[0u8; 36]);
    p.extend_from_slice(&[0u8; 24]);
    p.extend_from_slice(&next_track_id.to_be_bytes());
    p
}

fn build_tkhd_payload_v0(track_id: u32, width_px: u16, height_px: u16) -> Vec<u8> {
    let mut p = Vec::with_capacity(84);
    p.push(0);
    p.extend_from_slice(&[0u8, 0u8, 0x01u8]);
    p.extend_from_slice(&0u32.to_be_bytes());
    p.extend_from_slice(&0u32.to_be_bytes());
    p.extend_from_slice(&track_id.to_be_bytes());
    p.extend_from_slice(&0u32.to_be_bytes());
    p.extend_from_slice(&0u32.to_be_bytes());
    p.extend_from_slice(&[0u8; 8]);
    p.extend_from_slice(&[0u8; 2]);
    p.extend_from_slice(&[0u8; 2]);
    p.extend_from_slice(&[0u8; 2]);
    p.extend_from_slice(&[0u8; 2]);
    p.extend_from_slice(&[0u8; 36]);
    let width = (width_px as u32) << 16;
    let height = (height_px as u32) << 16;
    p.extend_from_slice(&width.to_be_bytes());
    p.extend_from_slice(&height.to_be_bytes());
    p
}

fn build_elst_v0(entries: &[(u32, i32)]) -> Vec<u8> {
    let mut p = Vec::new();
    p.push(0);
    p.extend_from_slice(&[0u8; 3]);
    p.extend_from_slice(&(entries.len() as u32).to_be_bytes());
    for (dur, media_time) in entries {
        p.extend_from_slice(&dur.to_be_bytes());
        p.extend_from_slice(&media_time.to_be_bytes());
        p.extend_from_slice(&[0u8; 4]);
    }
    p
}

fn build_elst_v1(entries: &[(u64, i64)]) -> Vec<u8> {
    let mut p = Vec::new();
    p.push(1);
    p.extend_from_slice(&[0u8; 3]);
    p.extend_from_slice(&(entries.len() as u32).to_be_bytes());
    for (dur, media_time) in entries {
        p.extend_from_slice(&dur.to_be_bytes());
        p.extend_from_slice(&media_time.to_be_bytes());
        p.extend_from_slice(&[0u8; 4]);
    }
    p
}

fn build_stts_payload(entries: &[(u32, u32)]) -> Vec<u8> {
    let mut p = Vec::new();
    p.extend_from_slice(&[0u8; 4]);
    p.extend_from_slice(&(entries.len() as u32).to_be_bytes());
    for (count, delta) in entries {
        p.extend_from_slice(&count.to_be_bytes());
        p.extend_from_slice(&delta.to_be_bytes());
    }
    p
}

fn build_stsc_payload(entries: &[(u32, u32, u32)]) -> Vec<u8> {
    let mut p = vec![0u8; 4];
    p.extend_from_slice(&(entries.len() as u32).to_be_bytes());
    for (first_chunk, samples_per_chunk, sample_desc) in entries {
        p.extend_from_slice(&first_chunk.to_be_bytes());
        p.extend_from_slice(&samples_per_chunk.to_be_bytes());
        p.extend_from_slice(&sample_desc.to_be_bytes());
    }
    p
}

fn build_audio_sample_entry_v0(fourcc_kind: &[u8; 4], channels: u16, sample_size: u16, sample_rate_hz: u32, children: &[u8]) -> Vec<u8> {
    let mut p = Vec::new();
    p.extend_from_slice(&[0u8; 6]);
    p.extend_from_slice(&1u16.to_be_bytes());
    p.extend_from_slice(&0u16.to_be_bytes());
    p.extend_from_slice(&[0u8; 2 + 4]);
    p.extend_from_slice(&channels.to_be_bytes());
    p.extend_from_slice(&sample_size.to_be_bytes());
    p.extend_from_slice(&[0u8; 2 + 2]);
    p.extend_from_slice(&(sample_rate_hz << 16).to_be_bytes());
    p.extend_from_slice(children);
    encode_box(fourcc_kind, &p)
}

fn build_stsd_payload(entries: &[Vec<u8>]) -> Vec<u8> {
    let mut p = Vec::new();
    p.extend_from_slice(&[0u8; 4]);
    p.extend_from_slice(&(entries.len() as u32).to_be_bytes());
    for e in entries {
        p.extend_from_slice(e);
    }
    p
}

fn build_trex(track_id: u32, default_duration: u32, default_size: u32) -> Vec<u8> {
    let mut p = vec![0u8; 4];
    p.extend_from_slice(&track_id.to_be_bytes());
    p.extend_from_slice(&0u32.to_be_bytes());
    p.extend_from_slice(&default_duration.to_be_bytes());
    p.extend_from_slice(&default_size.to_be_bytes());
    p.extend_from_slice(&0u32.to_be_bytes());
    encode_box(b"trex", &p)
}

fn build_tfhd(track_id: u32) -> Vec<u8> {
    let mut p = vec![0u8; 4];
    p.extend_from_slice(&track_id.to_be_bytes());
    encode_box(b"tfhd", &p)
}

fn build_trun(sample_count: u32) -> Vec<u8> {
    let mut p = vec![0u8; 4];
    p.extend_from_slice(&sample_count.to_be_bytes());
    encode_box(b"trun", &p)
}

// ---- moov ----

#[test]
fn parses_mvhd_into_builder() {
    let moov = encode_box(b"moov", &encode_box(b"mvhd", &build_mvhd_payload_v0(1000, 60_000, 3)));
    let (parent, mut s) = read(moov);
    let mut b = MoovBuilder::default();
    lib::mp4::moov::parse(&mut s, &parent, &mut b).unwrap();
    assert_eq!(b.timescale, Some(1000));
    assert_eq!(b.duration_units, Some(60_000));
    assert_eq!(b.next_track_id, Some(3));
}

#[test]
fn unknown_child_is_skipped() {
    let moov = encode_box(b"moov", &encode_box(b"junk", &[0u8; 4]));
    let (parent, mut s) = read(moov);
    let mut b = MoovBuilder::default();
    lib::mp4::moov::parse(&mut s, &parent, &mut b).unwrap();
    assert!(b.timescale.is_none());
}

#[test]
fn finalise_container_emits_movie_timescale_and_duration() {
    let mut b = MoovBuilder::default();
    b.timescale = Some(1000);
    b.duration_units = Some(60_000);
    let mut props = ContainerProperties::default();
    b.finalise_container(&mut props);
    assert_eq!(props.movie_timescale, Some(1000));
    assert_eq!(props.duration_ns.unwrap(), 60_000_000_000);
}

#[test]
fn finalise_skips_duration_when_timescale_zero() {
    let mut b = MoovBuilder::default();
    b.timescale = Some(0);
    b.duration_units = Some(60_000);
    let mut props = ContainerProperties::default();
    b.finalise_container(&mut props);
    assert_eq!(props.movie_timescale, Some(0));
    assert!(props.duration_ns.is_none());
}

#[test]
fn moov_collects_tracks_and_trex_defaults() {
    let trak = encode_box(b"trak", &encode_box(b"tkhd", &build_tkhd_payload_v0(5, 640, 480)));
    let mvex = encode_box(b"mvex", &build_trex(5, 512, 0));
    let mut payload = trak;
    payload.extend(mvex);
    let (parent, mut s) = read(encode_box(b"moov", &payload));
    let mut b = MoovBuilder::default();
    lib::mp4::moov::parse(&mut s, &parent, &mut b).unwrap();
    assert_eq!(b.tracks.len(), 1);
    assert_eq!(b.tracks[0].track_id, Some(5));
    assert_eq!(b.mvex_defaults.default_duration_for(5), Some(512));
}

// ---- trak ----

#[test]
fn tkhd_populates_track_id_and_dims() {
    let trak = encode_box(b"trak", &encode_box(b"tkhd", &build_tkhd_payload_v0(42, 1920, 1080)));
    let (parent, mut s) = read(trak);
    let b = trak::parse(&mut s, &parent).unwrap();
    assert_eq!(b.track_id, Some(42));
    let dims = b.display_dimensions().unwrap();
    assert_eq!(dims.width, 1920);
    assert_eq!(dims.height, 1080);
}

#[test]
fn missing_tkhd_leaves_track_id_none() {
    let (parent, mut s) = read(encode_box(b"trak", &[]));
    let b = trak::parse(&mut s, &parent).unwrap();
    assert!(b.track_id.is_none());
    assert!(b.display_dimensions().is_none());
}

#[test]
fn tref_chap_collects_chapter_track_ids() {
    let tkhd = encode_box(b"tkhd", &build_tkhd_payload_v0(1, 1920, 1080));
    let chap = encode_box(b"chap", &7u32.to_be_bytes());
    let tref = encode_box(b"tref", &chap);
    let mut trak_payload = tkhd;
    trak_payload.extend(tref);
    let (parent, mut s) = read(encode_box(b"trak", &trak_payload));
    let b = trak::parse(&mut s, &parent).unwrap();
    assert_eq!(b.track_id, Some(1));
    assert_eq!(b.chapter_track_ids, vec![7]);
}

#[test]
fn display_dimensions_none_when_either_zero() {
    let mut b = TrackBuilder::default();
    b.display_width_fixed = Some(0);
    b.display_height_fixed = Some(1080u32 << 16);
    assert!(b.display_dimensions().is_none());
}

#[test]
fn merge_codec_config_bridges_video_config() {
    let mut b = TrackBuilder::default();
    b.video_codec_config = Some(VideoCodecConfig { profile_idc: Some(100), ..Default::default() });
    b.merge_codec_config();
    let v = b.video.unwrap();
    assert_eq!(v.codec_config.unwrap().profile_idc, Some(100));
}

#[test]
fn merge_codec_config_bridges_audio_config() {
    let mut b = TrackBuilder::default();
    b.audio_codec_config = Some(AudioCodecConfig { aac_object_type: Some(2), ..Default::default() });
    b.merge_codec_config();
    let a = b.audio.unwrap();
    assert_eq!(a.codec_config.unwrap().aac_object_type, Some(2));
}

#[test]
fn merge_codec_config_no_op_when_no_codec_config() {
    let mut b = TrackBuilder::default();
    b.merge_codec_config();
    assert!(b.video.is_none());
    assert!(b.audio.is_none());
}

#[test]
fn merge_codec_config_carries_rotation_and_flip() {
    let mut b = TrackBuilder::default();
    b.rotation_degrees = Some(90);
    b.flipped = true;
    b.merge_codec_config();
    let v = b.video.unwrap();
    assert_eq!(v.rotation_degrees, Some(90));
    assert_eq!(v.flipped, Some(true));
}

#[test]
fn edts_payload_records_offset() {
    let elst = encode_box(b"elst", &build_elst_v0(&[(1000, 0)]));
    let trak = encode_box(b"trak", &encode_box(b"edts", &elst));
    let (parent, mut s) = read(trak);
    let b = trak::parse(&mut s, &parent).unwrap();
    assert_eq!(b.edts_total_duration, Some(1000));
    assert!(!b.edts_has_offset);
}

#[test]
fn unknown_child_ignored() {
    let trak = encode_box(b"trak", &encode_box(b"junk", &[0u8; 4]));
    let (parent, mut s) = read(trak);
    let b = trak::parse(&mut s, &parent).unwrap();
    assert!(b.track_id.is_none());
    assert!(b.video_codec_config.is_none());
}

// ---- mdia ----

#[test]
fn parses_mdhd_and_hdlr_into_builder() {
    let mdhd = encode_box(b"mdhd", &build_mdhd_payload_v0(48000, 1024, "fra"));
    let hdlr = encode_box(b"hdlr", &build_hdlr_payload(b"soun", "SoundHandler"));
    let mut payload = mdhd;
    payload.extend(hdlr);
    let (h, mut s) = read(encode_box(b"mdia", &payload));
    let mut b = TrackBuilder::default();
    mdia::parse(&mut s, &h, &mut b).unwrap();
    assert_eq!(b.media_timescale, Some(48000));
    assert_eq!(b.language_iso_639_2.as_deref(), Some("fra"));
    assert_eq!(b.handler_type, Some(*b"soun"));
    assert_eq!(b.handler_name.as_deref(), Some("SoundHandler"));
}

#[test]
fn unknown_minf_child_is_skipped() {
    let minf = encode_box(b"minf", &encode_box(b"xxxx", &[0u8; 4]));
    let (h, mut s) = read(encode_box(b"mdia", &minf));
    let mut b = TrackBuilder::default();
    mdia::parse(&mut s, &h, &mut b).unwrap();
    assert!(b.codec_id_str.is_none());
}

#[test]
fn mdhd_with_zero_timescale_marks_media_invalid() {
    let mdhd = encode_box(b"mdhd", &build_mdhd_payload_v0(0, 1024, "eng"));
    let (h, mut s) = read(encode_box(b"mdia", &mdhd));
    let mut b = TrackBuilder::default();
    mdia::parse(&mut s, &h, &mut b).unwrap();
    assert!(b.media_invalid);
    assert!(b.media_timescale.is_none());
}

// ---- edts ----

fn run_edts(payload: Vec<u8>) -> TrackBuilder {
    let edts = encode_box(b"edts", &encode_box(b"elst", &payload));
    let (parent, mut s) = read(edts);
    let mut b = TrackBuilder::default();
    edts::parse(&mut s, &parent, &mut b).unwrap();
    b
}

#[test]
fn sums_v0_segment_durations() {
    let b = run_edts(build_elst_v0(&[(100, 0), (200, 0)]));
    assert_eq!(b.edts_total_duration, Some(300));
    assert!(!b.edts_has_offset);
}

#[test]
fn sums_v1_segment_durations() {
    let b = run_edts(build_elst_v1(&[(100u64, 0i64), (200, 0)]));
    assert_eq!(b.edts_total_duration, Some(300));
}

#[test]
fn negative_one_media_time_does_not_flag_offset() {
    let b = run_edts(build_elst_v0(&[(100, -1)]));
    assert!(!b.edts_has_offset);
}

#[test]
fn positive_media_time_flags_offset() {
    let b = run_edts(build_elst_v0(&[(100, 42)]));
    assert!(b.edts_has_offset);
}

#[test]
fn edts_rejects_truncated_payload() {
    let edts = encode_box(b"edts", &encode_box(b"elst", &[0u8; 4]));
    let (parent, mut s) = read(edts);
    let mut b = TrackBuilder::default();
    let err = edts::parse(&mut s, &parent, &mut b).unwrap_err();
    assert!(matches!(err, ParseError::Malformed { .. }));
}

#[test]
fn edts_rejects_entry_count_overflowing_payload() {
    let mut p = Vec::new();
    p.push(0);
    p.extend_from_slice(&[0u8; 3]);
    p.extend_from_slice(&999u32.to_be_bytes());
    let edts = encode_box(b"edts", &encode_box(b"elst", &p));
    let (parent, mut s) = read(edts);
    let mut b = TrackBuilder::default();
    let err = edts::parse(&mut s, &parent, &mut b).unwrap_err();
    assert!(matches!(err, ParseError::Malformed { .. }));
}

#[test]
fn ignores_non_elst_children() {
    let edts = encode_box(b"edts", &encode_box(b"xxxx", &[]));
    let (parent, mut s) = read(edts);
    let mut b = TrackBuilder::default();
    edts::parse(&mut s, &parent, &mut b).unwrap();
    assert!(b.edts_total_duration.is_none());
}

#[test]
fn elst_total_saturates_at_u64_max() {
    let b = run_edts(build_elst_v1(&[(u64::MAX - 5, 0), (10, 0)]));
    assert_eq!(b.edts_total_duration, Some(u64::MAX));
}

// ---- mdhd ----

#[test]
fn parses_v0_with_eng_language() {
    let (h, mut s) = read(encode_box(b"mdhd", &build_mdhd_payload_v0(48000, 1024, "eng")));
    let m = mdhd::parse(&mut s, &h).unwrap();
    assert_eq!(m.version, 0);
    assert_eq!(m.timescale, 48000);
    assert_eq!(m.duration, 1024);
    assert_eq!(m.language_iso_639_2.as_deref(), Some("eng"));
}

#[test]
fn parses_v1_with_jpn_language_and_64_bit_duration() {
    let mut p = Vec::new();
    p.push(1);
    p.extend_from_slice(&[0u8; 3]);
    p.extend_from_slice(&[0u8; 8]);
    p.extend_from_slice(&[0u8; 8]);
    p.extend_from_slice(&48000u32.to_be_bytes());
    p.extend_from_slice(&(1u64 << 40).to_be_bytes());
    p.extend_from_slice(&encode_packed_language("jpn").to_be_bytes());
    p.extend_from_slice(&0u16.to_be_bytes());
    let (h, mut s) = read(encode_box(b"mdhd", &p));
    let m = mdhd::parse(&mut s, &h).unwrap();
    assert_eq!(m.version, 1);
    assert_eq!(m.duration, 1u64 << 40);
    assert_eq!(m.language_iso_639_2.as_deref(), Some("jpn"));
}

#[test]
fn all_zero_packed_language_is_absent() {
    assert!(decode_packed_language_opt(0).is_none());
}

#[test]
fn packed_language_round_trip() {
    for code in ["eng", "fra", "jpn", "deu", "zho"] {
        let packed = encode_packed_language(code);
        assert_eq!(decode_packed_language(packed), code);
    }
}

#[test]
fn packed_language_top_bit_ignored() {
    let packed = encode_packed_language("eng") | 0x8000;
    assert_eq!(decode_packed_language(packed), "eng");
}

#[test]
fn non_letter_packed_returns_und() {
    assert!(decode_packed_language_opt(0x7FFF).is_none());
}

#[test]
fn mdhd_rejects_truncated_payload() {
    let (h, mut s) = read(encode_box(b"mdhd", &[0u8; 8]));
    let err = mdhd::parse(&mut s, &h).unwrap_err();
    assert!(matches!(err, ParseError::Malformed { .. }));
}

// ---- hdlr ----

fn parsed(handler_type: &[u8; 4], name: &str) -> hdlr::Handler {
    let (h, mut s) = read(encode_box(b"hdlr", &build_hdlr_payload(handler_type, name)));
    hdlr::parse(&mut s, &h).unwrap()
}

#[test]
fn vide_classified_as_video() {
    let h = parsed(b"vide", "VideoHandler");
    assert_eq!(h.classify(), TrackType::Video);
    assert_eq!(h.name, "VideoHandler");
}

#[test]
fn soun_classified_as_audio() {
    assert_eq!(parsed(b"soun", "").classify(), TrackType::Audio);
}

#[test]
fn subt_and_sbtl_classified_as_subtitles() {
    assert_eq!(parsed(b"subt", "").classify(), TrackType::Subtitles);
    assert_eq!(parsed(b"sbtl", "").classify(), TrackType::Subtitles);
    assert_eq!(parsed(b"text", "").classify(), TrackType::Subtitles);
}

#[test]
fn meta_handler_recognised() {
    let h = parsed(b"meta", "");
    assert_eq!(h.classify(), TrackType::Unknown);
    assert!(h.is_metadata_handler());
}

#[test]
fn unknown_handler_is_unknown() {
    assert_eq!(parsed(b"XXXX", "").classify(), TrackType::Unknown);
}

#[test]
fn name_round_trips() {
    let h = parsed(b"vide", "MyHandler");
    assert_eq!(h.name, "MyHandler");
}

#[test]
fn empty_name_is_empty_string() {
    let h = parsed(b"vide", "");
    assert_eq!(h.name, "");
}

#[test]
fn hdlr_rejects_truncated_payload() {
    let (h, mut s) = read(encode_box(b"hdlr", &[0u8; 8]));
    let err = hdlr::parse(&mut s, &h).unwrap_err();
    assert!(matches!(err, ParseError::Malformed { .. }));
}

// ---- mvhd ----

#[test]
fn parses_v0_payload() {
    let (h, mut s) = read(encode_box(b"mvhd", &build_mvhd_payload_v0(1000, 60_000, 5)));
    let m = mvhd::parse(&mut s, &h).unwrap();
    assert_eq!(m.version, 0);
    assert_eq!(m.timescale, 1000);
    assert_eq!(m.duration, 60_000);
    assert_eq!(m.next_track_id, 5);
}

#[test]
fn parses_v1_payload_with_64_bit_duration() {
    let (h, mut s) = read(encode_box(b"mvhd", &build_mvhd_payload_v1(48000, 1u64 << 40, 9)));
    let m = mvhd::parse(&mut s, &h).unwrap();
    assert_eq!(m.version, 1);
    assert_eq!(m.timescale, 48000);
    assert_eq!(m.duration, 1u64 << 40);
    assert_eq!(m.next_track_id, 9);
}

#[test]
fn mvhd_rejects_truncated_payload() {
    let (h, mut s) = read(encode_box(b"mvhd", &[0u8; 16]));
    let err = mvhd::parse(&mut s, &h).unwrap_err();
    assert!(matches!(err, ParseError::Malformed { .. }));
}

// ---- tkhd ----

#[test]
fn parses_v0_tkhd() {
    let (h, mut s) = read(encode_box(b"tkhd", &build_tkhd_payload_v0(2, 1920, 1080)));
    let t = tkhd::parse(&mut s, &h).unwrap();
    assert_eq!(t.track_id, 2);
    assert_eq!(fixed_to_pixels(t.width_fixed), 1920);
    assert_eq!(fixed_to_pixels(t.height_fixed), 1080);
    assert!(t.enabled);
}

#[test]
fn parses_v1_tkhd() {
    let mut p = Vec::new();
    p.push(1);
    p.extend_from_slice(&[0u8, 0u8, 0x01u8]);
    p.extend_from_slice(&[0u8; 8]);
    p.extend_from_slice(&[0u8; 8]);
    p.extend_from_slice(&7u32.to_be_bytes());
    p.extend_from_slice(&[0u8; 4]);
    p.extend_from_slice(&[0u8; 8]);
    p.extend_from_slice(&[0u8; 8 + 2 + 2 + 2 + 2 + 36]);
    p.extend_from_slice(&(1280u32 << 16).to_be_bytes());
    p.extend_from_slice(&(720u32 << 16).to_be_bytes());
    let (h, mut s) = read(encode_box(b"tkhd", &p));
    let t = tkhd::parse(&mut s, &h).unwrap();
    assert_eq!(t.version, 1);
    assert_eq!(t.track_id, 7);
    assert_eq!(fixed_to_pixels(t.width_fixed), 1280);
    assert_eq!(fixed_to_pixels(t.height_fixed), 720);
}

#[test]
fn flag_enabled_decoded() {
    let mut p = build_tkhd_payload_v0(1, 0, 0);
    p[3] = 0;
    let (h, mut s) = read(encode_box(b"tkhd", &p));
    let t = tkhd::parse(&mut s, &h).unwrap();
    assert!(!t.enabled);
}

#[test]
fn tkhd_rejects_truncated_payload() {
    let (h, mut s) = read(encode_box(b"tkhd", &[0u8; 16]));
    let err = tkhd::parse(&mut s, &h).unwrap_err();
    assert!(matches!(err, ParseError::Malformed { .. }));
}

fn matrix_with(a: f64, b: f64, c: f64, d: f64) -> [u8; 36] {
    let mut m = [0u8; 36];
    let cells: [f64; 9] = [a, b, 0.0, c, d, 0.0, 0.0, 0.0, 1.0];
    for (i, v) in cells.iter().enumerate() {
        let fixed = (v * 65536.0) as i32;
        m[i * 4..i * 4 + 4].copy_from_slice(&fixed.to_be_bytes());
    }
    m
}

#[test]
fn matrix_decodes_identity() {
    let (rot, flip) = decode_matrix(&matrix_with(1.0, 0.0, 0.0, 1.0));
    assert!(rot.is_none());
    assert!(!flip);
}

#[test]
fn matrix_decodes_90_degree_rotation() {
    let (rot, flip) = decode_matrix(&matrix_with(0.0, 1.0, -1.0, 0.0));
    assert_eq!(rot, Some(90));
    assert!(!flip);
}

#[test]
fn matrix_decodes_180_degree_rotation() {
    let (rot, _) = decode_matrix(&matrix_with(-1.0, 0.0, 0.0, -1.0));
    assert_eq!(rot, Some(180));
}

#[test]
fn matrix_decodes_270_degree_rotation() {
    let (rot, _) = decode_matrix(&matrix_with(0.0, -1.0, 1.0, 0.0));
    assert_eq!(rot, Some(270));
}

#[test]
fn matrix_decodes_horizontal_flip() {
    let (_, flip) = decode_matrix(&matrix_with(-1.0, 0.0, 0.0, 1.0));
    assert!(flip);
}

#[test]
fn fixed_to_pixels_rounds_half_up() {
    assert_eq!(fixed_to_pixels(0x07800000), 1920);
    assert_eq!(fixed_to_pixels(0x00008000), 1);
    assert_eq!(fixed_to_pixels(0x00007FFF), 0);
}

#[test]
fn fixed_to_pixels_rounds_up_at_the_top_of_the_range() {
    assert_eq!(fixed_to_pixels(0xFFFF_8000), 65536);
    assert_eq!(fixed_to_pixels(u32::MAX), 65536);
    assert_eq!(fixed_to_pixels(0xFFFF_7FFF), 65535);
}

// ---- stts / stsc ----

#[test]
fn reads_first_entry() {
    let (h, mut s) = read(encode_box(b"stts", &build_stts_payload(&[(60, 100), (30, 200)])));
    let summary = stbl::stts::parse(&mut s, &h).unwrap();
    assert_eq!(summary.first_sample_count, 60);
    assert_eq!(summary.first_sample_delta, 100);
}

#[test]
fn zero_entries_returns_zero_summary() {
    let (h, mut s) = read(encode_box(b"stts", &build_stts_payload(&[])));
    let summary = stbl::stts::parse(&mut s, &h).unwrap();
    assert_eq!(summary.first_sample_count, 0);
    assert_eq!(summary.first_sample_delta, 0);
}

#[test]
fn stts_rejects_truncated_payload() {
    let (h, mut s) = read(encode_box(b"stts", &[0u8; 4]));
    let err = stbl::stts::parse(&mut s, &h).unwrap_err();
    assert!(matches!(err, ParseError::Malformed { .. }));
}

#[test]
fn stts_rejects_entry_count_overflowing_payload() {
    let mut p = vec![0u8; 4];
    p.extend_from_slice(&999u32.to_be_bytes());
    let (h, mut s) = read(encode_box(b"stts", &p));
    let err = stbl::stts::parse(&mut s, &h).unwrap_err();
    assert!(matches!(err, ParseError::Malformed { .. }));
}

#[test]
fn reads_all_entries() {
    let (h, mut s) = read(encode_box(b"stsc", &build_stsc_payload(&[(1, 4, 1), (3, 2, 1)])));
    let entries = stbl::stsc::parse(&mut s, &h, 64).unwrap();
    assert_eq!(
        entries,
        vec![
            StscEntry { first_chunk: 1, samples_per_chunk: 4 },
            StscEntry { first_chunk: 3, samples_per_chunk: 2 },
        ]
    );
}

#[test]
fn caps_at_max_entries() {
    let (h, mut s) = read(encode_box(b"stsc", &build_stsc_payload(&[(1, 4, 1), (3, 2, 1), (5, 1, 1)])));
    let entries = stbl::stsc::parse(&mut s, &h, 2).unwrap();
    assert_eq!(entries.len(), 2);
}

#[test]
fn empty_or_truncated_yields_empty() {
    let (h, mut s) = read(encode_box(b"stsc", &build_stsc_payload(&[])));
    assert!(stbl::stsc::parse(&mut s, &h, 64).unwrap().is_empty());
    let (h2, mut s2) = read(encode_box(b"stsc", &[0u8; 4]));
    assert!(stbl::stsc::parse(&mut s2, &h2, 64).unwrap().is_empty());
}

#[test]
fn caps_against_declared_payload() {
    let mut p = vec![0u8; 4];
    p.extend_from_slice(&999u32.to_be_bytes());
    p.extend_from_slice(&1u32.to_be_bytes());
    p.extend_from_slice(&4u32.to_be_bytes());
    p.extend_from_slice(&1u32.to_be_bytes());
    let (h, mut s) = read(encode_box(b"stsc", &p));
    let entries = stbl::stsc::parse(&mut s, &h, 64).unwrap();
    assert_eq!(entries.len(), 1);
}

// ---- stbl ----

fn run_stbl(children: Vec<u8>) -> TrackBuilder {
    let (parent, mut s) = read(encode_box(b"stbl", &children));
    let mut b = TrackBuilder::default();
    stbl::parse(&mut s, &parent, &mut b).unwrap();
    b
}

#[test]
fn parses_stsd_and_stts_into_builder() {
    let entry = build_audio_sample_entry_v0(b"mp4a", 2, 16, 48_000, &[]);
    let stsd = encode_box(b"stsd", &build_stsd_payload(&[entry]));
    let stts = encode_box(b"stts", &build_stts_payload(&[(60, 1000)]));
    let mut payload = stsd;
    payload.extend(stts);
    let (parent, mut s) = read(encode_box(b"stbl", &payload));
    let mut b = TrackBuilder::default();
    b.handler_type = Some(*b"soun");
    stbl::parse(&mut s, &parent, &mut b).unwrap();
    assert_eq!(b.codec_id_str.as_deref(), Some("mp4a"));
    assert_eq!(b.stts_first_sample_count, Some(60));
    assert_eq!(b.stts_first_sample_delta, Some(1000));
    assert_eq!(b.audio.unwrap().sampling_frequency, Some(SampleRate::Hz(48_000)));
}

#[test]
fn stsz_sample_count_recorded() {
    let mut p = vec![0u8; 4];
    p.extend_from_slice(&0u32.to_be_bytes());
    p.extend_from_slice(&512u32.to_be_bytes());
    let b = run_stbl(encode_box(b"stsz", &p));
    assert_eq!(b.sample_count, Some(512));
}

#[test]
fn stz2_sample_count_recorded() {
    let mut p = vec![0u8; 4];
    p.extend_from_slice(&[0, 0, 0, 16]);
    p.extend_from_slice(&99u32.to_be_bytes());
    let b = run_stbl(encode_box(b"stz2", &p));
    assert_eq!(b.sample_count, Some(99));
}

#[test]
fn unknown_stbl_child_skipped_silently() {
    let b = run_stbl(encode_box(b"junk", &[0u8; 4]));
    assert!(b.stts_first_sample_count.is_none());
}

#[test]
fn stsz_first_sample_size_from_per_sample_table() {
    let mut p = vec![0u8; 4];
    p.extend_from_slice(&0u32.to_be_bytes());
    p.extend_from_slice(&3u32.to_be_bytes());
    p.extend_from_slice(&777u32.to_be_bytes());
    let b = run_stbl(encode_box(b"stsz", &p));
    assert_eq!(b.sample_count, Some(3));
    assert_eq!(b.first_sample_size, Some(777));
}

#[test]
fn stsz_fixed_sample_size_is_first_sample_size() {
    let mut p = vec![0u8; 4];
    p.extend_from_slice(&512u32.to_be_bytes());
    p.extend_from_slice(&10u32.to_be_bytes());
    let b = run_stbl(encode_box(b"stsz", &p));
    assert_eq!(b.sample_count, Some(10));
    assert_eq!(b.first_sample_size, Some(512));
}

#[test]
fn stsz_zero_sample_count_yields_no_first_size() {
    let mut p = vec![0u8; 4];
    p.extend_from_slice(&0u32.to_be_bytes());
    p.extend_from_slice(&0u32.to_be_bytes());
    let b = run_stbl(encode_box(b"stsz", &p));
    assert_eq!(b.sample_count, Some(0));
    assert!(b.first_sample_size.is_none());
}

#[test]
fn stsz_truncated_payload_yields_none() {
    let b = run_stbl(encode_box(b"stsz", &[0u8; 4]));
    assert!(b.sample_count.is_none());
    assert!(b.first_sample_size.is_none());
}

#[test]
fn stz2_truncated_payload_yields_none() {
    let b = run_stbl(encode_box(b"stz2", &[0u8; 4]));
    assert!(b.sample_count.is_none());
}

#[test]
fn stco_first_chunk_offset_recorded() {
    let mut p = vec![0u8; 4];
    p.extend_from_slice(&2u32.to_be_bytes());
    p.extend_from_slice(&4096u32.to_be_bytes());
    p.extend_from_slice(&9000u32.to_be_bytes());
    let b = run_stbl(encode_box(b"stco", &p));
    assert_eq!(b.first_sample_file_offset, Some(4096));
}

#[test]
fn stco_empty_or_truncated_yields_none() {
    let mut p = vec![0u8; 4];
    p.extend_from_slice(&0u32.to_be_bytes());
    p.extend_from_slice(&1234u32.to_be_bytes());
    let b = run_stbl(encode_box(b"stco", &p));
    assert!(b.first_sample_file_offset.is_none());
    let b2 = run_stbl(encode_box(b"stco", &[0u8; 8]));
    assert!(b2.first_sample_file_offset.is_none());
}

#[test]
fn co64_first_chunk_offset_recorded() {
    let mut p = vec![0u8; 4];
    p.extend_from_slice(&1u32.to_be_bytes());
    p.extend_from_slice(&0x1_0000_0000u64.to_be_bytes());
    let b = run_stbl(encode_box(b"co64", &p));
    assert_eq!(b.first_sample_file_offset, Some(0x1_0000_0000));
}

#[test]
fn co64_empty_or_truncated_yields_none() {
    let mut p = vec![0u8; 4];
    p.extend_from_slice(&0u32.to_be_bytes());
    p.extend_from_slice(&0u64.to_be_bytes());
    let b = run_stbl(encode_box(b"co64", &p));
    assert!(b.first_sample_file_offset.is_none());
    let b2 = run_stbl(encode_box(b"co64", &[0u8; 8]));
    assert!(b2.first_sample_file_offset.is_none());
}

// ---- fragments ----

#[test]
fn mvex_with_one_trex_populates_defaults() {
    let (h, mut s) = read(encode_box(b"mvex", &build_trex(1, 1024, 0)));
    let mut d = TrexDefaults::default();
    parse_mvex(&mut s, &h, &mut d).unwrap();
    assert_eq!(d.entries.len(), 1);
    assert_eq!(d.entries[0].track_id, 1);
    assert_eq!(d.default_duration_for(1), Some(1024));
    assert!(d.default_duration_for(99).is_none());
}

#[test]
fn moof_summary_sums_sample_counts() {
    let mut traf_payload = build_tfhd(3);
    traf_payload.extend(build_trun(60));
    traf_payload.extend(build_trun(30));
    let moof = encode_box(b"moof", &encode_box(b"traf", &traf_payload));
    let (h, mut s) = read(moof);
    let summary = parse_moof(&mut s, &h).unwrap();
    assert_eq!(summary.track_runs.len(), 1);
    assert_eq!(summary.track_runs[0].track_id, 3);
    assert_eq!(summary.track_runs[0].sample_count, 90);
}

#[test]
fn traf_without_tfhd_is_dropped() {
    let moof = encode_box(b"moof", &encode_box(b"traf", &build_trun(10)));
    let (h, mut s) = read(moof);
    let summary = parse_moof(&mut s, &h).unwrap();
    assert!(summary.track_runs.is_empty());
}

#[test]
fn unknown_mvex_child_is_skipped() {
    let (h, mut s) = read(encode_box(b"mvex", &encode_box(b"xxxx", &[0u8; 4])));
    let mut d = TrexDefaults::default();
    parse_mvex(&mut s, &h, &mut d).unwrap();
    assert!(d.entries.is_empty());
}

#[test]
fn truncated_trex_does_not_populate() {
    let (h, mut s) = read(encode_box(b"mvex", &encode_box(b"trex", &vec![0u8; 8])));
    let mut d = TrexDefaults::default();
    parse_mvex(&mut s, &h, &mut d).unwrap();
    assert!(d.entries.is_empty());
}

#[test]
fn trun_counts_saturate() {
    let mut traf_payload = build_tfhd(1);
    traf_payload.extend(build_trun(u32::MAX));
    traf_payload.extend(build_trun(5));
    let moof = encode_box(b"moof", &encode_box(b"traf", &traf_payload));
    let (h, mut s) = read(moof);
    let summary = parse_moof(&mut s, &h).unwrap();
    assert_eq!(summary.track_runs[0].sample_count, u32::MAX);
}

#[test]
fn packed_language_round_trips() {
    for lang in ["eng", "deu", "zho", "aaa", "zzz"] {
        let b = lang.as_bytes();
        let raw = ((b[0] as u16 - 0x60) << 10) | ((b[1] as u16 - 0x60) << 5) | (b[2] as u16 - 0x60);
        assert_eq!(decode_packed_language_opt(raw).as_deref(), Some(lang));
    }
}

#[test]
fn children_before_one_extending_past_moov_are_still_handled() {
    let mut payload = encode_box(b"mvhd", &build_mvhd_payload_v0(600, 1200, 3));
    payload.extend_from_slice(&100u32.to_be_bytes());
    payload.extend_from_slice(b"trak");
    let (parent, mut s) = read(encode_box(b"moov", &payload));
    let mut b = MoovBuilder::default();
    let err = lib::mp4::moov::parse(&mut s, &parent, &mut b).unwrap_err();
    assert!(matches!(err, ParseError::Malformed { .. }));
    assert_eq!(b.timescale, Some(600));
}
