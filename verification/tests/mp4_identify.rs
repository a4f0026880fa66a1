use std::collections::HashMap;

use lib::model::{
    AudioCodecConfig, AudioTrackProperties, ContainerFormat, Dimensions2D, MediaMetadata, SampleRate,
    TagEntry, TrackType, VideoTrackProperties,
};
use lib::mp4::fragments::TrexEntry;
use lib::mp4::identify::{
    build_track, codec_from_object_type, compute_projection_pose, display_from_fixed,
    effective_codec_id, finalise, pcm_codec_from_sample_entry,
};
use lib::mp4::moov::trak::TrackBuilder;
use lib::mp4::moov::{identity_matrix, MoovBuilder};

fn video_builder(track_id: u32, codec: &str, lang: Option<&str>) -> TrackBuilder {
    let mut b = TrackBuilder::default();
    b.track_id = Some(track_id);
    b.codec_id_str = Some(codec.to_string());
    b.handler_type = Some(*b"vide");
    b.media_timescale = Some(48_000);
    b.stts_first_sample_delta = Some(1000);
    b.stts_first_sample_count = Some(60);
    b.display_width_fixed = Some(1920u32 << 16);
    b.display_height_fixed = Some(1080u32 << 16);
    let mut v = VideoTrackProperties::default();
    v.pixel_dimensions = Some(Dimensions2D { width: 1920, height: 1080 });
    b.video = Some(v);
    if let Some(l) = lang {
        b.language_iso_639_2 = Some(l.to_string());
    }
    b
}

fn audio_builder(track_id: u32, codec: &str) -> TrackBuilder {
    let mut b = TrackBuilder::default();
    b.track_id = Some(track_id);
    b.codec_id_str = Some(codec.to_string());
    b.handler_type = Some(*b"soun");
    b.media_timescale = Some(48_000);
    let mut a = AudioTrackProperties::default();
    a.channels = Some(2);
    a.sampling_frequency = Some(SampleRate::Hz(48_000));
    b.audio = Some(a);
    if codec == "mp4a" {
        b.esds_object_type = Some(0x40);
        let mut c = AudioCodecConfig::default();
        c.aac_object_type = Some(2);
        b.audio_codec_config = Some(c);
    }
    b
}

fn subtitle_builder(track_id: u32, codec: &str) -> TrackBuilder {
    let mut b = TrackBuilder::default();
    b.track_id = Some(track_id);
    b.codec_id_str = Some(codec.to_string());
    b.handler_type = Some(*b"text");
    b.media_timescale = Some(1000);
    b
}

fn fixed_matrix(cells: [[f64; 3]; 3]) -> [[i32; 3]; 3] {
    let mut m = [[0i32; 3]; 3];
    for i in 0..3 {
        for j in 0..3 {
            let scale = if j == 2 { 1u64 << 30 } else { 1u64 << 16 } as f64;
            m[i][j] = (cells[i][j] * scale) as i32;
        }
    }
    m
}

/// Yaw and roll in degrees of a computed orientation.
fn pose(track: &[[i32; 3]; 3], movie: &[[i32; 3]; 3]) -> Option<(f64, f64)> {
    compute_projection_pose(track, movie).map(|o| {
        let roll = (o.m10 as f64).atan2(o.m11 as f64) * 180.0 / std::f64::consts::PI;
        (o.yaw_degrees as f64, roll)
    })
}

fn run(moov: MoovBuilder, fragmented: bool, counts: HashMap<u32, u32>) -> MediaMetadata {
    let mut m = MediaMetadata::new();
    finalise(moov, fragmented, counts, &mut m);
    m
}

#[test]
fn empty_moov_yields_no_tracks() {
    let mut m = MediaMetadata::new();
    m.format = ContainerFormat::Mp4;
    finalise(MoovBuilder::default(), false, HashMap::new(), &mut m);
    assert!(m.tracks.is_empty());
    assert_eq!(m.properties.is_fragmented, Some(false));
}

#[test]
fn fragmented_flag_round_trips() {
    let m = run(MoovBuilder::default(), true, HashMap::new());
    assert_eq!(m.properties.is_fragmented, Some(true));
}

#[test]
fn video_track_finalised_with_stts_default_duration() {
    let mut moov = MoovBuilder::default();
    moov.tracks.push(video_builder(1, "avc1", Some("eng")));
    let m = run(moov, false, HashMap::new());
    assert_eq!(m.tracks.len(), 1);
    let v = m.tracks[0].properties.video.as_ref().unwrap();
    assert_eq!(v.default_duration_ns, Some(20_833_333));
    assert_eq!(m.tracks[0].properties.common.language.as_deref(), Some("eng"));
}

#[test]
fn mvex_default_duration_used_when_stts_absent() {
    let mut moov = MoovBuilder::default();
    let mut b = video_builder(7, "avc1", None);
    b.stts_first_sample_delta = None;
    b.stts_first_sample_count = None;
    moov.tracks.push(b);
    moov.mvex_defaults.entries.push(TrexEntry {
        track_id: 7,
        default_sample_duration: 2000,
        default_sample_size: 0,
    });
    let m = run(moov, true, HashMap::new());
    let v = m.tracks[0].properties.video.as_ref().unwrap();
    assert_eq!(v.default_duration_ns, Some(41_666_666));
}

#[test]
fn audio_track_propagated() {
    let mut moov = MoovBuilder::default();
    moov.tracks.push(audio_builder(2, "mp4a"));
    let m = run(moov, false, HashMap::new());
    assert_eq!(m.tracks.len(), 1);
    let a = m.tracks[0].properties.audio.as_ref().unwrap();
    assert_eq!(a.channels, Some(2));
}

#[test]
fn subtitle_track_text_marked_for_text_codecs() {
    let mut moov = MoovBuilder::default();
    moov.tracks.push(subtitle_builder(3, "tx3g"));
    let m = run(moov, false, HashMap::new());
    let sub = m.tracks[0].properties.subtitle.as_ref().unwrap();
    assert!(sub.text_subtitles);
    assert_eq!(sub.variant.as_deref(), Some("tx3g"));
}

#[test]
fn subtitle_track_image_for_unknown_codec() {
    let mut moov = MoovBuilder::default();
    moov.tracks.push(subtitle_builder(3, "image"));
    let m = run(moov, false, HashMap::new());
    let sub = m.tracks[0].properties.subtitle.as_ref().unwrap();
    assert!(!sub.text_subtitles);
}

#[test]
fn track_without_codec_id_dropped() {
    let mut moov = MoovBuilder::default();
    let mut b = video_builder(5, "", Some("eng"));
    b.codec_id_str = Some(String::new());
    moov.tracks.push(b);
    let m = run(moov, false, HashMap::new());
    assert!(m.tracks.is_empty());
}

#[test]
fn track_with_metadata_handler_dropped() {
    let mut moov = MoovBuilder::default();
    let mut b = video_builder(5, "mdir", Some("eng"));
    b.handler_type = Some(*b"meta");
    moov.tracks.push(b);
    let m = run(moov, false, HashMap::new());
    assert!(m.tracks.is_empty());
}

#[test]
fn fragment_track_count_routed_to_num_index_entries() {
    let mut moov = MoovBuilder::default();
    moov.tracks.push(video_builder(9, "avc1", None));
    let mut counts = HashMap::new();
    counts.insert(9u32, 120u32);
    let m = run(moov, true, counts);
    assert_eq!(m.tracks[0].properties.common.num_index_entries, Some(120));
}

#[test]
fn projection_pose_identity_is_none_worthwhile() {
    let id = identity_matrix();
    let (yaw, roll) = pose(&id, &id).unwrap();
    assert_eq!(yaw, 0.0);
    assert!(roll.abs() < 0.01);
}

#[test]
fn projection_pose_90_degree_track_matrix() {
    let track = fixed_matrix([[0.0, 1.0, 0.0], [-1.0, 0.0, 0.0], [0.0, 0.0, 1.0]]);
    let movie = identity_matrix();
    let (yaw, roll) = pose(&track, &movie).unwrap();
    assert_eq!(yaw, 0.0);
    assert!((roll.abs() - 90.0).abs() < 0.01);
}

#[test]
fn projection_pose_flip_reports_yaw_180() {
    let track = fixed_matrix([[-1.0, 0.0, 0.0], [0.0, 1.0, 0.0], [0.0, 0.0, 1.0]]);
    let movie = identity_matrix();
    let (yaw, _roll) = pose(&track, &movie).unwrap();
    assert_eq!(yaw, 180.0);
}

#[test]
fn projection_pose_rejects_affine() {
    let mut track = identity_matrix();
    track[0][2] = 0x1000;
    let movie = identity_matrix();
    assert!(compute_projection_pose(&track, &movie).is_none());
}

#[test]
fn video_track_gets_projection_pose_from_rotated_matrix() {
    let mut moov = MoovBuilder::default();
    let mut b = video_builder(1, "avc1", None);
    b.display_matrix = Some(fixed_matrix([[0.0, 1.0, 0.0], [-1.0, 0.0, 0.0], [0.0, 0.0, 1.0]]));
    moov.tracks.push(b);
    let m = run(moov, false, HashMap::new());
    let v = m.tracks[0].properties.video.as_ref().unwrap();
    let o = v.orientation.unwrap();
    let roll = (o.m10 as f64).atan2(o.m11 as f64) * 180.0 / std::f64::consts::PI;
    assert!((roll.abs() - 90.0).abs() < 0.01);
}

#[test]
fn media_invalid_track_dropped() {
    let mut moov = MoovBuilder::default();
    let mut b = video_builder(1, "avc1", Some("eng"));
    b.media_invalid = true;
    moov.tracks.push(b);
    let m = run(moov, false, HashMap::new());
    assert!(m.tracks.is_empty());
}

#[test]
fn bare_mp4a_without_esds_object_type_dropped() {
    let mut moov = MoovBuilder::default();
    let mut b = audio_builder(2, "mp4a");
    b.esds_object_type = None;
    b.audio_codec_config = None;
    moov.tracks.push(b);
    let m = run(moov, false, HashMap::new());
    assert!(m.tracks.is_empty());
}

#[test]
fn aac_without_decoder_config_dropped() {
    let mut moov = MoovBuilder::default();
    let mut b = audio_builder(2, "mp4a");
    b.esds_object_type = Some(0x40);
    b.audio_codec_config = None;
    moov.tracks.push(b);
    let m = run(moov, false, HashMap::new());
    assert!(m.tracks.is_empty());
}

#[test]
fn aac_with_decoder_config_kept() {
    let mut moov = MoovBuilder::default();
    moov.tracks.push(audio_builder(2, "mp4a"));
    let m = run(moov, false, HashMap::new());
    assert_eq!(m.tracks.len(), 1);
    assert_eq!(m.tracks[0].codec.id, "A_AAC");
}

#[test]
fn esds_object_type_table_matches_mkvtoolnix_supported_set() {
    assert_eq!(codec_from_object_type(0x40).unwrap().0, "A_AAC");
    assert_eq!(codec_from_object_type(0x69).unwrap().0, "A_MPEG/L3");
    assert_eq!(codec_from_object_type(0x6B).unwrap().0, "A_MPEG/L2");
    assert_eq!(codec_from_object_type(0xA9).unwrap().0, "A_DTS");
    assert_eq!(codec_from_object_type(0x60).unwrap(), ("V_MPEG12", "MPEG-1/2"));
    assert_eq!(codec_from_object_type(0x65).unwrap(), ("V_MPEG12", "MPEG-1/2"));
    assert_eq!(codec_from_object_type(0x6A).unwrap(), ("V_MPEG12", "MPEG-1/2"));
    assert_eq!(codec_from_object_type(0x20).unwrap().0, "V_MPEG4/ISO/ASP");
    assert_eq!(codec_from_object_type(0xE0).unwrap().0, "S_VOBSUB");
    assert!(codec_from_object_type(0xA5).is_none());
    assert!(codec_from_object_type(0xA6).is_none());
    assert!(codec_from_object_type(0x23).is_none());
    assert!(codec_from_object_type(0x6C).is_none());
}

#[test]
fn recognised_esds_object_type_overrides_nongeneric_sample_entry() {
    let mut moov = MoovBuilder::default();
    let mut b = video_builder(1, "avc1", None);
    b.esds_object_type = Some(0x20);
    moov.tracks.push(b);
    let m = run(moov, false, HashMap::new());
    assert_eq!(m.tracks.len(), 1);
    assert_eq!(m.tracks[0].codec.id, "V_MPEG4/ISO/ASP");
    assert_eq!(m.tracks[0].codec.name.as_deref(), Some("MPEG-4 Visual"));

    let mut b = video_builder(1, "avc1", None);
    b.esds_object_type = Some(0x20);
    assert_eq!(effective_codec_id(&b), "V_MPEG4/ISO/ASP");
}

#[test]
fn lpcm_flags_select_pcm_variant() {
    let mut moov = MoovBuilder::default();
    let mut b = audio_builder(2, "lpcm");
    b.audio_format_flags = Some(0x01);
    moov.tracks.push(b);
    let m = run(moov, false, HashMap::new());
    assert_eq!(m.tracks[0].codec.id, "A_PCM/FLOAT/IEEE");

    let mut moov = MoovBuilder::default();
    let mut b = audio_builder(2, "lpcm");
    b.audio_format_flags = Some(0x02);
    moov.tracks.push(b);
    let m = run(moov, false, HashMap::new());
    assert_eq!(m.tracks[0].codec.id, "A_PCM/INT/BIG");
}

#[test]
fn in24_maps_to_little_endian_pcm() {
    let mut moov = MoovBuilder::default();
    moov.tracks.push(audio_builder(2, "in24"));
    let m = run(moov, false, HashMap::new());
    assert_eq!(m.tracks[0].codec.id, "A_PCM/INT/LIT");
}

#[test]
fn sample_count_routed_to_num_index_entries() {
    let mut moov = MoovBuilder::default();
    let mut b = video_builder(1, "avc1", None);
    b.sample_count = Some(250);
    moov.tracks.push(b);
    let m = run(moov, false, HashMap::new());
    assert_eq!(m.tracks[0].properties.common.num_index_entries, Some(250));
}

#[test]
fn quicktime_chapter_track_counted_and_excluded() {
    let mut moov = MoovBuilder::default();
    let mut video = video_builder(1, "avc1", Some("eng"));
    video.chapter_track_ids = vec![2];
    moov.tracks.push(video);
    let mut chap = subtitle_builder(2, "text");
    chap.sample_count = Some(5);
    moov.tracks.push(chap);
    let m = run(moov, false, HashMap::new());
    assert_eq!(m.tracks.len(), 1);
    assert_eq!(m.tracks[0].track_type, TrackType::Video);
    assert_eq!(m.chapters.num_entries, 5);
    assert_eq!(m.chapters.num_editions, 1);
}

#[test]
fn nero_chapters_take_precedence_over_chapter_track() {
    let mut moov = MoovBuilder::default();
    let mut video = video_builder(1, "avc1", None);
    video.chapter_track_ids = vec![2];
    moov.tracks.push(video);
    let mut chap = subtitle_builder(2, "text");
    chap.sample_count = Some(5);
    moov.tracks.push(chap);
    let mut m = MediaMetadata::new();
    m.chapters.num_entries = 3;
    m.chapters.num_editions = 1;
    finalise(moov, false, HashMap::new(), &mut m);
    assert_eq!(m.chapters.num_entries, 3);
    assert_eq!(m.tracks.len(), 1);
    assert_eq!(m.tracks[0].track_type, TrackType::Video);
}

#[test]
fn display_dimensions_filled_from_fixed_when_video_lacks_them() {
    let mut moov = MoovBuilder::default();
    let mut b = video_builder(1, "avc1", None);
    b.video.as_mut().unwrap().display_dimensions = None;
    moov.tracks.push(b);
    let m = run(moov, false, HashMap::new());
    let v = m.tracks[0].properties.video.as_ref().unwrap();
    assert_eq!(v.display_dimensions.unwrap().width, 1920);
}

// ---- further cases ----

#[test]
fn dropped_tracks_take_no_id_and_ids_count_up() {
    let mut moov = MoovBuilder::default();
    let mut hint = video_builder(1, "avc1", None);
    hint.handler_type = Some(*b"hint");
    moov.tracks.push(hint);
    moov.tracks.push(video_builder(2, "avc1", None));
    moov.tracks.push(audio_builder(3, "sowt"));
    let m = run(moov, false, HashMap::new());
    assert_eq!(m.tracks.len(), 2);
    assert_eq!(m.tracks[0].id, 0);
    assert_eq!(m.tracks[0].properties.common.number, Some(2));
    assert_eq!(m.tracks[1].id, 1);
    assert_eq!(m.tracks[1].codec.id, "A_PCM/INT/LIT");
    assert_eq!(m.tracks[1].codec.name.as_deref(), Some("PCM (signed integer, little-endian)"));
}

#[test]
fn display_falls_back_to_pixel_size() {
    let mut moov = MoovBuilder::default();
    let mut b = video_builder(1, "avc1", None);
    b.display_width_fixed = None;
    b.video.as_mut().unwrap().pixel_dimensions = Some(Dimensions2D { width: 640, height: 360 });
    moov.tracks.push(b);
    let m = run(moov, false, HashMap::new());
    let v = m.tracks[0].properties.video.as_ref().unwrap();
    assert_eq!(v.display_dimensions, Some(Dimensions2D { width: 640, height: 360 }));
}

#[test]
fn per_track_tags_counted() {
    let mut moov = MoovBuilder::default();
    let mut b = video_builder(1, "avc1", None);
    b.tags.push(TagEntry { name: "a".to_string(), value: "b".to_string(), language: None });
    b.tags.push(TagEntry { name: "c".to_string(), value: "d".to_string(), language: None });
    moov.tracks.push(b);
    let mut a = audio_builder(2, "twos");
    a.tags.push(TagEntry { name: "e".to_string(), value: "f".to_string(), language: None });
    moov.tracks.push(a);
    let m = run(moov, false, HashMap::new());
    assert_eq!(m.per_track_tag_count, 3);
    assert_eq!(m.tracks[1].codec.id, "A_PCM/INT/BIG");
}

#[test]
fn pcm_mapping_ignores_case_and_needs_a_known_fourcc() {
    let b = audio_builder(1, "SOWT");
    assert_eq!(pcm_codec_from_sample_entry(&b).unwrap().0, "A_PCM/INT/LIT");
    let b = audio_builder(1, "lpcm");
    assert_eq!(pcm_codec_from_sample_entry(&b).unwrap().0, "A_PCM/INT/LIT");
    let b = audio_builder(1, "alac");
    assert!(pcm_codec_from_sample_entry(&b).is_none());
    assert_eq!(effective_codec_id(&b), "alac");
}

#[test]
fn fixed_point_display_sizes() {
    assert_eq!(display_from_fixed(Some(1920 << 16), Some(0)), (Some(1920), None));
    assert_eq!(display_from_fixed(None, Some((720 << 16) | 0x8000)), (None, Some(720)));
}

#[test]
fn probe_failed_track_is_dropped_by_build_track() {
    let mut b = video_builder(1, "avc1", None);
    b.probe_failed = true;
    let t = build_track(b, 0, &Default::default(), &HashMap::new(), &identity_matrix());
    assert!(t.is_none());
    let b = video_builder(4, "avc1", None);
    let t = build_track(b, 7, &Default::default(), &HashMap::new(), &identity_matrix()).unwrap();
    assert_eq!(t.id, 7);
    assert_eq!(t.track_type, TrackType::Video);
}
