use lib::mp4::codec_specific::esds::{aac_config_bytes, default_audio_specific_config};
use lib::model::{ChromaFormat, ColorRange, HevcTier, SampleAspectRatio, VideoTrackProperties};
use lib::mp4::atom::read_box_header;
use lib::mp4::codec_specific::esds::Cursor;
use lib::mp4::codec_specific::{av1c, avcc, colr, dvcc, esds, hex_encode, hvcc, pasp};
use lib::mp4::moov::trak::TrackBuilder;
use lib::source::{FileSource, ParseError};

fn encode_box(kind: &[u8; 4], payload: &[u8]) -> Vec<u8> {
    let total = (8 + payload.len()) as u32;
    let mut out = Vec::new();
    out.extend_from_slice(&total.to_be_bytes());
    out.extend_from_slice(kind);
    out.extend_from_slice(payload);
    out
}

type Parser = fn(&mut FileSource, &lib::mp4::atom::BoxHeader, &mut TrackBuilder) -> Result<(), ParseError>;

fn run_with(kind: &[u8; 4], payload: &[u8], builder: TrackBuilder, parse: Parser) -> Result<TrackBuilder, ParseError> {
    let mut s = FileSource::from_bytes(encode_box(kind, payload));
    let h = read_box_header(&mut s).unwrap();
    let mut b = builder;
    parse(&mut s, &h, &mut b)?;
    Ok(b)
}

fn run(kind: &[u8; 4], payload: &[u8], parse: Parser) -> TrackBuilder {
    run_with(kind, payload, TrackBuilder::default(), parse).unwrap()
}

fn run_err(kind: &[u8; 4], payload: &[u8], parse: Parser) -> ParseError {
    match run_with(kind, payload, TrackBuilder::default(), parse) {
        Ok(_) => panic!("expected an error"),
        Err(e) => e,
    }
}

fn decode_hex(raw: &str) -> Vec<u8> {
    (0..raw.len()).step_by(2).map(|i| u8::from_str_radix(&raw[i..i + 2], 16).unwrap()).collect()
}

// ---- colr ----

fn build_nclx_payload(primaries: u16, transfer: u16, matrix: u16, full_range: bool) -> Vec<u8> {
    let mut p = Vec::new();
    p.extend_from_slice(b"nclx");
    p.extend_from_slice(&primaries.to_be_bytes());
    p.extend_from_slice(&transfer.to_be_bytes());
    p.extend_from_slice(&matrix.to_be_bytes());
    p.push(if full_range { 0x80 } else { 0 });
    p
}

fn build_nclc_payload(primaries: u16, transfer: u16, matrix: u16) -> Vec<u8> {
    let mut p = Vec::new();
    p.extend_from_slice(b"nclc");
    p.extend_from_slice(&primaries.to_be_bytes());
    p.extend_from_slice(&transfer.to_be_bytes());
    p.extend_from_slice(&matrix.to_be_bytes());
    p
}

#[test]
fn nclx_bt2020_pq_full_range() {
    let b = run(b"colr", &build_nclx_payload(9, 16, 9, true), colr::parse);
    let c = b.video.unwrap().color.unwrap();
    assert_eq!(c.primaries, Some(9));
    assert_eq!(c.transfer_characteristics, Some(16));
    assert_eq!(c.matrix_coefficients, Some(9));
    assert_eq!(c.range, Some(ColorRange::Full));
}

#[test]
fn nclx_broadcast_range() {
    let b = run(b"colr", &build_nclx_payload(1, 1, 1, false), colr::parse);
    let c = b.video.unwrap().color.unwrap();
    assert_eq!(c.range, Some(ColorRange::Broadcast));
}

#[test]
fn nclc_has_no_range() {
    let b = run(b"colr", &build_nclc_payload(1, 1, 1), colr::parse);
    let c = b.video.unwrap().color.unwrap();
    assert_eq!(c.primaries, Some(1));
    assert!(c.range.is_none());
}

#[test]
fn prof_is_a_noop_but_creates_color_struct() {
    let b = run(b"colr", b"prof", colr::parse);
    assert!(b.video.is_some());
}

#[test]
fn prof_payload_larger_than_sixty_four_kib_is_accepted() {
    let mut payload = b"prof".to_vec();
    payload.extend(vec![0x42; 70 * 1024]);
    let b = run(b"colr", &payload, colr::parse);
    assert!(b.video.is_some());
}

#[test]
fn truncated_nclx_is_silently_ignored() {
    let mut payload = Vec::new();
    payload.extend_from_slice(b"nclx");
    payload.extend_from_slice(&[0u8; 2]);
    let b = run(b"colr", &payload, colr::parse);
    let c = b.video.unwrap().color.unwrap();
    assert!(c.primaries.is_none());
}

#[test]
fn unknown_kind_is_skipped() {
    let b = run(b"colr", b"ZZZZ", colr::parse);
    let c = b.video.unwrap().color.unwrap();
    assert!(c.primaries.is_none());
}

#[test]
fn colr_short_payload_leaves_track_untouched() {
    let b = run(b"colr", b"ncl", colr::parse);
    assert!(b.video.is_none());
}

// ---- av1C ----

#[test]
fn decodes_profile_zero_8bit_420() {
    let b = run(b"av1C", &[0x81, 0x00, 0x0C, 0x00], av1c::parse);
    let cfg = b.video_codec_config.unwrap();
    assert_eq!(cfg.profile_idc, Some(0));
    assert_eq!(cfg.bit_depth_luma, Some(8));
    assert_eq!(cfg.chroma_format, Some(ChromaFormat::Yuv420));
}

#[test]
fn decodes_profile_two_12bit_444() {
    let b = run(b"av1C", &[0x81, 0x40, 0x60, 0x00], av1c::parse);
    let cfg = b.video_codec_config.unwrap();
    assert_eq!(cfg.profile_idc, Some(2));
    assert_eq!(cfg.bit_depth_luma, Some(12));
    assert_eq!(cfg.chroma_format, Some(ChromaFormat::Yuv444));
}

#[test]
fn monochrome_overrides_subsampling() {
    let b = run(b"av1C", &[0x81, 0x00, 0x10, 0x00], av1c::parse);
    let cfg = b.video_codec_config.unwrap();
    assert_eq!(cfg.chroma_format, Some(ChromaFormat::Monochrome));
}

#[test]
fn missing_marker_bit_stores_raw_hex_only() {
    let b = run(b"av1C", &[0x01, 0x00, 0x00, 0x00], av1c::parse);
    assert!(b.video_codec_config.is_none());
    assert_eq!(b.codec_private_hex.as_deref(), Some("01000000"));
}

#[test]
fn av1_profile_one_ten_bit_422_named_high() {
    // profile 1 (0x20), high bit depth (0x40), subsampling x only (0x08).
    let b = run(b"av1C", &[0x81, 0x20, 0x48, 0x00], av1c::parse);
    let cfg = b.video_codec_config.unwrap();
    assert_eq!(cfg.profile_name.as_deref(), Some("High"));
    assert_eq!(cfg.bit_depth_chroma, Some(10));
    assert_eq!(cfg.chroma_format, Some(ChromaFormat::Yuv422));
    assert_eq!(cfg.raw_hex.as_deref(), Some("81204800"));
    assert_eq!(av1c::profile_name(7), "Unknown");
}

// ---- avcC ----

fn build_avcc_payload(
    profile_idc: u8,
    level_idc: u8,
    length_size_minus_one: u8,
    sps_payloads: &[&[u8]],
    pps_payloads: &[&[u8]],
    extension: Option<(u8, u8, u8)>,
) -> Vec<u8> {
    let mut p = Vec::new();
    p.push(1);
    p.push(profile_idc);
    p.push(0);
    p.push(level_idc);
    p.push(0xFC | (length_size_minus_one & 0x03));
    p.push(0xE0 | (sps_payloads.len() as u8 & 0x1F));
    for sps in sps_payloads {
        p.extend_from_slice(&(sps.len() as u16).to_be_bytes());
        p.extend_from_slice(sps);
    }
    p.push(pps_payloads.len() as u8);
    for pps in pps_payloads {
        p.extend_from_slice(&(pps.len() as u16).to_be_bytes());
        p.extend_from_slice(pps);
    }
    if let Some((chroma, bd_luma, bd_chroma)) = extension {
        p.push(0xFC | (chroma & 0x03));
        p.push(0xF8 | (bd_luma & 0x07));
        p.push(0xF8 | (bd_chroma & 0x07));
        p.push(0);
    }
    p
}

#[test]
fn baseline_profile_no_extension() {
    let payload = build_avcc_payload(66, 30, 3, &[&[0u8; 4]], &[&[0u8; 2]], None);
    let b = run(b"avcC", &payload, avcc::parse);
    let cfg = b.video_codec_config.unwrap();
    assert_eq!(cfg.profile_idc, Some(66));
    assert_eq!(cfg.profile_name.as_deref(), Some("Baseline"));
    assert_eq!(cfg.level_idc, Some(30));
    assert_eq!(cfg.level_name.as_deref(), Some("3.0"));
    assert!(cfg.chroma_format.is_none());
    assert_eq!(cfg.is_elementary_stream, Some(false));
}

#[test]
fn high_profile_extension_yields_chroma_and_bit_depth() {
    let payload = build_avcc_payload(100, 40, 3, &[&[0u8; 4]], &[&[0u8; 2]], Some((1, 2, 2)));
    let b = run(b"avcC", &payload, avcc::parse);
    let cfg = b.video_codec_config.unwrap();
    assert_eq!(cfg.chroma_format, Some(ChromaFormat::Yuv420));
    assert_eq!(cfg.bit_depth_luma, Some(10));
    assert_eq!(cfg.bit_depth_chroma, Some(10));
}

#[test]
fn rejects_oversize_sps_length() {
    let mut payload = Vec::new();
    payload.extend_from_slice(&[1u8, 100, 0, 40, 0xFF, 0xE1]);
    payload.extend_from_slice(&0xFFFFu16.to_be_bytes());
    let err = run_err(b"avcC", &payload, avcc::parse);
    assert!(matches!(err, ParseError::Malformed { .. }));
}

#[test]
fn avcc_truncated_payload_rejected() {
    let err = run_err(b"avcC", &[1u8, 100, 0], avcc::parse);
    assert!(matches!(err, ParseError::Malformed { .. }));
}

#[test]
fn raw_hex_round_trips() {
    let payload = build_avcc_payload(66, 30, 3, &[&[]], &[&[]], None);
    let b = run(b"avcC", &payload, avcc::parse);
    let raw = b.video_codec_config.unwrap().raw_hex.unwrap();
    assert_eq!(raw.len() % 2, 0);
    assert_eq!(decode_hex(&raw), payload);
}

#[test]
fn classify_chroma_idc_full_table() {
    assert_eq!(avcc::classify_chroma_idc(0), ChromaFormat::Monochrome);
    assert_eq!(avcc::classify_chroma_idc(1), ChromaFormat::Yuv420);
    assert_eq!(avcc::classify_chroma_idc(2), ChromaFormat::Yuv422);
    assert_eq!(avcc::classify_chroma_idc(3), ChromaFormat::Yuv444);
    assert_eq!(avcc::classify_chroma_idc(7), ChromaFormat::Other);
}

#[test]
fn format_level_pretty_prints() {
    assert_eq!(avcc::format_level(30), "3.0");
    assert_eq!(avcc::format_level(41), "4.1");
    assert_eq!(avcc::format_level(0), "0");
}

#[test]
fn high_profile_extension_skipped_when_payload_short() {
    let payload = build_avcc_payload(100, 40, 3, &[&[0u8; 4]], &[&[0u8; 2]], None);
    let b = run(b"avcC", &payload, avcc::parse);
    let cfg = b.video_codec_config.unwrap();
    assert!(cfg.chroma_format.is_none());
}

#[test]
fn no_sps_no_pps_minimal_payload_handled() {
    let payload = build_avcc_payload(66, 30, 3, &[], &[], None);
    let b = run(b"avcC", &payload, avcc::parse);
    let cfg = b.video_codec_config.unwrap();
    assert_eq!(cfg.profile_idc, Some(66));
    assert!(cfg.raw_hex.is_some());
}

#[test]
fn rejects_oversize_pps_length() {
    let mut payload = build_avcc_payload(66, 30, 3, &[&[0u8; 4]], &[], None);
    payload.pop();
    payload.push(1);
    payload.extend_from_slice(&0xFFFFu16.to_be_bytes());
    let err = run_err(b"avcC", &payload, avcc::parse);
    assert!(matches!(err, ParseError::Malformed { .. }));
}

#[test]
fn high_profile_extension_syncs_bit_depth_into_color() {
    let payload = build_avcc_payload(100, 40, 3, &[&[0u8; 4]], &[&[0u8; 2]], Some((1, 2, 2)));
    let mut builder = TrackBuilder::default();
    builder.video = Some(VideoTrackProperties::default());
    let b = run_with(b"avcC", &payload, builder, avcc::parse).unwrap();
    let v = b.video.unwrap();
    assert_eq!(v.color.unwrap().bits_per_channel, Some(10));
}

#[test]
fn format_profile_full_table() {
    assert_eq!(avcc::format_profile(66), "Baseline");
    assert_eq!(avcc::format_profile(77), "Main");
    assert_eq!(avcc::format_profile(88), "Extended");
    assert_eq!(avcc::format_profile(100), "High");
    assert_eq!(avcc::format_profile(110), "High 10");
    assert_eq!(avcc::format_profile(122), "High 4:2:2");
    assert_eq!(avcc::format_profile(144), "High 4:4:4");
    assert_eq!(avcc::format_profile(44), "CAVLC 4:4:4");
    assert_eq!(avcc::format_profile(83), "Scalable Baseline");
    assert_eq!(avcc::format_profile(86), "Scalable High");
    assert_eq!(avcc::format_profile(118), "Multiview High");
    assert_eq!(avcc::format_profile(128), "Stereo High");
    assert_eq!(avcc::format_profile(999), "Unknown");
}

#[test]
fn high_family_predicate_covers_documented_values() {
    for profile in [100u32, 110, 122, 144, 44, 83, 86, 118, 128, 138, 139, 134, 135] {
        assert!(avcc::is_high_family_profile(profile), "profile {profile} should be high-family");
    }
    for profile in [66u32, 77, 88, 200] {
        assert!(!avcc::is_high_family_profile(profile));
    }
}

#[test]
fn avcc_full_record_sets_private_hex_but_short_record_does_not() {
    let full = build_avcc_payload(66, 30, 3, &[&[0u8; 4]], &[&[0u8; 2]], None);
    let b = run(b"avcC", &full, avcc::parse);
    assert_eq!(b.codec_private_hex.as_deref(), Some(hex_encode(&full).as_str()));
    let short = build_avcc_payload(66, 30, 3, &[], &[], None);
    let mut short = short;
    short.pop();
    let b = run(b"avcC", &short, avcc::parse);
    assert!(b.codec_private_hex.is_none());
    assert!(b.video_codec_config.unwrap().profile_name.is_none());
}

// ---- hvcC ----

fn build_hvcc_payload(profile_idc: u8, tier_high: bool, level_idc: u8, chroma_idc: u8, bd_luma_m8: u8, bd_chroma_m8: u8) -> Vec<u8> {
    let mut p = vec![0u8; hvcc::HEADER_BYTES];
    p[0] = 1;
    p[1] = (if tier_high { 1u8 << 5 } else { 0 }) | (profile_idc & 0x1F);
    p[12] = level_idc;
    p[16] = 0xFC | (chroma_idc & 0x03);
    p[17] = 0xF8 | (bd_luma_m8 & 0x07);
    p[18] = 0xF8 | (bd_chroma_m8 & 0x07);
    p[22] = 0;
    p
}

#[test]
fn main10_at_level_5_1() {
    let b = run(b"hvcC", &build_hvcc_payload(2, true, 153, 1, 2, 2), hvcc::parse);
    let cfg = b.video_codec_config.unwrap();
    assert_eq!(cfg.profile_idc, Some(2));
    assert_eq!(cfg.profile_name.as_deref(), Some("Main 10"));
    assert_eq!(cfg.tier, Some(HevcTier::High));
    assert_eq!(cfg.level_idc, Some(153));
    assert_eq!(cfg.level_name.as_deref(), Some("5.1"));
    assert_eq!(cfg.chroma_format, Some(ChromaFormat::Yuv420));
    assert_eq!(cfg.bit_depth_luma, Some(10));
    assert_eq!(cfg.bit_depth_chroma, Some(10));
}

#[test]
fn main_tier_main_profile_level_4_0() {
    let b = run(b"hvcC", &build_hvcc_payload(1, false, 120, 1, 0, 0), hvcc::parse);
    let cfg = b.video_codec_config.unwrap();
    assert_eq!(cfg.profile_name.as_deref(), Some("Main"));
    assert_eq!(cfg.tier, Some(HevcTier::Main));
    assert_eq!(cfg.level_name.as_deref(), Some("4.0"));
}

#[test]
fn reads_chroma_and_bit_depth_from_offsets_16_17_18() {
    let mut p = vec![0u8; hvcc::HEADER_BYTES];
    p[0] = 1;
    p[1] = 2;
    p[12] = 120;
    p[16] = 0xFC | 0x02;
    p[17] = 0xF8 | 0x02;
    p[18] = 0xF8 | 0x04;
    p[19] = 0xFF;
    p[20] = 0xFF;
    let b = run(b"hvcC", &p, hvcc::parse);
    let cfg = b.video_codec_config.unwrap();
    assert_eq!(cfg.chroma_format, Some(ChromaFormat::Yuv422));
    assert_eq!(cfg.bit_depth_luma, Some(10));
    assert_eq!(cfg.bit_depth_chroma, Some(12));
}

#[test]
fn unknown_configuration_version_falls_back_to_raw_only() {
    let mut payload = vec![0u8; hvcc::HEADER_BYTES];
    payload[0] = 7;
    let b = run(b"hvcC", &payload, hvcc::parse);
    let cfg = b.video_codec_config.unwrap();
    assert!(cfg.profile_idc.is_none());
    assert!(cfg.raw_hex.is_some());
}

#[test]
fn hvcc_rejects_truncated_payload() {
    let err = run_err(b"hvcC", &[0u8; 4], hvcc::parse);
    assert!(matches!(err, ParseError::Malformed { .. }));
}

#[test]
fn chroma_idc_full_table() {
    assert_eq!(hvcc::classify_chroma_idc(0), ChromaFormat::Monochrome);
    assert_eq!(hvcc::classify_chroma_idc(1), ChromaFormat::Yuv420);
    assert_eq!(hvcc::classify_chroma_idc(2), ChromaFormat::Yuv422);
    assert_eq!(hvcc::classify_chroma_idc(3), ChromaFormat::Yuv444);
}

#[test]
fn format_hevc_level_decimal() {
    assert_eq!(hvcc::format_hevc_level(90), "3.0");
    assert_eq!(hvcc::format_hevc_level(120), "4.0");
    assert_eq!(hvcc::format_hevc_level(153), "5.1");
    assert_eq!(hvcc::format_hevc_level(0), "0");
}

#[test]
fn hevc_level_rounds_tenths_and_names_profiles() {
    assert_eq!(hvcc::format_hevc_level(93), "3.1");
    assert_eq!(hvcc::format_hevc_level(95), "3.2");
    assert_eq!(hvcc::format_hevc_level(119), "3.10");
    assert_eq!(hvcc::format_hevc_profile(3), "Main Still Picture");
    assert_eq!(hvcc::format_hevc_profile(4), "Range Extensions");
    assert_eq!(hvcc::format_hevc_profile(9), "Unknown");
}

// ---- dvcC / dvvC ----

fn build_dvcc_payload(profile: u8, level: u8, bl: bool, el: bool, rpu: bool) -> Vec<u8> {
    let mut p = vec![0u8; 24];
    p[0] = 1;
    p[1] = 0;
    p[2] = ((profile & 0x7F) << 1) | ((level >> 5) & 0x01);
    p[3] = ((level & 0x1F) << 3) | ((rpu as u8) << 2) | ((el as u8) << 1) | (bl as u8);
    p
}

#[test]
fn dvcc_recorded_as_block_addition_not_codec_config() {
    let payload = build_dvcc_payload(8, 6, true, true, true);
    let b = run(b"dvcC", &payload, dvcc::parse);
    assert!(b.video_codec_config.is_none());
    assert_eq!(b.block_additions.len(), 1);
    assert_eq!(b.block_additions[0].0, "dvcC");
    assert_eq!(b.block_additions[0].1, payload);
}

#[test]
fn dvvc_keyed_by_its_own_fourcc() {
    let payload = build_dvcc_payload(5, 3, true, false, false);
    let b = run(b"dvvC", &payload, dvcc::parse);
    assert_eq!(b.block_additions[0].0, "dvvC");
    assert_eq!(b.block_additions[0].1, payload);
}

#[test]
fn dvcc_rejects_truncated_payload() {
    let err = run_err(b"dvcC", &[0u8; 2], dvcc::parse);
    assert!(matches!(err, ParseError::Malformed { .. }));
}

// ---- pasp ----

fn build_pasp_payload(num: u32, den: u32) -> Vec<u8> {
    let mut p = Vec::with_capacity(8);
    p.extend_from_slice(&num.to_be_bytes());
    p.extend_from_slice(&den.to_be_bytes());
    p
}

#[test]
fn extracts_sample_aspect_ratio() {
    let b = run(b"pasp", &build_pasp_payload(40, 33), pasp::parse);
    let cfg = b.video_codec_config.unwrap();
    assert_eq!(cfg.sample_aspect_ratio, Some(SampleAspectRatio { num: 40, den: 33 }));
}

#[test]
fn pasp_rejects_truncated() {
    let err = run_err(b"pasp", &[0u8; 4], pasp::parse);
    assert!(matches!(err, ParseError::Malformed { .. }));
}

// ---- hex ----

#[test]
fn hex_encode_is_lower_case_and_padded() {
    assert_eq!(hex_encode(&[0xAB, 0x01, 0xFF]), "ab01ff");
    assert_eq!(hex_encode(&[]), "");
}

// ---- esds ----

fn aac_lc_specific_config(sample_rate_idx: u8, channels: u8) -> Vec<u8> {
    let aot = 2u16;
    let value = (aot << 11) | ((sample_rate_idx as u16) << 7) | ((channels as u16) << 3);
    vec![(value >> 8) as u8, (value & 0xFF) as u8]
}

fn build_esds_payload(object_type: u8, audio_specific_config: &[u8]) -> Vec<u8> {
    let mut p = vec![0u8; 4];
    let dec_specific = {
        let mut v = vec![esds::TAG_DEC_SPECIFIC_INFO];
        v.push(audio_specific_config.len() as u8);
        v.extend_from_slice(audio_specific_config);
        v
    };
    let dec_config = {
        let mut v = vec![esds::TAG_DECODER_CONFIG];
        let body_len = 13 + dec_specific.len();
        v.push(body_len as u8);
        v.push(object_type);
        v.push(0x15);
        v.extend_from_slice(&[0u8; 3]);
        v.extend_from_slice(&0u32.to_be_bytes());
        v.extend_from_slice(&0u32.to_be_bytes());
        v.extend_from_slice(&dec_specific);
        v
    };
    let es_descriptor = {
        let mut v = vec![esds::TAG_ES_DESCRIPTOR];
        let body_len = 3 + dec_config.len();
        v.push(body_len as u8);
        v.extend_from_slice(&[0u8; 2]);
        v.push(0);
        v.extend_from_slice(&dec_config);
        v
    };
    p.extend_from_slice(&es_descriptor);
    p
}

#[test]
fn payload_larger_than_sixty_four_kib_is_preserved() {
    let asc = aac_lc_specific_config(4, 2);
    let mut payload = build_esds_payload(0x40, &asc);
    payload.extend(vec![0; 70 * 1024]);
    let b = run(b"esds", &payload, esds::parse);
    assert!(b.codec_private_hex.unwrap().len() > 64 * 1024 * 2);
}

#[test]
fn truncated_decoder_specific_info_is_malformed() {
    let payload = vec![0, 0, 0, 0, esds::TAG_DEC_SPECIFIC_INFO, 0x40, 0x12, 0x10];
    assert!(matches!(run_with(b"esds", &payload, TrackBuilder::default(), esds::parse), Err(ParseError::Malformed { .. })));
}

#[test]
fn empty_payload_is_noop() {
    let b = run(b"esds", &[0u8; 4], esds::parse);
    assert!(b.audio_codec_config.is_some());
    let cfg = b.audio_codec_config.unwrap();
    assert!(cfg.aac_object_type.is_none());
}

#[test]
fn ber_length_handles_multibyte() {
    let mut cur = Cursor { data: &[0x81, 0x01, 0x00], pos: 0 };
    assert_eq!(cur.read_ber_length(), Some(129));
}

#[test]
fn object_type_table() {
    assert_eq!(esds::format_object_type(0x40), "AAC");
    assert_eq!(esds::format_object_type(0xA5), "AC-3");
    assert_eq!(esds::format_object_type(0xDD), "Vorbis");
    assert_eq!(esds::format_object_type(0xFE), "Unknown");
}

#[test]
fn esds_walk_records_object_type_and_decoder_specific_info() {
    let asc = aac_lc_specific_config(4, 2);
    let payload = build_esds_payload(0x6B, &asc);
    let b = run(b"esds", &payload, esds::parse);
    assert_eq!(b.esds_object_type, Some(0x6B));
    assert_eq!(b.esds_decoder_specific_len, Some(2));
    assert_eq!(b.esds_decoder_specific_data.as_deref(), Some(&asc[..]));
    let cfg = b.audio_codec_config.unwrap();
    assert_eq!(cfg.profile_name.as_deref(), Some("MP3 (MPEG-1 Layer III)"));
    assert_eq!(decode_hex(cfg.raw_hex.as_deref().unwrap()), payload);
}

#[test]
fn esds_descriptor_whose_fields_overrun_its_body_is_malformed() {
    // ES descriptor declaring an empty body followed by more bytes.
    let payload = vec![0, 0, 0, 0, esds::TAG_ES_DESCRIPTOR, 0x00, 0x00, 0x00, 0x00];
    assert!(matches!(run_with(b"esds", &payload, TrackBuilder::default(), esds::parse), Err(ParseError::Malformed { .. })));
}

#[test]
fn esds_four_byte_length_and_helpers() {
    let mut cur = Cursor { data: &[0xFF, 0xFF, 0xFF, 0xFF, 0x05], pos: 0 };
    assert_eq!(cur.read_ber_length(), Some(0x0FFF_FFFF));
    assert_eq!(cur.pos, 4);
    let mut cur = Cursor { data: &[0x12, 0x34, 0x56], pos: 0 };
    assert_eq!(cur.read_u16_be(), Some(0x1234));
    assert_eq!(cur.read_u16_be(), None);
    cur.skip(9);
    assert_eq!(cur.pos, 3);
    assert!(esds::is_aac_object_type(0x67));
    assert!(!esds::is_aac_object_type(0x6B));
}

#[test]
fn hex_encoding_decodes_back() {
    let bytes = [0x00u8, 0x0A, 0x7F, 0xFF, 0x10];
    let hex = hex_encode(&bytes);
    assert_eq!(hex, "000a7fff10");
    assert_eq!(hex.len(), 2 * bytes.len());
    let back: Vec<u8> = (0..hex.len()).step_by(2).map(|i| u8::from_str_radix(&hex[i..i + 2], 16).unwrap()).collect();
    assert_eq!(back, bytes);
}

#[test]
fn default_audio_specific_config_for_missing_decoder_specific_info() {
    assert_eq!(default_audio_specific_config(44_100, 2), vec![0x0a, 0x10]);
    assert_eq!(default_audio_specific_config(48_000, 6), vec![0x09, 0xB0]);
    assert_eq!(default_audio_specific_config(0, 0), vec![0x08, 0x00]);
    assert_eq!(aac_config_bytes(&None, 44_100, 2), vec![0x0a, 0x10]);
    assert_eq!(aac_config_bytes(&Some(vec![0x12]), 44_100, 2), vec![0x0a, 0x10]);
    assert_eq!(aac_config_bytes(&Some(vec![0x12, 0x10]), 44_100, 2), vec![0x12, 0x10]);
}
