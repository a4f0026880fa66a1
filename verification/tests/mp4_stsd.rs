use lib::model::{ChromaFormat, Dimensions2D, SampleRate};
use lib::mp4::atom::read_box_header;
use lib::mp4::moov::stbl::stsd;
use lib::mp4::moov::trak::TrackBuilder;
use lib::source::{FileSource, ParseError};

fn encode_box(kind: &[u8; 4], payload: &[u8]) -> Vec<u8> {
    let total = (8 + payload.len()) as u32;
    let mut out = Vec::new();
    out.extend_from_slice(&total.to_be_bytes());
    out.extend_from_slice(kind);
    out.extend_from_slice(payload);
    out
}

fn build_video_sample_entry(fourcc_kind: &[u8; 4], width: u16, height: u16, depth: u16, children: &[u8]) -> Vec<u8> {
    let mut p = Vec::new();
    p.extend_from_slice(&[0u8; 6]);
    p.extend_from_slice(&1u16.to_be_bytes());
    p.extend_from_slice(&[0u8; 16]);
    p.extend_from_slice(&width.to_be_bytes());
    p.extend_from_slice(&height.to_be_bytes());
    p.extend_from_slice(&[0u8; 8]);
    p.extend_from_slice(&[0u8; 4]);
    p.extend_from_slice(&[0u8; 2]);
    p.extend_from_slice(&[0u8; 32]);
    p.extend_from_slice(&depth.to_be_bytes());
    p.extend_from_slice(&0u16.to_be_bytes());
    p.extend_from_slice(children);
    encode_box(fourcc_kind, &p)
}

fn build_audio_sample_entry_v0(fourcc_kind: &[u8; 4], channels: u16, sample_size: u16, sample_rate_hz: u32, children: &[u8]) -> Vec<u8> {
    let mut p = Vec::new();
    p.extend_from_slice(&[0u8; 6]);
    p.extend_from_slice(&1u16.to_be_bytes());
    p.extend_from_slice(&0u16.to_be_bytes());
    p.extend_from_slice(&[0u8; 2 + 4]);
    p.extend_from_slice(&channels.to_be_bytes());
    p.extend_from_slice(&sample_size.to_be_bytes());
    p.extend_from_slice(&[0u8; 2 + 2]);
    p.extend_from_slice(&(sample_rate_hz << 16).to_be_bytes());
    p.extend_from_slice(children);
    encode_box(fourcc_kind, &p)
}

fn build_audio_sample_entry_v2(fourcc_kind: &[u8; 4], channels: u32, bits: u32, sample_rate_hz: f64, children: &[u8]) -> Vec<u8> {
    let mut p = Vec::new();
    p.extend_from_slice(&[0u8; 6]);
    p.extend_from_slice(&1u16.to_be_bytes());
    p.extend_from_slice(&2u16.to_be_bytes());
    p.extend_from_slice(&[0u8; 2 + 4]);
    p.extend_from_slice(&3u16.to_be_bytes());
    p.extend_from_slice(&16u16.to_be_bytes());
    p.extend_from_slice(&(-2i16).to_be_bytes());
    p.extend_from_slice(&0u16.to_be_bytes());
    p.extend_from_slice(&65536u32.to_be_bytes());
    p.extend_from_slice(&72u32.to_be_bytes());
    p.extend_from_slice(&sample_rate_hz.to_bits().to_be_bytes());
    p.extend_from_slice(&channels.to_be_bytes());
    p.extend_from_slice(&0x7F00_0000u32.to_be_bytes());
    p.extend_from_slice(&bits.to_be_bytes());
    p.extend_from_slice(&0u32.to_be_bytes());
    p.extend_from_slice(&0u32.to_be_bytes());
    p.extend_from_slice(&0u32.to_be_bytes());
    p.extend_from_slice(children);
    encode_box(fourcc_kind, &p)
}

fn build_stsd_payload(entries: &[Vec<u8>]) -> Vec<u8> {
    let mut p = Vec::new();
    p.extend_from_slice(&[0u8; 4]);
    p.extend_from_slice(&(entries.len() as u32).to_be_bytes());
    for e in entries {
        p.extend_from_slice(e);
    }
    p
}

fn build_avcc_payload(profile_idc: u8, level_idc: u8, length_size_minus_one: u8, sps_payloads: &[&[u8]], pps_payloads: &[&[u8]], extension: Option<(u8, u8, u8)>) -> Vec<u8> {
    let mut p = Vec::new();
    p.push(1);
    p.push(profile_idc);
    p.push(0);
    p.push(level_idc);
    p.push(0xFC | (length_size_minus_one & 0x03));
    p.push(0xE0 | (sps_payloads.len() as u8 & 0x1F));
    for sps in sps_payloads {
        p.extend_from_slice(&(sps.len() as u16).to_be_bytes());
        p.extend_from_slice(sps);
    }
    p.push(pps_payloads.len() as u8);
    for pps in pps_payloads {
        p.extend_from_slice(&(pps.len() as u16).to_be_bytes());
        p.extend_from_slice(pps);
    }
    if let Some((chroma, bd_luma, bd_chroma)) = extension {
        p.push(0xFC | (chroma & 0x03));
        p.push(0xF8 | (bd_luma & 0x07));
        p.push(0xF8 | (bd_chroma & 0x07));
        p.push(0);
    }
    p
}

fn build_esds_payload(object_type: u8, audio_specific_config: &[u8]) -> Vec<u8> {
    let mut p = vec![0u8; 4];
    let mut dec_specific = vec![0x05, audio_specific_config.len() as u8];
    dec_specific.extend_from_slice(audio_specific_config);
    let mut dec_config = vec![0x04, (13 + dec_specific.len()) as u8, object_type, 0x15];
    dec_config.extend_from_slice(&[0u8; 3]);
    dec_config.extend_from_slice(&0u32.to_be_bytes());
    dec_config.extend_from_slice(&0u32.to_be_bytes());
    dec_config.extend_from_slice(&dec_specific);
    let mut es = vec![0x03, (3 + dec_config.len()) as u8, 0, 0, 0];
    es.extend_from_slice(&dec_config);
    p.extend_from_slice(&es);
    p
}

fn build_pasp_payload(num: u32, den: u32) -> Vec<u8> {
    let mut p = Vec::new();
    p.extend_from_slice(&num.to_be_bytes());
    p.extend_from_slice(&den.to_be_bytes());
    p
}

fn build_nclx_payload(primaries: u16, transfer: u16, matrix: u16, full_range: bool) -> Vec<u8> {
    let mut p = Vec::new();
    p.extend_from_slice(b"nclx");
    p.extend_from_slice(&primaries.to_be_bytes());
    p.extend_from_slice(&transfer.to_be_bytes());
    p.extend_from_slice(&matrix.to_be_bytes());
    p.push(if full_range { 0x80 } else { 0 });
    p
}

fn build_dvcc_payload(profile: u8, level: u8, bl: bool, el: bool, rpu: bool) -> Vec<u8> {
    let mut p = vec![0u8; 24];
    p[0] = 1;
    p[2] = ((profile & 0x7F) << 1) | ((level >> 5) & 0x01);
    p[3] = ((level & 0x1F) << 3) | ((rpu as u8) << 2) | ((el as u8) << 1) | (bl as u8);
    p
}

fn run(payload: Vec<u8>, handler: [u8; 4]) -> TrackBuilder {
    let mut s = FileSource::from_bytes(encode_box(b"stsd", &payload));
    let parent = read_box_header(&mut s).unwrap();
    let mut b = TrackBuilder::default();
    b.handler_type = Some(handler);
    stsd::parse(&mut s, &parent, &mut b).unwrap();
    b
}

#[test]
fn video_avc1_entry_extracts_dims() {
    let b = run(build_stsd_payload(&[build_video_sample_entry(b"avc1", 1920, 1080, 24, &[])]), *b"vide");
    assert_eq!(b.codec_id_str.as_deref(), Some("avc1"));
    let v = b.video.unwrap();
    assert_eq!(v.pixel_dimensions, Some(Dimensions2D { width: 1920, height: 1080 }));
}

#[test]
fn video_depth_stored_when_not_24() {
    let b = run(build_stsd_payload(&[build_video_sample_entry(b"avc1", 1920, 1080, 32, &[])]), *b"vide");
    let v = b.video.unwrap();
    assert_eq!(v.color.unwrap().bits_per_channel, Some(32));
}

#[test]
fn audio_mp4a_entry_extracts_channels_and_rate() {
    let b = run(build_stsd_payload(&[build_audio_sample_entry_v0(b"mp4a", 2, 16, 48000, &[])]), *b"soun");
    let a = b.audio.unwrap();
    assert_eq!(a.channels, Some(2));
    assert_eq!(a.bit_depth, Some(16));
    assert_eq!(a.sampling_frequency, Some(SampleRate::Hz(48000)));
    assert_eq!(b.codec_id_str.as_deref(), Some("mp4a"));
}

#[test]
fn empty_stsd_does_not_populate() {
    let b = run(build_stsd_payload(&[]), *b"vide");
    assert!(b.video.is_none());
    assert!(b.codec_id_str.is_none());
}

#[test]
fn stsd_truncated_payload_rejected() {
    let mut s = FileSource::from_bytes(encode_box(b"stsd", &[0u8; 4]));
    let parent = read_box_header(&mut s).unwrap();
    let mut b = TrackBuilder::default();
    b.handler_type = Some(*b"vide");
    let err = stsd::parse(&mut s, &parent, &mut b).unwrap_err();
    assert!(matches!(err, ParseError::Malformed { .. }));
}

#[test]
fn unknown_handler_keeps_codec_str_but_no_typed_subtree() {
    let b = run(build_stsd_payload(&[build_video_sample_entry(b"junk", 100, 100, 24, &[])]), *b"meta");
    assert_eq!(b.codec_id_str.as_deref(), Some("junk"));
    assert!(b.video.is_none());
    assert!(b.audio.is_none());
}

#[test]
fn audio_zero_channels_skipped() {
    let b = run(build_stsd_payload(&[build_audio_sample_entry_v0(b"mp4a", 0, 0, 0, &[])]), *b"soun");
    let a = b.audio.unwrap();
    assert!(a.channels.is_none());
    assert!(a.sampling_frequency.is_none());
    assert!(a.bit_depth.is_none());
}

#[test]
fn unknown_fourcc_does_not_set_codec_name() {
    let b = run(build_stsd_payload(&[build_video_sample_entry(b"ZZZZ", 100, 100, 24, &[])]), *b"vide");
    assert_eq!(b.codec_id_str.as_deref(), Some("ZZZZ"));
    assert!(b.codec_name.is_none());
}

#[test]
fn video_entry_with_avcc_child_decodes_codec_config() {
    let avcc = encode_box(b"avcC", &build_avcc_payload(100, 40, 3, &[&[0u8; 4]], &[&[0u8; 2]], Some((1, 2, 2))));
    let b = run(build_stsd_payload(&[build_video_sample_entry(b"avc1", 1920, 1080, 24, &avcc)]), *b"vide");
    let cfg = b.video_codec_config.unwrap();
    assert_eq!(cfg.profile_idc, Some(100));
    assert_eq!(cfg.chroma_format, Some(ChromaFormat::Yuv420));
}

#[test]
fn v2_audio_entry_reads_explicit_channels_and_rate() {
    let b = run(build_stsd_payload(&[build_audio_sample_entry_v2(b"lpcm", 8, 24, 96_000.0, &[])]), *b"soun");
    let a = b.audio.unwrap();
    assert_eq!(a.channels, Some(8));
    assert_eq!(a.sampling_frequency, Some(SampleRate::Hz(96_000)));
    assert_eq!(a.bit_depth, Some(24));
}

#[test]
fn v2_audio_entry_keeps_fractional_rate_bits() {
    let b = run(build_stsd_payload(&[build_audio_sample_entry_v2(b"lpcm", 2, 16, 44_100.5, &[])]), *b"soun");
    let a = b.audio.unwrap();
    assert_eq!(a.sampling_frequency, Some(SampleRate::Float64Bits(44_100.5f64.to_bits())));
}

#[test]
fn dops_box_sets_opus_channels_and_48k() {
    let mut dops_payload = vec![0u8, 6];
    dops_payload.extend_from_slice(&0u16.to_be_bytes());
    dops_payload.extend_from_slice(&44_100u32.to_be_bytes());
    dops_payload.extend_from_slice(&0u16.to_be_bytes());
    dops_payload.push(0);
    let dops = encode_box(b"dOps", &dops_payload);
    let b = run(build_stsd_payload(&[build_audio_sample_entry_v0(b"Opus", 0, 0, 0, &dops)]), *b"soun");
    let a = b.audio.unwrap();
    assert_eq!(a.channels, Some(6));
    assert_eq!(a.sampling_frequency, Some(SampleRate::Hz(48_000)));
}

#[test]
fn dfla_box_decodes_flac_streaminfo() {
    let mut info = vec![0u8; 34];
    let packed = (44_100u64 << 44) | (1u64 << 41) | (15u64 << 36);
    info[10..18].copy_from_slice(&packed.to_be_bytes());
    let mut dfla_payload = vec![0u8; 4];
    dfla_payload.extend_from_slice(&[0x80, 0x00, 0x00, 34]);
    dfla_payload.extend_from_slice(&info);
    let dfla = encode_box(b"dfLa", &dfla_payload);
    let b = run(build_stsd_payload(&[build_audio_sample_entry_v0(b"fLaC", 0, 0, 0, &dfla)]), *b"soun");
    let a = b.audio.unwrap();
    assert_eq!(a.sampling_frequency, Some(SampleRate::Hz(44_100)));
    assert_eq!(a.channels, Some(2));
    assert_eq!(a.bit_depth, Some(16));
}

#[test]
fn second_entry_is_walked_but_only_first_populates_builder() {
    let entry_a = build_video_sample_entry(b"avc1", 1920, 1080, 24, &[]);
    let entry_b = build_video_sample_entry(b"hev1", 3840, 2160, 24, &[]);
    let b = run(build_stsd_payload(&[entry_a, entry_b]), *b"vide");
    assert_eq!(b.codec_id_str.as_deref(), Some("avc1"));
    assert_eq!(b.video.unwrap().pixel_dimensions.unwrap().width, 1920);
}

#[test]
fn video_entry_with_pasp_child_records_aspect() {
    let pasp = encode_box(b"pasp", &build_pasp_payload(40, 33));
    let b = run(build_stsd_payload(&[build_video_sample_entry(b"avc1", 720, 480, 24, &pasp)]), *b"vide");
    let par = b.video_codec_config.unwrap().sample_aspect_ratio.unwrap();
    assert_eq!(par.num, 40);
    assert_eq!(par.den, 33);
}

#[test]
fn video_entry_with_colr_child_decodes_colour() {
    let colr = encode_box(b"colr", &build_nclx_payload(9, 16, 9, true));
    let b = run(build_stsd_payload(&[build_video_sample_entry(b"avc1", 3840, 2160, 24, &colr)]), *b"vide");
    let c = b.video.unwrap().color.unwrap();
    assert_eq!(c.primaries, Some(9));
    assert_eq!(c.matrix_coefficients, Some(9));
}

fn build_alac_config(channels: u8, bit_depth: u8, sample_rate: u32) -> Vec<u8> {
    let mut cfg = vec![0u8; 4];
    let mut spec = vec![0u8; 24];
    spec[5] = bit_depth;
    spec[9] = channels;
    spec[20..24].copy_from_slice(&sample_rate.to_be_bytes());
    cfg.extend(spec);
    encode_box(b"alac", &cfg)
}

#[test]
fn alac_cookie_refines_channels_bitdepth_and_rate() {
    let alac = build_alac_config(6, 24, 96_000);
    let b = run(build_stsd_payload(&[build_audio_sample_entry_v0(b"alac", 2, 16, 44_100, &alac)]), *b"soun");
    let a = b.audio.unwrap();
    assert_eq!(a.channels, Some(6));
    assert_eq!(a.bit_depth, Some(24));
    assert_eq!(a.sampling_frequency, Some(SampleRate::Hz(96_000)));
    assert!(b.codec_private_hex.is_some());
}

#[test]
fn unknown_video_fourcc_preserves_trailing_private_bytes() {
    let entry = build_video_sample_entry(b"rle ", 320, 240, 24, &[0xDE, 0xAD, 0xBE, 0xEF, 0x01]);
    let b = run(build_stsd_payload(&[entry]), *b"vide");
    assert_eq!(b.codec_id_str.as_deref(), Some("rle "));
    assert_eq!(b.codec_private_hex.as_deref(), Some("deadbeef01"));
    assert_eq!(b.video.unwrap().pixel_dimensions.unwrap().width, 320);
}

#[test]
fn known_video_fourcc_still_walks_child_boxes() {
    let pasp = encode_box(b"pasp", &build_pasp_payload(40, 33));
    let b = run(build_stsd_payload(&[build_video_sample_entry(b"avc1", 720, 480, 24, &pasp)]), *b"vide");
    assert_eq!(b.video_codec_config.unwrap().sample_aspect_ratio.unwrap().num, 40);
}

#[test]
fn non_mp4s_subtitle_preserves_private_bytes() {
    let mut e = Vec::new();
    e.extend_from_slice(&[0u8; 6]);
    e.extend_from_slice(&1u16.to_be_bytes());
    e.extend_from_slice(&[0x11, 0x22, 0x33, 0x44]);
    let b = run(build_stsd_payload(&[encode_box(b"tx3g", &e)]), *b"sbtl");
    assert_eq!(b.codec_id_str.as_deref(), Some("tx3g"));
    assert_eq!(b.codec_private_hex.as_deref(), Some("11223344"));
}

#[test]
fn mp4s_subtitle_walks_children() {
    let esds = encode_box(b"esds", &build_esds_payload(0x40, &[0x12, 0x10]));
    let mut e = Vec::new();
    e.extend_from_slice(&[0u8; 6]);
    e.extend_from_slice(&1u16.to_be_bytes());
    e.extend_from_slice(&esds);
    let b = run(build_stsd_payload(&[encode_box(b"mp4s", &e)]), *b"subt");
    assert!(b.esds_object_type.is_some());
}

#[test]
fn hvce_box_recorded_as_block_addition() {
    let hvce = encode_box(b"hvcE", &[0x01, 0x02, 0x03, 0x04, 0x05]);
    let b = run(build_stsd_payload(&[build_video_sample_entry(b"hev1", 3840, 2160, 24, &hvce)]), *b"vide");
    assert!(b.codec_private_hex.is_none());
    assert!(b.video_codec_config.is_none());
    assert_eq!(b.block_additions.len(), 1);
    assert_eq!(b.block_additions[0].0, "hvcE");
    assert_eq!(b.block_additions[0].1, vec![0x01, 0x02, 0x03, 0x04, 0x05]);
}

#[test]
fn video_entry_with_dvcc_child_recorded_as_block_addition() {
    let dvcc_payload = build_dvcc_payload(8, 6, true, true, true);
    let dvcc = encode_box(b"dvcC", &dvcc_payload);
    let b = run(build_stsd_payload(&[build_video_sample_entry(b"hev1", 3840, 2160, 24, &dvcc)]), *b"vide");
    assert!(b.video_codec_config.is_none());
    assert_eq!(b.block_additions.len(), 1);
    assert_eq!(b.block_additions[0].0, "dvcC");
    assert_eq!(b.block_additions[0].1, dvcc_payload);
}

#[test]
fn wave_container_nests_esds_object_type() {
    let esds = encode_box(b"esds", &build_esds_payload(0x6B, &[0x12, 0x10]));
    let wave = encode_box(b"wave", &esds);
    let b = run(build_stsd_payload(&[build_audio_sample_entry_v0(b"mp4a", 2, 16, 44_100, &wave)]), *b"soun");
    assert_eq!(b.esds_object_type, Some(0x6B));
    assert_eq!(b.esds_decoder_specific_data.as_deref(), Some(&[0x12, 0x10][..]));
}

#[test]
fn known_video_fourcc_table() {
    for k in [b"avc1", b"avc3", b"hvc1", b"hev1", b"av01", b"mp4v", b"xvid", b"XVID"] {
        assert!(stsd::is_known_priv_video_fourcc(k));
    }
    assert!(!stsd::is_known_priv_video_fourcc(b"rle "));
}
