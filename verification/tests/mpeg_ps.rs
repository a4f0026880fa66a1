use lib::mpeg_ps::identify::{
    classify_stream_id, codec_from_bare_id, codec_from_stream_type, codec_from_sub_id,
    decode_lpcm_header, encoded_stream_id, finalise_prepared, prepare_stream, resolve_codec, track_sort_bucket,
    PayloadDecoder, Preparation, PreparedStream, StreamObservation,
};
use lib::mpeg_ps::reader::{collect_streams, MpegPsReader};
use lib::model::{AudioTrackProperties, ContainerFormat, MediaMetadata, SampleRate};
use lib::source::FileSource;
use lib::codec::TrackKind;
use lib::mpeg_ps::packet::{
    find_start_code, StartCode, PACK_HEADER, PADDING, PRIVATE_STREAM_1, PRIVATE_STREAM_2,
    PROGRAM_END_CODE, PROGRAM_STREAM_MAP, SYSTEM_HEADER,
};
use lib::mpeg_ps::pes::{parse, pes_payload_offset, PesHeader};
use lib::model::TrackType;
use lib::source::ParseError;

fn obs(stream_id: u8, sub_id: Option<u8>, psm: Option<u8>) -> StreamObservation {
    StreamObservation { stream_id, sub_id, psm_stream_type: psm, payload: Vec::new() }
}

// ---- start codes ----

#[test]
fn classify_pack_header() {
    assert_eq!(StartCode::from_byte(PACK_HEADER), StartCode::PackHeader);
}

#[test]
fn classify_system_header() {
    assert_eq!(StartCode::from_byte(SYSTEM_HEADER), StartCode::SystemHeader);
}

#[test]
fn classify_program_stream_map() {
    assert_eq!(StartCode::from_byte(PROGRAM_STREAM_MAP), StartCode::ProgramStreamMap);
}

#[test]
fn classify_private_streams() {
    assert_eq!(StartCode::from_byte(PRIVATE_STREAM_1), StartCode::PrivateStream1);
    assert_eq!(StartCode::from_byte(PRIVATE_STREAM_2), StartCode::PrivateStream2);
}

#[test]
fn classify_padding() {
    assert_eq!(StartCode::from_byte(PADDING), StartCode::Padding);
}

#[test]
fn classify_audio_range() {
    assert_eq!(StartCode::from_byte(0xC0), StartCode::Audio(0xC0));
    assert_eq!(StartCode::from_byte(0xDF), StartCode::Audio(0xDF));
}

#[test]
fn classify_video_range() {
    assert_eq!(StartCode::from_byte(0xE0), StartCode::Video(0xE0));
    assert_eq!(StartCode::from_byte(0xEF), StartCode::Video(0xEF));
}

#[test]
fn classify_program_end() {
    assert_eq!(StartCode::from_byte(PROGRAM_END_CODE), StartCode::ProgramEnd);
}

#[test]
fn classify_other_falls_through() {
    assert_eq!(StartCode::from_byte(0x42), StartCode::Other(0x42));
}

#[test]
fn classify_edges_of_ranges() {
    assert_eq!(StartCode::from_byte(0xBF), StartCode::PrivateStream2);
    assert_eq!(StartCode::from_byte(0xF0), StartCode::Other(0xF0));
    assert_eq!(StartCode::from_byte(0xB8), StartCode::Other(0xB8));
    assert_eq!(StartCode::from_byte(0x00), StartCode::Other(0x00));
}

#[test]
fn find_start_code_locates_first_occurrence() {
    let bytes = [0xFFu8, 0xFF, 0x00, 0x00, 0x01, 0xBA, 0xAA];
    assert_eq!(find_start_code(&bytes, 0), Some((2, 0xBA)));
}

#[test]
fn find_start_code_returns_none_when_absent() {
    let bytes = [0xFFu8; 16];
    assert!(find_start_code(&bytes, 0).is_none());
}

#[test]
fn find_start_code_respects_from_offset() {
    let bytes = [0x00u8, 0x00, 0x01, 0xBA, 0x00, 0x00, 0x01, 0xE0];
    let (pos, id) = find_start_code(&bytes, 4).unwrap();
    assert_eq!(pos, 4);
    assert_eq!(id, 0xE0);
}

#[test]
fn find_start_code_needs_the_id_byte() {
    // A prefix at the very end, without the id byte after it, is no start code.
    let bytes = [0xAAu8, 0x00, 0x00, 0x01];
    assert!(find_start_code(&bytes, 0).is_none());
    // A start offset past the end finds nothing.
    assert!(find_start_code(&bytes, 10).is_none());
}

#[test]
fn find_start_code_overlapping_zeros() {
    let bytes = [0x00u8, 0x00, 0x00, 0x01, 0xE0];
    assert_eq!(find_start_code(&bytes, 0), Some((1, 0xE0)));
}

// ---- PES headers ----

#[test]
fn pes_decodes_video_pes_header() {
    let bytes = [0x00, 0x00, 0x01, 0xE0, 0x00, 0x0A];
    let h = parse(&bytes).unwrap();
    assert_eq!(h.stream_id, 0xE0);
    assert_eq!(h.packet_length, 0x0A);
}

#[test]
fn pes_rejects_missing_start_code() {
    let err = parse(&[0xFF; 6]).unwrap_err();
    assert!(matches!(err, ParseError::Malformed { .. }));
}

#[test]
fn pes_rejects_truncated() {
    let err = parse(&[0x00, 0x00, 0x01]).unwrap_err();
    assert!(matches!(err, ParseError::Malformed { .. }));
}

#[test]
fn pes_header_packet_length_is_big_endian() {
    let h = parse(&[0x00, 0x00, 0x01, 0xBD, 0x12, 0x34, 0x99]).unwrap();
    assert_eq!(h, PesHeader { stream_id: 0xBD, packet_length: 0x1234 });
}

#[test]
fn pes_payload_offset_for_full_header() {
    let mut bytes = vec![0x00, 0x00, 0x01, 0xE0, 0x00, 0x20, 0x80, 0x80, 5];
    bytes.extend_from_slice(&[0u8; 5]);
    bytes.extend_from_slice(&[0xAA; 6]);
    assert_eq!(pes_payload_offset(&bytes), 14);
}

#[test]
fn pes_payload_offset_for_short_buffer() {
    assert_eq!(pes_payload_offset(&[0x00, 0x00, 0x01, 0xE0]), 4);
}

#[test]
fn pes_payload_offset_mpeg1_pts_only() {
    let mut bytes = vec![0x00, 0x00, 0x01, 0xE0, 0x00, 0x14];
    bytes.extend_from_slice(&[0x21, 0x11, 0x11, 0x11, 0x11]);
    bytes.extend_from_slice(&[0xAA; 9]);
    assert_eq!(pes_payload_offset(&bytes), 11);
}

#[test]
fn pes_payload_offset_mpeg1_pts_dts() {
    let mut bytes = vec![0x00, 0x00, 0x01, 0xE0, 0x00, 0x1E];
    bytes.push(0x31);
    bytes.extend_from_slice(&[0x11; 9]);
    bytes.extend_from_slice(&[0xAA; 8]);
    assert_eq!(pes_payload_offset(&bytes), 16);
}

#[test]
fn pes_payload_offset_mpeg1_no_timestamp_marker() {
    let mut bytes = vec![0x00, 0x00, 0x01, 0xE0, 0x00, 0x09, 0x0F];
    bytes.extend_from_slice(&[0xAA; 8]);
    assert_eq!(pes_payload_offset(&bytes), 7);
}

#[test]
fn pes_payload_offset_skips_stuffing_before_mpeg2_header() {
    let mut bytes = vec![0x00, 0x00, 0x01, 0xE0, 0x00, 0x20];
    bytes.extend_from_slice(&[0xFF, 0xFF, 0x80, 0x80, 0x02, 0x00, 0x00]);
    bytes.extend_from_slice(&[0xAA; 6]);
    assert_eq!(pes_payload_offset(&bytes), 13);
}

#[test]
fn pes_payload_offset_unknown_marker_yields_no_payload() {
    let mut bytes = vec![0x00, 0x00, 0x01, 0xE0, 0x00, 0x08];
    bytes.extend_from_slice(&[0u8; 8]);
    assert_eq!(pes_payload_offset(&bytes), 6 + 0x08);
}

// ---- stream classification ----

#[test]
fn bare_video_and_audio_ids() {
    assert_eq!(resolve_codec(&obs(0xE0, None, None)).unwrap().kind, TrackKind::Video);
    assert_eq!(resolve_codec(&obs(0xC0, None, None)).unwrap().kind, TrackKind::Audio);
    assert!(resolve_codec(&obs(0x42, None, None)).is_none());
}

#[test]
fn private_stream_1_substreams_classified() {
    assert_eq!(resolve_codec(&obs(0xBD, Some(0x20), None)).unwrap().id, "S_VOBSUB");
    assert_eq!(resolve_codec(&obs(0xBD, Some(0x80), None)).unwrap().id, "A_AC3");
    assert_eq!(resolve_codec(&obs(0xBD, Some(0x88), None)).unwrap().id, "A_DTS");
    assert_eq!(resolve_codec(&obs(0xBD, Some(0xA0), None)).unwrap().id, "A_PCM/INT/BIG");
    assert_eq!(resolve_codec(&obs(0xBD, Some(0xB1), None)).unwrap().id, "A_TRUEHD");
}

#[test]
fn psm_stream_type_wins() {
    let c = resolve_codec(&obs(0xE0, None, Some(0x1B))).unwrap();
    assert_eq!(c.id, "V_MPEG4/ISO/AVC");
    let a = resolve_codec(&obs(0xC0, None, Some(0x81))).unwrap();
    assert_eq!(a.id, "A_AC3");
}

#[test]
fn unsupported_psm_stream_type_drops_instead_of_falling_back() {
    assert!(resolve_codec(&obs(0xE0, None, Some(0x24))).is_none());
    assert!(resolve_codec(&obs(0xC0, None, Some(0x82))).is_none());
}

#[test]
fn vc1_stream_id_classified_as_video() {
    let c = resolve_codec(&obs(0xFD, None, None)).unwrap();
    assert_eq!(c.id, "V_VC1");
    assert_eq!(c.kind, TrackKind::Video);
}

#[test]
fn unknown_private_substream_is_not_classified() {
    assert!(resolve_codec(&obs(0xBD, Some(0x40), None)).is_none());
    assert!(resolve_codec(&obs(0xBD, Some(0x70), None)).is_none());
    assert!(resolve_codec(&obs(0xBD, Some(0xD0), None)).is_none());
}

#[test]
fn private_stream_1_without_sub_id_is_not_classified() {
    assert!(resolve_codec(&obs(0xBD, None, None)).is_none());
}

#[test]
fn classify_stream_id_keeps_only_known_ids() {
    let o = classify_stream_id(0xE3).unwrap();
    assert_eq!(o.stream_id, 0xE3);
    assert!(o.sub_id.is_none());
    assert!(o.psm_stream_type.is_none());
    assert!(o.payload.is_empty());
    assert!(classify_stream_id(0xBA).is_none());
}

#[test]
fn codec_tables_exact_entries() {
    let c = codec_from_stream_type(0x02).unwrap();
    assert_eq!((c.kind, c.id, c.name), (TrackKind::Video, "V_MPEG2", "MPEG-2 Video"));
    assert!(codec_from_stream_type(0x00).is_none());
    let s = codec_from_sub_id(0x3F).unwrap();
    assert_eq!((s.kind, s.id), (TrackKind::Subtitle, "S_VOBSUB"));
    assert!(codec_from_sub_id(0x40).is_none());
    let a = codec_from_bare_id(0xDF).unwrap();
    assert_eq!(a.kind, TrackKind::Audio);
    assert!(codec_from_bare_id(0xBC).is_none());
}

#[test]
fn lpcm_decode_header_helper() {
    let payload = [0x00u8, 0b10_00_0_101];
    let (channels, sample_rate, bits) = decode_lpcm_header(&payload).unwrap();
    assert_eq!(channels, 6);
    assert_eq!(sample_rate, 48_000);
    assert_eq!(bits, 24);
}

#[test]
fn lpcm_decode_header_rejects_28_bit() {
    let payload = [0x00u8, 0b11_00_0_001];
    assert!(decode_lpcm_header(&payload).is_none());
}

#[test]
fn lpcm_decode_header_underrun_returns_none() {
    assert!(decode_lpcm_header(&[0x00]).is_none());
}

#[test]
fn lpcm_decode_header_other_rates() {
    assert_eq!(decode_lpcm_header(&[0x00, 0b01_10_0_001]), Some((2, 44_100, 20)));
    assert_eq!(decode_lpcm_header(&[0x00, 0b00_01_0_000]), Some((1, 96_000, 16)));
    assert_eq!(decode_lpcm_header(&[0x00, 0b00_11_0_111]), Some((8, 32_000, 16)));
}

#[test]
fn sort_keys_of_tracks() {
    assert_eq!(track_sort_bucket(TrackType::Video), 0);
    assert_eq!(track_sort_bucket(TrackType::Audio), 1);
    assert_eq!(track_sort_bucket(TrackType::Subtitles), 2);
    assert_eq!(encoded_stream_id(&obs(0xBD, Some(0x20), None)), 0xBD20);
    assert_eq!(encoded_stream_id(&obs(0xE0, None, None)), 0xE000);
}

// ---- reader ----

fn start_code(stream_id: u8) -> [u8; 4] {
    [0x00, 0x00, 0x01, stream_id]
}

fn build_ps(stream_ids: &[u8]) -> Vec<u8> {
    let mut bytes = Vec::new();
    bytes.extend_from_slice(&start_code(PACK_HEADER));
    bytes.extend_from_slice(&[0u8; 10]);
    for id in stream_ids {
        bytes.extend_from_slice(&start_code(*id));
        bytes.extend_from_slice(&8u16.to_be_bytes());
        bytes.extend_from_slice(&[0u8; 8]);
    }
    bytes
}

fn psm_packet(entries: &[(u8, u8)]) -> Vec<u8> {
    let mut payload = Vec::new();
    payload.extend_from_slice(&start_code(PROGRAM_STREAM_MAP));
    let mut body = Vec::new();
    body.extend_from_slice(&0u16.to_be_bytes());
    body.push(0x80);
    body.push(0x01);
    body.extend_from_slice(&0u16.to_be_bytes());
    body.extend_from_slice(&((entries.len() * 4) as u16).to_be_bytes());
    for (stream_type, stream_id) in entries {
        body.push(*stream_type);
        body.push(*stream_id);
        body.extend_from_slice(&0u16.to_be_bytes());
    }
    body.extend_from_slice(&0u32.to_be_bytes());
    let len = (body.len() - 2) as u16;
    body[..2].copy_from_slice(&len.to_be_bytes());
    payload.extend_from_slice(&body);
    payload
}

fn keys(obs: &[StreamObservation]) -> Vec<(u8, Option<u8>, Option<u8>)> {
    obs.iter().map(|o| (o.stream_id, o.sub_id, o.psm_stream_type)).collect()
}

#[test]
fn probe_accepts_files_starting_with_pack_header() {
    let mut s = FileSource::from_bytes(build_ps(&[0xE0]));
    assert!(MpegPsReader.probe(&mut s).unwrap());
    assert_eq!(s.position(), 0);
}

#[test]
fn probe_accepts_leading_garbage_then_system_and_pack() {
    let mut bytes = vec![0xAA, 0xBB, 0xCC];
    bytes.extend_from_slice(&start_code(SYSTEM_HEADER));
    bytes.extend_from_slice(&[0u8; 4]);
    bytes.extend_from_slice(&start_code(PACK_HEADER));
    bytes.extend_from_slice(&[0u8; 8]);
    let mut s = FileSource::from_bytes(bytes);
    assert!(MpegPsReader.probe(&mut s).unwrap());
}

#[test]
fn probe_rejects_files_without_pack_header() {
    let mut s = FileSource::from_bytes(b"RIFF".to_vec());
    assert!(!MpegPsReader.probe(&mut s).unwrap());
}

#[test]
fn probe_needs_both_system_and_pack_headers() {
    let mut bytes = vec![0xAA];
    bytes.extend_from_slice(&start_code(SYSTEM_HEADER));
    bytes.extend_from_slice(&[0u8; 8]);
    let mut s = FileSource::from_bytes(bytes);
    assert!(!MpegPsReader.probe(&mut s).unwrap());
}

#[test]
fn read_streams_collects_unique_stream_ids() {
    let mut s = FileSource::from_bytes(build_ps(&[0xE0, 0xC0, 0xE0, 0xC0, 0xBD]));
    let obs = MpegPsReader.read_streams(&mut s).unwrap();
    assert_eq!(keys(&obs), vec![(0xE0, None, None), (0xC0, None, None), (0xBD, None, None)]);
    assert!(obs.iter().all(|o| o.payload.is_empty()));
}

#[test]
fn read_streams_returns_unrecognised_on_empty_input() {
    let mut s = FileSource::from_bytes(Vec::new());
    assert!(matches!(MpegPsReader.read_streams(&mut s), Err(ParseError::Unrecognised)));
}

#[test]
fn padding_stream_is_skipped_by_its_length() {
    let obs = collect_streams(&build_ps(&[0xBE, 0xE0, 0xBE]));
    assert_eq!(keys(&obs), vec![(0xE0, None, None)]);
}

#[test]
fn private_stream_1_sub_id_and_framing_skip() {
    let mut bytes = Vec::new();
    bytes.extend_from_slice(&start_code(PACK_HEADER));
    bytes.extend_from_slice(&[0u8; 10]);
    bytes.extend_from_slice(&start_code(0xBD));
    bytes.extend_from_slice(&16u16.to_be_bytes());
    bytes.extend_from_slice(&[0x80, 0x80, 0x00]);
    bytes.push(0x88);
    bytes.extend_from_slice(&[1, 2, 3, 4, 5, 6, 7, 8, 9, 10, 11, 12]);
    let obs = collect_streams(&bytes);
    assert_eq!(keys(&obs), vec![(0xBD, Some(0x88), None)]);
    assert_eq!(obs[0].payload, vec![4, 5, 6, 7, 8, 9, 10, 11, 12]);
}

#[test]
fn mpeg1_pts_only_header_locates_payload() {
    let mut bytes = Vec::new();
    bytes.extend_from_slice(&start_code(PACK_HEADER));
    bytes.extend_from_slice(&[0u8; 10]);
    let pts = [0x21u8, 0x11, 0x11, 0x11, 0x11];
    let es = [0xAAu8, 0xBB, 0xCC];
    bytes.extend_from_slice(&start_code(0xE0));
    bytes.extend_from_slice(&((pts.len() + es.len()) as u16).to_be_bytes());
    bytes.extend_from_slice(&pts);
    bytes.extend_from_slice(&es);
    let obs = collect_streams(&bytes);
    assert_eq!(obs[0].payload, vec![0xAA, 0xBB, 0xCC]);
}

#[test]
fn program_stream_map_type_is_recorded() {
    let mut bytes = Vec::new();
    bytes.extend_from_slice(&start_code(PACK_HEADER));
    bytes.extend_from_slice(&[0u8; 10]);
    bytes.extend_from_slice(&psm_packet(&[(0x1B, 0xE0), (0x02, 0xE0)]));
    bytes.extend_from_slice(&start_code(0xE0));
    bytes.extend_from_slice(&8u16.to_be_bytes());
    bytes.extend_from_slice(&[0u8; 8]);
    let obs = collect_streams(&bytes);
    assert_eq!(keys(&obs), vec![(0xE0, None, Some(0x1B))]);
}

#[test]
fn psm_ignores_entries_after_declared_length() {
    let mut psm = psm_packet(&[]);
    psm.extend_from_slice(&[0x1B, 0xE0, 0x00, 0x00]);
    let mut bytes = Vec::new();
    bytes.extend_from_slice(&start_code(PACK_HEADER));
    bytes.extend_from_slice(&[0u8; 10]);
    bytes.extend_from_slice(&psm);
    bytes.extend_from_slice(&start_code(0xE0));
    bytes.extend_from_slice(&8u16.to_be_bytes());
    bytes.extend_from_slice(&[0u8; 8]);
    let obs = collect_streams(&bytes);
    assert_eq!(keys(&obs), vec![(0xE0, None, None)]);
}

#[test]
fn padding_payload_start_code_is_not_collected() {
    let mut bytes = Vec::new();
    bytes.extend_from_slice(&start_code(PACK_HEADER));
    bytes.extend_from_slice(&[0u8; 10]);
    bytes.extend_from_slice(&start_code(PADDING));
    bytes.extend_from_slice(&8u16.to_be_bytes());
    bytes.extend_from_slice(&start_code(0xE0));
    bytes.extend_from_slice(&[0u8; 4]);
    bytes.extend_from_slice(&start_code(0xC0));
    bytes.extend_from_slice(&8u16.to_be_bytes());
    bytes.extend_from_slice(&[0u8; 8]);
    let obs = collect_streams(&bytes);
    assert_eq!(keys(&obs), vec![(0xC0, None, None)]);
}

#[test]
fn read_streams_finds_stream_beyond_64kib() {
    let mut bytes = Vec::new();
    bytes.extend_from_slice(&start_code(PACK_HEADER));
    bytes.extend_from_slice(&[0u8; 10]);
    bytes.extend_from_slice(&vec![0xFFu8; 200 * 1024]);
    bytes.extend_from_slice(&start_code(0xE0));
    bytes.extend_from_slice(&8u16.to_be_bytes());
    bytes.extend_from_slice(&[0u8; 8]);
    let mut s = FileSource::from_bytes(bytes);
    let obs = MpegPsReader.read_streams(&mut s).unwrap();
    assert_eq!(keys(&obs), vec![(0xE0, None, None)]);
}

#[test]
fn zero_length_packet_runs_to_next_packet_layer_code() {
    let mut bytes = Vec::new();
    bytes.extend_from_slice(&start_code(PACK_HEADER));
    bytes.extend_from_slice(&[0u8; 10]);
    bytes.extend_from_slice(&start_code(0xE0));
    bytes.extend_from_slice(&0u16.to_be_bytes());
    bytes.push(0x0F);
    bytes.extend_from_slice(&[0x00, 0x00, 0x01, 0xB3, 0x10]);
    bytes.extend_from_slice(&start_code(0xC0));
    bytes.extend_from_slice(&2u16.to_be_bytes());
    bytes.extend_from_slice(&[0x0F, 0x77]);
    let obs = collect_streams(&bytes);
    assert_eq!(keys(&obs), vec![(0xE0, None, None), (0xC0, None, None)]);
    assert_eq!(obs[0].payload, vec![0x00, 0x00, 0x01, 0xB3, 0x10]);
    assert_eq!(obs[1].payload, vec![0x77]);
}

#[test]
fn mpeg_ps_reader_name() {
    assert_eq!(MpegPsReader.name(), "mpeg_ps");
}

// ---- track assembly ----

fn prepared(stream_id: u8, sub_id: Option<u8>, track_type: TrackType) -> PreparedStream {
    let codec = match track_type {
        TrackType::Video => codec_from_bare_id(0xE0).unwrap(),
        TrackType::Audio => codec_from_sub_id(0xA0).unwrap(),
        _ => codec_from_sub_id(0x20).unwrap(),
    };
    PreparedStream { stream_id, sub_id, codec, track_type, video: None, audio: None }
}

#[test]
fn finalise_sorts_by_type_bucket_and_encoded_id() {
    let mut m = MediaMetadata::new();
    finalise_prepared(
        vec![
            prepared(0xC1, None, TrackType::Audio),
            prepared(0xE1, None, TrackType::Video),
            prepared(0xC0, None, TrackType::Audio),
            prepared(0xE0, None, TrackType::Video),
            prepared(0xBD, Some(0x20), TrackType::Subtitles),
        ],
        &mut m,
    );
    assert_eq!(m.format, ContainerFormat::MpegPs);
    assert!(m.recognized && m.supported);
    assert_eq!(m.properties.is_fragmented, Some(false));
    let ids: Vec<(i64, Option<u32>)> = m.tracks.iter().map(|t| (t.id, t.properties.common.stream_id)).collect();
    assert_eq!(ids, vec![(0, Some(0xE0)), (1, Some(0xE1)), (2, Some(0xC0)), (3, Some(0xC1)), (4, Some(0xBD))]);
    assert_eq!(m.tracks[4].track_type, TrackType::Subtitles);
}

#[test]
fn finalise_prepared_vobsub_subtitle_props_and_number() {
    let mut m = MediaMetadata::new();
    finalise_prepared(vec![prepared(0xBD, Some(0x20), TrackType::Subtitles)], &mut m);
    let t = &m.tracks[0];
    let sub = t.properties.subtitle.as_ref().unwrap();
    assert!(!sub.text_subtitles);
    assert_eq!(sub.variant.as_deref(), Some("VobSub"));
    assert_eq!(t.properties.common.stream_id, Some(0xBD));
    assert_eq!(t.properties.common.sub_stream_id, Some(0x20));
    assert_eq!(t.properties.common.number, Some((0x20u64 << 32) | 0xBD));
    assert_eq!(t.codec.id, "S_VOBSUB");
}

#[test]
fn finalise_prepared_keeps_decoded_audio() {
    let mut m = MediaMetadata::new();
    let mut p = prepared(0xBD, Some(0xA0), TrackType::Audio);
    let mut a = AudioTrackProperties::default();
    a.channels = Some(6);
    a.bit_depth = Some(24);
    p.audio = Some(a);
    finalise_prepared(vec![prepared(0xE0, None, TrackType::Video), p], &mut m);
    assert_eq!(m.tracks[0].properties.common.number, Some(0xE0));
    assert!(m.tracks[0].properties.video.is_some());
    let audio = m.tracks[1].properties.audio.as_ref().unwrap();
    assert_eq!(audio.channels, Some(6));
    assert_eq!(audio.bit_depth, Some(24));
    assert_eq!(m.tracks[1].codec.id, "A_PCM/INT/BIG");
}

// ---- preparation ----

fn ready(p: Preparation) -> PreparedStream {
    match p {
        Preparation::Ready(p) => p,
        other => panic!("not ready: {:?}", other),
    }
}

#[test]
fn lpcm_payload_through_finalise() {
    let o = StreamObservation { stream_id: 0xBD, sub_id: Some(0xA0), psm_stream_type: None, payload: vec![0x00u8, 0b01_10_0_001] };
    let mut m = MediaMetadata::new();
    finalise_prepared(vec![ready(prepare_stream(o))], &mut m);
    let a = m.tracks[0].properties.audio.as_ref().unwrap();
    assert_eq!(a.channels, Some(2));
    assert_eq!(a.sampling_frequency, Some(SampleRate::Hz(44_100)));
    assert_eq!(a.bit_depth, Some(20));
    assert_eq!(m.tracks[0].properties.common.number, Some((0xA0u64 << 32) | 0xBD));
}

#[test]
fn vobsub_prepared_without_payload() {
    let p = ready(prepare_stream(obs(0xBD, Some(0x20), None)));
    assert_eq!(p.track_type, TrackType::Subtitles);
    assert_eq!(p.codec.id, "S_VOBSUB");
}

#[test]
fn streams_needing_a_decoder_are_handed_back() {
    for (o, d) in [
        (obs(0xE0, None, None), PayloadDecoder::MpegVideo),
        (obs(0xE0, None, Some(0x1B)), PayloadDecoder::Avc),
        (obs(0xFD, None, None), PayloadDecoder::Vc1),
        (obs(0xC0, None, None), PayloadDecoder::MpegAudio),
        (obs(0xBD, Some(0x80), None), PayloadDecoder::Ac3),
        (obs(0xBD, Some(0x88), None), PayloadDecoder::Dts),
        (obs(0xBD, Some(0xB0), None), PayloadDecoder::TrueHd),
    ] {
        match prepare_stream(o) {
            Preparation::NeedsDecoder(_, _, n) => assert_eq!(n, d),
            other => panic!("unexpected {:?}", other),
        }
    }
}

#[test]
fn unusable_streams_are_dropped() {
    assert!(matches!(prepare_stream(obs(0x42, None, None)), Preparation::Dropped));
    assert!(matches!(prepare_stream(obs(0xE0, None, Some(0x10))), Preparation::Dropped));
    assert!(matches!(prepare_stream(obs(0xC0, None, Some(0x0F))), Preparation::Dropped));
    let bad_lpcm = StreamObservation { stream_id: 0xBD, sub_id: Some(0xA0), psm_stream_type: None, payload: vec![0x00, 0xC0] };
    assert!(matches!(prepare_stream(bad_lpcm), Preparation::Dropped));
}

#[test]
fn read_headers_returns_unrecognised_on_empty_input() {
    let mut s = FileSource::from_bytes(Vec::new());
    let mut out = MediaMetadata::new();
    assert!(matches!(MpegPsReader.read_headers(&mut s, &mut out), Err(ParseError::Unrecognised)));
    assert!(out.tracks.is_empty());
}

#[test]
fn lpcm_private_stream_payload_offset_skips_framing_header() {
    let mut bytes = Vec::new();
    bytes.extend_from_slice(&start_code(PACK_HEADER));
    bytes.extend_from_slice(&[0u8; 10]);
    bytes.extend_from_slice(&start_code(0xBD));
    bytes.extend_from_slice(&20u16.to_be_bytes());
    bytes.extend_from_slice(&[0x80, 0x80, 0x00]);
    bytes.push(0xA0);
    bytes.extend_from_slice(&[0x00, 0x00, 0x00]);
    bytes.push(0x00);
    bytes.push(0b10_00_0_101);
    bytes.extend_from_slice(&[0u8; 8]);
    let mut s = FileSource::from_bytes(bytes);
    let mut out = MediaMetadata::new();
    let pending = MpegPsReader.read_headers(&mut s, &mut out).unwrap();
    assert!(pending.is_empty());
    assert_eq!(out.tracks.len(), 1);
    let t = &out.tracks[0];
    assert_eq!(t.codec.id, "A_PCM/INT/BIG");
    let a = t.properties.audio.as_ref().unwrap();
    assert_eq!(a.channels, Some(6));
    assert_eq!(a.sampling_frequency, Some(SampleRate::Hz(48000)));
    assert_eq!(a.bit_depth, Some(24));
}

#[test]
fn read_headers_hands_back_streams_needing_decoders() {
    let mut s = FileSource::from_bytes(build_ps(&[0xE0, 0xC0, 0xE0, 0xC0, 0xBD]));
    let mut out = MediaMetadata::new();
    let pending = MpegPsReader.read_headers(&mut s, &mut out).unwrap();
    assert_eq!(out.format, ContainerFormat::MpegPs);
    assert!(out.tracks.is_empty());
    let ids: Vec<(u8, PayloadDecoder)> = pending.iter().map(|(o, _, d)| (o.stream_id, *d)).collect();
    assert_eq!(ids, vec![(0xE0, PayloadDecoder::MpegVideo), (0xC0, PayloadDecoder::MpegAudio)]);
}

#[test]
fn vobsub_subtitle_track_has_subtitle_props() {
    let mut m = MediaMetadata::new();
    finalise_prepared(vec![ready(prepare_stream(obs(0xBD, Some(0x20), None)))], &mut m);
    assert_eq!(m.tracks.len(), 1);
    let t = &m.tracks[0];
    assert_eq!(t.track_type, TrackType::Subtitles);
    let sub = t.properties.subtitle.as_ref().unwrap();
    assert!(!sub.text_subtitles);
    assert_eq!(sub.variant.as_deref(), Some("VobSub"));
    assert_eq!(t.properties.common.stream_id, Some(0xBD));
    assert_eq!(t.properties.common.sub_stream_id, Some(0x20));
}

#[test]
fn finalise_emits_tracks_and_sets_container() {
    let mut m = MediaMetadata::new();
    finalise_prepared(
        vec![prepared(0xE0, None, TrackType::Video), prepared(0xC0, None, TrackType::Audio)],
        &mut m,
    );
    assert_eq!(m.format, ContainerFormat::MpegPs);
    assert_eq!(m.tracks.len(), 2);
    assert_eq!(m.tracks[0].track_type, TrackType::Video);
    assert_eq!(m.tracks[1].track_type, TrackType::Audio);
    assert_eq!(m.tracks[0].properties.common.stream_id, Some(0xE0));
}

#[test]
fn number_encodes_stream_and_sub_id() {
    let lpcm = StreamObservation {
        stream_id: 0xBD,
        sub_id: Some(0xA0),
        psm_stream_type: None,
        payload: vec![0x00u8, 0b10_00_0_101],
    };
    let mut m = MediaMetadata::new();
    finalise_prepared(vec![prepared(0xE0, None, TrackType::Video), ready(prepare_stream(lpcm))], &mut m);
    assert_eq!(m.tracks[0].properties.common.number, Some(0xE0));
    assert_eq!(m.tracks[0].id, 0);
    assert_eq!(m.tracks[1].properties.common.number, Some((0xA0u64 << 32) | 0xBD));
    assert_eq!(m.tracks[1].properties.common.stream_id, Some(0xBD));
}

#[test]
fn invalid_codec_probes_are_dropped() {
    let observations = vec![
        StreamObservation { stream_id: 0xE0, sub_id: None, psm_stream_type: None, payload: vec![0u8; 16] },
        StreamObservation { stream_id: 0xC0, sub_id: None, psm_stream_type: None, payload: vec![0u8; 16] },
        StreamObservation { stream_id: 0xBD, sub_id: Some(0x80), psm_stream_type: None, payload: vec![0u8; 16] },
        StreamObservation { stream_id: 0xBD, sub_id: Some(0x88), psm_stream_type: None, payload: vec![0u8; 16] },
        StreamObservation { stream_id: 0xBD, sub_id: Some(0xA0), psm_stream_type: None, payload: vec![0u8; 1] },
        StreamObservation { stream_id: 0xBD, sub_id: Some(0xB0), psm_stream_type: None, payload: vec![0u8; 16] },
        StreamObservation { stream_id: 0xFD, sub_id: None, psm_stream_type: None, payload: vec![0u8; 16] },
    ];
    let mut ready_streams = Vec::new();
    for o in observations {
        if let Preparation::Ready(p) = prepare_stream(o) {
            ready_streams.push(p);
        }
    }
    let mut m = MediaMetadata::new();
    finalise_prepared(ready_streams, &mut m);
    assert!(m.tracks.is_empty());
}
