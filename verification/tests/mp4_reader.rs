use lib::model::{ContainerFormat, MediaMetadata, TrackType};
use lib::mp4::reader::{resync_size_plausible, resync_to_top_level_atom, Mp4Reader};
use lib::source::{FileSource, ParseError};

fn encode_box(kind: &[u8; 4], payload: &[u8]) -> Vec<u8> {
    let total = (8 + payload.len()) as u32;
    let mut out = Vec::new();
    out.extend_from_slice(&total.to_be_bytes());
    out.extend_from_slice(kind);
    out.extend_from_slice(payload);
    out
}

fn encode_packed_language(language: &str) -> u16 {
    let mut bytes = language.as_bytes().iter().copied();
    let c0 = bytes.next().unwrap_or(0).saturating_sub(0x60);
    let c1 = bytes.next().unwrap_or(0).saturating_sub(0x60);
    let c2 = bytes.next().unwrap_or(0).saturating_sub(0x60);
    (((c0 as u16) & 0x1F) << 10) | (((c1 as u16) & 0x1F) << 5) | ((c2 as u16) & 0x1F)
}

fn build_mdhd_payload_v0(timescale: u32, duration: u32, language: &str) -> Vec<u8> {
    let mut p = Vec::with_capacity(24);
    p.push(0);
    p.extend_from_slice(&[0u8; 3]);
    p.extend_from_slice(&0u32.to_be_bytes());
    p.extend_from_slice(&0u32.to_be_bytes());
    p.extend_from_slice(&timescale.to_be_bytes());
    p.extend_from_slice(&duration.to_be_bytes());
    p.extend_from_slice(&encode_packed_language(language).to_be_bytes());
    p.extend_from_slice(&0u16.to_be_bytes());
    p
}

fn build_hdlr_payload(handler_type: &[u8; 4], name: &str) -> Vec<u8> {
    let mut p = Vec::new();
    p.push(0);
    p.extend_from_slice(&[0u8; 3]);
    p.extend_from_slice(&[0u8; 4]);
    p.extend_from_slice(handler_type);
    p.extend_from_slice(&[0u8; 12]);
    p.extend_from_slice(name.as_bytes());
    p.push(0);
    p
}

fn build_mvhd_payload_v0(timescale: u32, duration: u32, next_track_id: u32) -> Vec<u8> {
    let mut p = Vec::with_capacity(100);
    p.push(0);
    p.extend_from_slice(&[0u8; 3]);
    p.extend_from_slice(&0u32.to_be_bytes());
    p.extend_from_slice(&0u32.to_be_bytes());
    p.extend_from_slice(&timescale.to_be_bytes());
    p.extend_from_slice(&duration.to_be_bytes());
    p.extend_from_slice(&0u32.to_be_bytes());
    p.extend_from_slice(&[0u8; 2]);
    p.extend_from_slice(&[0u8; 10]);
    p.extend_from_slice(&[0u8; 36]);
    p.extend_from_slice(&[0u8; 24]);
    p.extend_from_slice(&next_track_id.to_be_bytes());
    p
}

fn build_tkhd_payload_v0(track_id: u32, width_px: u16, height_px: u16) -> Vec<u8> {
    let mut p = Vec::with_capacity(84);
    p.push(0);
    p.extend_from_slice(&[0u8, 0u8, 0x01u8]);
    p.extend_from_slice(&0u32.to_be_bytes());
    p.extend_from_slice(&0u32.to_be_bytes());
    p.extend_from_slice(&track_id.to_be_bytes());
    p.extend_from_slice(&0u32.to_be_bytes());
    p.extend_from_slice(&0u32.to_be_bytes());
    p.extend_from_slice(&[0u8; 8]);
    p.extend_from_slice(&[0u8; 2]);
    p.extend_from_slice(&[0u8; 2]);
    p.extend_from_slice(&[0u8; 2]);
    p.extend_from_slice(&[0u8; 2]);
    p.extend_from_slice(&[0u8; 36]);
    let width = (width_px as u32) << 16;
    let height = (height_px as u32) << 16;
    p.extend_from_slice(&width.to_be_bytes());
    p.extend_from_slice(&height.to_be_bytes());
    p
}

fn build_stsd_payload(entries: &[Vec<u8>]) -> Vec<u8> {
    let mut p = Vec::new();
    p.extend_from_slice(&[0u8; 4]);
    p.extend_from_slice(&(entries.len() as u32).to_be_bytes());
    for e in entries {
        p.extend_from_slice(e);
    }
    p
}

fn build_video_sample_entry(fourcc_kind: &[u8; 4], width: u16, height: u16, depth: u16, children: &[u8]) -> Vec<u8> {
    let mut p = Vec::new();
    p.extend_from_slice(&[0u8; 6]);
    p.extend_from_slice(&1u16.to_be_bytes());
    p.extend_from_slice(&[0u8; 16]);
    p.extend_from_slice(&width.to_be_bytes());
    p.extend_from_slice(&height.to_be_bytes());
    p.extend_from_slice(&[0u8; 8]);
    p.extend_from_slice(&[0u8; 4]);
    p.extend_from_slice(&[0u8; 2]);
    p.extend_from_slice(&[0u8; 32]);
    p.extend_from_slice(&depth.to_be_bytes());
    p.extend_from_slice(&0u16.to_be_bytes());
    p.extend_from_slice(children);
    encode_box(fourcc_kind, &p)
}

fn build_video_trak(track_id: u32, codec: &[u8; 4], lang: &str, width: u16, height: u16) -> Vec<u8> {
    let tkhd = encode_box(b"tkhd", &build_tkhd_payload_v0(track_id, width, height));
    let mdhd = encode_box(b"mdhd", &build_mdhd_payload_v0(48000, 1024, lang));
    let hdlr = encode_box(b"hdlr", &build_hdlr_payload(b"vide", "VideoHandler"));
    let entry = build_video_sample_entry(codec, width, height, 24, &[]);
    let stsd = encode_box(b"stsd", &build_stsd_payload(&[entry]));
    let stbl = encode_box(b"stbl", &stsd);
    let minf = encode_box(b"minf", &stbl);
    let mut mdia = mdhd;
    mdia.extend(hdlr);
    mdia.extend(minf);
    let mdia = encode_box(b"mdia", &mdia);
    let mut trak = tkhd;
    trak.extend(mdia);
    encode_box(b"trak", &trak)
}

fn build_minimal_mp4(major_brand: &[u8; 4], traks: Vec<Vec<u8>>) -> Vec<u8> {
    let mut ftyp_payload = Vec::new();
    ftyp_payload.extend_from_slice(major_brand);
    ftyp_payload.extend_from_slice(&0u32.to_be_bytes());
    ftyp_payload.extend_from_slice(b"isom");
    let ftyp = encode_box(b"ftyp", &ftyp_payload);
    let mvhd = encode_box(b"mvhd", &build_mvhd_payload_v0(1000, 60_000, (traks.len() + 1) as u32));
    let mut moov_payload = mvhd;
    for t in traks {
        moov_payload.extend(t);
    }
    let moov = encode_box(b"moov", &moov_payload);
    let mdat = encode_box(b"mdat", &[0u8; 4]);
    let mut bytes = ftyp;
    bytes.extend(moov);
    bytes.extend(mdat);
    bytes
}

fn read(bytes: Vec<u8>) -> (Result<(), ParseError>, MediaMetadata) {
    let mut s = FileSource::from_bytes(bytes);
    let mut out = MediaMetadata::new();
    let r = Mp4Reader.read_headers(&mut s, &mut out);
    (r, out)
}

#[test]
fn probe_accepts_ftyp_prefix() {
    let bytes = build_minimal_mp4(b"isom", vec![]);
    let mut s = FileSource::from_bytes(bytes);
    assert!(Mp4Reader.probe(&mut s).unwrap());
    assert_eq!(s.position(), 0);
}

#[test]
fn probe_rejects_non_iso_bmff_files() {
    let mut s = FileSource::from_bytes(b"matroska_data!!".to_vec());
    assert!(!Mp4Reader.probe(&mut s).unwrap());
}

#[test]
fn read_headers_picks_quicktime_brand() {
    let trak = build_video_trak(1, b"avc1", "eng", 1920, 1080);
    let bytes = build_minimal_mp4(b"qt  ", vec![trak]);
    let (r, out) = read(bytes);
    r.unwrap();
    assert_eq!(out.format, ContainerFormat::QuickTime);
}

#[test]
fn read_headers_rejects_files_without_mdat() {
    let mut ftyp_payload = Vec::new();
    ftyp_payload.extend_from_slice(b"mp42");
    ftyp_payload.extend_from_slice(&0u32.to_be_bytes());
    ftyp_payload.extend_from_slice(b"isom");
    let ftyp = encode_box(b"ftyp", &ftyp_payload);
    let trak = build_video_trak(1, b"avc1", "eng", 320, 240);
    let mvhd = encode_box(b"mvhd", &build_mvhd_payload_v0(1000, 60_000, 2));
    let mut moov_payload = mvhd;
    moov_payload.extend(trak);
    let moov = encode_box(b"moov", &moov_payload);
    let mut bytes = ftyp;
    bytes.extend(moov);
    let (r, _) = read(bytes);
    assert!(matches!(r.unwrap_err(), ParseError::Malformed { .. }));
}

#[test]
fn read_headers_rejects_files_without_moov() {
    let mut ftyp_payload = Vec::new();
    ftyp_payload.extend_from_slice(b"isom");
    ftyp_payload.extend_from_slice(&0u32.to_be_bytes());
    ftyp_payload.extend_from_slice(b"isom");
    let bytes = encode_box(b"ftyp", &ftyp_payload);
    let (r, _) = read(bytes);
    assert!(matches!(r.unwrap_err(), ParseError::Malformed { .. }));
}

#[test]
fn duplicate_moov_uses_first_only() {
    let trak = build_video_trak(1, b"avc1", "eng", 640, 480);
    let mut bytes = build_minimal_mp4(b"mp42", vec![trak.clone()]);
    let trak2 = build_video_trak(1, b"avc1", "eng", 1280, 720);
    let mvhd = encode_box(b"mvhd", &build_mvhd_payload_v0(1000, 60_000, 2));
    let mut moov_payload = mvhd;
    moov_payload.extend(trak2);
    bytes.extend(encode_box(b"moov", &moov_payload));
    let (r, out) = read(bytes);
    r.unwrap();
    let v = out.tracks[0].properties.video.as_ref().unwrap();
    assert_eq!(v.pixel_dimensions.unwrap().width, 640);
}

#[test]
fn fragmented_flag_set_when_moof_present() {
    let trak = build_video_trak(1, b"avc1", "eng", 320, 240);
    let mut bytes = build_minimal_mp4(b"mp42", vec![trak]);
    let tfhd = encode_box(b"tfhd", &{
        let mut p = vec![0u8; 4];
        p.extend_from_slice(&1u32.to_be_bytes());
        p
    });
    let trun = encode_box(b"trun", &{
        let mut p = vec![0u8; 4];
        p.extend_from_slice(&30u32.to_be_bytes());
        p
    });
    let mut traf = tfhd;
    traf.extend(trun);
    let traf = encode_box(b"traf", &traf);
    let moof = encode_box(b"moof", &traf);
    bytes.extend(moof);
    let (r, out) = read(bytes);
    r.unwrap();
    assert_eq!(out.properties.is_fragmented, Some(true));
    assert_eq!(out.tracks[0].properties.common.num_index_entries, Some(30));
}

#[test]
fn major_brand_and_compatible_brands_stored() {
    let bytes = build_minimal_mp4(b"mp42", vec![]);
    let (r, out) = read(bytes);
    r.unwrap();
    assert_eq!(out.properties.major_brand.as_deref(), Some("mp42"));
    assert!(out.properties.compatible_brands.contains(&"isom".to_string()));
}

#[test]
fn movie_duration_derived_from_mvhd() {
    let bytes = build_minimal_mp4(b"mp42", vec![]);
    let (r, out) = read(bytes);
    r.unwrap();
    assert_eq!(out.properties.duration_ns.unwrap(), 60_000_000_000);
    assert_eq!(out.properties.movie_timescale, Some(1000));
}

#[test]
fn malformed_top_level_box_resyncs_to_next_known_atom() {
    let trak = build_video_trak(1, b"avc1", "eng", 320, 240);
    let bytes = build_minimal_mp4(b"mp42", vec![trak]);
    let mut prefixed = b"JUNK".to_vec();
    prefixed.extend(bytes);
    let (r, out) = read(prefixed);
    r.unwrap();
    assert_eq!(out.format, ContainerFormat::Mp4);
    assert_eq!(out.tracks.len(), 1);
}

fn build_dropped_trak(track_id: u32) -> Vec<u8> {
    let tkhd = encode_box(b"tkhd", &build_tkhd_payload_v0(track_id, 0, 0));
    let mdhd = encode_box(b"mdhd", &build_mdhd_payload_v0(1000, 0, "und"));
    let hdlr = encode_box(b"hdlr", &build_hdlr_payload(b"hint", "HintHandler"));
    let entry = build_video_sample_entry(b"avc1", 16, 16, 24, &[]);
    let stsd = encode_box(b"stsd", &build_stsd_payload(&[entry]));
    let stbl = encode_box(b"stbl", &stsd);
    let minf = encode_box(b"minf", &stbl);
    let mut mdia = mdhd;
    mdia.extend(hdlr);
    mdia.extend(minf);
    let mdia = encode_box(b"mdia", &mdia);
    let mut trak = tkhd;
    trak.extend(mdia);
    encode_box(b"trak", &trak)
}

#[test]
fn dropped_leading_track_does_not_shift_ids() {
    let dropped = build_dropped_trak(1);
    let video = build_video_trak(2, b"avc1", "eng", 320, 240);
    let bytes = build_minimal_mp4(b"mp42", vec![dropped, video]);
    let (r, out) = read(bytes);
    r.unwrap();
    assert_eq!(out.tracks.len(), 1);
    assert_eq!(out.tracks[0].id, 0, "compact id assignment");
    assert_eq!(out.tracks[0].track_type, TrackType::Video);
}

#[test]
fn file_starting_with_pdin_is_recognised() {
    let trak = build_video_trak(1, b"avc1", "eng", 320, 240);
    let mp4 = build_minimal_mp4(b"mp42", vec![trak]);
    let mut bytes = encode_box(b"pdin", &[0u8; 12]);
    bytes.extend(mp4);
    let mut s = FileSource::from_bytes(bytes.clone());
    assert!(Mp4Reader.probe(&mut s).unwrap());
    let mut out = MediaMetadata::new();
    Mp4Reader.read_headers(&mut s, &mut out).unwrap();
    assert_eq!(out.tracks.len(), 1);
}

#[test]
fn resync_scans_past_more_than_64kib_of_leading_junk() {
    let trak = build_video_trak(1, b"avc1", "eng", 320, 240);
    let mp4 = build_minimal_mp4(b"mp42", vec![trak]);
    let mut bytes = vec![0u8; 70 * 1024];
    bytes.extend(mp4);
    let (r, out) = read(bytes);
    r.unwrap();
    assert_eq!(out.tracks.len(), 1);
}

#[test]
fn empty_track_set_still_succeeds() {
    let bytes = build_minimal_mp4(b"mp42", vec![]);
    let (r, out) = read(bytes);
    r.unwrap();
    assert!(out.tracks.is_empty());
    assert_eq!(out.recognized, true);
    assert_eq!(out.supported, true);
}

// ---- further cases ----

#[test]
fn size_plausibility_rules() {
    assert!(resync_size_plausible(0, 100, Some(10)));
    assert!(resync_size_plausible(1, 100, Some(10)));
    assert!(!resync_size_plausible(7, 0, Some(100)));
    assert!(resync_size_plausible(8, 92, Some(100)));
    assert!(!resync_size_plausible(9, 92, Some(100)));
    assert!(!resync_size_plausible(16, u64::MAX - 4, Some(u64::MAX - 1)));
    assert!(resync_size_plausible(256 * 1024 * 1024, 0, None));
    assert!(!resync_size_plausible(256 * 1024 * 1024 + 1, 0, None));
}

#[test]
fn resync_lands_strictly_after_the_start() {
    let mut bytes = encode_box(b"free", &[0u8; 8]);
    bytes.extend(encode_box(b"mdat", &[0u8; 4]));
    let mut s = FileSource::from_bytes(bytes);
    assert!(resync_to_top_level_atom(&mut s, Some(28)));
    assert_eq!(s.position(), 16);
    let mut s = FileSource::from_bytes(vec![0xFFu8; 40]);
    s.seek_to(3);
    assert!(!resync_to_top_level_atom(&mut s, Some(40)));
    assert_eq!(s.position(), 3);
}

#[test]
fn legacy_quicktime_without_ftyp_defaults_to_mp4() {
    let mvhd = encode_box(b"mvhd", &build_mvhd_payload_v0(600, 1200, 1));
    let mut bytes = encode_box(b"moov", &mvhd);
    bytes.extend(encode_box(b"mdat", &[]));
    let (r, out) = read(bytes);
    r.unwrap();
    assert_eq!(out.format, ContainerFormat::Mp4);
    assert!(out.properties.major_brand.is_none());
}

#[test]
fn top_level_itunes_meta_sets_the_title() {
    let mut data = Vec::new();
    data.extend_from_slice(&1u32.to_be_bytes());
    data.extend_from_slice(&0u32.to_be_bytes());
    data.extend_from_slice(b"Top Title");
    let tag = encode_box(b"\xA9nam", &encode_box(b"data", &data));
    let ilst = encode_box(b"ilst", &tag);
    let mut meta_payload = vec![0u8; 4];
    meta_payload.extend(ilst);
    let mut bytes = build_minimal_mp4(b"mp42", vec![]);
    bytes.extend(encode_box(b"meta", &meta_payload));
    let (r, out) = read(bytes);
    r.unwrap();
    assert_eq!(out.properties.title.as_deref(), Some("Top Title"));
}

#[test]
fn truncated_ftyp_is_an_error() {
    let mut bytes = Vec::new();
    bytes.extend_from_slice(&20u32.to_be_bytes());
    bytes.extend_from_slice(b"ftyp");
    bytes.extend_from_slice(b"mp42");
    let (r, _) = read(bytes);
    assert!(matches!(r.unwrap_err(), ParseError::UnexpectedEof { .. }));
}

#[test]
fn reader_name() {
    assert_eq!(Mp4Reader.name(), "mp4");
}
