use lib::model::MediaMetadata;
use lib::mp4::atom::read_box_header;
use lib::mp4::meta::ilst::{
    parse, primary_extension_for_mime, read_cover_value, read_text_value, ImageKind, TYPE_BMP,
    TYPE_JPEG, TYPE_PNG,
};
use lib::mp4::meta::udta::{count_chpl_entries, parse_meta, parse_udta, COPYRIGHT_NAME};
use lib::source::{FileSource, ParseError};

const TYPE_UTF8: u32 = 1;

fn encode_box(kind: &[u8; 4], payload: &[u8]) -> Vec<u8> {
    let total = (8 + payload.len()) as u32;
    let mut out = Vec::with_capacity(total as usize);
    out.extend_from_slice(&total.to_be_bytes());
    out.extend_from_slice(kind);
    out.extend_from_slice(payload);
    out
}

fn build_data_box(type_code: u32, value: &[u8]) -> Vec<u8> {
    let mut p = Vec::new();
    p.extend_from_slice(&type_code.to_be_bytes());
    p.extend_from_slice(&0u32.to_be_bytes());
    p.extend_from_slice(value);
    encode_box(b"data", &p)
}

fn build_ilst_tag(key: &[u8; 4], data_box: Vec<u8>) -> Vec<u8> {
    encode_box(key, &data_box)
}

fn run(payload: Vec<u8>) -> MediaMetadata {
    let bytes = encode_box(b"ilst", &payload);
    let mut s = FileSource::from_bytes(bytes);
    let h = read_box_header(&mut s).unwrap();
    let mut m = MediaMetadata::new();
    parse(&mut s, &h, &mut m).unwrap();
    m
}

fn run_udta(bytes: Vec<u8>) -> MediaMetadata {
    let mut s = FileSource::from_bytes(bytes);
    let h = read_box_header(&mut s).unwrap();
    let mut m = MediaMetadata::new();
    parse_udta(&mut s, &h, &mut m).unwrap();
    m
}

// ---- ilst ----

#[test]
fn title_extracted_into_container() {
    let payload = build_ilst_tag(b"\xA9nam", build_data_box(TYPE_UTF8, b"My Movie"));
    let m = run(payload);
    assert_eq!(m.properties.title.as_deref(), Some("My Movie"));
}

#[test]
fn encoder_into_muxing_app() {
    let payload = build_ilst_tag(b"\xA9too", build_data_box(TYPE_UTF8, b"HandBrake 1.6.1"));
    let m = run(payload);
    assert_eq!(m.properties.muxing_app.as_deref(), Some("HandBrake 1.6.1"));
}

#[test]
fn comment_extracted_as_supported_global_tag() {
    let payload = build_ilst_tag(b"\xA9cmt", build_data_box(TYPE_UTF8, b"  Director's cut  "));
    let m = run(payload);
    assert_eq!(m.global_tags.len(), 1);
    assert_eq!(m.global_tags[0].name, "comment");
    assert_eq!(m.global_tags[0].value, "Director's cut");
}

#[test]
fn unsupported_text_atoms_are_ignored() {
    let mut payload = build_ilst_tag(b"\xA9day", build_data_box(TYPE_UTF8, b"2024-03-14"));
    payload.extend(build_ilst_tag(b"\xA9ART", build_data_box(TYPE_UTF8, b"Hans Zimmer")));
    let m = run(payload);
    assert!(m.properties.title.is_none());
    assert!(m.global_tags.is_empty());
}

#[test]
fn long_title_is_not_truncated_by_old_text_cap() {
    let mut title = vec![b'A'; 20 * 1024];
    title.extend_from_slice(b"tail");
    let payload = build_ilst_tag(b"\xA9nam", build_data_box(TYPE_UTF8, &title));
    let m = run(payload);
    assert_eq!(m.properties.title.as_ref().unwrap().len(), 20 * 1024 + 4);
    assert!(m.properties.title.as_ref().unwrap().ends_with("tail"));
}

#[test]
fn covr_jpeg_becomes_attachment() {
    let payload = build_ilst_tag(b"covr", build_data_box(TYPE_JPEG, &[0u8; 256]));
    let m = run(payload);
    assert!(m.global_tags.is_empty());
    assert_eq!(m.attachments.len(), 1);
    let att = &m.attachments[0];
    assert_eq!(att.file_name, "cover.jpg");
    assert_eq!(att.mime_type.as_deref(), Some("image/jpeg"));
    assert_eq!(att.size, 256);
}

#[test]
fn covr_larger_than_16kib_is_not_dropped() {
    let payload = build_ilst_tag(b"covr", build_data_box(TYPE_JPEG, &vec![0u8; 64 * 1024]));
    let m = run(payload);
    assert_eq!(m.attachments.len(), 1);
    let att = &m.attachments[0];
    assert_eq!(att.file_name, "cover.jpg");
    assert_eq!(att.mime_type.as_deref(), Some("image/jpeg"));
    assert_eq!(att.size, 64 * 1024);
}

#[test]
fn covr_png_becomes_attachment() {
    let payload = build_ilst_tag(b"covr", build_data_box(TYPE_PNG, &[0u8; 64]));
    let m = run(payload);
    assert_eq!(m.attachments.len(), 1);
    assert_eq!(m.attachments[0].file_name, "cover.png");
}

#[test]
fn freeform_itunsmpb_is_not_exposed_as_global_tag() {
    let mean = encode_box(b"mean", &{
        let mut p = vec![0u8; 4];
        p.extend_from_slice(b"com.apple.iTunes");
        p
    });
    let name = encode_box(b"name", &{
        let mut p = vec![0u8; 4];
        p.extend_from_slice(b"iTunSMPB");
        p
    });
    let data = build_data_box(TYPE_UTF8, b" 00000000 00000840 00000000 00000000");
    let mut freeform = mean;
    freeform.extend(name);
    freeform.extend(data);
    let payload = encode_box(b"----", &freeform);
    let m = run(payload);
    assert!(m.global_tags.is_empty());
}

#[test]
fn malformed_data_box_skipped() {
    let tag = encode_box(b"\xA9nam", &[]);
    let m = run(tag);
    assert!(m.properties.title.is_none());
}

#[test]
fn covr_bmp_and_ids_count_up() {
    let mut payload = build_ilst_tag(b"covr", build_data_box(TYPE_BMP, &[0u8; 10]));
    payload.extend(build_ilst_tag(b"covr", build_data_box(TYPE_PNG, &[0u8; 3])));
    let m = run(payload);
    assert_eq!(m.attachments.len(), 2);
    assert_eq!(m.attachments[0].id, 1);
    assert_eq!(m.attachments[0].file_name, "cover.bmp");
    assert_eq!(m.attachments[0].mime_type.as_deref(), Some("image/bmp"));
    assert_eq!(m.attachments[0].size, 10);
    assert_eq!(m.attachments[1].id, 2);
    assert_eq!(m.attachments[1].size, 3);
}

#[test]
fn covr_with_unknown_image_type_adds_nothing() {
    let payload = build_ilst_tag(b"covr", build_data_box(TYPE_UTF8, &[0u8; 16]));
    let m = run(payload);
    assert!(m.attachments.is_empty());
}

#[test]
fn later_data_box_replaces_earlier_text() {
    let mut data = build_data_box(TYPE_UTF8, b"first");
    data.extend(build_data_box(TYPE_UTF8, b"second"));
    let m = run(encode_box(b"\xA9nam", &data));
    assert_eq!(m.properties.title.as_deref(), Some("second"));
}

#[test]
fn text_value_reader_reports_short_payload_as_none() {
    let bytes = encode_box(b"\xA9nam", &encode_box(b"data", &[0u8; 7]));
    let mut s = FileSource::from_bytes(bytes);
    let h = read_box_header(&mut s).unwrap();
    assert_eq!(read_text_value(&mut s, &h).unwrap(), None);
}

#[test]
fn cover_reader_fails_on_cut_off_type_code() {
    // A `data` child declaring 8 payload bytes of which only 4 are present.
    let mut inner = Vec::new();
    inner.extend_from_slice(&16u32.to_be_bytes());
    inner.extend_from_slice(b"data");
    inner.extend_from_slice(&[0, 0, 0, 13]);
    let mut bytes = Vec::new();
    bytes.extend_from_slice(&0u32.to_be_bytes());
    bytes.extend_from_slice(b"covr");
    bytes.extend(inner);
    let mut s = FileSource::from_bytes(bytes);
    let h = read_box_header(&mut s).unwrap();
    assert_eq!(read_cover_value(&mut s, &h), Err(ParseError::UnexpectedEof { offset: 16 }));
}

#[test]
fn mime_extensions() {
    assert_eq!(primary_extension_for_mime("image/jpeg"), "jpg");
    assert_eq!(primary_extension_for_mime("image/png"), "png");
    assert_eq!(primary_extension_for_mime("image/bmp"), "bmp");
    assert_eq!(primary_extension_for_mime("image/gif"), "bin");
    assert_eq!(ImageKind::Png.mime_type(), "image/png");
}

// ---- udta / meta ----

#[test]
fn parses_itunes_path_through_udta() {
    let tag = build_ilst_tag(b"\xA9nam", build_data_box(1, b"Track Name"));
    let ilst = encode_box(b"ilst", &tag);
    let mut meta_payload = vec![0u8; 4];
    meta_payload.extend(ilst);
    let meta = encode_box(b"meta", &meta_payload);
    let udta = encode_box(b"udta", &meta);
    let m = run_udta(udta);
    assert_eq!(m.properties.title.as_deref(), Some("Track Name"));
}

#[test]
fn parses_quicktime_meta_without_fullbox_header() {
    let tag = build_ilst_tag(b"\xA9nam", build_data_box(1, b"QT Name"));
    let ilst = encode_box(b"ilst", &tag);
    let meta = encode_box(b"meta", &ilst);
    let mut s = FileSource::from_bytes(meta);
    let h = read_box_header(&mut s).unwrap();
    let mut m = MediaMetadata::new();
    parse_meta(&mut s, &h, &mut m).unwrap();
    assert_eq!(m.properties.title.as_deref(), Some("QT Name"));
}

#[test]
fn unknown_meta_child_is_skipped() {
    let bogus = encode_box(b"junk", &[0u8; 8]);
    let mut meta_payload = vec![0u8; 4];
    meta_payload.extend(bogus);
    let meta = encode_box(b"meta", &meta_payload);
    let mut s = FileSource::from_bytes(meta);
    let h = read_box_header(&mut s).unwrap();
    let mut m = MediaMetadata::new();
    parse_meta(&mut s, &h, &mut m).unwrap();
    assert!(m.properties.title.is_none());
}

#[test]
fn direct_udta_copyright_name_sets_title() {
    let mut nam_payload = vec![0u8; 4];
    nam_payload.extend_from_slice(b"Direct Title");
    let nam = encode_box(&COPYRIGHT_NAME, &nam_payload);
    let udta = encode_box(b"udta", &nam);
    let m = run_udta(udta);
    assert_eq!(m.properties.title.as_deref(), Some("Direct Title"));
}

#[test]
fn empty_copyright_name_atom_ignored() {
    let nam = encode_box(&COPYRIGHT_NAME, &[0u8; 4]);
    let udta = encode_box(b"udta", &nam);
    let m = run_udta(udta);
    assert!(m.properties.title.is_none());
}

fn build_chpl(chapters: &[(u64, &str)]) -> Vec<u8> {
    let mut p = Vec::new();
    p.push(1);
    p.extend_from_slice(&[0u8; 3]);
    p.extend_from_slice(&[0u8; 4]);
    p.push(chapters.len() as u8);
    for (ts, name) in chapters {
        p.extend_from_slice(&ts.to_be_bytes());
        p.push(name.len() as u8);
        p.extend_from_slice(name.as_bytes());
    }
    p
}

#[test]
fn nero_chpl_sets_chapter_count() {
    let chpl = encode_box(
        b"chpl",
        &build_chpl(&[(0, "Intro"), (600_000_000, "Part 2"), (1_200_000_000, "End")]),
    );
    let udta = encode_box(b"udta", &chpl);
    let m = run_udta(udta);
    assert_eq!(m.chapters.num_entries, 3);
    assert_eq!(m.chapters.num_editions, 1);
}

#[test]
fn nero_chpl_with_zero_count_adds_nothing() {
    let chpl = encode_box(b"chpl", &build_chpl(&[]));
    let udta = encode_box(b"udta", &chpl);
    let m = run_udta(udta);
    assert_eq!(m.chapters.num_entries, 0);
}

#[test]
fn nero_chpl_truncated_counts_only_present_entries() {
    let mut p = build_chpl(&[(0, "Only")]);
    p[8] = 3;
    let chpl = encode_box(b"chpl", &p);
    let udta = encode_box(b"udta", &chpl);
    let m = run_udta(udta);
    assert_eq!(m.chapters.num_entries, 1);
}

#[test]
fn udta_with_no_meta_is_a_noop() {
    let other = encode_box(b"xxxx", &[]);
    let udta = encode_box(b"udta", &other);
    let m = run_udta(udta);
    assert!(m.properties.title.is_none());
}

#[test]
fn first_chapter_list_wins() {
    let mut body = encode_box(b"chpl", &build_chpl(&[(0, "A"), (1, "B")]));
    body.extend(encode_box(b"chpl", &build_chpl(&[(0, "A"), (1, "B"), (2, "C")])));
    let m = run_udta(encode_box(b"udta", &body));
    assert_eq!(m.chapters.num_entries, 2);
    assert_eq!(m.chapters.num_editions, 1);
}

#[test]
fn chpl_counting_stops_at_cut_entry() {
    let mut p = build_chpl(&[(0, "One"), (5, "Two")]);
    let n = p.len();
    p.truncate(n - 1);
    assert_eq!(count_chpl_entries(&p), 1);
    assert_eq!(count_chpl_entries(&build_chpl(&[])), 0);
}

#[test]
fn meta_too_short_for_a_child_header_is_ignored() {
    let meta = encode_box(b"meta", &[0u8; 4]);
    let mut s = FileSource::from_bytes(meta);
    let h = read_box_header(&mut s).unwrap();
    let mut m = MediaMetadata::new();
    assert_eq!(parse_meta(&mut s, &h, &mut m), Ok(()));
    assert!(m.properties.title.is_none());
}
