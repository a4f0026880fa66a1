use lib::model::ContainerFormat;
use lib::mp4::atom::{read_box_header, BoxHeader};
use lib::mp4::ftyp::{parse, FileType};
use lib::source::{FileSource, ParseError};

fn encode_box(kind: &[u8; 4], payload: &[u8]) -> Vec<u8> {
    let total = (8 + payload.len()) as u32;
    let mut out = Vec::new();
    out.extend_from_slice(&total.to_be_bytes());
    out.extend_from_slice(kind);
    out.extend_from_slice(payload);
    out
}

fn read(bytes: Vec<u8>) -> (BoxHeader, FileSource) {
    let mut s = FileSource::from_bytes(bytes);
    let h = read_box_header(&mut s).unwrap();
    (h, s)
}

fn build_ftyp(major: &[u8; 4], minor: u32, compats: &[&[u8; 4]]) -> Vec<u8> {
    let mut payload = Vec::new();
    payload.extend_from_slice(major);
    payload.extend_from_slice(&minor.to_be_bytes());
    for c in compats {
        payload.extend_from_slice(*c);
    }
    encode_box(b"ftyp", &payload)
}

fn file_type(major: &str, compats: &[&str]) -> FileType {
    FileType {
        major_brand: major.to_string(),
        minor_version: 0,
        compatible_brands: compats.iter().map(|s| s.to_string()).collect(),
    }
}

#[test]
fn parses_minimal_ftyp() {
    let bytes = build_ftyp(b"isom", 512, &[]);
    let (h, mut s) = read(bytes);
    let ft = parse(&mut s, &h).unwrap();
    assert_eq!(ft.major_brand, "isom");
    assert_eq!(ft.minor_version, 512);
    assert!(ft.compatible_brands.is_empty());
}

#[test]
fn parses_compatible_brand_list() {
    let bytes = build_ftyp(b"mp42", 0, &[b"isom", b"mp41", b"avc1"]);
    let (h, mut s) = read(bytes);
    let ft = parse(&mut s, &h).unwrap();
    assert_eq!(ft.major_brand, "mp42");
    assert_eq!(ft.compatible_brands, vec!["isom", "mp41", "avc1"]);
}

#[test]
fn classifies_quicktime_via_major_brand() {
    assert_eq!(file_type("qt  ", &[]).classify(), ContainerFormat::QuickTime);
}

#[test]
fn classifies_quicktime_via_compatible_brand() {
    assert_eq!(file_type("mp42", &["qt  "]).classify(), ContainerFormat::QuickTime);
}

#[test]
fn classifies_isom_as_mp4() {
    assert_eq!(file_type("isom", &[]).classify(), ContainerFormat::Mp4);
}

#[test]
fn classifies_mp42_as_mp4() {
    assert_eq!(file_type("mp42", &[]).classify(), ContainerFormat::Mp4);
}

#[test]
fn classifies_compatible_brand_when_major_is_unknown() {
    assert_eq!(file_type("XXXX", &["mp42"]).classify(), ContainerFormat::Mp4);
}

#[test]
fn classifies_unknown_brand_defaults_to_mp4() {
    assert_eq!(file_type("????", &[]).classify(), ContainerFormat::Mp4);
}

#[test]
fn classifies_m4a_brand_as_mp4() {
    assert_eq!(file_type("M4A ", &[]).classify(), ContainerFormat::Mp4);
}

#[test]
fn rejects_payload_smaller_than_8_bytes() {
    let bytes = encode_box(b"ftyp", b"isom");
    let (h, mut s) = read(bytes);
    let err = parse(&mut s, &h).unwrap_err();
    assert!(matches!(err, ParseError::Malformed { .. }));
}

#[test]
fn skips_trailing_padding() {
    let mut payload = Vec::new();
    payload.extend_from_slice(b"isom");
    payload.extend_from_slice(&0u32.to_be_bytes());
    payload.extend_from_slice(&[0xFFu8; 3]);
    let bytes = encode_box(b"ftyp", &payload);
    let (h, mut s) = read(bytes);
    let ft = parse(&mut s, &h).unwrap();
    assert_eq!(ft.major_brand, "isom");
    assert!(ft.compatible_brands.is_empty());
    assert_eq!(s.position(), h.payload_start() + 11);
}

#[test]
fn non_ascii_brand_byte_rendered_as_question_mark() {
    let mut payload = vec![b'a', 0xFF, b'c', b'd'];
    payload.extend_from_slice(&0u32.to_be_bytes());
    let bytes = encode_box(b"ftyp", &payload);
    let (h, mut s) = read(bytes);
    let ft = parse(&mut s, &h).unwrap();
    assert_eq!(ft.major_brand, "a?cd");
}

#[test]
fn ftyp_major_brand_in_is_mp4_brand_table() {
    assert!(lib::mp4::ftyp::is_mp4_brand("iso6"));
    assert!(!lib::mp4::ftyp::is_mp4_brand("qt  "));
}
