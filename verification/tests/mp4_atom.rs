use lib::mp4::atom::{
    walk_children_prefix,
    peek_box_header, read_box_header, read_payload, skip_payload, walk_children, BoxType,
};
use lib::source::{FileSource, ParseError};

fn encode_box(kind: &[u8; 4], payload: &[u8]) -> Vec<u8> {
    let total = (8 + payload.len()) as u32;
    let mut out = Vec::with_capacity(total as usize);
    out.extend_from_slice(&total.to_be_bytes());
    out.extend_from_slice(kind);
    out.extend_from_slice(payload);
    out
}

fn encode_large_box(kind: &[u8; 4], payload: &[u8]) -> Vec<u8> {
    let total: u64 = 16 + payload.len() as u64;
    let mut out = Vec::with_capacity(total as usize);
    out.extend_from_slice(&1u32.to_be_bytes());
    out.extend_from_slice(kind);
    out.extend_from_slice(&total.to_be_bytes());
    out.extend_from_slice(payload);
    out
}

fn src(bytes: Vec<u8>) -> FileSource {
    FileSource::from_bytes(bytes)
}

#[test]
fn reads_normal_box_header() {
    let bytes = encode_box(b"ftyp", &[1, 2, 3, 4]);
    let mut s = src(bytes);
    let h = read_box_header(&mut s).unwrap();
    assert!(h.kind.eq_ascii(b"ftyp"));
    assert_eq!(h.header_len, 8);
    assert_eq!(h.total_size, Some(12));
    assert_eq!(h.payload_start(), 8);
    assert_eq!(h.end(), Some(12));
}

#[test]
fn reads_large_box_header() {
    let bytes = encode_large_box(b"mdat", &[0xFFu8; 32]);
    let mut s = src(bytes);
    let h = read_box_header(&mut s).unwrap();
    assert!(h.kind.eq_ascii(b"mdat"));
    assert_eq!(h.header_len, 16);
    assert_eq!(h.total_size, Some(48));
    assert_eq!(h.payload_size(), Some(32));
}

#[test]
fn reads_size_zero_as_to_eof() {
    let mut bytes = Vec::new();
    bytes.extend_from_slice(&0u32.to_be_bytes());
    bytes.extend_from_slice(b"mdat");
    bytes.extend_from_slice(&[0u8; 16]);
    let mut s = src(bytes);
    let h = read_box_header(&mut s).unwrap();
    assert_eq!(h.total_size, None);
    assert_eq!(h.end(), None);
}

#[test]
fn rejects_size_smaller_than_header() {
    let mut bytes = Vec::new();
    bytes.extend_from_slice(&4u32.to_be_bytes());
    bytes.extend_from_slice(b"abcd");
    let mut s = src(bytes);
    let err = read_box_header(&mut s).unwrap_err();
    assert!(matches!(err, ParseError::Malformed { .. }));
}

#[test]
fn rejects_large_size_smaller_than_16() {
    let mut bytes = Vec::new();
    bytes.extend_from_slice(&1u32.to_be_bytes());
    bytes.extend_from_slice(b"mdat");
    bytes.extend_from_slice(&8u64.to_be_bytes());
    let mut s = src(bytes);
    let err = read_box_header(&mut s).unwrap_err();
    assert!(matches!(err, ParseError::Malformed { .. }));
}

#[test]
fn peek_does_not_advance() {
    let bytes = encode_box(b"moov", &[0u8; 4]);
    let mut s = src(bytes);
    let h = peek_box_header(&mut s).unwrap();
    assert!(h.kind.eq_ascii(b"moov"));
    assert_eq!(s.position(), 0);
}

#[test]
fn skip_payload_seeks_to_end_when_known() {
    let bytes = encode_box(b"free", &[0u8; 16]);
    let mut s = src(bytes);
    let h = read_box_header(&mut s).unwrap();
    skip_payload(&mut s, &h);
    assert_eq!(s.position(), 24);
}

#[test]
fn skip_payload_seeks_to_stream_end_when_size_zero() {
    let mut bytes = Vec::new();
    bytes.extend_from_slice(&0u32.to_be_bytes());
    bytes.extend_from_slice(b"free");
    bytes.extend_from_slice(&[0u8; 8]);
    let mut s = src(bytes);
    let h = read_box_header(&mut s).unwrap();
    skip_payload(&mut s, &h);
    assert_eq!(s.position(), 16);
}

#[test]
fn walks_children_in_order() {
    let a = encode_box(b"hdlr", &[1u8; 4]);
    let b = encode_box(b"mdhd", &[2u8; 4]);
    let mut payload = Vec::new();
    payload.extend(a);
    payload.extend(b);
    let parent = encode_box(b"mdia", &payload);
    let mut s = src(parent);
    let h = read_box_header(&mut s).unwrap();
    let seen: Vec<[u8; 4]> = walk_children(&s, &h).unwrap().iter().map(|c| c.kind.0).collect();
    assert_eq!(seen, vec![*b"hdlr", *b"mdhd"]);
}

#[test]
fn walk_rejects_child_extending_past_parent() {
    let mut payload = Vec::new();
    payload.extend_from_slice(&20u32.to_be_bytes());
    payload.extend_from_slice(b"trak");
    let parent = encode_box(b"moov", &payload);
    let mut s = src(parent);
    let h = read_box_header(&mut s).unwrap();
    let err = walk_children(&s, &h).unwrap_err();
    assert!(matches!(err, ParseError::Malformed { .. }));
}

#[test]
fn walk_stops_at_trailing_padding_less_than_header() {
    let child = encode_box(b"hdlr", &[]);
    let mut payload = child;
    payload.extend_from_slice(&[0u8; 4]);
    let parent = encode_box(b"mdia", &payload);
    let mut s = src(parent);
    let h = read_box_header(&mut s).unwrap();
    let count = walk_children(&s, &h).unwrap().len();
    assert_eq!(count, 1);
}

#[test]
fn read_payload_capped_against_explicit_limit() {
    let bytes = encode_box(b"data", &[0u8; 32]);
    let mut s = src(bytes);
    let h = read_box_header(&mut s).unwrap();
    let err = read_payload(&mut s, &h, 16).unwrap_err();
    assert!(matches!(err, ParseError::OversizedElement { .. }));
}

#[test]
fn read_payload_returns_full_when_within_cap() {
    let bytes = encode_box(b"data", &[1, 2, 3, 4]);
    let mut s = src(bytes);
    let h = read_box_header(&mut s).unwrap();
    let v = read_payload(&mut s, &h, 1024).unwrap();
    assert_eq!(v, vec![1, 2, 3, 4]);
}

#[test]
fn box_type_human_readable_predicate() {
    assert!(BoxType::new(b"ftyp").is_human_readable());
    assert!(!BoxType::new(&[0xFF, 0, 0, 0]).is_human_readable());
}

#[test]
fn box_type_lossy_string_replaces_non_ascii() {
    let s = BoxType::new(&[b'a', b'b', 0xFF, b'd']).as_str_lossy();
    assert_eq!(s, "ab?d");
}

#[test]
fn box_type_eq_ascii() {
    let t = BoxType::new(b"moov");
    assert!(t.eq_ascii(b"moov"));
    assert!(!t.eq_ascii(b"trak"));
}

#[test]
fn written_box_header_reads_back() {
    for (size, kind) in [(8u32, *b"free"), (0x0102_0304, *b"mdat"), (0, *b"mdat")] {
        let mut bytes = vec![0xEEu8; 3];
        bytes.extend_from_slice(&size.to_be_bytes());
        bytes.extend_from_slice(&kind);
        bytes.extend_from_slice(&[0u8; 8]);
        let mut s = src(bytes);
        s.seek_to(3);
        let h = read_box_header(&mut s).unwrap();
        assert_eq!(h.start, 3);
        assert_eq!(h.kind.0, kind);
        assert_eq!(h.header_len, 8);
        assert_eq!(h.total_size, if size == 0 { None } else { Some(size as u64) });
        assert_eq!(s.position(), 11);
    }
}

#[test]
fn children_tile_the_parent_payload() {
    let mut payload = encode_box(b"aaaa", &[1, 2, 3]);
    payload.extend(encode_box(b"bbbb", &[]));
    payload.extend(encode_large_box(b"cccc", &[9; 5]));
    let bytes = encode_box(b"moov", &payload);
    let mut s = src(bytes);
    let h = read_box_header(&mut s).unwrap();
    let cs = walk_children(&s, &h).unwrap();
    assert_eq!(cs.len(), 3);
    assert_eq!(cs[0].start, h.payload_start());
    assert_eq!(cs[1].start, cs[0].end().unwrap());
    assert_eq!(cs[2].start, cs[1].end().unwrap());
    assert!(cs[2].end().unwrap() <= h.end().unwrap());
}

#[test]
fn walk_keeps_children_before_one_extending_past_parent() {
    let mut payload = encode_box(b"hdlr", &[]);
    payload.extend(encode_box(b"mdhd", &[0u8; 4]));
    payload.extend_from_slice(&40u32.to_be_bytes());
    payload.extend_from_slice(b"trak");
    let parent = encode_box(b"moov", &payload);
    let mut s = src(parent);
    let h = read_box_header(&mut s).unwrap();
    let (children, tail) = walk_children_prefix(&s, &h);
    let kinds: Vec<[u8; 4]> = children.iter().map(|c| c.kind.0).collect();
    assert_eq!(kinds, vec![*b"hdlr", *b"mdhd"]);
    assert!(matches!(tail, Err(ParseError::Malformed { .. })));
}
