//! `ilst` (iTunes metadata list): each child is a four-byte tag box that
//! wraps `data` boxes (`u32 type_code`, `u32 locale`, value bytes).  The
//! title (`©nam`), encoder (`©too`), comment (`©cmt`) and cover art (`covr`)
//! are read; every other tag, free-form `----` atoms included, is passed
//! over.

use vstd::prelude::*;
use vstd::string::StringExecFns;
use crate::source::{FileSource, ParseError, be32, be32_at};
use crate::mp4::atom::{
    BoxHeader, BoxHeaderView, walk_children, children_of, fold_children, lemma_fold_step, payload_read,
    walk_children_prefix, child_walk, fold_walk, lemma_fold_walk,
    read_payload, payload_or_zero,
};
use crate::mp4::moov::hdlr::{fourcc, is_fourcc};
use crate::model::{Attachment, ContainerProperties, MediaMetadata, TagEntry};
use crate::text::{owned, str_eq, trim_to_string, trimmed_chars, utf8_lossy, utf8_lossy_chars};

verus! {

/// `data` type code of a JPEG image.
pub const TYPE_JPEG: u32 = 13;
/// `data` type code of a PNG image.
pub const TYPE_PNG: u32 = 14;
/// `data` type code of a BMP image.
pub const TYPE_BMP: u32 = 27;

/// Image formats recognised in cover art.
#[derive(Debug, Clone, Copy, PartialEq, Eq, Structural)]
pub enum ImageKind {
    Jpeg,
    Png,
    Bmp,
}

/// The image format a `data` type code names.
pub open spec fn image_kind_of(code: int) -> Option<ImageKind> {
    if code == 13 {
        Some(ImageKind::Jpeg)
    } else if code == 14 {
        Some(ImageKind::Png)
    } else if code == 27 {
        Some(ImageKind::Bmp)
    } else {
        None
    }
}

/// MIME type of an image format.
pub open spec fn mime_of(k: ImageKind) -> Seq<char> {
    match k {
        ImageKind::Jpeg => "image/jpeg"@,
        ImageKind::Png => "image/png"@,
        ImageKind::Bmp => "image/bmp"@,
    }
}

/// File extension for a MIME type (`bin` for one not known).
pub open spec fn extension_of_mime(m: Seq<char>) -> Seq<char> {
    if m == "image/jpeg"@ {
        "jpg"@
    } else if m == "image/png"@ {
        "png"@
    } else if m == "image/bmp"@ {
        "bmp"@
    } else {
        "bin"@
    }
}

impl ImageKind {
    /// MIME type of the format.
    pub fn mime_type(&self) -> (r: &'static str)
        ensures
            r@ == mime_of(*self),
    {
        match self {
            ImageKind::Jpeg => "image/jpeg",
            ImageKind::Png => "image/png",
            ImageKind::Bmp => "image/bmp",
        }
    }
}

/// The file extension used for an attachment of MIME type `mime`.
pub fn primary_extension_for_mime(mime: &str) -> (r: &'static str)
    ensures
        r@ == extension_of_mime(mime@),
{
    if str_eq(mime, "image/jpeg") {
        "jpg"
    } else if str_eq(mime, "image/png") {
        "png"
    } else if str_eq(mime, "image/bmp") {
        "bmp"
    } else {
        "bin"
    }
}

/// File name of a cover attachment: `cover.` and the extension.
pub(crate) fn cover_file_name(extension: &str) -> (r: String)
    ensures
        r@ == "cover."@ + extension@,
{
    let mut name = String::from_str("cover.");
    name.append(extension);
    name
}

/// `data` box type.
pub open spec fn data_kind() -> Seq<u8> {
    fourcc(0x64, 0x61, 0x74, 0x61)
}

/// The text a `data` payload carries: the bytes after type code and
/// locale, decoded leniently as UTF-8 and trimmed.
pub open spec fn data_text(pl: Seq<u8>) -> Seq<char> {
    trimmed_chars(utf8_lossy_chars(pl.subrange(8, pl.len() as int)))
}

/// The text found in the children `hs` of a tag box, starting from `acc`:
/// each `data` child with at least eight payload bytes replaces it, a
/// shorter one leaves it, and a payload that cannot be read fails.
pub open spec fn text_fold(bytes: Seq<u8>, hs: Seq<BoxHeaderView>, acc: Option<Seq<char>>) -> Result<Option<Seq<char>>, ParseError>
    decreases hs.len(),
{
    if hs.len() == 0 {
        Ok(acc)
    } else if hs[0].kind == data_kind() {
        match payload_read(bytes, hs[0].payload_start(), hs[0], u64::MAX) {
            Err(e) => Err(e),
            Ok(pl) => text_fold(bytes, hs.drop_first(), if pl.len() < 8 { acc } else { Some(data_text(pl)) }),
        }
    } else {
        text_fold(bytes, hs.drop_first(), acc)
    }
}

/// The text value of the tag box `tag`.
pub open spec fn tag_text(bytes: Seq<u8>, tag: BoxHeaderView) -> Result<Option<Seq<char>>, ParseError> {
    match children_of(bytes, tag) {
        Err(e) => Err(e),
        Ok(hs) => text_fold(bytes, hs, None),
    }
}

/// The view of an optional string.
pub open spec fn opt_chars(v: Option<String>) -> Option<Seq<char>> {
    match v {
        Some(s) => Some(s@),
        None => None,
    }
}

/// Read the text value of a tag box (see [`tag_text`]).
pub fn read_text_value(src: &mut FileSource, parent: &BoxHeader) -> (r: Result<Option<String>, ParseError>)
    requires
        parent.wf(),
    ensures
        final(src).bytes() == old(src).bytes(),
        match r {
            Ok(v) => tag_text(old(src).bytes(), parent@) == Ok::<Option<Seq<char>>, ParseError>(opt_chars(v)),
            Err(e) => tag_text(old(src).bytes(), parent@) == Err::<Option<Seq<char>>, ParseError>(e),
        },
{
    let children = walk_children(src, parent)?;
    let ghost bytes = src.bytes();
    let ghost hs = children@.map_values(|h: BoxHeader| h@);
    let mut result: Option<String> = None;
    let mut i: usize = 0;
    assert(hs.skip(0) =~= hs);
    while i < children.len()
        invariant
            src.bytes() == bytes,
            bytes == old(src).bytes(),
            children_of(bytes, parent@) == Ok::<Seq<BoxHeaderView>, ParseError>(hs),
            hs == children@.map_values(|h: BoxHeader| h@),
            forall|j: int| 0 <= j < children@.len() ==> (#[trigger] children@[j]).wf(),
            i <= children@.len(),
            text_fold(bytes, hs, None) == text_fold(bytes, hs.skip(i as int), opt_chars(result)),
        decreases children@.len() - i,
    {
        let child = children[i];
        proof {
            let rest = hs.skip(i as int);
            assert(rest[0] == child@);
            assert(rest.drop_first() =~= hs.skip(i + 1));
        }
        if is_fourcc(&child.kind.0, 0x64, 0x61, 0x74, 0x61) {
            src.seek_to(child.payload_start());
            let payload = read_payload(src, &child, u64::MAX)?;
            let len = payload.len();
            if len >= 8 {
                let tail = vstd::slice::slice_subrange(payload.as_slice(), 8, len);
                let decoded = utf8_lossy(tail);
                result = Some(trim_to_string(decoded.as_str()));
            }
        }
        i = i + 1;
    }
    Ok(result)
}

/// A cover image: its format and its declared length in bytes.
pub open spec fn cover_of(bytes: Seq<u8>, h: BoxHeaderView) -> Option<(ImageKind, int)> {
    match image_kind_of(be32(bytes, h.payload_start()) % 0x100_0000) {
        Some(k) => Some((k, payload_or_zero(h) - 8)),
        None => None,
    }
}

/// The cover image found in the children `hs` of a `covr` box, starting
/// from `acc`: each `data` child with at least eight payload bytes replaces
/// it by the image its type code names (none for an unknown code), a
/// shorter one leaves it, and one whose first eight payload bytes are cut
/// off by the end of the data fails.
pub open spec fn cover_fold(bytes: Seq<u8>, hs: Seq<BoxHeaderView>, acc: Option<(ImageKind, int)>) -> Result<Option<(ImageKind, int)>, ParseError>
    decreases hs.len(),
{
    if hs.len() == 0 {
        Ok(acc)
    } else if hs[0].kind == data_kind() && payload_or_zero(hs[0]) >= 8 {
        if hs[0].payload_start() + 8 > bytes.len() {
            Err(ParseError::UnexpectedEof { offset: hs[0].payload_start() as u64 })
        } else {
            cover_fold(bytes, hs.drop_first(), cover_of(bytes, hs[0]))
        }
    } else {
        cover_fold(bytes, hs.drop_first(), acc)
    }
}

/// The cover image of the `covr` box `tag`.
pub open spec fn tag_cover(bytes: Seq<u8>, tag: BoxHeaderView) -> Result<Option<(ImageKind, int)>, ParseError> {
    match children_of(bytes, tag) {
        Err(e) => Err(e),
        Ok(hs) => cover_fold(bytes, hs, None),
    }
}

/// The view of an optional cover image.
pub open spec fn opt_cover(v: Option<(ImageKind, u64)>) -> Option<(ImageKind, int)> {
    match v {
        Some((k, n)) => Some((k, n as int)),
        None => None,
    }
}

/// Read the image format and declared length of a `covr` box (see
/// [`tag_cover`]).  The image bytes themselves are not read.
pub fn read_cover_value(src: &mut FileSource, parent: &BoxHeader) -> (r: Result<Option<(ImageKind, u64)>, ParseError>)
    requires
        parent.wf(),
    ensures
        final(src).bytes() == old(src).bytes(),
        match r {
            Ok(v) => tag_cover(old(src).bytes(), parent@) == Ok::<Option<(ImageKind, int)>, ParseError>(opt_cover(v)),
            Err(e) => tag_cover(old(src).bytes(), parent@) == Err::<Option<(ImageKind, int)>, ParseError>(e),
        },
{
    let children = walk_children(src, parent)?;
    let ghost bytes = src.bytes();
    let ghost hs = children@.map_values(|h: BoxHeader| h@);
    let mut result: Option<(ImageKind, u64)> = None;
    let mut i: usize = 0;
    assert(hs.skip(0) =~= hs);
    while i < children.len()
        invariant
            src.bytes() == bytes,
            bytes == old(src).bytes(),
            children_of(bytes, parent@) == Ok::<Seq<BoxHeaderView>, ParseError>(hs),
            hs == children@.map_values(|h: BoxHeader| h@),
            forall|j: int| 0 <= j < children@.len() ==> (#[trigger] children@[j]).wf(),
            i <= children@.len(),
            cover_fold(bytes, hs, None) == cover_fold(bytes, hs.skip(i as int), opt_cover(result)),
        decreases children@.len() - i,
    {
        let child = children[i];
        proof {
            let rest = hs.skip(i as int);
            assert(rest[0] == child@);
            assert(rest.drop_first() =~= hs.skip(i + 1));
        }
        let payload_size = match child.payload_size() {
            Some(s) => s,
            None => 0,
        };
        if is_fourcc(&child.kind.0, 0x64, 0x61, 0x74, 0x61) && payload_size >= 8 {
            src.seek_to(child.payload_start());
            let head = src.read_exact(8)?;
            let code = be32_at(head.as_slice(), 0) % 0x100_0000;
            let body_len = payload_size - 8;
            result = if code == TYPE_JPEG {
                Some((ImageKind::Jpeg, body_len))
            } else if code == TYPE_PNG {
                Some((ImageKind::Png, body_len))
            } else if code == TYPE_BMP {
                Some((ImageKind::Bmp, body_len))
            } else {
                None
            };
            proof {
                assert(head@[0] == bytes[child@.payload_start()]);
                assert(head@[3] == bytes[child@.payload_start() + 3]);
                assert(opt_cover(result) == cover_of(bytes, child@));
            }
        }
        i = i + 1;
    }
    Ok(result)
}

/// Tag type of the title.
pub open spec fn nam_kind() -> Seq<u8> {
    fourcc(0xA9, 0x6e, 0x61, 0x6d)
}

/// Tag type of the encoding application.
pub open spec fn too_kind() -> Seq<u8> {
    fourcc(0xA9, 0x74, 0x6f, 0x6f)
}

/// Tag type of the comment.
pub open spec fn cmt_kind() -> Seq<u8> {
    fourcc(0xA9, 0x63, 0x6d, 0x74)
}

/// Tag type of cover art.
pub open spec fn covr_kind() -> Seq<u8> {
    fourcc(0x63, 0x6f, 0x76, 0x72)
}

/// Tag type of free-form (`----`) atoms.
pub open spec fn freeform_kind() -> Seq<u8> {
    fourcc(0x2d, 0x2d, 0x2d, 0x2d)
}

/// `n` is `o` with the text `t` of the tag `key` placed: the title
/// (`©nam`), the muxing application (`©too`), or a global `comment` tag
/// appended (`©cmt`); any other key changes nothing.
pub open spec fn text_routed(key: Seq<u8>, o: MediaMetadata, n: MediaMetadata, t: Seq<char>) -> bool {
    if key == nam_kind() {
        &&& n == (MediaMetadata { properties: ContainerProperties { title: n.properties.title, ..o.properties }, ..o })
        &&& n.properties.title matches Some(s) && s@ == t
    } else if key == too_kind() {
        &&& n == (MediaMetadata { properties: ContainerProperties { muxing_app: n.properties.muxing_app, ..o.properties }, ..o })
        &&& n.properties.muxing_app matches Some(s) && s@ == t
    } else if key == cmt_kind() {
        &&& n == (MediaMetadata { global_tags: n.global_tags, ..o })
        &&& n.global_tags@ == o.global_tags@.push(n.global_tags@.last())
        &&& n.global_tags@.last().name@ == "comment"@
        &&& n.global_tags@.last().value@ == t
        &&& n.global_tags@.last().language is None
    } else {
        n == o
    }
}

/// Place the text of the tag `key` (see [`text_routed`]).
pub fn route_text(key: &[u8; 4], text: String, out: &mut MediaMetadata)
    ensures
        text_routed(key@, *old(out), *final(out), text@),
{
    if is_fourcc(key, 0xA9, 0x6e, 0x61, 0x6d) {
        out.properties.title = Some(text);
    } else if is_fourcc(key, 0xA9, 0x74, 0x6f, 0x6f) {
        out.properties.muxing_app = Some(text);
    } else if is_fourcc(key, 0xA9, 0x63, 0x6d, 0x74) {
        out.global_tags.push(TagEntry { name: owned("comment"), value: text, language: None });
    }
}

/// Id of the attachment added when `count` are already present: one more,
/// modulo 2^32.
pub open spec fn attachment_id(count: int) -> int {
    (count % 0x1_0000_0000 + 1) % 0x1_0000_0000
}

/// `n` is `o` with a cover attachment of format `k` and `len` bytes
/// appended: id [`attachment_id`], file name `cover.` and the extension of
/// its MIME type.
pub open spec fn cover_attached(o: MediaMetadata, n: MediaMetadata, k: ImageKind, len: int) -> bool {
    &&& n == (MediaMetadata { attachments: n.attachments, ..o })
    &&& n.attachments@ == o.attachments@.push(n.attachments@.last())
    &&& n.attachments@.last().id == attachment_id(o.attachments@.len() as int)
    &&& n.attachments@.last().file_name@ == "cover."@ + extension_of_mime(mime_of(k))
    &&& n.attachments@.last().mime_type matches Some(m) && m@ == mime_of(k)
    &&& n.attachments@.last().size == len
}

/// What the child `h` of `ilst` does: a cover image becomes an attachment,
/// the title, encoder and comment texts are placed, and everything else,
/// unreadable values included, changes nothing.  It never fails.
pub open spec fn ilst_step(bytes: Seq<u8>, h: BoxHeaderView, o: MediaMetadata, n: MediaMetadata, r: Result<(), ParseError>) -> bool {
    &&& r is Ok
    &&& if h.kind == freeform_kind() {
        n == o
    } else if h.kind == covr_kind() {
        match tag_cover(bytes, h) {
            Ok(Some((k, len))) => cover_attached(o, n, k, len),
            _ => n == o,
        }
    } else if h.kind == nam_kind() || h.kind == too_kind() || h.kind == cmt_kind() {
        match tag_text(bytes, h) {
            Ok(Some(t)) => text_routed(h.kind, o, n, t),
            _ => n == o,
        }
    } else {
        n == o
    }
}

/// [`ilst_step`] as a value.
pub open spec fn ilst_steps() -> spec_fn(Seq<u8>, BoxHeaderView, MediaMetadata, MediaMetadata, Result<(), ParseError>) -> bool {
    |bytes: Seq<u8>, h: BoxHeaderView, o: MediaMetadata, n: MediaMetadata, r: Result<(), ParseError>| ilst_step(bytes, h, o, n, r)
}

/// What parsing the `ilst` box `parent` does to the metadata.
pub open spec fn ilst_effect(bytes: Seq<u8>, parent: BoxHeaderView, o: MediaMetadata, n: MediaMetadata, r: Result<(), ParseError>) -> bool {
    fold_walk(bytes, parent, ilst_steps(), o, n, r)
}

/// Parse an `ilst` box: its tags in order, each as [`ilst_step`] says.
pub fn parse(src: &mut FileSource, parent: &BoxHeader, out: &mut MediaMetadata) -> (r: Result<(), ParseError>)
    requires
        parent.wf(),
    ensures
        final(src).bytes() == old(src).bytes(),
        ilst_effect(old(src).bytes(), parent@, *old(out), *final(out), r),
{
    let (children, tail) = walk_children_prefix(src, parent);
    let ghost bytes = src.bytes();
    let ghost hs = children@.map_values(|h: BoxHeader| h@);
    let mut i: usize = 0;
    assert(hs.skip(0) =~= hs);
    while i < children.len()
        invariant
            src.bytes() == bytes,
            bytes == old(src).bytes(),
            child_walk(bytes, parent@).0 == hs,
            hs == children@.map_values(|h: BoxHeader| h@),
            forall|j: int| 0 <= j < children@.len() ==> (#[trigger] children@[j]).wf(),
            i <= children@.len(),
            forall|nn: MediaMetadata, rr: Result<(), ParseError>|
                #[trigger] fold_children(bytes, hs.skip(i as int), ilst_steps(), *out, nn, rr)
                    ==> fold_children(bytes, hs, ilst_steps(), *old(out), nn, rr),
        decreases children@.len() - i,
    {
        let child = children[i];
        let ghost before = *out;
        let key = child.kind.0;
        if is_fourcc(&key, 0x2d, 0x2d, 0x2d, 0x2d) {
        } else if is_fourcc(&key, 0x63, 0x6f, 0x76, 0x72) {
            match read_cover_value(src, &child) {
                Ok(Some((k, length))) => {
                    let count = (out.attachments.len() as u64) % 0x1_0000_0000;
                    let id: u32 = if count == 0xFFFF_FFFF { 0 } else { (count + 1) as u32 };
                    let mime = k.mime_type();
                    let extension = primary_extension_for_mime(mime);
                    let file_name = cover_file_name(extension);
                    out.attachments.push(Attachment { id, file_name, mime_type: Some(owned(mime)), size: length });
                },
                _ => {},
            }
        } else if is_fourcc(&key, 0xA9, 0x6e, 0x61, 0x6d) || is_fourcc(&key, 0xA9, 0x74, 0x6f, 0x6f)
            || is_fourcc(&key, 0xA9, 0x63, 0x6d, 0x74) {
            match read_text_value(src, &child) {
                Ok(Some(v)) => route_text(&key, v, out),
                _ => {},
            }
        }
        let rc: Result<(), ParseError> = Ok(());
        proof {
            let rest = hs.skip(i as int);
            assert(rest[0] == child@);
            assert(rest.drop_first() =~= hs.skip(i + 1));
            assert(ilst_steps()(bytes, rest[0], before, *out, rc));
            assert forall|nn: MediaMetadata, rr: Result<(), ParseError>|
                #[trigger] fold_children(bytes, hs.skip(i + 1), ilst_steps(), *out, nn, rr)
                    implies fold_children(bytes, hs, ilst_steps(), *old(out), nn, rr) by {
                lemma_fold_step(bytes, rest, ilst_steps(), before, *out, rc, nn, rr);
            }
        }
        i = i + 1;
    }
    proof {
        assert(fold_children(bytes, hs.skip(i as int), ilst_steps(), *out, *out, Ok(())));
        lemma_fold_walk(bytes, parent@, ilst_steps(), *old(out), *out, Ok(()), tail);
    }
    tail
}

} // verus!
