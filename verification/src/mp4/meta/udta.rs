//! `udta` (user data): an iTunes `meta` box (ISO full box or QuickTime
//! plain container) holding an `ilst`, a Nero `chpl` chapter list, or a
//! QuickTime `©nam` title atom.

use vstd::prelude::*;
use crate::source::{FileSource, ParseError};
use crate::mp4::atom::{
    BoxHeader, BoxHeaderView, walk_children, children_of, fold_children, lemma_fold_step, payload_read,
    walk_children_prefix, child_walk, fold_walk, lemma_fold_walk,
    read_payload, header_ok, header_at, is_printable, peek_box_header,
};
use crate::mp4::moov::hdlr::{fourcc, is_fourcc};
use crate::model::{Chapters, ContainerProperties, MediaMetadata};
use crate::text::{trim_to_string, trimmed_chars, utf8_lossy, utf8_lossy_chars};
use super::ilst::{ilst_effect, nam_kind};

verus! {

/// QuickTime `©nam` title atom type.
pub const COPYRIGHT_NAME: [u8; 4] = [0xA9, 0x6e, 0x61, 0x6d];

/// Largest `©nam` payload read.
pub const NAME_CAP: u64 = 65536;

/// Largest `chpl` payload read.
pub const CHPL_CAP: u64 = 1048576;

/// The title a `©nam` payload carries: the bytes after the length and
/// language fields, decoded leniently as UTF-8 and trimmed.
pub open spec fn name_text(pl: Seq<u8>) -> Seq<char> {
    trimmed_chars(utf8_lossy_chars(pl.subrange(4, pl.len() as int)))
}

/// What reading the `©nam` atom `h` with the cursor at `p` does: a payload
/// over four bytes whose text is not empty sets the title; an unreadable
/// payload fails.
pub open spec fn name_effect(bytes: Seq<u8>, p: int, h: BoxHeaderView, o: MediaMetadata, n: MediaMetadata, r: Result<(), ParseError>) -> bool {
    match payload_read(bytes, p, h, NAME_CAP) {
        Err(e) => r == Err::<(), ParseError>(e) && n == o,
        Ok(pl) => r is Ok && if pl.len() <= 4 || name_text(pl).len() == 0 {
            n == o
        } else {
            &&& n == (MediaMetadata { properties: ContainerProperties { title: n.properties.title, ..o.properties }, ..o })
            &&& n.properties.title matches Some(s) && s@ == name_text(pl)
        },
    }
}

/// Read a direct `udta/©nam` title atom, the cursor at its payload.
pub fn parse_copyright_name(src: &mut FileSource, header: &BoxHeader, out: &mut MediaMetadata) -> (r: Result<(), ParseError>)
    ensures
        final(src).bytes() == old(src).bytes(),
        name_effect(old(src).bytes(), old(src).pos(), header@, *old(out), *final(out), r),
{
    let payload = read_payload(src, header, NAME_CAP)?;
    let len = payload.len();
    if len <= 4 {
        return Ok(());
    }
    let tail = vstd::slice::slice_subrange(payload.as_slice(), 4, len);
    let decoded = utf8_lossy(tail);
    let text = trim_to_string(decoded.as_str());
    if !text.as_str().is_empty() {
        out.properties.title = Some(text);
    }
    Ok(())
}

/// Number of complete chapter entries (`u64` time, `u8` name length, name)
/// from `pos` in a `chpl` payload, at most `count`: the count stops at the
/// first entry cut short by the end of the payload.
pub open spec fn chpl_entries(pl: Seq<u8>, pos: int, count: nat) -> nat
    decreases count,
{
    if count == 0 || pos + 9 > pl.len() {
        0
    } else if pos + 9 + pl[pos + 8] > pl.len() {
        0
    } else {
        1 + chpl_entries(pl, pos + 9 + pl[pos + 8], (count - 1) as nat)
    }
}

/// Count the complete entries of a `chpl` payload, as many as its count
/// byte (offset 8) declares at most.
pub fn count_chpl_entries(pl: &[u8]) -> (r: u32)
    requires
        pl@.len() >= 9,
    ensures
        r == chpl_entries(pl@, 9, pl@[8] as nat),
        r <= pl@[8],
{
    let len = pl.len();
    let count = pl[8];
    let mut pos: usize = 9;
    let mut entries: u32 = 0;
    let mut k: u8 = 0;
    while k < count
        invariant
            len == pl@.len(),
            len >= 9,
            count == pl@[8],
            k <= count,
            entries == k,
            pos <= len,
            entries + chpl_entries(pl@, pos as int, (count - k) as nat) == chpl_entries(pl@, 9, count as nat),
        decreases count - k,
    {
        if len - pos < 9 {
            return entries;
        }
        let name_len = pl[pos + 8] as usize;
        if name_len > len - pos - 9 {
            return entries;
        }
        pos = pos + 9 + name_len;
        entries = entries + 1;
        k = k + 1;
    }
    entries
}

/// What reading the `chpl` box `h` with the cursor at `p` does: nothing
/// when chapters are already known; otherwise its complete entries, when
/// there are any, become one chapter edition.  An unreadable payload fails.
pub open spec fn chpl_effect(bytes: Seq<u8>, p: int, h: BoxHeaderView, o: MediaMetadata, n: MediaMetadata, r: Result<(), ParseError>) -> bool {
    if o.chapters.num_entries != 0 {
        r is Ok && n == o
    } else {
        match payload_read(bytes, p, h, CHPL_CAP) {
            Err(e) => r == Err::<(), ParseError>(e) && n == o,
            Ok(pl) => r is Ok && if pl.len() < 9 || chpl_entries(pl, 9, pl[8] as nat) == 0 {
                n == o
            } else {
                n == (MediaMetadata {
                    chapters: Chapters { num_entries: chpl_entries(pl, 9, pl[8] as nat) as u32, num_editions: 1 },
                    ..o
                })
            },
        }
    }
}

/// Read a Nero `chpl` chapter list, the cursor at its payload: the number
/// of complete entries becomes the chapter count of a single edition.
pub fn parse_chpl(src: &mut FileSource, header: &BoxHeader, out: &mut MediaMetadata) -> (r: Result<(), ParseError>)
    ensures
        final(src).bytes() == old(src).bytes(),
        chpl_effect(old(src).bytes(), old(src).pos(), header@, *old(out), *final(out), r),
{
    if out.chapters.num_entries != 0 {
        return Ok(());
    }
    let payload = read_payload(src, header, CHPL_CAP)?;
    if payload.len() < 9 {
        return Ok(());
    }
    let entries = count_chpl_entries(payload.as_slice());
    if entries != 0 {
        out.chapters = Chapters { num_entries: entries, num_editions: 1 };
    }
    Ok(())
}

/// `ilst` box type.
pub open spec fn ilst_kind() -> Seq<u8> {
    fourcc(0x69, 0x6c, 0x73, 0x74)
}

/// `meta` box type.
pub open spec fn meta_kind() -> Seq<u8> {
    fourcc(0x6d, 0x65, 0x74, 0x61)
}

/// `chpl` box type.
pub open spec fn chpl_kind() -> Seq<u8> {
    fourcc(0x63, 0x68, 0x70, 0x6c)
}

/// Where the children of the `meta` box `parent` start: right at its
/// payload when a readable header there has a printable type (QuickTime
/// form), four bytes later otherwise (ISO full box); `None` when no header
/// can be read there.
pub open spec fn meta_start(bytes: Seq<u8>, parent: BoxHeaderView) -> Option<int> {
    let ps = parent.payload_start();
    if !header_ok(bytes, ps) {
        None
    } else if forall|i: int| 0 <= i < 4 ==> is_printable(#[trigger] header_at(bytes, ps).kind[i]) {
        Some(ps)
    } else {
        Some(ps + 4)
    }
}

/// The `meta` box seen as a container whose children start at `s`.
pub open spec fn meta_container(parent: BoxHeaderView, s: int) -> BoxHeaderView {
    BoxHeaderView { start: parent.start, kind: parent.kind, header_len: (s - parent.start) % 256, total_size: parent.total_size }
}

/// What the child `h` of `meta` does: an `ilst` is parsed, anything else
/// passed over.
pub open spec fn meta_step(bytes: Seq<u8>, h: BoxHeaderView, o: MediaMetadata, n: MediaMetadata, r: Result<(), ParseError>) -> bool {
    if h.kind == ilst_kind() {
        ilst_effect(bytes, h, o, n, r)
    } else {
        r is Ok && n == o
    }
}

/// [`meta_step`] as a value.
pub open spec fn meta_steps() -> spec_fn(Seq<u8>, BoxHeaderView, MediaMetadata, MediaMetadata, Result<(), ParseError>) -> bool {
    |bytes: Seq<u8>, h: BoxHeaderView, o: MediaMetadata, n: MediaMetadata, r: Result<(), ParseError>| meta_step(bytes, h, o, n, r)
}

/// What parsing the `meta` box `parent` does to the metadata.
pub open spec fn meta_effect(bytes: Seq<u8>, parent: BoxHeaderView, o: MediaMetadata, n: MediaMetadata, r: Result<(), ParseError>) -> bool {
    match meta_start(bytes, parent) {
        None => r is Ok && n == o,
        Some(s) => fold_walk(bytes, meta_container(parent, s), meta_steps(), o, n, r),
    }
}

/// Parse a `meta` box, ISO full box or QuickTime container alike: its
/// `ilst` children.
pub fn parse_meta(src: &mut FileSource, parent: &BoxHeader, out: &mut MediaMetadata) -> (r: Result<(), ParseError>)
    requires
        parent.wf(),
    ensures
        final(src).bytes() == old(src).bytes(),
        meta_effect(old(src).bytes(), parent@, *old(out), *final(out), r),
{
    let payload_start = parent.payload_start();
    src.seek_to(payload_start);
    let peeked = match peek_box_header(src) {
        Ok(h) => h,
        Err(_) => return Ok(()),
    };
    let readable = peeked.kind.is_human_readable();
    if !readable {
        src.seek_to(payload_start + 4);
    }
    proof {
        assert(peeked.kind@ == header_at(src.bytes(), payload_start as int).kind);
        if readable {
            assert(meta_start(src.bytes(), parent@) == Some(payload_start as int));
        } else {
            assert(meta_start(src.bytes(), parent@) == Some(payload_start + 4));
        }
    }
    let offset = src.position() - parent.start;
    let container = BoxHeader {
        start: parent.start,
        kind: parent.kind,
        header_len: (offset % 256) as u8,
        total_size: parent.total_size,
    };
    let ghost s = src.pos();
    assert(container@ == meta_container(parent@, s));
    let (children, tail) = walk_children_prefix(src, &container);
    let ghost bytes = src.bytes();
    let ghost hs = children@.map_values(|h: BoxHeader| h@);
    let mut i: usize = 0;
    assert(hs.skip(0) =~= hs);
    while i < children.len()
        invariant
            src.bytes() == bytes,
            bytes == old(src).bytes(),
            meta_start(bytes, parent@) == Some(s),
            child_walk(bytes, meta_container(parent@, s)).0 == hs,
            hs == children@.map_values(|h: BoxHeader| h@),
            forall|j: int| 0 <= j < children@.len() ==> (#[trigger] children@[j]).wf(),
            i <= children@.len(),
            forall|nn: MediaMetadata, rr: Result<(), ParseError>|
                #[trigger] fold_children(bytes, hs.skip(i as int), meta_steps(), *out, nn, rr)
                    ==> fold_children(bytes, hs, meta_steps(), *old(out), nn, rr),
        decreases children@.len() - i,
    {
        let child = children[i];
        let ghost before = *out;
        let rc = if is_fourcc(&child.kind.0, 0x69, 0x6c, 0x73, 0x74) {
            super::ilst::parse(src, &child, out)
        } else {
            Ok(())
        };
        proof {
            let rest = hs.skip(i as int);
            assert(rest[0] == child@);
            assert(rest.drop_first() =~= hs.skip(i + 1));
            assert(meta_steps()(bytes, rest[0], before, *out, rc));
        }
        if let Err(e) = rc {
            proof {
                lemma_fold_step(bytes, hs.skip(i as int), meta_steps(), before, *out, rc, *out, rc);
                lemma_fold_walk(bytes, meta_container(parent@, s), meta_steps(), *old(out), *out, rc, rc);
            }
            return Err(e);
        }
        proof {
            let rest = hs.skip(i as int);
            assert forall|nn: MediaMetadata, rr: Result<(), ParseError>|
                #[trigger] fold_children(bytes, hs.skip(i + 1), meta_steps(), *out, nn, rr)
                    implies fold_children(bytes, hs, meta_steps(), *old(out), nn, rr) by {
                lemma_fold_step(bytes, rest, meta_steps(), before, *out, rc, nn, rr);
            }
        }
        i = i + 1;
    }
    proof {
        assert(fold_children(bytes, hs.skip(i as int), meta_steps(), *out, *out, Ok(())));
    }
    proof {
        lemma_fold_walk(bytes, meta_container(parent@, s), meta_steps(), *old(out), *out, Ok(()), tail);
    }
    tail
}

/// What the child `h` of `udta` does: a `meta` box is parsed, a `chpl`
/// chapter list counted, a `©nam` atom read as the title, anything else
/// passed over.
pub open spec fn udta_step(bytes: Seq<u8>, h: BoxHeaderView, o: MediaMetadata, n: MediaMetadata, r: Result<(), ParseError>) -> bool {
    if h.kind == meta_kind() {
        meta_effect(bytes, h, o, n, r)
    } else if h.kind == chpl_kind() {
        chpl_effect(bytes, h.payload_start(), h, o, n, r)
    } else if h.kind == nam_kind() {
        name_effect(bytes, h.payload_start(), h, o, n, r)
    } else {
        r is Ok && n == o
    }
}

/// [`udta_step`] as a value.
pub open spec fn udta_steps() -> spec_fn(Seq<u8>, BoxHeaderView, MediaMetadata, MediaMetadata, Result<(), ParseError>) -> bool {
    |bytes: Seq<u8>, h: BoxHeaderView, o: MediaMetadata, n: MediaMetadata, r: Result<(), ParseError>| udta_step(bytes, h, o, n, r)
}

/// Parse a `udta` box: its children in order, each as [`udta_step`] says.
pub fn parse_udta(src: &mut FileSource, parent: &BoxHeader, out: &mut MediaMetadata) -> (r: Result<(), ParseError>)
    requires
        parent.wf(),
    ensures
        final(src).bytes() == old(src).bytes(),
        fold_walk(old(src).bytes(), parent@, udta_steps(), *old(out), *final(out), r),
{
    let (children, tail) = walk_children_prefix(src, parent);
    let ghost bytes = src.bytes();
    let ghost hs = children@.map_values(|h: BoxHeader| h@);
    let mut i: usize = 0;
    assert(hs.skip(0) =~= hs);
    while i < children.len()
        invariant
            src.bytes() == bytes,
            bytes == old(src).bytes(),
            child_walk(bytes, parent@).0 == hs,
            hs == children@.map_values(|h: BoxHeader| h@),
            forall|j: int| 0 <= j < children@.len() ==> (#[trigger] children@[j]).wf(),
            i <= children@.len(),
            forall|nn: MediaMetadata, rr: Result<(), ParseError>|
                #[trigger] fold_children(bytes, hs.skip(i as int), udta_steps(), *out, nn, rr)
                    ==> fold_children(bytes, hs, udta_steps(), *old(out), nn, rr),
        decreases children@.len() - i,
    {
        let child = children[i];
        let ghost before = *out;
        src.seek_to(child.payload_start());
        let rc = if is_fourcc(&child.kind.0, 0x6d, 0x65, 0x74, 0x61) {
            parse_meta(src, &child, out)
        } else if is_fourcc(&child.kind.0, 0x63, 0x68, 0x70, 0x6c) {
            parse_chpl(src, &child, out)
        } else if is_fourcc(&child.kind.0, 0xA9, 0x6e, 0x61, 0x6d) {
            parse_copyright_name(src, &child, out)
        } else {
            Ok(())
        };
        proof {
            let rest = hs.skip(i as int);
            assert(rest[0] == child@);
            assert(rest.drop_first() =~= hs.skip(i + 1));
            assert(udta_steps()(bytes, rest[0], before, *out, rc));
        }
        if let Err(e) = rc {
            proof {
                lemma_fold_step(bytes, hs.skip(i as int), udta_steps(), before, *out, rc, *out, rc);
                lemma_fold_walk(bytes, parent@, udta_steps(), *old(out), *out, rc, rc);
            }
            return Err(e);
        }
        proof {
            let rest = hs.skip(i as int);
            assert forall|nn: MediaMetadata, rr: Result<(), ParseError>|
                #[trigger] fold_children(bytes, hs.skip(i + 1), udta_steps(), *out, nn, rr)
                    implies fold_children(bytes, hs, udta_steps(), *old(out), nn, rr) by {
                lemma_fold_step(bytes, rest, udta_steps(), before, *out, rc, nn, rr);
            }
        }
        i = i + 1;
    }
    proof {
        assert(fold_children(bytes, hs.skip(i as int), udta_steps(), *out, *out, Ok(())));
    }
    proof {
        lemma_fold_walk(bytes, parent@, udta_steps(), *old(out), *out, Ok(()), tail);
    }
    tail
}

} // verus!
