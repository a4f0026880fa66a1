//! `stbl` (sample table): the sample descriptions (`stsd`), the first
//! `stts` entry, the sample count and first sample size (`stsz` / `stz2`)
//! and the first chunk offset (`stco` / `co64`).

pub mod stsc;
pub mod stsd;
pub mod stts;

use vstd::prelude::*;
use crate::source::{FileSource, ParseError, be32, be64};
use crate::mp4::atom::{
    BoxHeader, BoxHeaderView, children_of, fold_children, lemma_fold_step, payload_or_zero, walk_children,
    walk_children_prefix, child_walk, fold_walk, lemma_fold_walk,
};
use crate::mp4::moov::hdlr::{fourcc, is_fourcc};
use crate::mp4::moov::stbl::stsd::{eof_err, stsd_effect};
use crate::mp4::moov::trak::TrackBuilder;

verus! {

/// `stsz`: with a payload of at least 12 bytes, the sample count and the
/// first sample's size (the fixed size when non-zero, else the first table
/// entry when the payload holds one and the count is positive).
pub open spec fn stsz_result(bytes: Seq<u8>, p: int, size: int) -> Result<(Option<u32>, Option<u64>), ParseError> {
    if size < 12 {
        Ok((None, None))
    } else if p + 4 > bytes.len() {
        Err(ParseError::UnexpectedEof { offset: p as u64 })
    } else if p + 8 > bytes.len() {
        Err(ParseError::UnexpectedEof { offset: (p + 4) as u64 })
    } else if p + 12 > bytes.len() {
        Err(ParseError::UnexpectedEof { offset: (p + 8) as u64 })
    } else {
        let sample_size = be32(bytes, p + 4);
        let count = be32(bytes, p + 8);
        if sample_size != 0 {
            Ok((Some(count as u32), Some(sample_size as u64)))
        } else if size >= 16 && count > 0 {
            if p + 16 > bytes.len() {
                Err(ParseError::UnexpectedEof { offset: (p + 12) as u64 })
            } else {
                Ok((Some(count as u32), Some(be32(bytes, p + 12) as u64)))
            }
        } else {
            Ok((Some(count as u32), None))
        }
    }
}

/// `stz2`: with a payload of at least 12 bytes, the sample count after the
/// full-box header, three reserved bytes and the field size.
pub open spec fn stz2_result(bytes: Seq<u8>, p: int, size: int) -> Result<Option<u32>, ParseError> {
    if size < 12 {
        Ok(None)
    } else if p + 8 > bytes.len() {
        Err(ParseError::UnexpectedEof { offset: p as u64 })
    } else if p + 12 > bytes.len() {
        Err(ParseError::UnexpectedEof { offset: (p + 8) as u64 })
    } else {
        Ok(Some(be32(bytes, p + 8) as u32))
    }
}

/// `stco` (`wide` false, 32-bit offsets, payload of at least 12 bytes) or
/// `co64` (64-bit, at least 16): the first chunk offset when the table is
/// not empty.
pub open spec fn chunk_offset_result(bytes: Seq<u8>, p: int, size: int, wide: bool) -> Result<Option<u64>, ParseError> {
    if size < (if wide { 16int } else { 12 }) {
        Ok(None)
    } else if p + 4 > bytes.len() {
        Err(ParseError::UnexpectedEof { offset: p as u64 })
    } else if p + 8 > bytes.len() {
        Err(ParseError::UnexpectedEof { offset: (p + 4) as u64 })
    } else if be32(bytes, p + 4) == 0 {
        Ok(None)
    } else if p + (if wide { 16int } else { 12 }) > bytes.len() {
        Err(ParseError::UnexpectedEof { offset: (p + 8) as u64 })
    } else if wide {
        Ok(Some(be64(bytes, p + 8) as u64))
    } else {
        Ok(Some(be32(bytes, p + 8) as u64))
    }
}

/// Read the sample count and first sample size of an `stsz` box at the
/// cursor: see [`stsz_result`].
pub fn read_stsz(src: &mut FileSource, header: &BoxHeader) -> (r: Result<(Option<u32>, Option<u64>), ParseError>)
    ensures
        final(src).bytes() == old(src).bytes(),
        r == stsz_result(old(src).bytes(), old(src).pos(), payload_or_zero(header@)),
{
    let size = match header.payload_size() {
        Some(s) => s,
        None => 0,
    };
    if size < 12 {
        return Ok((None, None));
    }
    src.skip(4)?;
    let sample_size = src.read_u32_be()?;
    let sample_count = src.read_u32_be()?;
    let first_size = if sample_size != 0 {
        Some(sample_size as u64)
    } else if size >= 16 && sample_count > 0 {
        Some(src.read_u32_be()? as u64)
    } else {
        None
    };
    Ok((Some(sample_count), first_size))
}

/// Read the sample count of an `stz2` box at the cursor: see
/// [`stz2_result`].
pub fn read_stz2_sample_count(src: &mut FileSource, header: &BoxHeader) -> (r: Result<Option<u32>, ParseError>)
    ensures
        final(src).bytes() == old(src).bytes(),
        r == stz2_result(old(src).bytes(), old(src).pos(), payload_or_zero(header@)),
{
    let size = match header.payload_size() {
        Some(s) => s,
        None => 0,
    };
    if size < 12 {
        return Ok(None);
    }
    src.skip(8)?;
    Ok(Some(src.read_u32_be()?))
}

/// Read the first chunk offset of an `stco` box at the cursor: see
/// [`chunk_offset_result`].
pub fn read_first_chunk_offset_32(src: &mut FileSource, header: &BoxHeader) -> (r: Result<Option<u64>, ParseError>)
    ensures
        final(src).bytes() == old(src).bytes(),
        r == chunk_offset_result(old(src).bytes(), old(src).pos(), payload_or_zero(header@), false),
{
    let size = match header.payload_size() {
        Some(s) => s,
        None => 0,
    };
    if size < 12 {
        return Ok(None);
    }
    src.skip(4)?;
    let entry_count = src.read_u32_be()?;
    if entry_count == 0 {
        return Ok(None);
    }
    Ok(Some(src.read_u32_be()? as u64))
}

/// Read the first chunk offset of a `co64` box at the cursor: see
/// [`chunk_offset_result`].
pub fn read_first_chunk_offset_64(src: &mut FileSource, header: &BoxHeader) -> (r: Result<Option<u64>, ParseError>)
    ensures
        final(src).bytes() == old(src).bytes(),
        r == chunk_offset_result(old(src).bytes(), old(src).pos(), payload_or_zero(header@), true),
{
    let size = match header.payload_size() {
        Some(s) => s,
        None => 0,
    };
    if size < 16 {
        return Ok(None);
    }
    src.skip(4)?;
    let entry_count = src.read_u32_be()?;
    if entry_count == 0 {
        return Ok(None);
    }
    Ok(Some(src.read_u64_be()?))
}

/// What the `stts` child `h` does: its first entry (zeros for an empty
/// table) becomes the track's first sample count and delta.
pub open spec fn stts_step(bytes: Seq<u8>, h: BoxHeaderView, o: TrackBuilder, n: TrackBuilder, r: Result<(), ParseError>) -> bool {
    let p = h.payload_start();
    let size = payload_or_zero(h);
    let count = be32(bytes, p + 4);
    let malformed = r == Err::<(), ParseError>(ParseError::Malformed { offset: h.start as u64 }) && n == o;
    if size < 8 {
        malformed
    } else if p + 8 > bytes.len() {
        eof_err(r) && n == o
    } else if count == 0 {
        r is Ok && n == (TrackBuilder { stts_first_sample_count: Some(0), stts_first_sample_delta: Some(0), ..o })
    } else if 8 + count * 8 > size {
        malformed
    } else if p + 16 > bytes.len() {
        eof_err(r) && n == o
    } else {
        r is Ok && n == (TrackBuilder {
            stts_first_sample_count: Some(be32(bytes, p + 8) as u32),
            stts_first_sample_delta: Some(be32(bytes, p + 12) as u32),
            ..o
        })
    }
}

/// What the child `h` of `stbl` does to the track.
pub open spec fn stbl_step(bytes: Seq<u8>, h: BoxHeaderView, o: TrackBuilder, n: TrackBuilder, r: Result<(), ParseError>) -> bool {
    let p = h.payload_start();
    let size = payload_or_zero(h);
    let k = h.kind;
    if k == fourcc(0x73, 0x74, 0x73, 0x64) {
        stsd_effect(bytes, p, h, o, n, r)
    } else if k == fourcc(0x73, 0x74, 0x74, 0x73) {
        stts_step(bytes, h, o, n, r)
    } else if k == fourcc(0x73, 0x74, 0x73, 0x7a) {
        match stsz_result(bytes, p, size) {
            Err(e) => r == Err::<(), ParseError>(e) && n == o,
            Ok((count, first)) => r is Ok && n == (TrackBuilder {
                sample_count: count,
                first_sample_size: if first is Some { first } else { o.first_sample_size },
                ..o
            }),
        }
    } else if k == fourcc(0x73, 0x74, 0x7a, 0x32) {
        match stz2_result(bytes, p, size) {
            Err(e) => r == Err::<(), ParseError>(e) && n == o,
            Ok(count) => r is Ok && n == (TrackBuilder { sample_count: count, ..o }),
        }
    } else if k == fourcc(0x73, 0x74, 0x63, 0x6f) || k == fourcc(0x63, 0x6f, 0x36, 0x34) {
        match chunk_offset_result(bytes, p, size, k == fourcc(0x63, 0x6f, 0x36, 0x34)) {
            Err(e) => r == Err::<(), ParseError>(e) && n == o,
            Ok(off) => r is Ok && n == (TrackBuilder {
                first_sample_file_offset: if off is Some { off } else { o.first_sample_file_offset },
                ..o
            }),
        }
    } else {
        r is Ok && n == o
    }
}

/// [`stbl_step`] as a value.
pub open spec fn stbl_steps() -> spec_fn(Seq<u8>, BoxHeaderView, TrackBuilder, TrackBuilder, Result<(), ParseError>) -> bool {
    |bytes: Seq<u8>, h: BoxHeaderView, o: TrackBuilder, n: TrackBuilder, r: Result<(), ParseError>| stbl_step(bytes, h, o, n, r)
}

/// Handle the `stbl` child `child` (cursor at its payload).
fn stbl_child(src: &mut FileSource, child: &BoxHeader, builder: &mut TrackBuilder) -> (r: Result<(), ParseError>)
    requires
        child.wf(),
        old(src).pos() == child@.payload_start(),
    ensures
        final(src).bytes() == old(src).bytes(),
        stbl_step(old(src).bytes(), child@, *old(builder), *final(builder), r),
{
    let k = &child.kind.0;
    if is_fourcc(k, 0x73, 0x74, 0x73, 0x64) {
        stsd::parse(src, child, builder)
    } else if is_fourcc(k, 0x73, 0x74, 0x74, 0x73) {
        let s = stts::parse(src, child)?;
        builder.stts_first_sample_count = Some(s.first_sample_count);
        builder.stts_first_sample_delta = Some(s.first_sample_delta);
        Ok(())
    } else if is_fourcc(k, 0x73, 0x74, 0x73, 0x7a) {
        let (count, first_size) = read_stsz(src, child)?;
        builder.sample_count = count;
        if first_size.is_some() {
            builder.first_sample_size = first_size;
        }
        Ok(())
    } else if is_fourcc(k, 0x73, 0x74, 0x7a, 0x32) {
        builder.sample_count = read_stz2_sample_count(src, child)?;
        Ok(())
    } else if is_fourcc(k, 0x73, 0x74, 0x63, 0x6f) {
        if let Some(off) = read_first_chunk_offset_32(src, child)? {
            builder.first_sample_file_offset = Some(off);
        }
        Ok(())
    } else if is_fourcc(k, 0x63, 0x6f, 0x36, 0x34) {
        if let Some(off) = read_first_chunk_offset_64(src, child)? {
            builder.first_sample_file_offset = Some(off);
        }
        Ok(())
    } else {
        Ok(())
    }
}

/// Parse an `stbl` box: its children in order, each as [`stbl_step`] says;
/// a bad child header fails before any child is handled.
pub fn parse(src: &mut FileSource, parent: &BoxHeader, builder: &mut TrackBuilder) -> (r: Result<(), ParseError>)
    requires
        parent.wf(),
    ensures
        final(src).bytes() == old(src).bytes(),
        fold_walk(old(src).bytes(), parent@, stbl_steps(), *old(builder), *final(builder), r),
{
    let (children, tail) = walk_children_prefix(src, parent);
    let ghost bytes = src.bytes();
    let ghost hs = children@.map_values(|h: BoxHeader| h@);
    let mut i: usize = 0;
    assert(hs.skip(0) =~= hs);
    while i < children.len()
        invariant
            src.bytes() == bytes,
            bytes == old(src).bytes(),
            child_walk(bytes, parent@).0 == hs,
            hs == children@.map_values(|h: BoxHeader| h@),
            forall|j: int| 0 <= j < children@.len() ==> (#[trigger] children@[j]).wf(),
            i <= children@.len(),
            forall|nn: TrackBuilder, rr: Result<(), ParseError>|
                #[trigger] fold_children(bytes, hs.skip(i as int), stbl_steps(), *builder, nn, rr)
                    ==> fold_children(bytes, hs, stbl_steps(), *old(builder), nn, rr),
        decreases children@.len() - i,
    {
        let child = children[i];
        let ghost before = *builder;
        src.seek_to(child.payload_start());
        let rc = stbl_child(src, &child, builder);
        proof {
            let rest = hs.skip(i as int);
            assert(rest[0] == child@);
            assert(rest.drop_first() =~= hs.skip(i + 1));
            assert(stbl_steps()(bytes, rest[0], before, *builder, rc));
        }
        if let Err(e) = rc {
            proof {
                lemma_fold_step(bytes, hs.skip(i as int), stbl_steps(), before, *builder, rc, *builder, rc);
                lemma_fold_walk(bytes, parent@, stbl_steps(), *old(builder), *builder, rc, rc);
            }
            return Err(e);
        }
        proof {
            let rest = hs.skip(i as int);
            assert forall|nn: TrackBuilder, rr: Result<(), ParseError>|
                #[trigger] fold_children(bytes, hs.skip(i + 1), stbl_steps(), *builder, nn, rr)
                    implies fold_children(bytes, hs, stbl_steps(), *old(builder), nn, rr) by {
                lemma_fold_step(bytes, rest, stbl_steps(), before, *builder, rc, nn, rr);
            }
        }
        i = i + 1;
    }
    proof {
        assert(hs.skip(i as int).len() == 0);
        assert(fold_children(bytes, hs.skip(i as int), stbl_steps(), *builder, *builder, Ok(())));
    }
    proof {
        lemma_fold_walk(bytes, parent@, stbl_steps(), *old(builder), *builder, Ok(()), tail);
    }
    tail
}

} // verus!
