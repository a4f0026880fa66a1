//! `edts` (edit box) and its `elst` (edit list): the sum of the segment
//! durations and whether an entry starts at a media time other than 0
//! (start) or -1 (empty edit).

use vstd::prelude::*;
use crate::source::{FileSource, ParseError, be32, be64};
use crate::mp4::atom::{
    BoxHeader, BoxHeaderView, children_of, fold_children, lemma_fold_step, payload_or_zero, walk_children,
    walk_children_prefix, child_walk, fold_walk, lemma_fold_walk,
};
use crate::mp4::moov::hdlr::{fourcc, is_fourcc};
use crate::mp4::moov::trak::TrackBuilder;

verus! {

/// Bytes of one `elst` entry: 12 in version 0, 20 in any other version.
pub open spec fn elst_entry_len(version: u8) -> int {
    if version == 0 { 12 } else { 20 }
}

/// Segment duration of entry `i` of the list whose payload starts at `p`.
pub open spec fn elst_duration(bytes: Seq<u8>, p: int, i: int) -> int {
    let e = p + 8 + i * elst_entry_len(bytes[p]);
    if bytes[p] == 0 { be32(bytes, e) } else { be64(bytes, e) }
}

/// Entry `i` starts at a media time other than 0 and -1.
pub open spec fn elst_offset(bytes: Seq<u8>, p: int, i: int) -> bool {
    let e = p + 8 + i * elst_entry_len(bytes[p]);
    if bytes[p] == 0 {
        be32(bytes, e + 4) != 0 && be32(bytes, e + 4) != 0xFFFF_FFFF
    } else {
        be64(bytes, e + 8) != 0 && be64(bytes, e + 8) != 0xFFFF_FFFF_FFFF_FFFF
    }
}

/// Sum of the first `k` segment durations.
pub open spec fn elst_sum(bytes: Seq<u8>, p: int, k: int) -> int
    decreases k,
{
    if k <= 0 {
        0
    } else {
        elst_sum(bytes, p, k - 1) + elst_duration(bytes, p, k - 1)
    }
}

/// One of the first `k` entries starts at an offset.
pub open spec fn elst_any_offset(bytes: Seq<u8>, p: int, k: int) -> bool
    decreases k,
{
    if k <= 0 {
        false
    } else {
        elst_any_offset(bytes, p, k - 1) || elst_offset(bytes, p, k - 1)
    }
}

/// What `parse_elst` gives for the payload at `p`: the total duration
/// (saturating at `u64::MAX`) and the offset flag.  `Malformed` for a
/// payload under 8 bytes or with fewer bytes than its entries need.
pub open spec fn elst_result(bytes: Seq<u8>, p: int, size: int, start: u64) -> Option<Result<(u64, bool), ParseError>> {
    if size < 8 {
        Some(Err(ParseError::Malformed { offset: start }))
    } else if p + 8 > bytes.len() {
        None
    } else {
        let count = be32(bytes, p + 4);
        let len = elst_entry_len(bytes[p]);
        if count * len > size - 8 {
            Some(Err(ParseError::Malformed { offset: start }))
        } else if p + 8 + count * len > bytes.len() {
            None
        } else {
            let total = elst_sum(bytes, p, count);
            Some(Ok((if total > u64::MAX { u64::MAX } else { total as u64 }, elst_any_offset(bytes, p, count))))
        }
    }
}

proof fn lemma_elst_sum_nonneg(bytes: Seq<u8>, p: int, k: int)
    ensures
        elst_sum(bytes, p, k) >= 0,
    decreases k,
{
    if k > 0 {
        lemma_elst_sum_nonneg(bytes, p, k - 1);
    }
}

/// Parse the `elst` box `header` at the cursor into the track's edit
/// fields: see [`elst_result`] (`None` there is a read past the end).
pub fn parse_elst(src: &mut FileSource, header: &BoxHeader, builder: &mut TrackBuilder) -> (r: Result<(), ParseError>)
    ensures
        final(src).bytes() == old(src).bytes(),
        match elst_result(old(src).bytes(), old(src).pos(), payload_or_zero(header@), header.start) {
            None => r matches Err(e) && e is UnexpectedEof && *final(builder) == *old(builder),
            Some(Err(e)) => r == Err::<(), ParseError>(e) && *final(builder) == *old(builder),
            Some(Ok((total, off))) => r is Ok && *final(builder) == (TrackBuilder {
                edts_total_duration: Some(total),
                edts_has_offset: off,
                ..*old(builder)
            }),
        },
{
    let ghost bytes = src.bytes();
    let ghost p = src.pos();
    let payload = match header.payload_size() {
        Some(s) => s,
        None => 0,
    };
    if payload < 8 {
        return Err(ParseError::Malformed { offset: header.start });
    }
    let version = src.read_u8()?;
    let _f0 = src.read_u8()?;
    let _f1 = src.read_u8()?;
    let _f2 = src.read_u8()?;
    let entry_count = src.read_u32_be()?;
    let entry_bytes: u64 = if version == 0 { 12 } else { 20 };
    let expected = entry_count as u64 * entry_bytes;
    if expected > payload - 8 {
        return Err(ParseError::Malformed { offset: header.start });
    }
    let mut total: u64 = 0;
    let mut has_offset = false;
    let mut i: u32 = 0;
    while i < entry_count
        invariant
            src.bytes() == bytes,
            bytes == old(src).bytes(),
            p == old(src).pos(),
            *builder == *old(builder),
            payload == payload_or_zero(header@),
            payload >= 8,
            expected == entry_count * entry_bytes,
            expected <= payload - 8,
            p + 8 <= bytes.len(),
            src.pos() <= bytes.len(),
            version == bytes[p],
            entry_count == be32(bytes, p + 4),
            entry_bytes == elst_entry_len(version),
            i <= entry_count,
            src.pos() == p + 8 + i * entry_bytes,
            total == (if elst_sum(bytes, p, i as int) > u64::MAX { u64::MAX as int } else { elst_sum(bytes, p, i as int) }),
            has_offset == elst_any_offset(bytes, p, i as int),
        decreases entry_count - i,
    {
        let ghost at = src.pos();
        assert(at + entry_bytes <= p + 8 + entry_count * entry_bytes) by (nonlinear_arith)
            requires
                i < entry_count,
                at == p + 8 + i * entry_bytes,
                entry_bytes > 0;
        let (segment_duration, is_offset) = if version == 0 {
            let d = src.read_u32_be()? as u64;
            let t = src.read_u32_be()?;
            (d, t != 0 && t != 0xFFFF_FFFF)
        } else {
            let d = src.read_u64_be()?;
            let t = src.read_u64_be()?;
            (d, t != 0 && t != 0xFFFF_FFFF_FFFF_FFFF)
        };
        src.skip(4)?;
        proof {
            lemma_elst_sum_nonneg(bytes, p, i as int);
            assert(at == p + 8 + i * elst_entry_len(bytes[p]));
        }
        total = if total > u64::MAX - segment_duration { u64::MAX } else { total + segment_duration };
        if is_offset {
            has_offset = true;
        }
        i = i + 1;
        proof {
            assert(src.pos() == p + 8 + i * entry_bytes) by (nonlinear_arith)
                requires
                    src.pos() == at + entry_bytes,
                    at == p + 8 + (i - 1) * entry_bytes;
        }
    }
    builder.edts_total_duration = Some(total);
    builder.edts_has_offset = has_offset;
    Ok(())
}

/// What the child `h` of `edts` does: an `elst` is parsed, anything else
/// passed over.
pub open spec fn edts_step(bytes: Seq<u8>, h: BoxHeaderView, o: TrackBuilder, n: TrackBuilder, r: Result<(), ParseError>) -> bool {
    if h.kind == fourcc(0x65, 0x6c, 0x73, 0x74) {
        match elst_result(bytes, h.payload_start(), payload_or_zero(h), h.start as u64) {
            None => r matches Err(e) && e is UnexpectedEof && n == o,
            Some(Err(e)) => r == Err::<(), ParseError>(e) && n == o,
            Some(Ok((total, off))) => r is Ok && n == (TrackBuilder {
                edts_total_duration: Some(total),
                edts_has_offset: off,
                ..o
            }),
        }
    } else {
        r is Ok && n == o
    }
}

/// [`edts_step`] as a value.
pub open spec fn edts_steps() -> spec_fn(Seq<u8>, BoxHeaderView, TrackBuilder, TrackBuilder, Result<(), ParseError>) -> bool {
    |bytes: Seq<u8>, h: BoxHeaderView, o: TrackBuilder, n: TrackBuilder, r: Result<(), ParseError>| edts_step(bytes, h, o, n, r)
}

/// Parse an `edts` box: its `elst` children in order.
pub fn parse(src: &mut FileSource, parent: &BoxHeader, builder: &mut TrackBuilder) -> (r: Result<(), ParseError>)
    requires
        parent.wf(),
    ensures
        final(src).bytes() == old(src).bytes(),
        fold_walk(old(src).bytes(), parent@, edts_steps(), *old(builder), *final(builder), r),
{
    let (children, tail) = walk_children_prefix(src, parent);
    let ghost bytes = src.bytes();
    let ghost hs = children@.map_values(|h: BoxHeader| h@);
    let mut i: usize = 0;
    assert(hs.skip(0) =~= hs);
    while i < children.len()
        invariant
            src.bytes() == bytes,
            bytes == old(src).bytes(),
            child_walk(bytes, parent@).0 == hs,
            hs == children@.map_values(|h: BoxHeader| h@),
            forall|j: int| 0 <= j < children@.len() ==> (#[trigger] children@[j]).wf(),
            i <= children@.len(),
            forall|nn: TrackBuilder, rr: Result<(), ParseError>|
                #[trigger] fold_children(bytes, hs.skip(i as int), edts_steps(), *builder, nn, rr)
                    ==> fold_children(bytes, hs, edts_steps(), *old(builder), nn, rr),
        decreases children@.len() - i,
    {
        let child = children[i];
        let ghost before = *builder;
        src.seek_to(child.payload_start());
        let rc = if is_fourcc(&child.kind.0, 0x65, 0x6c, 0x73, 0x74) {
            parse_elst(src, &child, builder)
        } else {
            Ok(())
        };
        proof {
            let rest = hs.skip(i as int);
            assert(rest[0] == child@);
            assert(rest.drop_first() =~= hs.skip(i + 1));
            assert(edts_steps()(bytes, rest[0], before, *builder, rc));
        }
        if let Err(e) = rc {
            proof {
                lemma_fold_step(bytes, hs.skip(i as int), edts_steps(), before, *builder, rc, *builder, rc);
                lemma_fold_walk(bytes, parent@, edts_steps(), *old(builder), *builder, rc, rc);
            }
            return Err(e);
        }
        proof {
            let rest = hs.skip(i as int);
            assert forall|nn: TrackBuilder, rr: Result<(), ParseError>|
                #[trigger] fold_children(bytes, hs.skip(i + 1), edts_steps(), *builder, nn, rr)
                    implies fold_children(bytes, hs, edts_steps(), *old(builder), nn, rr) by {
                lemma_fold_step(bytes, rest, edts_steps(), before, *builder, rc, nn, rr);
            }
        }
        i = i + 1;
    }
    proof {
        assert(fold_children(bytes, hs.skip(i as int), edts_steps(), *builder, *builder, Ok(())));
    }
    proof {
        lemma_fold_walk(bytes, parent@, edts_steps(), *old(builder), *builder, Ok(()), tail);
    }
    tail
}

} // verus!
