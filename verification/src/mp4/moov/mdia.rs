//! `mdia` (media): the media header (`mdhd`), the handler (`hdlr`) and the
//! media information (`minf`) whose `stbl` holds the sample tables.

use vstd::prelude::*;
use crate::source::{FileSource, ParseError, be16, be32, be64};
use crate::mp4::atom::{
    BoxHeader, BoxHeaderView, children_of, fold_children, lemma_fold_step, payload_or_zero, walk_children,
    walk_children_prefix, child_walk, fold_walk, lemma_fold_walk,
};
use crate::mp4::moov::hdlr::{self, fourcc, is_fourcc, strip_trailing_zeros};
use crate::mp4::moov::mdhd::{self, mdhd_len, packed_language};
use crate::mp4::moov::stbl::{self, stbl_steps};
use crate::mp4::moov::stbl::stsd::eof_err;
use crate::mp4::moov::trak::TrackBuilder;
use crate::text::utf8_lossy_chars;

verus! {

/// What the child `h` of `minf` does: an `stbl` is parsed (see
/// `stbl::parse`), anything else passed over.
pub open spec fn minf_step(bytes: Seq<u8>, h: BoxHeaderView, o: TrackBuilder, n: TrackBuilder, r: Result<(), ParseError>) -> bool {
    if h.kind == fourcc(0x73, 0x74, 0x62, 0x6c) {
        fold_walk(bytes, h, stbl_steps(), o, n, r)
    } else {
        r is Ok && n == o
    }
}

/// [`minf_step`] as a value.
pub open spec fn minf_steps() -> spec_fn(Seq<u8>, BoxHeaderView, TrackBuilder, TrackBuilder, Result<(), ParseError>) -> bool {
    |bytes: Seq<u8>, h: BoxHeaderView, o: TrackBuilder, n: TrackBuilder, r: Result<(), ParseError>| minf_step(bytes, h, o, n, r)
}

/// What an `mdhd` child `h` does: a valid header gives the media timescale,
/// duration and language; an unsupported version, a zero timescale or a
/// payload under 24 bytes marks the media invalid instead of failing.
pub open spec fn mdhd_step(bytes: Seq<u8>, h: BoxHeaderView, o: TrackBuilder, n: TrackBuilder, r: Result<(), ParseError>) -> bool {
    let p = h.payload_start();
    let v = bytes[p];
    let ts = if v == 0 { be32(bytes, p + 12) } else { be32(bytes, p + 20) };
    let invalid = r is Ok && n == (TrackBuilder { media_invalid: true, ..o });
    if payload_or_zero(h) < 24 {
        invalid
    } else if p + 4 > bytes.len() {
        eof_err(r) && n == o
    } else if v > 1 {
        invalid
    } else if p + mdhd_len(v) - 4 > bytes.len() {
        eof_err(r) && n == o
    } else if ts == 0 {
        invalid
    } else if p + mdhd_len(v) > bytes.len() {
        eof_err(r) && n == o
    } else {
        let lang_at = if v == 0 { p + 20 } else { p + 32 };
        &&& r is Ok
        &&& n == (TrackBuilder {
            media_timescale: Some(ts as u32),
            media_duration_units: Some((if v == 0 { be32(bytes, p + 16) } else { be64(bytes, p + 24) }) as u64),
            language_iso_639_2: n.language_iso_639_2,
            ..o
        })
        &&& match n.language_iso_639_2 {
            Some(s) => packed_language(be16(bytes, lang_at) as u16) == Some(s@),
            None => packed_language(be16(bytes, lang_at) as u16) is None,
        }
    }
}

/// What an `hdlr` child `h` does: the handler type, and the name when it
/// is not empty.
pub open spec fn hdlr_step(bytes: Seq<u8>, h: BoxHeaderView, o: TrackBuilder, n: TrackBuilder, r: Result<(), ParseError>) -> bool {
    let p = h.payload_start();
    let size = payload_or_zero(h);
    if size < 24 {
        r == Err::<(), ParseError>(ParseError::Malformed { offset: h.start as u64 }) && n == o
    } else if p + size > bytes.len() {
        eof_err(r) && n == o
    } else {
        let name = utf8_lossy_chars(strip_trailing_zeros(bytes.subrange(p + 24, p + size)));
        &&& r is Ok
        &&& n == (TrackBuilder { handler_type: n.handler_type, handler_name: n.handler_name, ..o })
        &&& n.handler_type matches Some(t) && t@ == bytes.subrange(p + 8, p + 12)
        &&& if name.len() == 0 {
            n.handler_name == o.handler_name
        } else {
            n.handler_name matches Some(s) && s@ == name
        }
    }
}

/// What the child `h` of `mdia` does.
pub open spec fn mdia_step(bytes: Seq<u8>, h: BoxHeaderView, o: TrackBuilder, n: TrackBuilder, r: Result<(), ParseError>) -> bool {
    if h.kind == fourcc(0x6d, 0x64, 0x68, 0x64) {
        mdhd_step(bytes, h, o, n, r)
    } else if h.kind == fourcc(0x68, 0x64, 0x6c, 0x72) {
        hdlr_step(bytes, h, o, n, r)
    } else if h.kind == fourcc(0x6d, 0x69, 0x6e, 0x66) {
        fold_walk(bytes, h, minf_steps(), o, n, r)
    } else {
        r is Ok && n == o
    }
}

/// [`mdia_step`] as a value.
pub open spec fn mdia_steps() -> spec_fn(Seq<u8>, BoxHeaderView, TrackBuilder, TrackBuilder, Result<(), ParseError>) -> bool {
    |bytes: Seq<u8>, h: BoxHeaderView, o: TrackBuilder, n: TrackBuilder, r: Result<(), ParseError>| mdia_step(bytes, h, o, n, r)
}

/// Parse a `minf` box: its `stbl` children.
pub fn parse_minf(src: &mut FileSource, parent: &BoxHeader, builder: &mut TrackBuilder) -> (r: Result<(), ParseError>)
    requires
        parent.wf(),
    ensures
        final(src).bytes() == old(src).bytes(),
        fold_walk(old(src).bytes(), parent@, minf_steps(), *old(builder), *final(builder), r),
{
    let (children, tail) = walk_children_prefix(src, parent);
    let ghost bytes = src.bytes();
    let ghost hs = children@.map_values(|h: BoxHeader| h@);
    let mut i: usize = 0;
    assert(hs.skip(0) =~= hs);
    while i < children.len()
        invariant
            src.bytes() == bytes,
            bytes == old(src).bytes(),
            child_walk(bytes, parent@).0 == hs,
            hs == children@.map_values(|h: BoxHeader| h@),
            forall|j: int| 0 <= j < children@.len() ==> (#[trigger] children@[j]).wf(),
            i <= children@.len(),
            forall|nn: TrackBuilder, rr: Result<(), ParseError>|
                #[trigger] fold_children(bytes, hs.skip(i as int), minf_steps(), *builder, nn, rr)
                    ==> fold_children(bytes, hs, minf_steps(), *old(builder), nn, rr),
        decreases children@.len() - i,
    {
        let child = children[i];
        let ghost before = *builder;
        src.seek_to(child.payload_start());
        let rc = if is_fourcc(&child.kind.0, 0x73, 0x74, 0x62, 0x6c) {
            stbl::parse(src, &child, builder)
        } else {
            Ok(())
        };
        proof {
            let rest = hs.skip(i as int);
            assert(rest[0] == child@);
            assert(rest.drop_first() =~= hs.skip(i + 1));
            assert(minf_steps()(bytes, rest[0], before, *builder, rc));
        }
        if let Err(e) = rc {
            proof {
                lemma_fold_step(bytes, hs.skip(i as int), minf_steps(), before, *builder, rc, *builder, rc);
                lemma_fold_walk(bytes, parent@, minf_steps(), *old(builder), *builder, rc, rc);
            }
            return Err(e);
        }
        proof {
            let rest = hs.skip(i as int);
            assert forall|nn: TrackBuilder, rr: Result<(), ParseError>|
                #[trigger] fold_children(bytes, hs.skip(i + 1), minf_steps(), *builder, nn, rr)
                    implies fold_children(bytes, hs, minf_steps(), *old(builder), nn, rr) by {
                lemma_fold_step(bytes, rest, minf_steps(), before, *builder, rc, nn, rr);
            }
        }
        i = i + 1;
    }
    proof {
        assert(fold_children(bytes, hs.skip(i as int), minf_steps(), *builder, *builder, Ok(())));
    }
    proof {
        lemma_fold_walk(bytes, parent@, minf_steps(), *old(builder), *builder, Ok(()), tail);
    }
    tail
}

/// Handle the `mdia` child `child` (cursor at its payload).
fn mdia_child(src: &mut FileSource, child: &BoxHeader, builder: &mut TrackBuilder) -> (r: Result<(), ParseError>)
    requires
        child.wf(),
        old(src).pos() == child@.payload_start(),
    ensures
        final(src).bytes() == old(src).bytes(),
        mdia_step(old(src).bytes(), child@, *old(builder), *final(builder), r),
{
    let k = &child.kind.0;
    if is_fourcc(k, 0x6d, 0x64, 0x68, 0x64) {
        match mdhd::parse(src, child) {
            Ok(m) => {
                builder.media_timescale = Some(m.timescale);
                builder.media_duration_units = Some(m.duration);
                builder.language_iso_639_2 = m.language_iso_639_2;
                Ok(())
            },
            Err(ParseError::Malformed { .. }) => {
                builder.media_invalid = true;
                Ok(())
            },
            Err(e) => Err(e),
        }
    } else if is_fourcc(k, 0x68, 0x64, 0x6c, 0x72) {
        let h = hdlr::parse(src, child)?;
        builder.handler_type = Some(h.handler_type);
        if !h.name.as_str().is_empty() {
            builder.handler_name = Some(h.name);
        }
        Ok(())
    } else if is_fourcc(k, 0x6d, 0x69, 0x6e, 0x66) {
        parse_minf(src, child, builder)
    } else {
        Ok(())
    }
}

/// Parse an `mdia` box: its children in order, each as [`mdia_step`] says.
pub fn parse(src: &mut FileSource, parent: &BoxHeader, builder: &mut TrackBuilder) -> (r: Result<(), ParseError>)
    requires
        parent.wf(),
    ensures
        final(src).bytes() == old(src).bytes(),
        fold_walk(old(src).bytes(), parent@, mdia_steps(), *old(builder), *final(builder), r),
{
    let (children, tail) = walk_children_prefix(src, parent);
    let ghost bytes = src.bytes();
    let ghost hs = children@.map_values(|h: BoxHeader| h@);
    let mut i: usize = 0;
    assert(hs.skip(0) =~= hs);
    while i < children.len()
        invariant
            src.bytes() == bytes,
            bytes == old(src).bytes(),
            child_walk(bytes, parent@).0 == hs,
            hs == children@.map_values(|h: BoxHeader| h@),
            forall|j: int| 0 <= j < children@.len() ==> (#[trigger] children@[j]).wf(),
            i <= children@.len(),
            forall|nn: TrackBuilder, rr: Result<(), ParseError>|
                #[trigger] fold_children(bytes, hs.skip(i as int), mdia_steps(), *builder, nn, rr)
                    ==> fold_children(bytes, hs, mdia_steps(), *old(builder), nn, rr),
        decreases children@.len() - i,
    {
        let child = children[i];
        let ghost before = *builder;
        src.seek_to(child.payload_start());
        let rc = mdia_child(src, &child, builder);
        proof {
            let rest = hs.skip(i as int);
            assert(rest[0] == child@);
            assert(rest.drop_first() =~= hs.skip(i + 1));
            assert(mdia_steps()(bytes, rest[0], before, *builder, rc));
        }
        if let Err(e) = rc {
            proof {
                lemma_fold_step(bytes, hs.skip(i as int), mdia_steps(), before, *builder, rc, *builder, rc);
                lemma_fold_walk(bytes, parent@, mdia_steps(), *old(builder), *builder, rc, rc);
            }
            return Err(e);
        }
        proof {
            let rest = hs.skip(i as int);
            assert forall|nn: TrackBuilder, rr: Result<(), ParseError>|
                #[trigger] fold_children(bytes, hs.skip(i + 1), mdia_steps(), *builder, nn, rr)
                    implies fold_children(bytes, hs, mdia_steps(), *old(builder), nn, rr) by {
                lemma_fold_step(bytes, rest, mdia_steps(), before, *builder, rc, nn, rr);
            }
        }
        i = i + 1;
    }
    proof {
        assert(fold_children(bytes, hs.skip(i as int), mdia_steps(), *builder, *builder, Ok(())));
    }
    proof {
        lemma_fold_walk(bytes, parent@, mdia_steps(), *old(builder), *builder, Ok(()), tail);
    }
    tail
}

} // verus!
