//! Top-level MP4 reader: recognises a file by its first box, walks the
//! top-level boxes (file type, movie, fragments, media data, metadata),
//! resynchronises past damaged boxes, and assembles the tracks.

use std::collections::HashMap;
use vstd::prelude::*;
use crate::source::{FileSource, ParseError, be32};
use crate::model::{ContainerFormat, ContainerProperties, MediaMetadata};
use crate::mp4::atom::{
    BoxHeaderView, children_of, fold_children, header_at, header_cursor_after, header_error, header_ok,
    is_printable, payload_or_zero, read_box_header, skip_payload, skip_target, stage, walk_measure, fold_walk,
};
use crate::mp4::fragments::{MoofSummary, TrackFragment, moof_steps, parse_moof};
use crate::mp4::ftyp::{self, FileType, chunked_eof_offset, ftyp_matches, qt_brand};
use crate::mp4::identify::{finalise, finalise_effect};
use crate::mp4::meta::udta::{meta_effect, parse_meta};
use crate::mp4::moov::hdlr::{fourcc, is_fourcc};
use crate::mp4::moov::{self, MoovBuilder, moov_steps};

verus! {

/// Largest 32-bit atom size accepted while resynchronising when the length
/// of the data is unknown.
pub const RESYNC_MAX_ATOM_SIZE: u64 = 268435456;

/// Box types a file may start with.
pub open spec fn is_leading_kind(k: Seq<u8>) -> bool {
    ||| k == fourcc(0x66, 0x74, 0x79, 0x70)
    ||| k == fourcc(0x70, 0x64, 0x69, 0x6e)
    ||| k == fourcc(0x6d, 0x6f, 0x6f, 0x76)
    ||| k == fourcc(0x6d, 0x6f, 0x6f, 0x66)
    ||| k == fourcc(0x6d, 0x66, 0x72, 0x61)
    ||| k == fourcc(0x6d, 0x64, 0x61, 0x74)
    ||| k == fourcc(0x70, 0x6e, 0x6f, 0x74)
    ||| k == fourcc(0x73, 0x74, 0x79, 0x70)
    ||| k == fourcc(0x73, 0x69, 0x64, 0x78)
    ||| k == fourcc(0x66, 0x72, 0x65, 0x65)
    ||| k == fourcc(0x73, 0x6b, 0x69, 0x70)
    ||| k == fourcc(0x77, 0x69, 0x64, 0x65)
}

/// `k` is one of the box types a file may start with.
fn is_leading_box(k: &[u8; 4]) -> (r: bool)
    ensures
        r == is_leading_kind(k@),
{
    is_fourcc(k, 0x66, 0x74, 0x79, 0x70) || is_fourcc(k, 0x70, 0x64, 0x69, 0x6e)
        || is_fourcc(k, 0x6d, 0x6f, 0x6f, 0x76) || is_fourcc(k, 0x6d, 0x6f, 0x6f, 0x66)
        || is_fourcc(k, 0x6d, 0x66, 0x72, 0x61) || is_fourcc(k, 0x6d, 0x64, 0x61, 0x74)
        || is_fourcc(k, 0x70, 0x6e, 0x6f, 0x74) || is_fourcc(k, 0x73, 0x74, 0x79, 0x70)
        || is_fourcc(k, 0x73, 0x69, 0x64, 0x78) || is_fourcc(k, 0x66, 0x72, 0x65, 0x65)
        || is_fourcc(k, 0x73, 0x6b, 0x69, 0x70) || is_fourcc(k, 0x77, 0x69, 0x64, 0x65)
}

/// Box types resynchronisation looks for.
pub open spec fn is_resync_kind(k: Seq<u8>) -> bool {
    ||| k == fourcc(0x66, 0x74, 0x79, 0x70)
    ||| k == fourcc(0x70, 0x64, 0x69, 0x6e)
    ||| k == fourcc(0x6d, 0x6f, 0x6f, 0x76)
    ||| k == fourcc(0x6d, 0x6f, 0x6f, 0x66)
    ||| k == fourcc(0x6d, 0x66, 0x72, 0x61)
    ||| k == fourcc(0x6d, 0x64, 0x61, 0x74)
    ||| k == fourcc(0x66, 0x72, 0x65, 0x65)
    ||| k == fourcc(0x73, 0x6b, 0x69, 0x70)
    ||| k == fourcc(0x6d, 0x65, 0x74, 0x61)
    ||| k == fourcc(0x77, 0x69, 0x64, 0x65)
    ||| k == fourcc(0x70, 0x6e, 0x6f, 0x74)
    ||| k == fourcc(0x73, 0x69, 0x64, 0x78)
    ||| k == fourcc(0x73, 0x74, 0x79, 0x70)
    ||| k == fourcc(0x75, 0x75, 0x69, 0x64)
}

/// `k` is one of the box types resynchronisation looks for.
fn is_resync_box(k: &[u8; 4]) -> (r: bool)
    ensures
        r == is_resync_kind(k@),
{
    is_fourcc(k, 0x66, 0x74, 0x79, 0x70) || is_fourcc(k, 0x70, 0x64, 0x69, 0x6e)
        || is_fourcc(k, 0x6d, 0x6f, 0x6f, 0x76) || is_fourcc(k, 0x6d, 0x6f, 0x6f, 0x66)
        || is_fourcc(k, 0x6d, 0x66, 0x72, 0x61) || is_fourcc(k, 0x6d, 0x64, 0x61, 0x74)
        || is_fourcc(k, 0x66, 0x72, 0x65, 0x65) || is_fourcc(k, 0x73, 0x6b, 0x69, 0x70)
        || is_fourcc(k, 0x6d, 0x65, 0x74, 0x61) || is_fourcc(k, 0x77, 0x69, 0x64, 0x65)
        || is_fourcc(k, 0x70, 0x6e, 0x6f, 0x74) || is_fourcc(k, 0x73, 0x69, 0x64, 0x78)
        || is_fourcc(k, 0x73, 0x74, 0x79, 0x70) || is_fourcc(k, 0x75, 0x75, 0x69, 0x64)
}

/// A declared 32-bit atom size is plausible at `atom_abs`: the to-end (0)
/// and 64-bit (1) markers always; otherwise at least 8 and, with a known
/// end, ending within it (the sum saturating at `u64::MAX`), or at most
/// [`RESYNC_MAX_ATOM_SIZE`] without one.
pub open spec fn size_plausible(size: u64, atom_abs: u64, stream_end: Option<u64>) -> bool {
    if size == 0 || size == 1 {
        true
    } else if size < 8 {
        false
    } else {
        match stream_end {
            Some(end) => (if atom_abs + size > u64::MAX { u64::MAX as int } else { atom_abs + size }) <= end,
            None => size <= RESYNC_MAX_ATOM_SIZE,
        }
    }
}

/// Whether a candidate atom size is plausible (see [`size_plausible`]).
pub fn resync_size_plausible(size: u64, atom_abs: u64, stream_end: Option<u64>) -> (r: bool)
    ensures
        r == size_plausible(size, atom_abs, stream_end),
{
    if size == 0 || size == 1 {
        true
    } else if size < 8 {
        false
    } else {
        match stream_end {
            Some(end) => atom_abs.saturating_add(size) <= end,
            None => size <= RESYNC_MAX_ATOM_SIZE,
        }
    }
}

/// Offset `o` holds an atom resynchronisation accepts when scanning from
/// `start`: strictly after it, a full 8-byte header inside the data, a
/// recognised type and a plausible size.
pub open spec fn resync_candidate(bytes: Seq<u8>, o: int, start: int) -> bool {
    &&& start < o
    &&& o + 8 <= bytes.len()
    &&& is_resync_kind(bytes.subrange(o + 4, o + 8))
    &&& size_plausible(be32(bytes, o) as u64, o as u64, Some(bytes.len() as u64))
}

/// `r` is where resynchronising from `start` lands: the first candidate
/// after `start`, or `None` when there is none.
pub open spec fn resync_result(bytes: Seq<u8>, start: int, r: Option<int>) -> bool {
    match r {
        Some(o) => resync_candidate(bytes, o, start) && forall|p: int| start < p < o ==> !resync_candidate(bytes, p, start),
        None => forall|p: int| !resync_candidate(bytes, p, start),
    }
}

/// Scan forward from the cursor for the next recognised top-level atom
/// (see [`resync_result`]); on success the cursor is left at it.
pub fn resync_to_top_level_atom(src: &mut FileSource, stream_end: Option<u64>) -> (r: bool)
    requires
        stream_end == Some(old(src).bytes().len() as u64),
    ensures
        final(src).bytes() == old(src).bytes(),
        r ==> resync_result(old(src).bytes(), old(src).pos(), Some(final(src).pos())),
        !r ==> resync_result(old(src).bytes(), old(src).pos(), None) && final(src).pos() == old(src).pos(),
{
    let start = src.position();
    let len = src.length();
    let ghost bytes = src.bytes();
    if len < 8 || start >= len - 8 {
        proof {
            assert forall|p: int| !resync_candidate(bytes, p, start as int) by {}
        }
        return false;
    }
    let mut o = start + 1;
    while o <= len - 8
        invariant
            src.bytes() == bytes,
            bytes == old(src).bytes(),
            start == old(src).pos(),
            src.pos() == start,
            len == bytes.len(),
            len >= 8,
            start < o,
            stream_end == Some(len),
            forall|p: int| start < p < o ==> !resync_candidate(bytes, p, start as int),
        decreases len - o,
    {
        let kind = src.array4_at(o + 4);
        if is_resync_box(&kind) {
            let size = src.u32_at(o) as u64;
            if resync_size_plausible(size, o, stream_end) {
                proof {
                    assert(kind@ == bytes.subrange(o + 4, o + 8));
                }
                src.seek_to(o);
                return true;
            }
        }
        proof {
            assert(kind@ == bytes.subrange(o + 4, o + 8));
        }
        o = o + 1;
    }
    false
}

/// Reader of ISO BMFF / QuickTime files.
#[derive(Debug, Clone, Copy)]
pub struct Mp4Reader;

/// What the walk over the top-level boxes gathers besides the metadata.
#[derive(Debug)]
pub struct TopLevel {
    pub have_filetype: bool,
    pub moov: MoovBuilder,
    pub have_moov: bool,
    pub have_mdat: bool,
    pub is_fragmented: bool,
    /// Sample counts of the track fragments, by track id.
    pub fragment_counts: HashMap<u32, u32>,
}

/// The state before any box is read.
pub open spec fn top_initial(t: TopLevel) -> bool {
    &&& !t.have_filetype
    &&& t.moov.is_empty()
    &&& !t.have_moov
    &&& !t.have_mdat
    &&& !t.is_fragmented
    &&& t.fragment_counts@ == Map::<u32, u32>::empty()
}

/// Fragment sample counts after adding `runs` in order (each sum modulo
/// 2^32).
pub open spec fn add_runs(m: Map<u32, u32>, runs: Seq<TrackFragment>) -> Map<u32, u32>
    decreases runs.len(),
{
    if runs.len() == 0 {
        m
    } else {
        let id = runs[0].track_id;
        let cur: int = if m.contains_key(id) { m[id] as int } else { 0 };
        add_runs(m.insert(id, ((cur + runs[0].sample_count) % 0x1_0000_0000) as u32), runs.drop_first())
    }
}

/// What `parse_moof` gives for the `moof` box `h`.
pub open spec fn moof_parsed(bytes: Seq<u8>, h: BoxHeaderView, r: Result<MoofSummary, ParseError>) -> bool {
    match children_of(bytes, h) {
        Err(e) => r == Err::<MoofSummary, ParseError>(e),
        Ok(hs) => exists|s0: MoofSummary, s1: MoofSummary, rc: Result<(), ParseError>|
            #[trigger] stage((s0, s1), rc) && fold_children(bytes, hs, moof_steps(), s0, s1, rc)
                && s0.track_runs@.len() == 0
                && match rc {
                    Err(e) => r == Err::<MoofSummary, ParseError>(e),
                    Ok(_) => r matches Ok(s) && s == s1,
                },
    }
}

/// `nm` is `om` with the brands of the `ftyp` payload (`size` bytes at `p`)
/// recorded and the container format set from them.
pub open spec fn ftyp_applied(bytes: Seq<u8>, p: int, size: int, om: MediaMetadata, nm: MediaMetadata) -> bool {
    &&& nm == (MediaMetadata {
        format: nm.format,
        properties: ContainerProperties {
            major_brand: nm.properties.major_brand,
            compatible_brands: nm.properties.compatible_brands,
            ..om.properties
        },
        ..om
    })
    &&& nm.properties.major_brand matches Some(mb)
    &&& exists|ft: FileType| #[trigger] ftyp_matches(bytes, p, size, ft)
        && ft.major_brand == nm.properties.major_brand->0
        && ft.compatible_brands == nm.properties.compatible_brands
        && nm.format == if ft.major_brand@ == qt_brand() || ft.has_qt_compatible() {
            ContainerFormat::QuickTime
        } else {
            ContainerFormat::Mp4
        }
}

/// Where the walk goes on after a box ending at `after`: there, when that is
/// past the box's start.
pub open spec fn continue_after(pos: int, after: int) -> Option<int> {
    if after > pos {
        Some(after)
    } else {
        None
    }
}

/// Box types passed over at the top level without being read.
pub open spec fn is_skipped_kind(k: Seq<u8>) -> bool {
    ||| k == fourcc(0x66, 0x72, 0x65, 0x65)
    ||| k == fourcc(0x73, 0x6b, 0x69, 0x70)
    ||| k == fourcc(0x77, 0x69, 0x64, 0x65)
    ||| k == fourcc(0x70, 0x6e, 0x6f, 0x74)
    ||| k == fourcc(0x73, 0x69, 0x64, 0x78)
    ||| k == fourcc(0x70, 0x64, 0x69, 0x6e)
    ||| k == fourcc(0x6d, 0x66, 0x72, 0x61)
    ||| k == fourcc(0x75, 0x75, 0x69, 0x64)
}

/// One step of the top-level walk at `pos` (inside the data): the state
/// `(o, om)` becomes `(n, nm)`, the step's result is `r`, and the walk
/// goes on at `next` (`None`: it stops).  An unreadable header ends the
/// walk at the end of the data and resynchronises on a malformed one; a
/// box of an unknown, non-printable type is resynchronised past.  On an
/// error only the metadata is described.
pub open spec fn top_step(
    bytes: Seq<u8>,
    pos: int,
    o: TopLevel,
    om: MediaMetadata,
    n: TopLevel,
    nm: MediaMetadata,
    next: Option<int>,
    r: Result<(), ParseError>,
) -> bool {
    if !header_ok(bytes, pos) {
        &&& n == o
        &&& nm == om
        &&& match header_error(bytes, pos) {
            ParseError::UnexpectedEof { .. } => r is Ok && next is None,
            ParseError::Malformed { .. } => r is Ok && resync_result(bytes, header_cursor_after(bytes, pos), next),
            e => r == Err::<(), ParseError>(e),
        }
    } else {
        let h = header_at(bytes, pos);
        let p = h.payload_start();
        let k = h.kind;
        let after = skip_target(bytes, h);
        if k == fourcc(0x66, 0x74, 0x79, 0x70) {
            let size = payload_or_zero(h);
            if size < 8 {
                r == Err::<(), ParseError>(ParseError::Malformed { offset: h.start as u64 }) && nm == om
            } else if p + size > bytes.len() {
                r == Err::<(), ParseError>(
                    ParseError::UnexpectedEof { offset: chunked_eof_offset(p, size, bytes.len() as int) as u64 },
                ) && nm == om
            } else {
                &&& r is Ok
                &&& n == (TopLevel { have_filetype: true, ..o })
                &&& ftyp_applied(bytes, p, size, om, nm)
                &&& next == continue_after(pos, p + size)
            }
        } else if k == fourcc(0x6d, 0x6f, 0x6f, 0x76) {
            &&& nm == om
            &&& if o.have_moov {
                r is Ok && n == o && next == continue_after(pos, after)
            } else {
                exists|mb: MoovBuilder, rc: Result<(), ParseError>|
                    #[trigger] stage(mb, rc) && fold_walk(bytes, h, moov_steps(), o.moov, mb, rc)
                        && match rc {
                            Err(e) => r == Err::<(), ParseError>(e),
                            Ok(_) => r is Ok && n == (TopLevel { moov: mb, have_moov: true, ..o })
                                && next == continue_after(pos, after),
                        }
            }
        } else if k == fourcc(0x6d, 0x6f, 0x6f, 0x66) {
            &&& nm == om
            &&& exists|rm: Result<MoofSummary, ParseError>| #[trigger] moof_parsed(bytes, h, rm) && match rm {
                Err(e) => r == Err::<(), ParseError>(e),
                Ok(s) => r is Ok && n == (TopLevel { is_fragmented: true, fragment_counts: n.fragment_counts, ..o })
                    && n.fragment_counts@ == add_runs(o.fragment_counts@, s.track_runs@)
                    && next == continue_after(pos, after),
            }
        } else if k == fourcc(0x6d, 0x64, 0x61, 0x74) {
            r is Ok && nm == om && n == (TopLevel { have_mdat: true, ..o }) && next == continue_after(pos, after)
        } else if is_skipped_kind(k) {
            r is Ok && nm == om && n == o && next == continue_after(pos, after)
        } else if k == fourcc(0x6d, 0x65, 0x74, 0x61) {
            meta_effect(bytes, h, om, nm, r) && n == o && (r is Ok ==> next == continue_after(pos, after))
        } else if forall|i: int| 0 <= i < 4 ==> is_printable(#[trigger] k[i]) {
            r is Ok && nm == om && n == o && next == continue_after(pos, after)
        } else {
            r is Ok && nm == om && n == o && resync_result(bytes, pos, next)
        }
    }
}

/// Names an intermediate state of the top-level walk (a quantifier
/// trigger; always true).
pub open spec fn top_stage(st: TopLevel, sm: MediaMetadata, next: Option<int>, rc: Result<(), ParseError>) -> bool {
    true
}

/// Walking the top-level boxes from `pos` takes `(o, om)` to `(n, nm)` with
/// result `r`: it ends at the end of the data, where a step stops it, or
/// at the first failing step with that step's error.
pub open spec fn top_walk(
    bytes: Seq<u8>,
    pos: int,
    o: TopLevel,
    om: MediaMetadata,
    n: TopLevel,
    nm: MediaMetadata,
    r: Result<(), ParseError>,
) -> bool
    decreases walk_measure(bytes, pos),
{
    if pos >= bytes.len() || pos < 0 {
        r is Ok && n == o && nm == om
    } else {
        exists|st: TopLevel, sm: MediaMetadata, next: Option<int>, rc: Result<(), ParseError>|
            #[trigger] top_stage(st, sm, next, rc) && top_step(bytes, pos, o, om, st, sm, next, rc) && match rc {
                Err(_) => r == rc && nm == sm,
                Ok(_) => match next {
                    Some(q) => if q > pos {
                        top_walk(bytes, q, st, sm, n, nm, r)
                    } else {
                        r is Ok && n == st && nm == sm
                    },
                    None => r is Ok && n == st && nm == sm,
                },
            }
    }
}

/// One step of [`top_walk`].
proof fn lemma_top_step(
    bytes: Seq<u8>,
    pos: int,
    o: TopLevel,
    om: MediaMetadata,
    st: TopLevel,
    sm: MediaMetadata,
    next: Option<int>,
    rc: Result<(), ParseError>,
    n: TopLevel,
    nm: MediaMetadata,
    r: Result<(), ParseError>,
)
    requires
        0 <= pos < bytes.len(),
        top_step(bytes, pos, o, om, st, sm, next, rc),
        match rc {
            Err(_) => r == rc && nm == sm,
            Ok(_) => match next {
                Some(q) => if q > pos {
                    top_walk(bytes, q, st, sm, n, nm, r)
                } else {
                    r is Ok && n == st && nm == sm
                },
                None => r is Ok && n == st && nm == sm,
            },
        },
    ensures
        top_walk(bytes, pos, o, om, n, nm, r),
{
    assert(top_stage(st, sm, next, rc));
}

/// The view of an optional offset.
pub open spec fn opt_pos(v: Option<u64>) -> Option<int> {
    match v {
        Some(q) => Some(q as int),
        None => None,
    }
}

/// Handle the top-level box at the cursor (see [`top_step`]); gives the
/// step's result and where the walk goes on.
fn top_level_box(src: &mut FileSource, st: &mut TopLevel, out: &mut MediaMetadata) -> (r: (Result<(), ParseError>, Option<u64>))
    requires
        old(src).pos() < old(src).bytes().len(),
    ensures
        final(src).bytes() == old(src).bytes(),
        top_step(old(src).bytes(), old(src).pos(), *old(st), *old(out), *final(st), *final(out), opt_pos(r.1), r.0),
{
    broadcast use vstd::std_specs::hash::group_hash_axioms;
    let ghost bytes = src.bytes();
    let pos = src.position();
    let len = src.length();
    let header = match read_box_header(src) {
        Ok(h) => h,
        Err(ParseError::UnexpectedEof { offset }) => return (Ok(()), None),
        Err(ParseError::Malformed { offset }) => {
            if resync_to_top_level_atom(src, Some(len)) {
                return (Ok(()), Some(src.position()));
            } else {
                return (Ok(()), None);
            }
        },
        Err(e) => return (Err(e), None),
    };
    let k = header.kind.0;
    if is_fourcc(&k, 0x66, 0x74, 0x79, 0x70) {
        let ft = match ftyp::parse(src, &header) {
            Ok(ft) => ft,
            Err(e) => return (Err(e), None),
        };
        let ghost gft = ft;
        let ghost om = *out;
        out.format = ft.classify();
        let FileType { major_brand, minor_version, compatible_brands } = ft;
        out.properties.major_brand = Some(major_brand);
        out.properties.compatible_brands = compatible_brands;
        st.have_filetype = true;
        proof {
            assert(gft == (FileType { major_brand: out.properties.major_brand->0, minor_version, compatible_brands: out.properties.compatible_brands }));
            assert(ftyp_matches(bytes, header@.payload_start(), payload_or_zero(header@), gft));
            assert(ftyp_applied(bytes, header@.payload_start(), payload_or_zero(header@), om, *out));
        }
        let after = src.position();
        return (Ok(()), if after > pos { Some(after) } else { None });
    }
    if is_fourcc(&k, 0x6d, 0x6f, 0x6f, 0x76) {
        if !st.have_moov {
            let ghost before = st.moov;
            let rc = moov::parse(src, &header, &mut st.moov);
            proof {
                assert(stage(st.moov, rc));
            }
            if let Err(e) = rc {
                return (Err(e), None);
            }
            st.have_moov = true;
        }
        skip_payload(src, &header);
        let after = src.position();
        return (Ok(()), if after > pos { Some(after) } else { None });
    }
    if is_fourcc(&k, 0x6d, 0x6f, 0x6f, 0x66) {
        st.is_fragmented = true;
        let rm = parse_moof(src, &header);
        proof {
            assert(moof_parsed(bytes, header@, rm));
        }
        let summary = match rm {
            Ok(s) => s,
            Err(e) => return (Err(e), None),
        };
        let ghost start_counts = st.fragment_counts@;
        let ghost grm = Ok::<MoofSummary, ParseError>(summary);
        let ghost st0 = *st;
        let runs = &summary.track_runs;
        let mut i: usize = 0;
        assert(runs@.skip(0) =~= runs@);
        while i < runs.len()
            invariant
                i <= runs@.len(),
                add_runs(start_counts, runs@) == add_runs(st.fragment_counts@, runs@.skip(i as int)),
                *st == (TopLevel { fragment_counts: st.fragment_counts, ..st0 }),
            decreases runs@.len() - i,
        {
            let run = runs[i];
            let cur: u32 = match st.fragment_counts.get(&run.track_id) {
                Some(c) => *c,
                None => 0,
            };
            let sum = ((cur as u64 + run.sample_count as u64) % 0x1_0000_0000) as u32;
            let ghost m = st.fragment_counts@;
            st.fragment_counts.insert(run.track_id, sum);
            proof {
                assert(runs@.skip(i as int)[0] == run);
                assert(runs@.skip(i as int).drop_first() =~= runs@.skip(i + 1));
                assert(st.fragment_counts@ == m.insert(run.track_id, sum));
            }
            i = i + 1;
        }
        proof {
            assert(runs@.skip(i as int).len() == 0);
            assert(st.fragment_counts@ == add_runs(start_counts, runs@));
            assert(moof_parsed(bytes, header@, grm));
        }
        skip_payload(src, &header);
        let after = src.position();
        return (Ok(()), if after > pos { Some(after) } else { None });
    }
    if is_fourcc(&k, 0x6d, 0x64, 0x61, 0x74) {
        st.have_mdat = true;
        skip_payload(src, &header);
        let after = src.position();
        return (Ok(()), if after > pos { Some(after) } else { None });
    }
    if is_fourcc(&k, 0x66, 0x72, 0x65, 0x65) || is_fourcc(&k, 0x73, 0x6b, 0x69, 0x70)
        || is_fourcc(&k, 0x77, 0x69, 0x64, 0x65) || is_fourcc(&k, 0x70, 0x6e, 0x6f, 0x74)
        || is_fourcc(&k, 0x73, 0x69, 0x64, 0x78) || is_fourcc(&k, 0x70, 0x64, 0x69, 0x6e)
        || is_fourcc(&k, 0x6d, 0x66, 0x72, 0x61) || is_fourcc(&k, 0x75, 0x75, 0x69, 0x64) {
        skip_payload(src, &header);
        let after = src.position();
        return (Ok(()), if after > pos { Some(after) } else { None });
    }
    if is_fourcc(&k, 0x6d, 0x65, 0x74, 0x61) {
        let rc = parse_meta(src, &header, out);
        if rc.is_err() {
            return (rc, None);
        }
        skip_payload(src, &header);
        let after = src.position();
        return (rc, if after > pos { Some(after) } else { None });
    }
    if header.kind.is_human_readable() {
        skip_payload(src, &header);
        let after = src.position();
        return (Ok(()), if after > pos { Some(after) } else { None });
    }
    src.seek_to(pos);
    if resync_to_top_level_atom(src, Some(len)) {
        (Ok(()), Some(src.position()))
    } else {
        (Ok(()), None)
    }
}

/// The metadata after the walk: MP4 when no file type was read and the
/// format is still unknown, and recognised and supported.
pub open spec fn walk_completed(nm: MediaMetadata, have_filetype: bool) -> MediaMetadata {
    MediaMetadata {
        format: if !have_filetype && nm.format == ContainerFormat::Unknown {
            ContainerFormat::Mp4
        } else {
            nm.format
        },
        recognized: true,
        supported: true,
        ..nm
    }
}

/// What `read_headers` gives once the walk ended in `(n, nm)` with `rw`: the
/// walk's error; `Malformed` (offset 0) without a movie box or without a
/// media data box; otherwise the tracks assembled from the movie box into
/// the completed metadata.
pub open spec fn headers_outcome(
    n: TopLevel,
    nm: MediaMetadata,
    rw: Result<(), ParseError>,
    r: Result<(), ParseError>,
    fo: MediaMetadata,
) -> bool {
    match rw {
        Err(e) => r == Err::<(), ParseError>(e) && fo == nm,
        Ok(_) => if !n.have_moov || !n.have_mdat {
            r == Err::<(), ParseError>(ParseError::Malformed { offset: 0 }) && fo == nm
        } else {
            r is Ok && finalise_effect(n.moov, n.is_fragmented, n.fragment_counts@, walk_completed(nm, n.have_filetype), fo)
        },
    }
}

impl Mp4Reader {
    /// Name of the reader.
    pub fn name(&self) -> (r: &'static str)
        ensures
            r@ == "mp4"@,
    {
        "mp4"
    }

    /// Whether the data looks like an MP4 file: the eight bytes at the
    /// cursor are a box header of a type a file may start with.  The cursor
    /// is left at offset 0.
    pub fn probe(&self, src: &mut FileSource) -> (r: Result<bool, ParseError>)
        ensures
            final(src).bytes() == old(src).bytes(),
            final(src).pos() == 0,
            r == Ok::<bool, ParseError>(old(src).pos() + 8 <= old(src).bytes().len()
                && is_leading_kind(old(src).bytes().subrange(old(src).pos() + 4, old(src).pos() + 8))),
    {
        let ghost bytes = src.bytes();
        let ghost p = src.pos();
        let head = src.read_at_most(8);
        src.seek_to(0);
        if head.len() < 8 {
            return Ok(false);
        }
        let kind = [head[4], head[5], head[6], head[7]];
        proof {
            assert(kind@ =~= bytes.subrange(p + 4, p + 8));
        }
        Ok(is_leading_box(&kind))
    }

    /// Read the file: walk its top-level boxes from offset 0 (see
    /// [`top_walk`]), require a movie box and a media data box, and
    /// assemble the tracks into `out` (see [`headers_outcome`]).  No time
    /// limit is kept here: every walk is bounded by the data.
    pub fn read_headers(&self, src: &mut FileSource, out: &mut MediaMetadata) -> (r: Result<(), ParseError>)
        ensures
            final(src).bytes() == old(src).bytes(),
            exists|t0: TopLevel, n: TopLevel, nm: MediaMetadata, rw: Result<(), ParseError>|
                top_initial(t0) && #[trigger] top_walk(old(src).bytes(), 0, t0, *old(out), n, nm, rw)
                    && headers_outcome(n, nm, rw, r, *final(out)),
    {
        broadcast use vstd::std_specs::hash::group_hash_axioms;
        let ghost bytes = src.bytes();
        let ghost om = *out;
        let mut st = TopLevel {
            have_filetype: false,
            moov: MoovBuilder::default(),
            have_moov: false,
            have_mdat: false,
            is_fragmented: false,
            fragment_counts: HashMap::new(),
        };
        let ghost t0 = st;
        let len = src.length();
        src.seek_to(0);
        let mut pos: u64 = 0;
        let mut rw: Result<(), ParseError> = Ok(());
        loop
            invariant_except_break
                src.bytes() == bytes,
                len == bytes.len(),
                rw is Ok,
                forall|n: TopLevel, nm: MediaMetadata, r: Result<(), ParseError>|
                    #[trigger] top_walk(bytes, pos as int, st, *out, n, nm, r) ==> top_walk(bytes, 0, t0, om, n, nm, r),
            ensures
                src.bytes() == bytes,
                top_walk(bytes, 0, t0, om, st, *out, rw),
            decreases walk_measure(bytes, pos as int),
        {
            if pos >= len {
                proof {
                    assert(top_walk(bytes, pos as int, st, *out, st, *out, rw));
                }
                break;
            }
            src.seek_to(pos);
            let ghost before_st = st;
            let ghost before_out = *out;
            let (rc, next) = top_level_box(src, &mut st, out);
            if rc.is_err() {
                proof {
                    lemma_top_step(bytes, pos as int, before_st, before_out, st, *out, opt_pos(next), rc, st, *out, rc);
                }
                rw = rc;
                break;
            }
            match next {
                Some(q) => {
                    if q > pos {
                        proof {
                            assert forall|n: TopLevel, nm: MediaMetadata, r: Result<(), ParseError>|
                                #[trigger] top_walk(bytes, q as int, st, *out, n, nm, r)
                                    implies top_walk(bytes, 0, t0, om, n, nm, r) by {
                                lemma_top_step(bytes, pos as int, before_st, before_out, st, *out, opt_pos(next), rc, n, nm, r);
                            }
                        }
                        pos = q;
                    } else {
                        proof {
                            lemma_top_step(bytes, pos as int, before_st, before_out, st, *out, opt_pos(next), rc, st, *out, rc);
                        }
                        rw = rc;
                        break;
                    }
                },
                None => {
                    proof {
                        lemma_top_step(bytes, pos as int, before_st, before_out, st, *out, opt_pos(next), rc, st, *out, rc);
                    }
                    rw = rc;
                    break;
                },
            }
        }
        let ghost nm = *out;
        let ghost n = st;
        if let Err(e) = rw {
            return Err(e);
        }
        if !st.have_moov {
            return Err(ParseError::Malformed { offset: 0 });
        }
        if !st.have_mdat {
            return Err(ParseError::Malformed { offset: 0 });
        }
        if !st.have_filetype && out.format == ContainerFormat::Unknown {
            out.format = ContainerFormat::Mp4;
        }
        out.recognized = true;
        out.supported = true;
        proof {
            assert(*out == walk_completed(nm, n.have_filetype));
        }
        let TopLevel { moov, is_fragmented, fragment_counts, .. } = st;
        finalise(moov, is_fragmented, fragment_counts, out);
        Ok(())
    }
}

} // verus!
