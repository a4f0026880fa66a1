//! `moov` box tree: movie header, tracks and their sub-boxes.

pub mod edts;
pub mod hdlr;
pub mod mdhd;
pub mod mdia;
pub mod mvhd;
pub mod stbl;
pub mod tkhd;
pub mod trak;

use vstd::prelude::*;
use crate::source::{FileSource, ParseError};
use crate::model::ContainerProperties;
use crate::mp4::atom::{
    BoxHeader, BoxHeaderView, children_of, fold_children, lemma_fold_step, payload_or_zero, stage, walk_children,
    walk_children_prefix, child_walk, fold_walk, lemma_fold_walk,
};
use crate::mp4::fragments::{self, TrexDefaults, mvex_steps};
use crate::mp4::moov::hdlr::{fourcc, is_fourcc};
use crate::mp4::moov::mvhd::{MovieHeader, mvhd_len, mvhd_matches};
use crate::mp4::moov::stbl::stsd::eof_err;
use crate::mp4::moov::trak::{TrackBuilder, trak_parsed};

verus! {

/// The identity display matrix: 1.0 on the diagonal (16.16 fixed point in
/// the first two columns, 2.30 in the third).
pub open spec fn identity_matrix_spec() -> [[i32; 3]; 3] {
    [[0x10000, 0, 0], [0, 0x10000, 0], [0, 0, 0x4000_0000]]
}

/// The identity display matrix.
pub fn identity_matrix() -> (m: [[i32; 3]; 3])
    ensures
        m == identity_matrix_spec(),
{
    [[0x10000, 0, 0], [0, 0x10000, 0], [0, 0, 0x4000_0000]]
}

/// Movie-level information gathered over a `moov` walk.
#[derive(Debug)]
pub struct MoovBuilder {
    pub timescale: Option<u32>,
    pub duration_units: Option<u64>,
    pub next_track_id: Option<u32>,
    pub tracks: Vec<TrackBuilder>,
    pub mvex_defaults: TrexDefaults,
    /// Display matrix of the movie header (identity until one is read).
    pub movie_matrix: [[i32; 3]; 3],
}

impl MoovBuilder {
    /// Nothing gathered yet.
    pub open spec fn is_empty(&self) -> bool {
        &&& self.timescale is None
        &&& self.duration_units is None
        &&& self.next_track_id is None
        &&& self.tracks@.len() == 0
        &&& self.mvex_defaults.entries@.len() == 0
        &&& self.movie_matrix == identity_matrix_spec()
    }
}

impl Default for MoovBuilder {
    fn default() -> (b: Self)
        ensures
            b.is_empty(),
    {
        MoovBuilder {
            timescale: None,
            duration_units: None,
            next_track_id: None,
            tracks: Vec::new(),
            mvex_defaults: TrexDefaults::default(),
            movie_matrix: identity_matrix(),
        }
    }
}

/// Duration in nanoseconds of `units` at `timescale` ticks per second,
/// rounded down and kept to its low 64 bits.
pub open spec fn movie_duration_ns(units: u64, timescale: u32) -> u64 {
    ((units * 1_000_000_000 / timescale as int) % 0x1_0000_0000_0000_0000) as u64
}

impl MoovBuilder {
    /// Copy the movie timescale, and the duration when the timescale is not
    /// zero, into the container properties.
    pub fn finalise_container(&self, props: &mut ContainerProperties)
        ensures
            *final(props) == (ContainerProperties {
                movie_timescale: if self.timescale is Some { self.timescale } else { old(props).movie_timescale },
                duration_ns: match (self.timescale, self.duration_units) {
                    (Some(ts), Some(units)) => if ts > 0 {
                        Some(movie_duration_ns(units, ts))
                    } else {
                        old(props).duration_ns
                    },
                    _ => old(props).duration_ns,
                },
                ..*old(props)
            }),
    {
        if let Some(ts) = self.timescale {
            props.movie_timescale = Some(ts);
        }
        if let (Some(ts), Some(units)) = (self.timescale, self.duration_units) {
            if ts > 0 {
                let scaled = (units as u128) * 1_000_000_000;
                let ns = scaled / (ts as u128);
                props.duration_ns = Some((ns % 0x1_0000_0000_0000_0000) as u64);
            }
        }
    }
}

/// What the child `h` of `moov` does: the movie header gives timescale,
/// duration and next track id; each `trak` appends a track; `mvex` adds
/// the fragment defaults.
pub open spec fn moov_step(bytes: Seq<u8>, h: BoxHeaderView, o: MoovBuilder, n: MoovBuilder, r: Result<(), ParseError>) -> bool {
    let p = h.payload_start();
    if h.kind == fourcc(0x6d, 0x76, 0x68, 0x64) {
        if payload_or_zero(h) < 100 {
            r == Err::<(), ParseError>(ParseError::Malformed { offset: h.start as u64 }) && n == o
        } else if p + 1 > bytes.len() || p + mvhd_len(bytes[p]) > bytes.len() {
            eof_err(r) && n == o
        } else {
            r is Ok && exists|m: MovieHeader| #[trigger] mvhd_matches(bytes, p, m) && n == (MoovBuilder {
                timescale: Some(m.timescale),
                duration_units: Some(m.duration),
                next_track_id: Some(m.next_track_id),
                movie_matrix: m.matrix,
                ..o
            })
        }
    } else if h.kind == fourcc(0x74, 0x72, 0x61, 0x6b) {
        exists|rt: Result<TrackBuilder, ParseError>| #[trigger] stage(rt, Ok(())) && trak_parsed(bytes, h, rt) && match rt {
            Err(e) => r == Err::<(), ParseError>(e) && n == o,
            Ok(t) => r is Ok && n == (MoovBuilder { tracks: n.tracks, ..o }) && n.tracks@ == o.tracks@.push(t),
        }
    } else if h.kind == fourcc(0x6d, 0x76, 0x65, 0x78) {
        n == (MoovBuilder { mvex_defaults: n.mvex_defaults, ..o })
            && fold_walk(bytes, h, mvex_steps(), o.mvex_defaults, n.mvex_defaults, r)
    } else {
        r is Ok && n == o
    }
}

/// [`moov_step`] as a value.
pub open spec fn moov_steps() -> spec_fn(Seq<u8>, BoxHeaderView, MoovBuilder, MoovBuilder, Result<(), ParseError>) -> bool {
    |bytes: Seq<u8>, h: BoxHeaderView, o: MoovBuilder, n: MoovBuilder, r: Result<(), ParseError>| moov_step(bytes, h, o, n, r)
}

/// Handle the `moov` child `child` (cursor at its payload).
fn moov_child(src: &mut FileSource, child: &BoxHeader, builder: &mut MoovBuilder) -> (r: Result<(), ParseError>)
    requires
        child.wf(),
        old(src).pos() == child@.payload_start(),
    ensures
        final(src).bytes() == old(src).bytes(),
        moov_step(old(src).bytes(), child@, *old(builder), *final(builder), r),
{
    let k = &child.kind.0;
    if is_fourcc(k, 0x6d, 0x76, 0x68, 0x64) {
        let h = mvhd::parse(src, child)?;
        builder.timescale = Some(h.timescale);
        builder.duration_units = Some(h.duration);
        builder.next_track_id = Some(h.next_track_id);
        builder.movie_matrix = h.matrix;
        Ok(())
    } else if is_fourcc(k, 0x74, 0x72, 0x61, 0x6b) {
        let rt = trak::parse(src, child);
        proof {
            assert(stage(rt, Ok(())));
        }
        match rt {
            Err(e) => Err(e),
            Ok(track) => {
                builder.tracks.push(track);
                Ok(())
            },
        }
    } else if is_fourcc(k, 0x6d, 0x76, 0x65, 0x78) {
        fragments::parse_mvex(src, child, &mut builder.mvex_defaults)
    } else {
        Ok(())
    }
}

/// Parse a `moov` box into `builder`: its children in order, each as
/// [`moov_step`] says.
pub fn parse(src: &mut FileSource, parent: &BoxHeader, builder: &mut MoovBuilder) -> (r: Result<(), ParseError>)
    requires
        parent.wf(),
    ensures
        final(src).bytes() == old(src).bytes(),
        fold_walk(old(src).bytes(), parent@, moov_steps(), *old(builder), *final(builder), r),
{
    let (children, tail) = walk_children_prefix(src, parent);
    let ghost bytes = src.bytes();
    let ghost hs = children@.map_values(|h: BoxHeader| h@);
    let mut i: usize = 0;
    assert(hs.skip(0) =~= hs);
    while i < children.len()
        invariant
            src.bytes() == bytes,
            bytes == old(src).bytes(),
            child_walk(bytes, parent@).0 == hs,
            hs == children@.map_values(|h: BoxHeader| h@),
            forall|j: int| 0 <= j < children@.len() ==> (#[trigger] children@[j]).wf(),
            i <= children@.len(),
            forall|nn: MoovBuilder, rr: Result<(), ParseError>|
                #[trigger] fold_children(bytes, hs.skip(i as int), moov_steps(), *builder, nn, rr)
                    ==> fold_children(bytes, hs, moov_steps(), *old(builder), nn, rr),
        decreases children@.len() - i,
    {
        let child = children[i];
        let ghost before = *builder;
        src.seek_to(child.payload_start());
        let rc = moov_child(src, &child, builder);
        proof {
            let rest = hs.skip(i as int);
            assert(rest[0] == child@);
            assert(rest.drop_first() =~= hs.skip(i + 1));
            assert(moov_steps()(bytes, rest[0], before, *builder, rc));
        }
        if let Err(e) = rc {
            proof {
                lemma_fold_step(bytes, hs.skip(i as int), moov_steps(), before, *builder, rc, *builder, rc);
                lemma_fold_walk(bytes, parent@, moov_steps(), *old(builder), *builder, rc, rc);
            }
            return Err(e);
        }
        proof {
            let rest = hs.skip(i as int);
            assert forall|nn: MoovBuilder, rr: Result<(), ParseError>|
                #[trigger] fold_children(bytes, hs.skip(i + 1), moov_steps(), *builder, nn, rr)
                    implies fold_children(bytes, hs, moov_steps(), *old(builder), nn, rr) by {
                lemma_fold_step(bytes, rest, moov_steps(), before, *builder, rc, nn, rr);
            }
        }
        i = i + 1;
    }
    proof {
        assert(fold_children(bytes, hs.skip(i as int), moov_steps(), *builder, *builder, Ok(())));
    }
    proof {
        lemma_fold_walk(bytes, parent@, moov_steps(), *old(builder), *builder, Ok(()), tail);
    }
    tail
}

} // verus!
