//! Fragmented MP4: the per-track defaults of `moov/mvex/trex` and the
//! track fragments (`traf`: `tfhd` track id, `trun` sample counts) of a
//! top-level `moof`.

use vstd::prelude::*;
use crate::source::{FileSource, ParseError, be32};
use crate::mp4::atom::{
    BoxHeader, BoxHeaderView, children_of, fold_children, lemma_fold_step, payload_read, read_payload, stage,
    walk_children, walk_children_prefix, child_walk, fold_walk, lemma_fold_walk,
};
use crate::mp4::moov::hdlr::{fourcc, is_fourcc};

verus! {

/// One `trex` entry.
#[derive(Debug, Clone, Copy, PartialEq, Eq, Structural)]
pub struct TrexEntry {
    pub track_id: u32,
    pub default_sample_duration: u32,
    pub default_sample_size: u32,
}

/// The `trex` entries of `mvex`, in file order.
#[derive(Debug)]
pub struct TrexDefaults {
    pub entries: Vec<TrexEntry>,
}

impl Default for TrexDefaults {
    fn default() -> (d: Self)
        ensures
            d.entries@.len() == 0,
    {
        TrexDefaults { entries: Vec::new() }
    }
}

/// The default sample duration of the first entry for `track_id`.
pub open spec fn first_duration(entries: Seq<TrexEntry>, track_id: u32) -> Option<u32>
    decreases entries.len(),
{
    if entries.len() == 0 {
        None
    } else if entries[0].track_id == track_id {
        Some(entries[0].default_sample_duration)
    } else {
        first_duration(entries.drop_first(), track_id)
    }
}

impl TrexDefaults {
    /// The default sample duration declared for `track_id` (by its first
    /// entry), if any.
    pub fn default_duration_for(&self, track_id: u32) -> (r: Option<u32>)
        ensures
            r == first_duration(self.entries@, track_id),
    {
        let mut i: usize = 0;
        assert(self.entries@.skip(0) =~= self.entries@);
        while i < self.entries.len()
            invariant
                i <= self.entries@.len(),
                first_duration(self.entries@, track_id) == first_duration(self.entries@.skip(i as int), track_id),
            decreases self.entries@.len() - i,
        {
            assert(self.entries@.skip(i as int).drop_first() =~= self.entries@.skip(i + 1));
            if self.entries[i].track_id == track_id {
                return Some(self.entries[i].default_sample_duration);
            }
            i = i + 1;
        }
        None
    }
}

/// What the child `h` of `mvex` does: a `trex` with a payload of at least
/// 24 bytes (refused above 256) appends its track id, default sample
/// duration and size.
pub open spec fn mvex_step(bytes: Seq<u8>, h: BoxHeaderView, o: TrexDefaults, n: TrexDefaults, r: Result<(), ParseError>) -> bool {
    if h.kind == fourcc(0x74, 0x72, 0x65, 0x78) {
        match payload_read(bytes, h.payload_start(), h, 256) {
            Err(e) => r == Err::<(), ParseError>(e) && n == o,
            Ok(pl) => r is Ok && if pl.len() < 24 {
                n == o
            } else {
                n.entries@ == o.entries@.push(TrexEntry {
                    track_id: be32(pl, 4) as u32,
                    default_sample_duration: be32(pl, 12) as u32,
                    default_sample_size: be32(pl, 16) as u32,
                })
            },
        }
    } else {
        r is Ok && n == o
    }
}

/// [`mvex_step`] as a value.
pub open spec fn mvex_steps() -> spec_fn(Seq<u8>, BoxHeaderView, TrexDefaults, TrexDefaults, Result<(), ParseError>) -> bool {
    |bytes: Seq<u8>, h: BoxHeaderView, o: TrexDefaults, n: TrexDefaults, r: Result<(), ParseError>| mvex_step(bytes, h, o, n, r)
}

/// Parse `moov/mvex`: its `trex` children in order.
pub fn parse_mvex(src: &mut FileSource, parent: &BoxHeader, defaults: &mut TrexDefaults) -> (r: Result<(), ParseError>)
    requires
        parent.wf(),
    ensures
        final(src).bytes() == old(src).bytes(),
        fold_walk(old(src).bytes(), parent@, mvex_steps(), *old(defaults), *final(defaults), r),
{
    let (children, tail) = walk_children_prefix(src, parent);
    let ghost bytes = src.bytes();
    let ghost hs = children@.map_values(|h: BoxHeader| h@);
    let mut i: usize = 0;
    assert(hs.skip(0) =~= hs);
    while i < children.len()
        invariant
            src.bytes() == bytes,
            bytes == old(src).bytes(),
            child_walk(bytes, parent@).0 == hs,
            hs == children@.map_values(|h: BoxHeader| h@),
            forall|j: int| 0 <= j < children@.len() ==> (#[trigger] children@[j]).wf(),
            i <= children@.len(),
            forall|nn: TrexDefaults, rr: Result<(), ParseError>|
                #[trigger] fold_children(bytes, hs.skip(i as int), mvex_steps(), *defaults, nn, rr)
                    ==> fold_children(bytes, hs, mvex_steps(), *old(defaults), nn, rr),
        decreases children@.len() - i,
    {
        let child = children[i];
        let ghost before = *defaults;
        src.seek_to(child.payload_start());
        let rc = if is_fourcc(&child.kind.0, 0x74, 0x72, 0x65, 0x78) {
            match read_payload(src, &child, 256) {
                Err(e) => Err(e),
                Ok(payload) => {
                    let pl = payload.as_slice();
                    if pl.len() >= 24 {
                        defaults.entries.push(TrexEntry {
                            track_id: crate::source::be32_at(pl, 4),
                            default_sample_duration: crate::source::be32_at(pl, 12),
                            default_sample_size: crate::source::be32_at(pl, 16),
                        });
                    }
                    Ok(())
                },
            }
        } else {
            Ok(())
        };
        proof {
            let rest = hs.skip(i as int);
            assert(rest[0] == child@);
            assert(rest.drop_first() =~= hs.skip(i + 1));
            assert(mvex_steps()(bytes, rest[0], before, *defaults, rc));
        }
        if let Err(e) = rc {
            proof {
                lemma_fold_step(bytes, hs.skip(i as int), mvex_steps(), before, *defaults, rc, *defaults, rc);
                lemma_fold_walk(bytes, parent@, mvex_steps(), *old(defaults), *defaults, rc, rc);
            }
            return Err(e);
        }
        proof {
            let rest = hs.skip(i as int);
            assert forall|nn: TrexDefaults, rr: Result<(), ParseError>|
                #[trigger] fold_children(bytes, hs.skip(i + 1), mvex_steps(), *defaults, nn, rr)
                    implies fold_children(bytes, hs, mvex_steps(), *old(defaults), nn, rr) by {
                lemma_fold_step(bytes, rest, mvex_steps(), before, *defaults, rc, nn, rr);
            }
        }
        i = i + 1;
    }
    proof {
        assert(fold_children(bytes, hs.skip(i as int), mvex_steps(), *defaults, *defaults, Ok(())));
    }
    proof {
        lemma_fold_walk(bytes, parent@, mvex_steps(), *old(defaults), *defaults, Ok(()), tail);
    }
    tail
}

/// One track fragment: its track id and the total sample count of its
/// runs.
#[derive(Debug, Clone, Copy, PartialEq, Eq, Structural)]
pub struct TrackFragment {
    pub track_id: u32,
    pub sample_count: u32,
}

/// The track fragments of a `moof`, in file order.
#[derive(Debug)]
pub struct MoofSummary {
    pub track_runs: Vec<TrackFragment>,
}

/// What the child `h` of `traf` does to (track id, sample count): a `tfhd`
/// with at least 8 payload bytes (refused above 128) sets the track id; a
/// `trun` with at least 8 (refused above 16384) adds its sample count,
/// saturating.
pub open spec fn traf_step(bytes: Seq<u8>, h: BoxHeaderView, o: (Option<u32>, u32), n: (Option<u32>, u32), r: Result<(), ParseError>) -> bool {
    if h.kind == fourcc(0x74, 0x66, 0x68, 0x64) {
        match payload_read(bytes, h.payload_start(), h, 128) {
            Err(e) => r == Err::<(), ParseError>(e) && n == o,
            Ok(pl) => r is Ok && n == (if pl.len() >= 8 { (Some(be32(pl, 4) as u32), o.1) } else { o }),
        }
    } else if h.kind == fourcc(0x74, 0x72, 0x75, 0x6e) {
        match payload_read(bytes, h.payload_start(), h, 16384) {
            Err(e) => r == Err::<(), ParseError>(e) && n == o,
            Ok(pl) => r is Ok && n == (if pl.len() >= 8 {
                (o.0, (if o.1 + be32(pl, 4) > u32::MAX { u32::MAX as int } else { o.1 + be32(pl, 4) }) as u32)
            } else {
                o
            }),
        }
    } else {
        r is Ok && n == o
    }
}

/// [`traf_step`] as a value.
pub open spec fn traf_steps() -> spec_fn(Seq<u8>, BoxHeaderView, (Option<u32>, u32), (Option<u32>, u32), Result<(), ParseError>) -> bool {
    |bytes: Seq<u8>, h: BoxHeaderView, o: (Option<u32>, u32), n: (Option<u32>, u32), r: Result<(), ParseError>| traf_step(bytes, h, o, n, r)
}

/// The fragment a `traf` whose walk ended in `st` describes: present when
/// a track id was found.
pub open spec fn fragment_of(st: (Option<u32>, u32)) -> Option<TrackFragment> {
    match st.0 {
        Some(id) => Some(TrackFragment { track_id: id, sample_count: st.1 }),
        None => None,
    }
}

/// What parsing the `traf` box `h` gives.
pub open spec fn traf_parsed(bytes: Seq<u8>, h: BoxHeaderView, r: Result<Option<TrackFragment>, ParseError>) -> bool {
    match children_of(bytes, h) {
        Err(e) => r == Err::<Option<TrackFragment>, ParseError>(e),
        Ok(hs) => exists|st: (Option<u32>, u32), rc: Result<(), ParseError>|
            #[trigger] stage(st, rc) && fold_children(bytes, hs, traf_steps(), (None, 0u32), st, rc) && match rc {
                Err(e) => r == Err::<Option<TrackFragment>, ParseError>(e),
                Ok(_) => r == Ok::<Option<TrackFragment>, ParseError>(fragment_of(st)),
            },
    }
}

/// Parse a `traf` box: see [`traf_parsed`].
pub fn parse_traf(src: &mut FileSource, parent: &BoxHeader) -> (r: Result<Option<TrackFragment>, ParseError>)
    requires
        parent.wf(),
    ensures
        final(src).bytes() == old(src).bytes(),
        traf_parsed(old(src).bytes(), parent@, r),
{
    let children = walk_children(src, parent)?;
    let ghost bytes = src.bytes();
    let ghost hs = children@.map_values(|h: BoxHeader| h@);
    let mut track_id: Option<u32> = None;
    let mut sample_count: u32 = 0;
    let mut i: usize = 0;
    assert(hs.skip(0) =~= hs);
    while i < children.len()
        invariant
            src.bytes() == bytes,
            bytes == old(src).bytes(),
            children_of(bytes, parent@) == Ok::<Seq<BoxHeaderView>, ParseError>(hs),
            hs == children@.map_values(|h: BoxHeader| h@),
            forall|j: int| 0 <= j < children@.len() ==> (#[trigger] children@[j]).wf(),
            i <= children@.len(),
            forall|nn: (Option<u32>, u32), rr: Result<(), ParseError>|
                #[trigger] fold_children(bytes, hs.skip(i as int), traf_steps(), (track_id, sample_count), nn, rr)
                    ==> fold_children(bytes, hs, traf_steps(), (None, 0u32), nn, rr),
        decreases children@.len() - i,
    {
        let child = children[i];
        let ghost before = (track_id, sample_count);
        src.seek_to(child.payload_start());
        let k = &child.kind.0;
        let rc = if is_fourcc(k, 0x74, 0x66, 0x68, 0x64) {
            match read_payload(src, &child, 128) {
                Err(e) => Err(e),
                Ok(payload) => {
                    if payload.len() >= 8 {
                        track_id = Some(crate::source::be32_at(payload.as_slice(), 4));
                    }
                    Ok(())
                },
            }
        } else if is_fourcc(k, 0x74, 0x72, 0x75, 0x6e) {
            match read_payload(src, &child, 16384) {
                Err(e) => Err(e),
                Ok(payload) => {
                    if payload.len() >= 8 {
                        let count = crate::source::be32_at(payload.as_slice(), 4);
                        sample_count = if sample_count > u32::MAX - count { u32::MAX } else { sample_count + count };
                    }
                    Ok(())
                },
            }
        } else {
            Ok(())
        };
        let ghost after = (track_id, sample_count);
        proof {
            let rest = hs.skip(i as int);
            assert(rest[0] == child@);
            assert(rest.drop_first() =~= hs.skip(i + 1));
            assert(traf_steps()(bytes, rest[0], before, after, rc));
        }
        if let Err(e) = rc {
            proof {
                lemma_fold_step(bytes, hs.skip(i as int), traf_steps(), before, after, rc, after, rc);
                assert(fold_children(bytes, hs, traf_steps(), (None, 0u32), after, rc));
                assert(stage(after, rc));
            }
            return Err(e);
        }
        proof {
            let rest = hs.skip(i as int);
            assert forall|nn: (Option<u32>, u32), rr: Result<(), ParseError>|
                #[trigger] fold_children(bytes, hs.skip(i + 1), traf_steps(), after, nn, rr)
                    implies fold_children(bytes, hs, traf_steps(), (None, 0u32), nn, rr) by {
                lemma_fold_step(bytes, rest, traf_steps(), before, after, rc, nn, rr);
            }
        }
        i = i + 1;
    }
    let ghost fin = (track_id, sample_count);
    proof {
        assert(fold_children(bytes, hs.skip(i as int), traf_steps(), fin, fin, Ok(())));
        assert(fold_children(bytes, hs, traf_steps(), (None, 0u32), fin, Ok(())));
    }
    let r = match track_id {
        Some(id) => Ok(Some(TrackFragment { track_id: id, sample_count })),
        None => Ok(None),
    };
    proof {
        assert(r == Ok::<Option<TrackFragment>, ParseError>(fragment_of(fin)));
        assert(children_of(bytes, parent@) == Ok::<Seq<BoxHeaderView>, ParseError>(hs));
        assert(fold_children(bytes, hs, traf_steps(), (None, 0u32), fin, Ok(())));
        assert(stage(fin, Ok(())));
    }
    r
}

/// What the child `h` of `moof` does: a `traf` describing a fragment
/// appends it.
pub open spec fn moof_step(bytes: Seq<u8>, h: BoxHeaderView, o: MoofSummary, n: MoofSummary, r: Result<(), ParseError>) -> bool {
    if h.kind == fourcc(0x74, 0x72, 0x61, 0x66) {
        exists|rt: Result<Option<TrackFragment>, ParseError>| #[trigger] stage(rt, Ok(())) && traf_parsed(bytes, h, rt) && match rt {
            Err(e) => r == Err::<(), ParseError>(e) && n == o,
            Ok(f) => r is Ok && n.track_runs@ == match f {
                Some(x) => o.track_runs@.push(x),
                None => o.track_runs@,
            },
        }
    } else {
        r is Ok && n == o
    }
}

/// [`moof_step`] as a value.
pub open spec fn moof_steps() -> spec_fn(Seq<u8>, BoxHeaderView, MoofSummary, MoofSummary, Result<(), ParseError>) -> bool {
    |bytes: Seq<u8>, h: BoxHeaderView, o: MoofSummary, n: MoofSummary, r: Result<(), ParseError>| moof_step(bytes, h, o, n, r)
}

/// Parse a top-level `moof` box into the list of its track fragments.
pub fn parse_moof(src: &mut FileSource, parent: &BoxHeader) -> (r: Result<MoofSummary, ParseError>)
    requires
        parent.wf(),
    ensures
        final(src).bytes() == old(src).bytes(),
        match children_of(old(src).bytes(), parent@) {
            Err(e) => r is Err && r == Err::<MoofSummary, ParseError>(e),
            Ok(hs) => exists|s0: MoofSummary, s1: MoofSummary, rc: Result<(), ParseError>|
                #[trigger] stage((s0, s1), rc) && fold_children(old(src).bytes(), hs, moof_steps(), s0, s1, rc)
                    && s0.track_runs@.len() == 0
                    && match rc {
                        Err(e) => r is Err && r == Err::<MoofSummary, ParseError>(e),
                        Ok(_) => r matches Ok(s) && s == s1,
                    },
        },
{
    let children = walk_children(src, parent)?;
    let ghost bytes = src.bytes();
    let ghost hs = children@.map_values(|h: BoxHeader| h@);
    let mut summary = MoofSummary { track_runs: Vec::new() };
    let ghost s0 = summary;
    let mut i: usize = 0;
    assert(hs.skip(0) =~= hs);
    while i < children.len()
        invariant
            src.bytes() == bytes,
            bytes == old(src).bytes(),
            children_of(bytes, parent@) == Ok::<Seq<BoxHeaderView>, ParseError>(hs),
            hs == children@.map_values(|h: BoxHeader| h@),
            forall|j: int| 0 <= j < children@.len() ==> (#[trigger] children@[j]).wf(),
            i <= children@.len(),
            s0.track_runs@.len() == 0,
            forall|nn: MoofSummary, rr: Result<(), ParseError>|
                #[trigger] fold_children(bytes, hs.skip(i as int), moof_steps(), summary, nn, rr)
                    ==> fold_children(bytes, hs, moof_steps(), s0, nn, rr),
        decreases children@.len() - i,
    {
        let child = children[i];
        let ghost before = summary;
        src.seek_to(child.payload_start());
        let rc = if is_fourcc(&child.kind.0, 0x74, 0x72, 0x61, 0x66) {
            let rt = parse_traf(src, &child);
            proof {
                assert(traf_parsed(bytes, child@, rt));
                assert(stage(rt, Ok(())));
            }
            match rt {
                Err(e) => Err(e),
                Ok(f) => {
                    if let Some(frag) = f {
                        summary.track_runs.push(frag);
                    }
                    Ok(())
                },
            }
        } else {
            Ok(())
        };
        proof {
            let rest = hs.skip(i as int);
            assert(rest[0] == child@);
            assert(rest.drop_first() =~= hs.skip(i + 1));
            assert(moof_steps()(bytes, rest[0], before, summary, rc));
        }
        if let Err(e) = rc {
            proof {
                lemma_fold_step(bytes, hs.skip(i as int), moof_steps(), before, summary, rc, summary, rc);
                assert(fold_children(bytes, hs, moof_steps(), s0, summary, rc));
                assert(stage((s0, summary), rc));
            }
            return Err(e);
        }
        proof {
            let rest = hs.skip(i as int);
            assert forall|nn: MoofSummary, rr: Result<(), ParseError>|
                #[trigger] fold_children(bytes, hs.skip(i + 1), moof_steps(), summary, nn, rr)
                    implies fold_children(bytes, hs, moof_steps(), s0, nn, rr) by {
                lemma_fold_step(bytes, rest, moof_steps(), before, summary, rc, nn, rr);
            }
        }
        i = i + 1;
    }
    proof {
        assert(fold_children(bytes, hs.skip(i as int), moof_steps(), summary, summary, Ok(())));
        assert(fold_children(bytes, hs, moof_steps(), s0, summary, Ok(())));
        assert(stage((s0, summary), Ok(())));
    }
    Ok(summary)
}

} // verus!
