//! The program stream reader: a probe for the start of a program stream,
//! and a walk over the packets at the start of the file that collects,
//! per elementary stream, its id, private-stream-1 sub-stream id, Program
//! Stream Map type and the first bytes of its elementary payload.

use vstd::prelude::*;
use crate::source::{FileSource, ParseError, be16, be16_at};
use super::packet::{self, start_code_at, start_code_of, StartCode, PACK_HEADER, PROGRAM_END_CODE, SYSTEM_HEADER};
use super::pes::{self, first_non_stuffing, payload_offset, pes_body_len, pes_payload_offset};
use super::stream_map::{self, psm_decode, entry_view, PsmEntry};
use super::identify::{
    finalise_prepared, observation_view, prep_class, prep_outcome, prepare_stream, prepared_effect, PayloadDecoder,
    Preparation, PreparedStream, StreamObservation,
};
use crate::codec::Codec;
use crate::model::MediaMetadata;

verus! {

/// Bytes read from the start of the file for the packet walk.
pub const PROBE_BYTES: usize = 10485760;
/// Bytes read from the start of the file by the probe.
pub const PROBE_SCAN: usize = 32768;
/// Elementary payload bytes kept per stream.
pub const STREAM_PAYLOAD_CAP: usize = 262144;
/// Streams recorded, in order of first appearance.
pub const MAX_STREAMS: usize = 64;
/// Start codes the walk handles at most.
pub const MAX_ITERATIONS: usize = 200000;

/// The reader for MPEG program streams.
#[derive(Debug, Default, Clone, Copy)]
pub struct MpegPsReader;

/// A start-code id of the packet layer (`0xB9` and up), as opposed to the
/// start codes of elementary streams that may occur inside a video payload.
pub open spec fn packet_layer(sid: u8) -> bool {
    sid >= 0xB9
}

/// Whether a start-code id belongs to the packet layer.
pub fn is_packet_layer(sid: u8) -> (r: bool)
    ensures
        r == packet_layer(sid),
{
    sid >= 0xB9
}

/// The offset of the first start code at or after `from`.
pub open spec fn next_start(bytes: Seq<u8>, from: int) -> Option<int>
    decreases bytes.len() - from,
{
    if from + 4 > bytes.len() {
        None
    } else if start_code_at(bytes, from) {
        Some(from)
    } else {
        next_start(bytes, from + 1)
    }
}

/// A start code found at or after `from` has a start code nowhere before
/// it from `from` on, and four bytes in the data.
pub proof fn lemma_next_start_found(bytes: Seq<u8>, from: int)
    requires
        next_start(bytes, from) is Some,
    ensures
        from <= next_start(bytes, from)->0,
        next_start(bytes, from)->0 + 4 <= bytes.len(),
        start_code_at(bytes, next_start(bytes, from)->0),
    decreases bytes.len() - from,
{
    if from + 4 <= bytes.len() && !start_code_at(bytes, from) {
        lemma_next_start_found(bytes, from + 1);
    }
}

proof fn lemma_next_start_is(bytes: Seq<u8>, from: int, p: int)
    requires
        from <= p,
        start_code_at(bytes, p),
        forall|j: int| from <= j < p ==> !start_code_at(bytes, j),
    ensures
        next_start(bytes, from) == Some(p),
    decreases p - from,
{
    if from < p {
        lemma_next_start_is(bytes, from + 1, p);
    }
}

proof fn lemma_next_start_none(bytes: Seq<u8>, from: int)
    requires
        forall|j: int| from <= j ==> !start_code_at(bytes, j),
    ensures
        next_start(bytes, from) is None,
    decreases bytes.len() - from,
{
    if from + 4 <= bytes.len() {
        lemma_next_start_none(bytes, from + 1);
    }
}

/// The first start code at or after `from` (see [`next_start`]), with its
/// id byte.
fn next_start_code(bytes: &[u8], from: usize) -> (r: Option<(usize, u8)>)
    ensures
        match r {
            Some((p, id)) => next_start(bytes@, from as int) == Some(p as int) && id == bytes@[p + 3]
                && p + 4 <= bytes@.len() && from <= p,
            None => next_start(bytes@, from as int) is None,
        },
{
    let r = packet::find_start_code(bytes, from);
    proof {
        match r {
            Some((p, id)) => lemma_next_start_is(bytes@, from as int, p as int),
            None => lemma_next_start_none(bytes@, from as int),
        }
    }
    r
}

/// The next packet-layer start code at or after `from`: elementary start
/// codes are stepped over; the end of the data when there is none.
pub open spec fn next_layer(bytes: Seq<u8>, from: int) -> int
    decreases bytes.len() - from,
{
    match next_start(bytes, from) {
        None => bytes.len() as int,
        Some(p) => if packet_layer(bytes[p + 3]) {
            p
        } else if from <= p && p + 4 <= bytes.len() {
            next_layer(bytes, p + 4)
        } else {
            bytes.len() as int
        },
    }
}

/// The next packet-layer start code lies between `from` and the end.
pub proof fn lemma_next_layer_bounds(bytes: Seq<u8>, from: int)
    requires
        0 <= from,
    ensures
        from <= next_layer(bytes, from) <= bytes.len() || next_layer(bytes, from) == bytes.len(),
        next_layer(bytes, from) <= bytes.len(),
    decreases bytes.len() - from,
{
    if let Some(p) = next_start(bytes, from) {
        lemma_next_start_found(bytes, from);
        if !packet_layer(bytes[p + 3]) {
            lemma_next_layer_bounds(bytes, p + 4);
        }
    }
}

/// The offset of the next packet-layer start code at or after `from` (see
/// [`next_layer`]).
pub fn next_packet_layer(bytes: &[u8], from: usize) -> (r: usize)
    ensures
        r == next_layer(bytes@, from as int),
{
    let n = bytes.len();
    let mut i = from;
    loop
        invariant
            n == bytes@.len(),
            from <= i,
            next_layer(bytes@, from as int) == next_layer(bytes@, i as int),
        decreases bytes@.len() - i,
    {
        match next_start_code(bytes, i) {
            Some((pos, sid)) => {
                if is_packet_layer(sid) {
                    return pos;
                }
                i = pos + 4;
            },
            None => {
                return n;
            },
        }
    }
}

/// The end of the packet at `pos` by its 16-bit length after the start
/// code, within the data; the end of the data when the length is cut off.
pub open spec fn length_end(bytes: Seq<u8>, pos: int) -> int {
    if pos + 6 > bytes.len() {
        bytes.len() as int
    } else if pos + 6 + be16(bytes, pos + 4) < bytes.len() {
        pos + 6 + be16(bytes, pos + 4)
    } else {
        bytes.len() as int
    }
}

/// The end of a packet whose 16-bit length follows its start code (see
/// [`length_end`]).
pub fn bounded_packet_end(bytes: &[u8], pos: usize) -> (r: usize)
    requires
        pos <= bytes@.len(),
    ensures
        r == length_end(bytes@, pos as int),
{
    if bytes.len() - pos < 6 {
        return bytes.len();
    }
    let len = be16_at(bytes, pos + 4) as usize;
    if len < bytes.len() - pos - 6 {
        pos + 6 + len
    } else {
        bytes.len()
    }
}

/// The end of the Program Stream Map at `pos` (see [`length_end`]).
pub fn program_stream_map_end(bytes: &[u8], pos: usize) -> (r: usize)
    requires
        pos <= bytes@.len(),
    ensures
        r == length_end(bytes@, pos as int),
{
    bounded_packet_end(bytes, pos)
}

/// The end of the pack header at `pos`: an MPEG-2 pack header (`01` in the
/// top bits of its fifth byte) is 14 bytes plus the stuffing length in the
/// low three bits of its fourteenth; an MPEG-1 one is 12 bytes; within the
/// data, the end of the data when cut off.
pub open spec fn pack_end(bytes: Seq<u8>, pos: int) -> int {
    let len = bytes.len() as int;
    if pos + 5 > len {
        len
    } else if bytes[pos + 4] / 64 == 1 {
        if pos + 14 > len {
            len
        } else if pos + 14 + bytes[pos + 13] % 8 < len {
            pos + 14 + bytes[pos + 13] % 8
        } else {
            len
        }
    } else if pos + 12 < len {
        pos + 12
    } else {
        len
    }
}

/// The end of the pack header at `pos` (see [`pack_end`]).
pub fn pack_header_end(bytes: &[u8], pos: usize) -> (r: usize)
    requires
        pos <= bytes@.len(),
    ensures
        r == pack_end(bytes@, pos as int),
{
    let n = bytes.len();
    if n - pos < 5 {
        return n;
    }
    if bytes[pos + 4] / 64 == 1 {
        if n - pos < 14 {
            return n;
        }
        let stuffing = (bytes[pos + 13] % 8) as usize;
        if stuffing < n - pos - 14 {
            pos + 14 + stuffing
        } else {
            n
        }
    } else if 12 < n - pos {
        pos + 12
    } else {
        n
    }
}


/// Where the packet walk stands: the offset it goes on from, the start
/// codes it has handled, the streams seen (stream id and private-stream-1
/// sub-stream id) in order of first appearance, their payloads, and per
/// stream id the Program Stream Map type (the first map entry for an id
/// wins).
pub struct PsWalk {
    pub offset: int,
    pub iterations: int,
    pub order: Seq<(u8, Option<u8>)>,
    pub payloads: Seq<Seq<u8>>,
    pub psm: Seq<Option<u8>>,
}

/// The walk before the first packet.
pub open spec fn walk_start() -> PsWalk {
    PsWalk {
        offset: 0,
        iterations: 0,
        order: Seq::empty(),
        payloads: Seq::empty(),
        psm: Seq::new(256, |i: int| None::<u8>),
    }
}

/// Program Stream Map types after recording the entries `es` in order,
/// each only for a stream id that has none yet.
pub open spec fn psm_fold(psm: Seq<Option<u8>>, es: Seq<(u8, u8, Seq<u8>)>) -> Seq<Option<u8>>
    decreases es.len(),
{
    if es.len() == 0 {
        psm
    } else {
        let m = psm_fold(psm, es.drop_last());
        let e = es.last();
        if m[e.1 as int] is None {
            m.update(e.1 as int, Some(e.0))
        } else {
            m
        }
    }
}

/// The step over a Program Stream Map at `pos`: its entries are recorded
/// when the map decodes, and the walk goes on after it.
pub open spec fn map_step(bytes: Seq<u8>, st: PsWalk, pos: int) -> PsWalk {
    let end = length_end(bytes, pos);
    let psm = match psm_decode(bytes.subrange(pos + 4, end)) {
        Some(es) => psm_fold(st.psm, es),
        None => st.psm,
    };
    PsWalk { offset: if end > pos + 4 { end } else { pos + 4 }, psm, ..st }
}

/// Bytes of framing after the sub-stream id of private stream 1: 4 for
/// TrueHD (`0xB0..=0xBF`), 3 for the other ids in `0x80..=0x8F` and
/// `0x98..=0xCF`, none otherwise.
pub open spec fn extra_skip(sub_id: Option<u8>) -> int {
    match sub_id {
        Some(s) => if (0x80 <= s <= 0x8F) || (0x98 <= s <= 0xCF) {
            if 0xB0 <= s <= 0xBF { 4 } else { 3 }
        } else {
            0
        },
        None => 0,
    }
}

/// The PES packet at `pos` with stream id `sid`: its sub-stream id (for
/// private stream 1, the first payload byte), where its elementary data
/// starts and ends, and where the walk goes on.  The packet ends at its
/// declared length, or, when that is zero, at the next packet-layer start
/// code after its header.
pub open spec fn pes_span(bytes: Seq<u8>, pos: int, sid: u8) -> (Option<u8>, int, int, int) {
    let len = bytes.len() as int;
    let pkt_len = if pos + 6 <= len { be16(bytes, pos + 4) } else { 0 };
    let po = pos + payload_offset(bytes.subrange(pos, len));
    let payload_abs = if po < len { po } else { len };
    let pkt_end = if pkt_len > 0 {
        if pos + 6 + pkt_len < len { pos + 6 + pkt_len } else { len }
    } else {
        next_layer(bytes, if payload_abs > pos + 4 { payload_abs } else { pos + 4 })
    };
    let sub_id = if sid == 0xBD && payload_abs < len { Some(bytes[payload_abs]) } else { None::<u8> };
    let ds = payload_abs + 1 + extra_skip(sub_id);
    let data_start = if sid == 0xBD { if ds < len { ds } else { len } } else { payload_abs };
    let pe = if pkt_end < len { pkt_end } else { len };
    let data_end = if pe > data_start { pe } else { data_start };
    (sub_id, data_start, data_end, if pkt_end > pos + 4 { pkt_end } else { pos + 4 })
}

/// The first index of `key` in `order`.
pub open spec fn key_index(order: Seq<(u8, Option<u8>)>, key: (u8, Option<u8>)) -> Option<int>
    decreases order.len(),
{
    if order.len() == 0 {
        None
    } else {
        match key_index(order.drop_last(), key) {
            Some(i) => Some(i),
            None => if order.last() == key { Some(order.len() - 1) } else { None },
        }
    }
}

/// A payload after appending the data from `ds` to `de`, as much as fits
/// under [`STREAM_PAYLOAD_CAP`].
pub open spec fn grown(p: Seq<u8>, bytes: Seq<u8>, ds: int, de: int) -> Seq<u8> {
    if p.len() < STREAM_PAYLOAD_CAP {
        let room = STREAM_PAYLOAD_CAP - p.len();
        let n = if room < de - ds { room } else { de - ds };
        p + bytes.subrange(ds, ds + n)
    } else {
        p
    }
}

/// The step over an audio, video or private-stream-1 packet at `pos`: its
/// data goes to its stream, which is recorded when new and fewer than
/// [`MAX_STREAMS`] are; the data of a stream beyond that is dropped.
pub open spec fn pes_step(bytes: Seq<u8>, st: PsWalk, pos: int, sid: u8) -> PsWalk {
    let (sub_id, ds, de, next) = pes_span(bytes, pos, sid);
    let key = (sid, sub_id);
    match key_index(st.order, key) {
        Some(i) => PsWalk { offset: next, payloads: st.payloads.update(i, grown(st.payloads[i], bytes, ds, de)), ..st },
        None => if st.order.len() < MAX_STREAMS {
            PsWalk {
                offset: next,
                order: st.order.push(key),
                payloads: st.payloads.push(grown(Seq::empty(), bytes, ds, de)),
                ..st
            }
        } else {
            PsWalk { offset: next, ..st }
        },
    }
}

/// The step over any other packet-layer start code: past a pack header,
/// past the end code, past other packets by their length.
pub open spec fn other_step(bytes: Seq<u8>, st: PsWalk, pos: int, sid: u8) -> PsWalk {
    let e = if sid == PACK_HEADER {
        pack_end(bytes, pos)
    } else if sid == PROGRAM_END_CODE {
        pos + 4
    } else {
        length_end(bytes, pos)
    };
    PsWalk { offset: if e > pos + 4 { e } else { pos + 4 }, ..st }
}

/// The step over the start code at `pos`; an elementary start code is only
/// stepped over.
pub open spec fn ps_step(bytes: Seq<u8>, st: PsWalk, pos: int) -> PsWalk {
    let sid = bytes[pos + 3];
    if !packet_layer(sid) {
        PsWalk { offset: pos + 4, ..st }
    } else {
        match start_code_of(sid) {
            StartCode::ProgramStreamMap => map_step(bytes, st, pos),
            StartCode::Audio(_) => pes_step(bytes, st, pos, sid),
            StartCode::Video(_) => pes_step(bytes, st, pos, sid),
            StartCode::PrivateStream1 => pes_step(bytes, st, pos, sid),
            _ => other_step(bytes, st, pos, sid),
        }
    }
}

/// The walk from `st` over the start codes from its offset on, at most
/// [`MAX_ITERATIONS`] of them in all.
pub open spec fn ps_walk(bytes: Seq<u8>, st: PsWalk) -> PsWalk
    decreases bytes.len() - st.offset,
{
    match next_start(bytes, st.offset) {
        None => st,
        Some(pos) => if st.iterations >= MAX_ITERATIONS {
            st
        } else {
            let n = ps_step(bytes, PsWalk { iterations: st.iterations + 1, ..st }, pos);
            if st.offset < n.offset <= bytes.len() {
                ps_walk(bytes, n)
            } else {
                n
            }
        },
    }
}

/// The streams a walk found, as stream id, sub-stream id, map type and
/// payload.
pub open spec fn walk_observations(st: PsWalk) -> Seq<(u8, Option<u8>, Option<u8>, Seq<u8>)> {
    Seq::new(
        st.order.len(),
        |i: int| (st.order[i].0, st.order[i].1, st.psm[st.order[i].0 as int], st.payloads[i]),
    )
}

/// The PES packet at `pos` (see [`pes_span`]).
fn packet_span(bytes: &[u8], pos: usize, sid: u8) -> (r: (Option<u8>, usize, usize, usize))
    requires
        pos + 4 <= bytes@.len(),
        start_code_at(bytes@, pos as int),
    ensures
        (r.0, r.1 as int, r.2 as int, r.3 as int) == pes_span(bytes@, pos as int, sid),
        r.1 <= r.2 <= bytes@.len(),
        pos + 4 <= r.3 <= bytes@.len(),
{
    let n = bytes.len();
    let pkt = vstd::slice::slice_subrange(bytes, pos, n);
    let pkt_len: usize = match pes::parse(pkt) {
        Ok(h) => h.packet_length as usize,
        Err(_) => 0,
    };
    assert(pkt_len == (if pos + 6 <= n { be16(bytes@, pos + 4) } else { 0 }));
    let payoff = pes_payload_offset(pkt);
    assert(payoff <= pkt@.len());
    let po = pos + payoff;
    let payload_abs = if po < n { po } else { n };
    let pkt_end = if pkt_len > 0 {
        if pkt_len < n - pos - 6 { pos + 6 + pkt_len } else { n }
    } else {
        let from = if payload_abs > pos + 4 { payload_abs } else { pos + 4 };
        proof { lemma_next_layer_bounds(bytes@, from as int); }
        next_packet_layer(bytes, from)
    };
    let sub_id = if sid == 0xBD && payload_abs < n { Some(bytes[payload_abs]) } else { None };
    let extra: usize = match sub_id {
        Some(s) => if (0x80 <= s && s <= 0x8F) || (0x98 <= s && s <= 0xCF) {
            if 0xB0 <= s && s <= 0xBF { 4 } else { 3 }
        } else {
            0
        },
        None => 0,
    };
    let data_start = if sid == 0xBD {
        if extra + 1 < n - payload_abs { payload_abs + 1 + extra } else { n }
    } else {
        payload_abs
    };
    let pe = if pkt_end < n { pkt_end } else { n };
    let data_end = if pe > data_start { pe } else { data_start };
    (sub_id, data_start, data_end, if pkt_end > pos + 4 { pkt_end } else { pos + 4 })
}

/// The first index of `key` in a prefix of `order` is its first index in
/// `order`.
proof fn lemma_key_index_prefix(order: Seq<(u8, Option<u8>)>, k: int, key: (u8, Option<u8>))
    requires
        0 <= k <= order.len(),
        key_index(order.subrange(0, k), key) is Some,
    ensures
        key_index(order, key) == key_index(order.subrange(0, k), key),
    decreases order.len() - k,
{
    if k == order.len() {
        assert(order.subrange(0, k) =~= order);
    } else {
        let d = order.drop_last();
        assert(d.subrange(0, k) =~= order.subrange(0, k));
        lemma_key_index_prefix(d, k, key);
    }
}

/// The first index of `key` in `order` (see [`key_index`]).
fn find_key(order: &Vec<(u8, Option<u8>)>, key: (u8, Option<u8>)) -> (r: Option<usize>)
    ensures
        match r {
            Some(i) => key_index(order@, key) == Some(i as int) && i < order@.len(),
            None => key_index(order@, key) is None,
        },
{
    let mut i: usize = 0;
    while i < order.len()
        invariant
            i <= order@.len(),
            key_index(order@.subrange(0, i as int), key) is None,
        decreases order@.len() - i,
    {
        let e = order[i];
        let same_sub = match (e.1, key.1) {
            (Some(a), Some(b)) => a == b,
            (None, None) => true,
            _ => false,
        };
        proof {
            assert(order@.subrange(0, i + 1).drop_last() =~= order@.subrange(0, i as int));
        }
        if e.0 == key.0 && same_sub {
            proof {
                assert(order@.subrange(0, i + 1).last() == key);
                lemma_key_index_prefix(order@, i + 1, key);
            }
            return Some(i);
        }
        i = i + 1;
    }
    assert(order@.subrange(0, order@.len() as int) =~= order@);
    None
}

/// Appends to `p` the data from `ds` to `de` as [`grown`] says.
fn grow(p: &mut Vec<u8>, bytes: &[u8], ds: usize, de: usize)
    requires
        ds <= de <= bytes@.len(),
    ensures
        final(p)@ == grown(old(p)@, bytes@, ds as int, de as int),
{
    if p.len() < STREAM_PAYLOAD_CAP {
        let room = STREAM_PAYLOAD_CAP - p.len();
        let n = if room < de - ds { room } else { de - ds };
        let mut chunk = vstd::slice::slice_to_vec(vstd::slice::slice_subrange(bytes, ds, ds + n));
        p.append(&mut chunk);
    }
}

/// Records the entries of a Program Stream Map (see [`psm_fold`]).
fn record_map(psm: &mut Vec<Option<u8>>, entries: &Vec<PsmEntry>)
    requires
        old(psm)@.len() == 256,
    ensures
        final(psm)@ == psm_fold(old(psm)@, entries@.map_values(|e: PsmEntry| entry_view(e))),
        final(psm)@.len() == 256,
{
    let ghost es = entries@.map_values(|e: PsmEntry| entry_view(e));
    let mut i: usize = 0;
    while i < entries.len()
        invariant
            i <= entries@.len(),
            es == entries@.map_values(|e: PsmEntry| entry_view(e)),
            psm@.len() == 256,
            psm@ == psm_fold(old(psm)@, es.subrange(0, i as int)),
        decreases entries@.len() - i,
    {
        let id = entries[i].elementary_stream_id as usize;
        let st = entries[i].stream_type;
        proof {
            assert(es.subrange(0, i + 1).drop_last() =~= es.subrange(0, i as int));
            assert(es.subrange(0, i + 1).last() == entry_view(entries@[i as int]));
        }
        if psm[id].is_none() {
            psm.set(id, Some(st));
        }
        i = i + 1;
    }
    assert(es.subrange(0, entries@.len() as int) =~= es);
}

/// The walk state held by the reader's variables.
pub open spec fn walk_of(
    offset: usize,
    iterations: usize,
    order: Seq<(u8, Option<u8>)>,
    payloads: Seq<Vec<u8>>,
    psm: Seq<Option<u8>>,
) -> PsWalk {
    PsWalk {
        offset: offset as int,
        iterations: iterations as int,
        order,
        payloads: payloads.map_values(|v: Vec<u8>| v@),
        psm,
    }
}

/// Walks the packets of `bytes` and returns the streams found, in order of
/// first appearance, each with its sub-stream id, map type and payload
/// (see [`ps_walk`]).
pub fn collect_streams(bytes: &[u8]) -> (r: Vec<StreamObservation>)
    ensures
        r@.map_values(|o: StreamObservation| observation_view(o)) == walk_observations(ps_walk(bytes@, walk_start())),
{
    let n = bytes.len();
    let mut psm: Vec<Option<u8>> = Vec::new();
    let mut k: usize = 0;
    while k < 256
        invariant
            k <= 256,
            psm@ == Seq::new(k as nat, |i: int| None::<u8>),
        decreases 256 - k,
    {
        psm.push(None);
        k = k + 1;
        assert(psm@ =~= Seq::new(k as nat, |i: int| None::<u8>));
    }
    let mut offset: usize = 0;
    let mut iterations: usize = 0;
    let mut order: Vec<(u8, Option<u8>)> = Vec::new();
    let mut payloads: Vec<Vec<u8>> = Vec::new();
    assert(walk_of(offset, iterations, order@, payloads@, psm@) == walk_start()) by {
        assert(payloads@.map_values(|v: Vec<u8>| v@) =~= Seq::<Seq<u8>>::empty());
    }
    loop
        invariant
            n == bytes@.len(),
            offset <= n,
            iterations <= MAX_ITERATIONS,
            order@.len() == payloads@.len(),
            order@.len() <= MAX_STREAMS,
            psm@.len() == 256,
            ps_walk(bytes@, walk_start()) == ps_walk(bytes@, walk_of(offset, iterations, order@, payloads@, psm@)),
        ensures
            order@.len() == payloads@.len(),
            psm@.len() == 256,
            ps_walk(bytes@, walk_start()) == walk_of(offset, iterations, order@, payloads@, psm@),
        decreases n - offset,
    {
        let ghost before = walk_of(offset, iterations, order@, payloads@, psm@);
        let found = next_start_code(bytes, offset);
        let (pos, sid) = match found {
            Some(f) => f,
            None => {
                break;
            },
        };
        if iterations >= MAX_ITERATIONS {
            break;
        }
        proof {
            lemma_next_start_found(bytes@, offset as int);
        }
        iterations = iterations + 1;
        let ghost counted = PsWalk { iterations: before.iterations + 1, ..before };
        assert(walk_of(offset, iterations, order@, payloads@, psm@) == counted);
        if !is_packet_layer(sid) {
            offset = pos + 4;
        } else {
            match StartCode::from_byte(sid) {
                StartCode::ProgramStreamMap => {
                    let end = program_stream_map_end(bytes, pos);
                    let body = vstd::slice::slice_subrange(bytes, pos + 4, end);
                    match stream_map::parse(body) {
                        Ok(m) => {
                            record_map(&mut psm, &m.entries);
                        },
                        Err(_) => {},
                    }
                    offset = if end > pos + 4 { end } else { pos + 4 };
                    assert(walk_of(offset, iterations, order@, payloads@, psm@) == map_step(bytes@, counted, pos as int));
                },
                StartCode::Audio(_) | StartCode::Video(_) | StartCode::PrivateStream1 => {
                    let (sub_id, ds, de, next) = packet_span(bytes, pos, sid);
                    let key = (sid, sub_id);
                    let ghost views = payloads@.map_values(|v: Vec<u8>| v@);
                    match find_key(&order, key) {
                        Some(i) => {
                            let mut p = payloads.remove(i);
                            grow(&mut p, bytes, ds, de);
                            payloads.insert(i, p);
                            assert(payloads@.map_values(|v: Vec<u8>| v@) =~= views.update(i as int, grown(views[i as int], bytes@, ds as int, de as int)));
                        },
                        None => {
                            if order.len() < MAX_STREAMS {
                                order.push(key);
                                let mut p: Vec<u8> = Vec::new();
                                grow(&mut p, bytes, ds, de);
                                payloads.push(p);
                                assert(payloads@.map_values(|v: Vec<u8>| v@) =~= views.push(grown(Seq::empty(), bytes@, ds as int, de as int)));
                            }
                        },
                    }
                    offset = next;
                    assert(walk_of(offset, iterations, order@, payloads@, psm@) == pes_step(bytes@, counted, pos as int, sid));
                },
                _ => {
                    let e = if sid == PACK_HEADER {
                        pack_header_end(bytes, pos)
                    } else if sid == PROGRAM_END_CODE {
                        pos + 4
                    } else {
                        bounded_packet_end(bytes, pos)
                    };
                    offset = if e > pos + 4 { e } else { pos + 4 };
                },
            }
        }
        assert(walk_of(offset, iterations, order@, payloads@, psm@) == ps_step(bytes@, counted, pos as int));
    }
    let ghost fin = walk_of(offset, iterations, order@, payloads@, psm@);
    let mut out: Vec<StreamObservation> = Vec::new();
    let mut i: usize = 0;
    let count = order.len();
    while i < count
        invariant
            count == order@.len(),
            order@.len() == payloads@.len(),
            i <= count,
            psm@.len() == 256,
            out@.len() == i,
            forall|j: int| 0 <= j < i ==> observation_view(#[trigger] out@[j]) == walk_observations(walk_of(offset, iterations, order@, payloads@, psm@))[j],
        decreases count - i,
    {
        let (stream_id, sub_id) = order[i];
        let payload = payloads[i].clone();
        out.push(StreamObservation {
            stream_id,
            sub_id,
            psm_stream_type: psm[stream_id as usize],
            payload,
        });
        i = i + 1;
    }
    assert(out@.map_values(|o: StreamObservation| observation_view(o)) =~= walk_observations(fin));
    out
}

/// The probe's scan from `i`: start codes are found one after another,
/// each search resuming four bytes after the last code found, until both a
/// system header and a pack header have been seen or the codes run out.
pub open spec fn probe_scan(bytes: Seq<u8>, i: int, system_header: bool, pack: bool) -> bool
    decreases bytes.len() - i,
{
    if system_header && pack {
        true
    } else if i + 4 > bytes.len() {
        false
    } else {
        match next_start(bytes, i) {
            None => false,
            Some(p) => if i <= p && p + 4 <= bytes.len() {
                probe_scan(bytes, p + 4, system_header || bytes[p + 3] == SYSTEM_HEADER, pack || bytes[p + 3] == PACK_HEADER)
            } else {
                false
            },
        }
    }
}

/// Whether the first bytes of a file look like a program stream: they
/// start with a pack header start code, or hold both a system header and
/// a pack header start code (see [`probe_scan`]).
pub open spec fn looks_like_ps(head: Seq<u8>) -> bool {
    head.len() >= 4 && ((head[0] == 0 && head[1] == 0 && head[2] == 1 && head[3] == PACK_HEADER)
        || probe_scan(head, 0, false, false))
}

/// The bytes a read of at most `n` bytes at the cursor of a source over
/// `bytes` at `pos` gives.
pub open spec fn window(bytes: Seq<u8>, pos: int, n: int) -> Seq<u8> {
    if pos >= bytes.len() {
        Seq::empty()
    } else if pos + n <= bytes.len() {
        bytes.subrange(pos, pos + n)
    } else {
        bytes.subrange(pos, bytes.len() as int)
    }
}

/// Whether `bytes` look like a program stream (see [`looks_like_ps`]).
pub fn probe_bytes(bytes: &[u8]) -> (r: bool)
    ensures
        r == looks_like_ps(bytes@),
{
    let n = bytes.len();
    if n < 4 {
        return false;
    }
    if bytes[0] == 0 && bytes[1] == 0 && bytes[2] == 1 && bytes[3] == PACK_HEADER {
        return true;
    }
    let mut system_header = false;
    let mut pack = false;
    let mut i: usize = 0;
    while i <= n - 4 && (!system_header || !pack)
        invariant
            n == bytes@.len(),
            n >= 4,
            !(bytes@[0] == 0 && bytes@[1] == 0 && bytes@[2] == 1 && bytes@[3] == PACK_HEADER),
            probe_scan(bytes@, 0, false, false) == probe_scan(bytes@, i as int, system_header, pack),
        decreases n - i,
    {
        match next_start_code(bytes, i) {
            Some((pos, sid)) => {
                if sid == SYSTEM_HEADER {
                    system_header = true;
                } else if sid == PACK_HEADER {
                    pack = true;
                }
                i = pos + 4;
            },
            None => {
                return false;
            },
        }
    }
    system_header && pack
}

impl MpegPsReader {
    /// Name of the reader.
    pub fn name(&self) -> (r: &'static str)
        ensures
            r@ == "mpeg_ps"@,
    {
        "mpeg_ps"
    }

    /// Whether the data looks like a program stream: the first
    /// [`PROBE_SCAN`] bytes from the cursor are judged by
    /// [`looks_like_ps`].  The cursor is left at offset 0.
    pub fn probe(&self, src: &mut FileSource) -> (r: Result<bool, ParseError>)
        ensures
            final(src).bytes() == old(src).bytes(),
            final(src).pos() == 0,
            r == Ok::<bool, ParseError>(looks_like_ps(window(old(src).bytes(), old(src).pos(), PROBE_SCAN as int))),
    {
        let head = src.read_at_most(PROBE_SCAN as u64);
        src.seek_to(0);
        Ok(probe_bytes(head.as_slice()))
    }

    /// Walk the packets in the first [`PROBE_BYTES`] of the file (see
    /// [`collect_streams`]); `Unrecognised` when the file has fewer than
    /// four bytes.
    pub fn read_streams(&self, src: &mut FileSource) -> (r: Result<Vec<StreamObservation>, ParseError>)
        ensures
            final(src).bytes() == old(src).bytes(),
            ({
                let head = window(old(src).bytes(), 0, PROBE_BYTES as int);
                &&& head.len() < 4 ==> r == Err::<Vec<StreamObservation>, ParseError>(ParseError::Unrecognised)
                &&& head.len() >= 4 ==> (r matches Ok(v) && v@.map_values(|o: StreamObservation| observation_view(o))
                    == walk_observations(ps_walk(head, walk_start())))
            }),
    {
        src.seek_to(0);
        let head = src.read_at_most(PROBE_BYTES as u64);
        if head.len() < 4 {
            return Err(ParseError::Unrecognised);
        }
        Ok(collect_streams(head.as_slice()))
    }
}

/// The walk's state is well formed: one payload per stream, at most
/// [`MAX_STREAMS`] streams, no stream twice, no payload over
/// [`STREAM_PAYLOAD_CAP`], a map type slot per stream id.
pub open spec fn walk_wf(st: PsWalk) -> bool {
    &&& st.order.len() == st.payloads.len()
    &&& st.order.len() <= MAX_STREAMS
    &&& st.psm.len() == 256
    &&& forall|i: int, j: int| 0 <= i < j < st.order.len() ==> st.order[i] != st.order[j]
    &&& forall|i: int| 0 <= i < st.payloads.len() ==> #[trigger] st.payloads[i].len() <= STREAM_PAYLOAD_CAP
}

proof fn lemma_key_index(order: Seq<(u8, Option<u8>)>, key: (u8, Option<u8>))
    ensures
        key_index(order, key) matches Some(i) ==> 0 <= i < order.len() && order[i] == key,
        key_index(order, key) is None ==> forall|i: int| 0 <= i < order.len() ==> order[i] != key,
    decreases order.len(),
{
    if order.len() > 0 {
        let d = order.drop_last();
        lemma_key_index(d, key);
        assert forall|i: int| 0 <= i < order.len() - 1 implies order[i] == d[i] by {}
    }
}

proof fn lemma_psm_fold_len(psm: Seq<Option<u8>>, es: Seq<(u8, u8, Seq<u8>)>)
    requires
        psm.len() == 256,
    ensures
        psm_fold(psm, es).len() == 256,
    decreases es.len(),
{
    if es.len() > 0 {
        lemma_psm_fold_len(psm, es.drop_last());
    }
}

proof fn lemma_first_non_stuffing(bytes: Seq<u8>, from: int, to: int)
    ensures
        first_non_stuffing(bytes, from, to) matches Some(q) ==> from <= q < to,
    decreases to - from,
{
    if from < to && bytes[from] == 0xFF {
        lemma_first_non_stuffing(bytes, from + 1, to);
    }
}

proof fn lemma_payload_offset(bytes: Seq<u8>)
    ensures
        0 <= payload_offset(bytes) <= bytes.len(),
{
    if bytes.len() >= 7 {
        let end = 6 + pes_body_len(bytes);
        lemma_first_non_stuffing(bytes, 6, end);
    }
}

/// The data of a PES packet lies within the bytes, and the walk goes on
/// after its start code.
pub proof fn lemma_pes_span_bounds(bytes: Seq<u8>, pos: int, sid: u8)
    requires
        0 <= pos,
        pos + 4 <= bytes.len(),
    ensures
        ({
            let (_, ds, de, next) = pes_span(bytes, pos, sid);
            0 <= ds <= de <= bytes.len() && pos + 4 <= next <= bytes.len()
        }),
{
    let len = bytes.len() as int;
    lemma_payload_offset(bytes.subrange(pos, len));
    let po = pos + payload_offset(bytes.subrange(pos, len));
    let payload_abs = if po < len { po } else { len };
    lemma_next_layer_bounds(bytes, if payload_abs > pos + 4 { payload_abs } else { pos + 4 });
}

proof fn lemma_ps_step_wf(bytes: Seq<u8>, st: PsWalk, pos: int)
    requires
        walk_wf(st),
        0 <= pos,
        pos + 4 <= bytes.len(),
    ensures
        walk_wf(ps_step(bytes, st, pos)),
{
    let sid = bytes[pos + 3];
    if packet_layer(sid) {
        match start_code_of(sid) {
            StartCode::ProgramStreamMap => {
                let end = length_end(bytes, pos);
                if let Some(es) = psm_decode(bytes.subrange(pos + 4, end)) {
                    lemma_psm_fold_len(st.psm, es);
                }
            },
            StartCode::Audio(_) | StartCode::Video(_) | StartCode::PrivateStream1 => {
                let (sub_id, ds, de, next) = pes_span(bytes, pos, sid);
                let key = (sid, sub_id);
                lemma_pes_span_bounds(bytes, pos, sid);
                lemma_key_index(st.order, key);
                let n = pes_step(bytes, st, pos, sid);
                match key_index(st.order, key) {
                    Some(i) => {
                        assert(grown(st.payloads[i], bytes, ds, de).len() <= STREAM_PAYLOAD_CAP);
                        assert forall|k: int| 0 <= k < n.payloads.len() implies #[trigger] n.payloads[k].len() <= STREAM_PAYLOAD_CAP by {
                            if k != i {
                                assert(n.payloads[k] == st.payloads[k]);
                            }
                        }
                    },
                    None => {
                        if st.order.len() < MAX_STREAMS {
                            assert(grown(Seq::empty(), bytes, ds, de).len() <= STREAM_PAYLOAD_CAP);
                            assert forall|k: int| 0 <= k < n.payloads.len() implies #[trigger] n.payloads[k].len() <= STREAM_PAYLOAD_CAP by {
                                if k < st.payloads.len() {
                                    assert(n.payloads[k] == st.payloads[k]);
                                }
                            }
                            assert forall|a: int, b: int| 0 <= a < b < n.order.len() implies n.order[a] != n.order[b] by {
                                if b < st.order.len() {
                                    assert(n.order[a] == st.order[a] && n.order[b] == st.order[b]);
                                } else {
                                    assert(n.order[b] == key);
                                    assert(n.order[a] == st.order[a]);
                                }
                            }
                        }
                    },
                }
            },
            _ => {},
        }
    }
}

proof fn lemma_ps_walk_wf(bytes: Seq<u8>, st: PsWalk)
    requires
        walk_wf(st),
        0 <= st.offset,
    ensures
        walk_wf(ps_walk(bytes, st)),
    decreases bytes.len() - st.offset,
{
    if let Some(pos) = next_start(bytes, st.offset) {
        if st.iterations < MAX_ITERATIONS {
            lemma_next_start_found(bytes, st.offset);
            let c = PsWalk { iterations: st.iterations + 1, ..st };
            lemma_ps_step_wf(bytes, c, pos);
            let n = ps_step(bytes, c, pos);
            if st.offset < n.offset <= bytes.len() {
                lemma_ps_walk_wf(bytes, n);
            }
        }
    }
}

/// The packet walk reports each stream once: at most [`MAX_STREAMS`]
/// streams, no two with the same stream id and sub-stream id, and no
/// payload longer than [`STREAM_PAYLOAD_CAP`].
pub proof fn law_ps_streams_distinct(bytes: Seq<u8>)
    ensures
        ({
            let r = walk_observations(ps_walk(bytes, walk_start()));
            &&& r.len() <= MAX_STREAMS
            &&& forall|i: int, j: int| 0 <= i < j < r.len() ==> (r[i].0, r[i].1) != (r[j].0, r[j].1)
            &&& forall|i: int| 0 <= i < r.len() ==> #[trigger] r[i].3.len() <= STREAM_PAYLOAD_CAP
        }),
{
    lemma_ps_walk_wf(bytes, walk_start());
    let st = ps_walk(bytes, walk_start());
    let r = walk_observations(st);
    assert forall|i: int, j: int| 0 <= i < j < r.len() implies (r[i].0, r[i].1) != (r[j].0, r[j].1) by {
        assert(st.order[i] != st.order[j]);
        assert((r[i].0, r[i].1) == st.order[i]);
        assert((r[j].0, r[j].1) == st.order[j]);
    }
    assert forall|i: int| 0 <= i < r.len() implies #[trigger] r[i].3.len() <= STREAM_PAYLOAD_CAP by {
        assert(r[i].3 == st.payloads[i]);
    }
}

/// `ready` holds, in order, how the observations of `obs` that are ready
/// were prepared (see [`prep_outcome`]).
pub open spec fn ready_list(obs: Seq<(u8, Option<u8>, Option<u8>, Seq<u8>)>, ready: Seq<PreparedStream>) -> bool
    decreases obs.len(),
{
    if obs.len() == 0 {
        ready.len() == 0
    } else if prep_class(obs.last()) == 0 {
        &&& ready.len() > 0
        &&& prep_outcome(obs.last(), Preparation::Ready(ready.last()))
        &&& ready_list(obs.drop_last(), ready.drop_last())
    } else {
        ready_list(obs.drop_last(), ready)
    }
}

/// `pending` holds, in order, the observations of `obs` that need an
/// elementary stream decoder, each with its codec and decoder.
pub open spec fn pending_list(
    obs: Seq<(u8, Option<u8>, Option<u8>, Seq<u8>)>,
    pending: Seq<(StreamObservation, Codec, PayloadDecoder)>,
) -> bool
    decreases obs.len(),
{
    if obs.len() == 0 {
        pending.len() == 0
    } else if prep_class(obs.last()) == 2 {
        &&& pending.len() > 0
        &&& prep_outcome(obs.last(), Preparation::NeedsDecoder(pending.last().0, pending.last().1, pending.last().2))
        &&& pending_list(obs.drop_last(), pending.drop_last())
    } else {
        pending_list(obs.drop_last(), pending)
    }
}

proof fn lemma_prep_class(o: (u8, Option<u8>, Option<u8>, Seq<u8>), r: Preparation)
    requires
        prep_outcome(o, r),
    ensures
        r is Ready <==> prep_class(o) == 0,
        r is Dropped <==> prep_class(o) == 1,
        r is NeedsDecoder <==> prep_class(o) == 2,
{
}

impl MpegPsReader {
    /// Read the file: walk its packets (see [`MpegPsReader::read_streams`]),
    /// prepare each stream found for a track (see [`prepare_stream`]), and
    /// finalise the ready ones into `out` (see [`finalise_prepared`]).  The
    /// streams whose payload needs an elementary stream decoder are
    /// returned, in order, with their codecs and decoders.  `Unrecognised`,
    /// with `out` untouched, when the file has fewer than four bytes.  No
    /// time limit is kept here: the walk is bounded by its packet count.
    pub fn read_headers(&self, src: &mut FileSource, out: &mut MediaMetadata)
        -> (r: Result<Vec<(StreamObservation, Codec, PayloadDecoder)>, ParseError>)
        ensures
            final(src).bytes() == old(src).bytes(),
            ({
                let head = window(old(src).bytes(), 0, PROBE_BYTES as int);
                let obs = walk_observations(ps_walk(head, walk_start()));
                &&& head.len() < 4 ==> r == Err::<Vec<(StreamObservation, Codec, PayloadDecoder)>, ParseError>(
                    ParseError::Unrecognised) && *final(out) == *old(out)
                &&& head.len() >= 4 ==> (r matches Ok(pending) && pending_list(obs, pending@)
                    && exists|ready: Seq<PreparedStream>| #[trigger] ready_list(obs, ready)
                        && prepared_effect(ready, *old(out), *final(out)))
            }),
    {
        let ghost head = window(src.bytes(), 0, PROBE_BYTES as int);
        let streams = match self.read_streams(src) {
            Ok(v) => v,
            Err(e) => {
                return Err(e);
            },
        };
        let ghost all = streams@.map_values(|o: StreamObservation| observation_view(o));
        proof {
            law_ps_streams_distinct(head);
        }
        assert(all.len() <= MAX_STREAMS);
        let n = streams.len();
        let mut rest = streams;
        let mut ready: Vec<PreparedStream> = Vec::new();
        let mut pending: Vec<(StreamObservation, Codec, PayloadDecoder)> = Vec::new();
        let mut i: usize = 0;
        while i < n
            invariant
                n == all.len(),
                i <= n,
                rest@.map_values(|o: StreamObservation| observation_view(o)) == all.subrange(i as int, n as int),
                ready_list(all.subrange(0, i as int), ready@),
                pending_list(all.subrange(0, i as int), pending@),
                ready@.len() <= i,
            decreases n - i,
        {
            let ghost rv = rest@.map_values(|o: StreamObservation| observation_view(o));
            let ghost rold = rest@;
            assert(rest@.len() == rv.len());
            let o = rest.remove(0);
            assert(o == rold[0]);
            proof {
                assert(rv[0] == observation_view(o));
                assert(all.subrange(0, i + 1).drop_last() =~= all.subrange(0, i as int));
                assert(all.subrange(0, i + 1).last() == all[i as int]);
                assert(all[i as int] == rv[0]);
                assert(rest@ =~= rold.subrange(1, rold.len() as int));
                assert forall|j: int| 0 <= j < rest@.len() implies observation_view(#[trigger] rest@[j]) == all[i + 1 + j] by {
                    assert(rest@[j] == rold[j + 1]);
                    assert(rv[j + 1] == observation_view(rold[j + 1]));
                }
                assert(rest@.map_values(|o: StreamObservation| observation_view(o)) =~= all.subrange(i + 1, n as int));
            }
            let p = prepare_stream(o);
            proof {
                lemma_prep_class(all[i as int], p);
            }
            match p {
                Preparation::Ready(x) => {
                    let ghost before = ready@;
                    ready.push(x);
                    assert(ready@.drop_last() =~= before);
                },
                Preparation::Dropped => {},
                Preparation::NeedsDecoder(a, b, c) => {
                    let ghost before = pending@;
                    pending.push((a, b, c));
                    assert(pending@.drop_last() =~= before);
                },
            }
            i = i + 1;
        }
        assert(all.subrange(0, n as int) =~= all);
        let ghost rs = ready@;
        proof {
            assert(ready_list(all, rs));
        }
        finalise_prepared(ready, out);
        Ok(pending)
    }
}

} // verus!
