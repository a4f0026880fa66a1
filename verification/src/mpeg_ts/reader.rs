//! Pieces of the transport stream reader: the probe, the reassembly of
//! PSI sections from packet payloads, the Program Association Table's
//! program map PIDs, and the stripping of PES headers.

use vstd::prelude::*;
use std::collections::{HashMap, HashSet};
use crate::source::{FileSource, ParseError};
use super::packet::{self, detect_packet_size_aligned, detected, PacketHeader, header_of, payload_start};
use super::pat::{self, pat_decode, pat_length_underflows, PatEntry};
use super::pmt::{self, len12, pmt_decode, stream_view, PmtStreamEntry};
use super::descriptors::service::{self, service_full};
use super::identify::{EsEnrichment, RowProbe};
use super::stream_table::StreamRow;
use crate::text::str_eq;
use crate::model::SampleRate;
use crate::source::be16;

verus! {

/// Bytes read from the start of the file by the probe.
pub const PROBE_BYTES: usize = 16384;

/// The reader for MPEG transport streams.
#[derive(Debug, Default, Clone, Copy)]
pub struct MpegTsReader;

/// The bytes a read of at most `n` bytes at `pos` gives.
pub open spec fn window(bytes: Seq<u8>, pos: int, n: int) -> Seq<u8> {
    if pos >= bytes.len() {
        Seq::empty()
    } else if pos + n <= bytes.len() {
        bytes.subrange(pos, pos + n)
    } else {
        bytes.subrange(pos, bytes.len() as int)
    }
}

impl MpegTsReader {
    /// Name of the reader.
    pub fn name(&self) -> (r: &'static str)
        ensures
            r@ == "mpeg_ts"@,
    {
        "mpeg_ts"
    }

    /// Whether the data looks like a transport stream: the first
    /// [`PROBE_BYTES`] from the cursor hold at least one packet's worth of
    /// bytes and aligned sync bytes of some packet size (see [`detected`]).
    /// The cursor is left at offset 0.
    pub fn probe(&self, src: &mut FileSource) -> (r: Result<bool, ParseError>)
        ensures
            final(src).bytes() == old(src).bytes(),
            final(src).pos() == 0,
            ({
                let head = window(old(src).bytes(), old(src).pos(), PROBE_BYTES as int);
                r == Ok::<bool, ParseError>(head.len() >= 188 && detected(head) is Some)
            }),
    {
        let head = src.read_at_most(PROBE_BYTES as u64);
        src.seek_to(0);
        if head.len() < 188 {
            return Ok(false);
        }
        Ok(detect_packet_size_aligned(head.as_slice()).is_some())
    }
}

/// Reassembles PSI sections of one PID from its packets' payloads.
pub struct SectionAssembler {
    pub buf: Vec<u8>,
    pub last_cc: Option<u8>,
    pub in_progress: bool,
}

/// An assembler's state as values: buffered bytes, last continuity
/// counter, whether a section is under way.
pub type AssemblerView = (Seq<u8>, Option<u8>, bool);

/// The 12-bit section length of the section starting `buf`.
pub open spec fn section_len(buf: Seq<u8>) -> int {
    (buf[1] % 16) * 256 + buf[2]
}

/// The state and output after a section's bytes so far are `buf`: a whole
/// section when its declared length is there (the buffer then emptied),
/// else the bytes kept for later.
pub open spec fn completed(buf: Seq<u8>, last: Option<u8>) -> (AssemblerView, Option<Seq<u8>>) {
    if buf.len() >= 3 && buf.len() >= 3 + section_len(buf) {
        ((Seq::empty(), last, false), Some(buf.subrange(0, 3 + section_len(buf))))
    } else {
        ((buf, last, true), None)
    }
}

/// What feeding one packet does.  A continuity counter that is neither the
/// last one nor the one after it (modulo 16) drops a partial section.  A
/// packet starting a unit begins a new section after its pointer field
/// (ignored when the pointer runs past the payload or the payload is
/// empty); another packet continues a section under way and is ignored
/// otherwise.
pub open spec fn feed_step(st: AssemblerView, cc: u8, unit_start: bool, payload: Seq<u8>) -> (AssemblerView, Option<Seq<u8>>) {
    let lost = match st.1 {
        Some(last) => cc != (last + 1) % 16 && cc != last,
        None => false,
    };
    let buf = if lost { Seq::empty() } else { st.0 };
    let going = if lost { false } else { st.2 };
    let last = Some(cc);
    if unit_start {
        if payload.len() == 0 || 1 + payload[0] > payload.len() {
            ((buf, last, going), None)
        } else {
            completed(payload.subrange(1 + payload[0], payload.len() as int), last)
        }
    } else if going {
        completed(buf + payload, last)
    } else {
        ((buf, last, going), None)
    }
}

impl SectionAssembler {
    /// The state as values.
    pub open spec fn state(&self) -> AssemblerView {
        (self.buf@, self.last_cc, self.in_progress)
    }

    /// An assembler with nothing buffered and no packet seen.
    pub fn new() -> (a: Self)
        ensures
            a.state() == (Seq::<u8>::empty(), None::<u8>, false),
    {
        SectionAssembler { buf: Vec::new(), last_cc: None, in_progress: false }
    }

    /// Completes a section from the buffer when all of it is there.
    fn complete(&mut self) -> (r: Option<Vec<u8>>)
        requires
            old(self).in_progress,
        ensures
            (final(self).state(), match r { Some(v) => Some(v@), None => None::<Seq<u8>> })
                == completed(old(self).buf@, old(self).last_cc),
    {
        if self.buf.len() >= 3 {
            let section_length = ((self.buf[1] % 16) as usize) * 256 + self.buf[2] as usize;
            let total = 3 + section_length;
            if self.buf.len() >= total {
                let section = vstd::slice::slice_to_vec(vstd::slice::slice_subrange(self.buf.as_slice(), 0, total));
                self.buf = Vec::new();
                self.in_progress = false;
                return Some(section);
            }
        }
        None
    }

    /// Feed one packet's header and payload; a section is returned when one
    /// completes (see [`feed_step`]).
    pub fn feed(&mut self, header: &PacketHeader, payload: &[u8]) -> (r: Option<Vec<u8>>)
        ensures
            (final(self).state(), match r { Some(v) => Some(v@), None => None::<Seq<u8>> })
                == feed_step(old(self).state(), header.continuity_counter, header.payload_unit_start, payload@),
    {
        let cc = header.continuity_counter;
        if let Some(last) = self.last_cc {
            let expected = ((last as u32 + 1) % 16) as u8;
            if cc != expected && cc != last {
                self.buf = Vec::new();
                self.in_progress = false;
            }
        }
        self.last_cc = Some(cc);
        if header.payload_unit_start {
            if payload.len() == 0 {
                return None;
            }
            let start = 1 + payload[0] as usize;
            if start > payload.len() {
                return None;
            }
            self.buf = vstd::slice::slice_to_vec(vstd::slice::slice_subrange(payload, start, payload.len()));
            self.in_progress = true;
        } else if self.in_progress {
            let mut more = vstd::slice::slice_to_vec(payload);
            self.buf.append(&mut more);
        } else {
            return None;
        }
        self.complete()
    }
}

/// The program map PIDs after recording `es` in order into `m` (a later
/// entry for the same PID wins).
pub open spec fn pmt_pids_after(m: Map<u16, u16>, es: Seq<PatEntry>) -> Map<u16, u16>
    decreases es.len(),
{
    if es.len() == 0 {
        m
    } else {
        pmt_pids_after(m, es.drop_last()).insert(es.last().pmt_pid, es.last().program_number)
    }
}

/// Records the program map PID of every program of a PAT section (PID to
/// program number); a section that does not decode changes nothing.
pub fn handle_pat(section: &[u8], pmt_pids: &mut HashMap<u16, u16>)
    requires
        !pat_length_underflows(section@),
    ensures
        final(pmt_pids)@ == match pat_decode(section@) {
            Some((_, es)) => pmt_pids_after(old(pmt_pids)@, es),
            None => old(pmt_pids)@,
        },
{
    broadcast use vstd::std_specs::hash::group_hash_axioms;
    if let Ok(p) = pat::parse(section) {
        let ghost es = p.entries@;
        let mut i: usize = 0;
        while i < p.entries.len()
            invariant
                i <= es.len(),
                es == p.entries@,
                pmt_pids@ == pmt_pids_after(old(pmt_pids)@, es.subrange(0, i as int)),
            decreases es.len() - i,
        {
            let e = p.entries[i];
            pmt_pids.insert(e.pmt_pid, e.program_number);
            proof {
                assert(es.subrange(0, i + 1).drop_last() =~= es.subrange(0, i as int));
            }
            i = i + 1;
        }
        assert(es.subrange(0, es.len() as int) =~= es);
    }
}

/// The service names as values.
pub open spec fn sdt_view(m: Map<u16, (String, String)>) -> Map<u16, (Seq<char>, Seq<char>)> {
    m.map_values(|v: (String, String)| (v.0@, v.1@))
}

/// The smaller of two offsets.
pub open spec fn clamp(a: int, b: int) -> int {
    if a < b { a } else { b }
}

/// `m` after the descriptors of one service from `d` to `de`: the first
/// service descriptor that decodes names the service, unless the service
/// is named already; a descriptor running past `de` is cut at it.
pub open spec fn sdt_descs(s: Seq<u8>, d: int, de: int, sid: u16, m: Map<u16, (Seq<char>, Seq<char>)>) -> Map<u16, (Seq<char>, Seq<char>)>
    decreases de - d,
{
    if d < 0 || d + 2 > de {
        m
    } else {
        let be = clamp(d + 2 + s[d + 1], de);
        let m2 = if s[d] == 0x48 && !m.contains_key(sid) {
            match service_full(s.subrange(d + 2, be)) {
                Some(v) => m.insert(sid, v),
                None => m,
            }
        } else {
            m
        };
        sdt_descs(s, be, de, sid, m2)
    }
}

/// `m` after the services from `pos` to `end`: each is a service id, three
/// bytes, a 12-bit descriptor loop length and its descriptors (cut at
/// `end`).
pub open spec fn sdt_services(s: Seq<u8>, pos: int, end: int, m: Map<u16, (Seq<char>, Seq<char>)>) -> Map<u16, (Seq<char>, Seq<char>)>
    decreases end - pos,
{
    if pos < 0 || pos + 5 > end {
        m
    } else {
        let de = clamp(pos + 5 + len12(s, pos + 3), end);
        sdt_services(s, de, end, sdt_descs(s, pos + 5, de, be16(s, pos) as u16, m))
    }
}

/// Where the services of an SDT section end: before the CRC, at the
/// declared length or the section's end if nearer, not below 0.
pub open spec fn sdt_end(s: Seq<u8>) -> int {
    let e = clamp(3 + len12(s, 1), s.len() as int) - 4;
    if e < 0 { 0 } else { e }
}

/// `m` after a Service Description Table section: unchanged unless it is
/// table 0x42 with at least 12 bytes; the services start at byte 11.
pub open spec fn sdt_after(m: Map<u16, (Seq<char>, Seq<char>)>, s: Seq<u8>) -> Map<u16, (Seq<char>, Seq<char>)> {
    if s.len() < 12 || s[0] != 0x42 {
        m
    } else {
        sdt_services(s, 11, sdt_end(s), m)
    }
}

fn sdt_service_descriptors(section: &[u8], ds: usize, de: usize, sid: u16, sdt: &mut HashMap<u16, (String, String)>)
    requires
        ds <= de <= section@.len(),
    ensures
        sdt_view(final(sdt)@) == sdt_descs(section@, ds as int, de as int, sid, sdt_view(old(sdt)@)),
{
    broadcast use vstd::std_specs::hash::group_hash_axioms;
    let ghost s = section@;
    let mut d = ds;
    while d < de && de - d >= 2
        invariant_except_break
            sdt_descs(s, ds as int, de as int, sid, sdt_view(old(sdt)@)) == sdt_descs(s, d as int, de as int, sid, sdt_view(sdt@)),
        invariant
            s == section@,
            ds <= d <= de,
            de <= s.len(),
        ensures
            sdt_descs(s, ds as int, de as int, sid, sdt_view(old(sdt)@)) == sdt_view(sdt@),
        decreases de - d,
    {
        let tag = section[d];
        let len = section[d + 1] as usize;
        let be = if de - d - 2 < len { de } else { d + 2 + len };
        if tag == 0x48 && !sdt.contains_key(&sid) {
            proof {
                assert(!sdt_view(sdt@).contains_key(sid));
            }
            if let Some(v) = service::decode_full(vstd::slice::slice_subrange(section, d + 2, be)) {
                let ghost before = sdt@;
                sdt.insert(sid, v);
                proof {
                    assert(sdt_view(sdt@) =~= sdt_view(before).insert(sid, (v.0@, v.1@)));
                }
            }
        } else {
            proof {
                if tag == 0x48 {
                    assert(sdt_view(sdt@).contains_key(sid));
                }
            }
        }
        d = be;
    }
}

/// Record the provider and service name of every service of a Service
/// Description Table section whose service is not named yet (see
/// [`sdt_after`]).
pub fn handle_sdt(section: &[u8], sdt: &mut HashMap<u16, (String, String)>)
    ensures
        sdt_view(final(sdt)@) == sdt_after(sdt_view(old(sdt)@), section@),
{
    if section.len() < 12 || section[0] != 0x42 {
        return;
    }
    let ghost s = section@;
    let section_length = ((section[1] % 16) as usize) * 256 + section[2] as usize;
    let declared = 3 + section_length;
    let limit = if declared < section.len() { declared } else { section.len() };
    let end = if limit < 4 { 0 } else { limit - 4 };
    assert(end == sdt_end(s));
    let mut pos: usize = 11;
    while pos < end && end - pos >= 5
        invariant_except_break
            sdt_services(s, 11, end as int, sdt_view(old(sdt)@)) == sdt_services(s, pos as int, end as int, sdt_view(sdt@)),
        invariant
            s == section@,
            11 <= pos,
            end <= s.len(),
            pos <= end || pos == 11,
        ensures
            sdt_services(s, 11, end as int, sdt_view(old(sdt)@)) == sdt_view(sdt@),
        decreases end - pos,
    {
        let sid = (section[pos] as u16) * 256 + section[pos + 1] as u16;
        let loop_len = ((section[pos + 3] % 16) as usize) * 256 + section[pos + 4] as usize;
        let de = if end - pos - 5 < loop_len { end } else { pos + 5 + loop_len };
        assert(sid == be16(s, pos as int) as u16);
        sdt_service_descriptors(section, pos + 5, de, sid, sdt);
        pos = de;
    }
}

/// Whether a PES stream id carries no optional header: program stream map,
/// padding, private stream 2, ECM, EMM, program stream directory, DSM-CC
/// and H.222.1 type E.
pub open spec fn headerless_stream_id(id: u8) -> bool {
    id == 0xBC || id == 0xBE || id == 0xBF || id == 0xF0 || id == 0xF1 || id == 0xF2 || id == 0xF8 || id == 0xFF
}

/// Where the elementary bytes of a PES packet start: the whole input when
/// it is not a PES packet (under six bytes or no `00 00 01`), after the
/// six-byte prefix for a stream without an optional header, else after the
/// nine-byte header and its declared header data; the end when that runs
/// past it.
pub open spec fn pes_data_start(bytes: Seq<u8>) -> int {
    if bytes.len() < 6 || !(bytes[0] == 0 && bytes[1] == 0 && bytes[2] == 1) {
        0
    } else if headerless_stream_id(bytes[3]) {
        6
    } else if bytes.len() < 9 || 9 + bytes[8] > bytes.len() {
        bytes.len() as int
    } else {
        9 + bytes[8]
    }
}

/// The elementary bytes of a PES packet (see [`pes_data_start`]).
pub fn strip_pes_header(bytes: &[u8]) -> (r: &[u8])
    ensures
        r@ == bytes@.subrange(pes_data_start(bytes@), bytes@.len() as int),
{
    let n = bytes.len();
    if n < 6 || !(bytes[0] == 0 && bytes[1] == 0 && bytes[2] == 1) {
        assert(bytes@.subrange(0, n as int) =~= bytes@);
        return bytes;
    }
    let id = bytes[3];
    if id == 0xBC || id == 0xBE || id == 0xBF || id == 0xF0 || id == 0xF1 || id == 0xF2 || id == 0xF8 || id == 0xFF {
        return vstd::slice::slice_subrange(bytes, 6, n);
    }
    if n < 9 {
        return vstd::slice::slice_subrange(bytes, n, n);
    }
    let start = 9 + bytes[8] as usize;
    if start > n {
        return vstd::slice::slice_subrange(bytes, n, n);
    }
    vstd::slice::slice_subrange(bytes, start, n)
}

/// A section leaves the assembler whole: it is its three header bytes and
/// as many bytes as its section length declares, and the assembler is then
/// empty and waiting for the next section, remembering the packet's
/// continuity counter.
pub proof fn law_feed_emits_whole_sections(st: AssemblerView, cc: u8, unit_start: bool, payload: Seq<u8>)
    ensures
        feed_step(st, cc, unit_start, payload).1 matches Some(sec) ==> {
            &&& sec.len() >= 3
            &&& sec.len() == 3 + section_len(sec)
            &&& feed_step(st, cc, unit_start, payload).0 == (Seq::<u8>::empty(), Some(cc), false)
        },
{
}

/// A count that is present when positive.
pub open spec fn positive(v: u32) -> Option<u32> {
    if v > 0 { Some(v) } else { None }
}

/// A count, present when positive.
pub fn opt_pos(v: u32) -> (r: Option<u32>)
    ensures
        r == positive(v),
{
    if v > 0 { Some(v) } else { None }
}

/// A sampling rate in hertz, present when positive.
pub fn opt_rate(v: u32) -> (r: Option<SampleRate>)
    ensures
        r == (if v > 0 { Some(SampleRate::Hz(v)) } else { None::<SampleRate> }),
{
    if v > 0 { Some(SampleRate::Hz(v)) } else { None }
}

/// Channels of a Blu-ray LPCM channel assignment code.
pub open spec fn bd_lpcm_channels(code: int) -> u32 {
    if code == 1 {
        1
    } else if code == 3 {
        2
    } else if code == 4 || code == 5 {
        3
    } else if code == 6 || code == 7 {
        4
    } else if code == 8 {
        5
    } else if code == 9 {
        6
    } else if code == 10 {
        7
    } else if code == 11 {
        8
    } else {
        0
    }
}

/// Bits per sample of a Blu-ray LPCM sample size code.
pub open spec fn bd_lpcm_bits(code: int) -> u32 {
    if code == 1 { 16 } else if code == 2 { 20 } else if code == 3 { 24 } else { 0 }
}

/// Sampling rate of a Blu-ray LPCM rate code (0 when unknown).
pub open spec fn bd_lpcm_rate(code: int) -> u32 {
    if code == 1 { 48000 } else if code == 4 { 96000 } else if code == 5 { 192000 } else { 0 }
}

/// What the four-byte Blu-ray LPCM header at the start of `es` gives:
/// channels (high nibble of the third byte), rate (its low nibble) and bit
/// depth (top two bits of the fourth byte); `None` when shorter than four
/// bytes or when none of the three is known.
pub open spec fn bd_lpcm(es: Seq<u8>) -> Option<(u32, u32, u32)> {
    if es.len() < 4 {
        None
    } else {
        let ch = bd_lpcm_channels((es[2] / 16) as int);
        let bits = bd_lpcm_bits((es[3] / 64) as int);
        let rate = bd_lpcm_rate((es[2] % 16) as int);
        if ch == 0 && rate == 0 && bits == 0 {
            None
        } else {
            Some((ch, rate, bits))
        }
    }
}

/// The probe findings of a Blu-ray LPCM payload (see [`bd_lpcm`]): the
/// known parameters, nothing else.
pub fn decode_bd_lpcm_header(es: &[u8]) -> (r: Option<EsEnrichment>)
    ensures
        match bd_lpcm(es@) {
            None => r is None,
            Some((ch, rate, bits)) => r matches Some(e) && e.channels == positive(ch)
                && e.sampling_frequency == (if rate > 0 { Some(SampleRate::Hz(rate)) } else { None::<SampleRate> })
                && e.bits_per_sample == positive(bits) && e.pixel_dimensions is None
                && e.codec_private is None && e.codec_override is None,
        },
{
    if es.len() < 4 {
        return None;
    }
    let cc = es[2] / 16;
    let channels: u32 = if cc == 1 {
        1
    } else if cc == 3 {
        2
    } else if cc == 4 || cc == 5 {
        3
    } else if cc == 6 || cc == 7 {
        4
    } else if cc == 8 {
        5
    } else if cc == 9 {
        6
    } else if cc == 10 {
        7
    } else if cc == 11 {
        8
    } else {
        0
    };
    let bc = es[3] / 64;
    let bits: u32 = if bc == 1 { 16 } else if bc == 2 { 20 } else if bc == 3 { 24 } else { 0 };
    let rc = es[2] % 16;
    let sample_rate: u32 = if rc == 1 { 48000 } else if rc == 4 { 96000 } else if rc == 5 { 192000 } else { 0 };
    if channels == 0 && sample_rate == 0 && bits == 0 {
        return None;
    }
    let mut e = EsEnrichment::default();
    e.channels = opt_pos(channels);
    e.sampling_frequency = opt_rate(sample_rate);
    e.bits_per_sample = opt_pos(bits);
    Some(e)
}

/// The length of the HDMV text subtitle dialog style segment at the start
/// of `es`: its type byte 0x81, a 16-bit size and that many bytes; `None`
/// when the segment is not there whole.
pub open spec fn textst_segment_len(es: Seq<u8>) -> Option<int> {
    if es.len() < 3 || es[0] != 0x81 || 3 + be16(es, 1) > es.len() {
        None
    } else {
        Some(3 + be16(es, 1))
    }
}

/// The probe findings of an HDMV text subtitle payload: the dialog style
/// segment as codec private data (see [`textst_segment_len`]).
pub fn decode_textst_codec_private(es: &[u8]) -> (r: Option<EsEnrichment>)
    ensures
        match textst_segment_len(es@) {
            None => r is None,
            Some(n) => r matches Some(e) && (e.codec_private matches Some(cp) && cp@ == es@.subrange(0, n))
                && e.channels is None && e.sampling_frequency is None && e.bits_per_sample is None
                && e.pixel_dimensions is None && e.codec_override is None,
        },
{
    if es.len() < 3 || es[0] != 0x81 {
        return None;
    }
    let size = (es[1] as usize) * 256 + es[2] as usize;
    let total = size + 3;
    if total > es.len() {
        return None;
    }
    let mut e = EsEnrichment::default();
    e.codec_private = Some(vstd::slice::slice_to_vec(vstd::slice::slice_subrange(es, 0, total)));
    Some(e)
}

/// Most packets the header walk reads.
pub const MAX_PACKETS: usize = 65536;
/// Packets read, once every program map is in, before the walk stops.
pub const PES_PROBE_PACKET_BUDGET: usize = 28672;
/// Service Description Table PID.
pub const SDT_PID: u16 = 0x0011;
/// Null packet PID.
pub const NULL_PID: u16 = 0x1FFF;
/// Most elementary bytes kept per PES PID.
pub const PES_PAYLOAD_CAP: usize = 65536;
/// Most PES PIDs whose bytes are kept.
pub const MAX_PES_PIDS: usize = 32;

/// What the header walk gathers: the program map PIDs (PID to program
/// number), a section assembler per PSI PID, the program map PIDs whose
/// table was read, the stream entries of those tables with their program
/// numbers in the order read, the service names by service id (provider,
/// name), and the elementary bytes of each PES PID.
pub struct TsScan {
    pub pmt_pids: HashMap<u16, u16>,
    pub assemblers: HashMap<u16, SectionAssembler>,
    pub seen_pmt_pids: HashSet<u16>,
    pub streams: Vec<(u16, PmtStreamEntry)>,
    pub sdt: HashMap<u16, (String, String)>,
    pub pes_payloads: HashMap<u16, Vec<u8>>,
}

/// What the walk gathers, as values.
pub struct ScanView {
    pub pmt_pids: Map<u16, u16>,
    pub assembly: Map<u16, AssemblerView>,
    pub seen: Set<u16>,
    pub streams: Seq<(u16, (u8, u16, Seq<u8>))>,
    pub sdt: Map<u16, (Seq<char>, Seq<char>)>,
    pub pes: Map<u16, Seq<u8>>,
}

/// The assemblers' states.
pub open spec fn asm_view(m: Map<u16, SectionAssembler>) -> Map<u16, AssemblerView> {
    m.map_values(|a: SectionAssembler| a.state())
}

/// The kept elementary bytes as values.
pub open spec fn pes_view(m: Map<u16, Vec<u8>>) -> Map<u16, Seq<u8>> {
    m.map_values(|v: Vec<u8>| v@)
}

/// The stream entries with their program numbers as values.
pub open spec fn streams_view(v: Seq<(u16, PmtStreamEntry)>) -> Seq<(u16, (u8, u16, Seq<u8>))> {
    v.map_values(|x: (u16, PmtStreamEntry)| (x.0, stream_view(x.1)))
}

/// A scan as values.
pub open spec fn scan_view(s: TsScan) -> ScanView {
    ScanView {
        pmt_pids: s.pmt_pids@,
        assembly: asm_view(s.assemblers@),
        seen: s.seen_pmt_pids@,
        streams: streams_view(s.streams@),
        sdt: sdt_view(s.sdt@),
        pes: pes_view(s.pes_payloads@),
    }
}

/// Nothing gathered.
pub open spec fn empty_scan() -> ScanView {
    ScanView {
        pmt_pids: Map::empty(),
        assembly: Map::empty(),
        seen: Set::empty(),
        streams: Seq::empty(),
        sdt: Map::empty(),
        pes: Map::empty(),
    }
}

/// The assembler state of a PID: a fresh one when there is none yet.
pub open spec fn asm_at(m: Map<u16, AssemblerView>, pid: u16) -> AssemblerView {
    if m.contains_key(pid) { m[pid] } else { (Seq::empty(), None, false) }
}

/// The stream entries of a PMT section, each with the program number the
/// PAT gave its PID; none when the section does not decode.
pub open spec fn pmt_streams_of(sec: Seq<u8>, prog: u16) -> Seq<(u16, (u8, u16, Seq<u8>))> {
    match pmt_decode(sec) {
        Ok(v) => v.streams.map_values(|e: (u8, u16, Seq<u8>)| (prog, e)),
        Err(_) => Seq::empty(),
    }
}

/// The kept bytes after a packet of a PES PID: a PID is taken on at a
/// packet starting a PES packet (`00 00 01`) while fewer than
/// [`MAX_PES_PIDS`] are kept; its bytes grow by the packet's elementary
/// bytes (the PES header stripped at a start) up to [`PES_PAYLOAD_CAP`].
pub open spec fn pes_after(p: Map<u16, Seq<u8>>, pid: u16, unit_start: bool, payload: Seq<u8>) -> Map<u16, Seq<u8>> {
    let start = unit_start && payload.len() >= 4 && payload[0] == 0 && payload[1] == 0 && payload[2] == 1;
    let known = p.contains_key(pid);
    if known || (start && p.len() < MAX_PES_PIDS) {
        let elem = if start { payload.subrange(pes_data_start(payload), payload.len() as int) } else { payload };
        let buf = if known { p[pid] } else { Seq::empty() };
        let take = if buf.len() < PES_PAYLOAD_CAP { clamp(PES_PAYLOAD_CAP - buf.len(), elem.len() as int) } else { 0 };
        p.insert(pid, buf + elem.subrange(0, take))
    } else {
        p
    }
}

/// The payload of a packet (see [`payload_start`]).
pub open spec fn packet_payload(pkt: Seq<u8>, h: PacketHeader) -> Seq<u8> {
    match payload_start(pkt, h) {
        Some(st) => pkt.subrange(st, pkt.len() as int),
        None => Seq::empty(),
    }
}

/// What one packet does to the scan. Packets without the sync byte, with
/// the transport error flag, or without payload bytes change nothing. PAT,
/// SDT and program map packets feed the PID's section assembler; a
/// completed PAT section records program map PIDs, a completed SDT section
/// service names, and the first completed section of a program map PID its
/// stream entries. Packets of other PIDs but the null PID add PES bytes.
pub open spec fn packet_step(sc: ScanView, pkt: Seq<u8>) -> ScanView {
    if pkt.len() < 4 || pkt[0] != packet::TS_SYNC_BYTE {
        sc
    } else {
        let h = header_of(pkt);
        let payload = packet_payload(pkt, h);
        if h.transport_error || !(h.adaptation_field_control == 1 || h.adaptation_field_control == 3) || payload.len() == 0 {
            sc
        } else if h.pid == 0 || h.pid == SDT_PID || sc.pmt_pids.contains_key(h.pid) {
            let (a, out) = feed_step(asm_at(sc.assembly, h.pid), h.continuity_counter, h.payload_unit_start, payload);
            let sc1 = ScanView { assembly: sc.assembly.insert(h.pid, a), ..sc };
            match out {
                None => sc1,
                Some(sec) => if h.pid == 0 {
                    ScanView {
                        pmt_pids: match pat_decode(sec) {
                            Some((_, es)) => pmt_pids_after(sc.pmt_pids, es),
                            None => sc.pmt_pids,
                        },
                        ..sc1
                    }
                } else if h.pid == SDT_PID {
                    ScanView { sdt: sdt_after(sc.sdt, sec), ..sc1 }
                } else if sc.seen.contains(h.pid) {
                    sc1
                } else {
                    ScanView {
                        seen: sc.seen.insert(h.pid),
                        streams: sc.streams + pmt_streams_of(sec, sc.pmt_pids[h.pid]),
                        ..sc1
                    }
                },
            }
        } else if h.pid != NULL_PID {
            ScanView { pes: pes_after(sc.pes, h.pid, h.payload_unit_start, payload), ..sc }
        } else {
            sc
        }
    }
}

/// Every program map PID has had its table read.
pub open spec fn all_maps_read(sc: ScanView) -> bool {
    sc.pmt_pids.len() > 0 && sc.seen.len() == sc.pmt_pids.len()
}

/// The scan after the packets of `size` bytes from `pos` on, the first
/// `hoff` bytes of each (a timestamp) skipped, `count` packets read
/// before: the walk stops after [`MAX_PACKETS`] packets, at a packet cut
/// short by the end, or once every program map is read and more than
/// [`PES_PROBE_PACKET_BUDGET`] packets are read.
pub open spec fn ts_walk(bytes: Seq<u8>, pos: int, size: int, hoff: int, count: int, sc: ScanView) -> ScanView
    decreases MAX_PACKETS - count,
{
    if count >= MAX_PACKETS || pos < 0 || pos + size > bytes.len() || size < hoff {
        sc
    } else {
        let sc2 = packet_step(sc, bytes.subrange(pos + hoff, pos + size));
        if all_maps_read(sc2) && count + 1 > PES_PROBE_PACKET_BUDGET {
            sc2
        } else {
            ts_walk(bytes, pos + size, size, hoff, count + 1, sc2)
        }
    }
}

/// Feed a packet to the assembler of its PID (a fresh one when there is
/// none yet).
fn feed_pid(asms: &mut HashMap<u16, SectionAssembler>, header: &PacketHeader, payload: &[u8]) -> (r: Option<Vec<u8>>)
    ensures
        ({
            let (a, out) = feed_step(asm_at(asm_view(old(asms)@), header.pid), header.continuity_counter,
                header.payload_unit_start, payload@);
            &&& asm_view(final(asms)@) == asm_view(old(asms)@).insert(header.pid, a)
            &&& match r { Some(v) => out == Some(v@), None => out is None }
        }),
{
    broadcast use vstd::std_specs::hash::group_hash_axioms;
    let pid = header.pid;
    let ghost before = asms@;
    let mut a = match asms.remove(&pid) {
        Some(a) => a,
        None => SectionAssembler::new(),
    };
    assert(a.state() == asm_at(asm_view(before), pid));
    let r = a.feed(header, payload);
    let ghost st = a.state();
    asms.insert(pid, a);
    assert(asm_view(asms@) =~= asm_view(before).insert(pid, st));
    r
}

/// Record the stream entries of a PMT section with the program number of
/// its PID (see [`pmt_streams_of`]).
pub fn handle_pmt(section: &[u8], program_number: u16, streams: &mut Vec<(u16, PmtStreamEntry)>)
    ensures
        streams_view(final(streams)@) == streams_view(old(streams)@) + pmt_streams_of(section@, program_number),
{
    let ghost before = streams@;
    match pmt::parse(section) {
        Ok(p) => {
            let ghost all = p.streams@;
            let mut rest = p.streams;
            let ghost mut k: int = 0;
            let ghost want = pmt_streams_of(section@, program_number);
            assert(all.skip(0) =~= all);
            assert(streams_view(streams@) =~= streams_view(before) + want.take(0));
            while rest.len() > 0
                invariant
                    rest@ == all.skip(k),
                    0 <= k <= all.len(),
                    k + rest@.len() == all.len(),
                    want == all.map_values(|e: PmtStreamEntry| stream_view(e)).map_values(|e: (u8, u16, Seq<u8>)| (program_number, e)),
                    streams_view(streams@) == streams_view(before) + want.take(k),
                decreases rest@.len(),
            {
                let e = rest.remove(0);
                proof {
                    assert(e == all[k]);
                    assert(want[k] == (program_number, stream_view(e)));
                }
                let ghost sv0 = streams@;
                streams.push((program_number, e));
                proof {
                    assert(streams@ =~= sv0.push((program_number, e)));
                    assert(streams_view(streams@) =~= streams_view(sv0).push((program_number, stream_view(e))));
                    assert(want.take(k + 1) =~= want.take(k).push(want[k]));
                    assert(all.skip(k).drop_first() =~= all.skip(k + 1));
                    k = k + 1;
                    assert(streams_view(streams@) =~= streams_view(before) + want.take(k));
                }
            }
            assert(want.take(k) =~= want);
        },
        Err(_) => {
            assert(streams_view(streams@) =~= streams_view(before) + pmt_streams_of(section@, program_number));
        },
    }
}

/// Add a PES packet's bytes (see [`pes_after`]).
fn pes_packet(pes: &mut HashMap<u16, Vec<u8>>, pid: u16, unit_start: bool, payload: &[u8])
    ensures
        pes_view(final(pes)@) == pes_after(pes_view(old(pes)@), pid, unit_start, payload@),
{
    broadcast use vstd::std_specs::hash::group_hash_axioms;
    let ghost before = pes@;
    let start = unit_start && payload.len() >= 4 && payload[0] == 0 && payload[1] == 0 && payload[2] == 1;
    let known = pes.contains_key(&pid);
    assert(known == pes_view(before).contains_key(pid));
    assert(pes.len() == pes_view(before).len()) by {
        assert(pes_view(before).dom() =~= before.dom());
    }
    if known || (start && pes.len() < MAX_PES_PIDS) {
        let elem: &[u8] = if start { strip_pes_header(payload) } else { payload };
        let mut buf = match pes.remove(&pid) {
            Some(b) => b,
            None => Vec::new(),
        };
        let ghost b0 = buf@;
        if buf.len() < PES_PAYLOAD_CAP {
            let room = PES_PAYLOAD_CAP - buf.len();
            let take = if room < elem.len() { room } else { elem.len() };
            let mut i: usize = 0;
            while i < take
                invariant
                    i <= take <= elem@.len(),
                    buf@ == b0 + elem@.subrange(0, i as int),
                decreases take - i,
            {
                buf.push(elem[i]);
                i = i + 1;
                assert(buf@ =~= b0 + elem@.subrange(0, i as int));
            }
        } else {
            assert(buf@ =~= b0 + elem@.subrange(0, 0));
        }
        let ghost nb = buf@;
        pes.insert(pid, buf);
        assert(pes_view(pes@) =~= pes_view(before).insert(pid, nb));
    }
}

/// Take one packet (from its sync byte) into the scan (see
/// [`packet_step`]).
pub fn scan_packet(scan: &mut TsScan, pkt: &[u8])
    ensures
        scan_view(*final(scan)) == packet_step(scan_view(*old(scan)), pkt@),
{
    broadcast use vstd::std_specs::hash::group_hash_axioms;
    if pkt.len() < 4 || pkt[0] != packet::TS_SYNC_BYTE {
        return;
    }
    let header = match packet::decode_header(pkt) {
        Ok(h) => h,
        Err(_) => return,
    };
    let payload = packet::payload_slice(pkt, &header);
    if header.transport_error || !header.has_payload() || payload.len() == 0 {
        return;
    }
    let pid = header.pid;
    let ghost sc = scan_view(*scan);
    if pid == 0 || pid == SDT_PID || scan.pmt_pids.contains_key(&pid) {
        let prog = scan.pmt_pids.get(&pid);
        let prog: u16 = match prog {
            Some(p) => *p,
            None => 0,
        };
        let out = feed_pid(&mut scan.assemblers, &header, payload);
        proof {
            law_feed_emits_whole_sections(asm_at(sc.assembly, pid), header.continuity_counter, header.payload_unit_start, payload@);
        }
        if let Some(section) = out {
            if pid == 0 {
                proof {
                    assert(section@.len() == 3 + section_len(section@));
                    assert(!pat_length_underflows(section@));
                }
                handle_pat(section.as_slice(), &mut scan.pmt_pids);
            } else if pid == SDT_PID {
                handle_sdt(section.as_slice(), &mut scan.sdt);
            } else if !scan.seen_pmt_pids.contains(&pid) {
                scan.seen_pmt_pids.insert(pid);
                handle_pmt(section.as_slice(), prog, &mut scan.streams);
            }
        }
    } else if pid != NULL_PID {
        pes_packet(&mut scan.pes_payloads, pid, header.payload_unit_start, payload);
    }
}

/// The bytes skipped at the start of each packet: the four-byte timestamp
/// of 192-byte packets.
pub open spec fn header_offset(size: int) -> int {
    if size == 192 { 4 } else { 0 }
}

impl MpegTsReader {
    /// Walk the packets of a transport stream: `Unrecognised` when the
    /// first [`PROBE_BYTES`] show no packet size (see [`detected`]); else
    /// the scan of the packets from the first aligned one (see
    /// [`ts_walk`]). The caller turns the stream entries into rows with
    /// `stream_table::build_rows`, probes their elementary bytes and hands
    /// both to `identify::finalise_with_probes`. (No time limit is kept
    /// here: the walk is bounded by [`MAX_PACKETS`].)
    pub fn read_headers(&self, src: &mut FileSource) -> (r: Result<TsScan, ParseError>)
        ensures
            final(src).bytes() == old(src).bytes(),
            match detected(window(old(src).bytes(), 0, PROBE_BYTES as int)) {
                None => r matches Err(e) && e == ParseError::Unrecognised,
                Some((size, start)) => r matches Ok(s) && scan_view(s)
                    == ts_walk(old(src).bytes(), start, size, header_offset(size), 0, empty_scan()),
            },
    {
        broadcast use vstd::std_specs::hash::group_hash_axioms;
        let ghost bytes = src.bytes();
        src.seek_to(0);
        let probe = src.read_at_most(PROBE_BYTES as u64);
        assert(probe@ == window(bytes, 0, PROBE_BYTES as int));
        let (size, start) = match detect_packet_size_aligned(probe.as_slice()) {
            Some(x) => x,
            None => return Err(ParseError::Unrecognised),
        };
        proof {
            reveal_with_fuel(packet::aligned_for, 1);
        }
        assert(size == 188 || size == 192 || size == 204);
        let hoff: usize = if size == 192 { 4 } else { 0 };
        src.seek_to(start as u64);
        let mut scan = TsScan {
            pmt_pids: HashMap::new(),
            assemblers: HashMap::new(),
            seen_pmt_pids: HashSet::new(),
            streams: Vec::new(),
            sdt: HashMap::new(),
            pes_payloads: HashMap::new(),
        };
        proof {
            assert(scan_view(scan).assembly =~= empty_scan().assembly);
            assert(scan_view(scan).streams =~= empty_scan().streams);
            assert(scan_view(scan).sdt =~= empty_scan().sdt);
            assert(scan_view(scan).pes =~= empty_scan().pes);
            assert(scan_view(scan) == empty_scan());
        }
        let mut count: usize = 0;
        loop
            invariant_except_break
                ts_walk(bytes, start as int, size as int, hoff as int, 0, empty_scan())
                    == ts_walk(bytes, src.pos(), size as int, hoff as int, count as int, scan_view(scan)),
            invariant
                src.bytes() == bytes,
                size == 188 || size == 192 || size == 204,
                hoff as int == header_offset(size as int),
                count <= MAX_PACKETS,
                src.pos() >= 0,
            ensures
                ts_walk(bytes, start as int, size as int, hoff as int, 0, empty_scan()) == scan_view(scan),
            decreases MAX_PACKETS - count,
        {
            if count >= MAX_PACKETS {
                break;
            }
            let ghost pos = src.pos();
            let buf = src.read_at_most(size as u64);
            if buf.len() < size {
                break;
            }
            assert(buf@ == bytes.subrange(pos, pos + size));
            count = count + 1;
            let pkt = vstd::slice::slice_subrange(buf.as_slice(), hoff, size);
            assert(pkt@ =~= bytes.subrange(pos + hoff, pos + size));
            scan_packet(&mut scan, pkt);
            if scan.pmt_pids.len() > 0 && scan.seen_pmt_pids.len() == scan.pmt_pids.len()
                && count > PES_PROBE_PACKET_BUDGET {
                break;
            }
        }
        Ok(scan)
    }
}

/// Codecs whose payload probe needs a decoder of the codec's bitstream:
/// the rows of a TrueHD stream, AVC, HEVC, MPEG-1/2 and VC-1 video, AC-3,
/// E-AC-3, MPEG audio, AAC and DTS.
pub open spec fn needs_payload_decoder(c: Seq<char>, st: u8) -> bool {
    st == 0x83 || c == "V_MPEG4/ISO/AVC"@ || c == "V_MPEGH/ISO/HEVC"@ || c == "V_MPEG1"@ || c == "V_MPEG2"@
        || c == "V_VC1"@ || c == "A_AC3"@ || c == "A_EAC3"@ || c == "A_MPEG/L3"@ || c == "A_AAC"@
        || c == "A_DTS"@
}

/// Subtitle codecs kept without a payload probe.
pub open spec fn kept_unprobed(c: Seq<char>) -> bool {
    c == "S_HDMV/PGS"@ || c == "S_DVBSUB"@ || c == "S_TELETEXT"@
}

/// The probe of a row whose codec needs no bitstream decoder, from its
/// elementary bytes `es`; `None` when it needs one (see
/// [`needs_payload_decoder`]). PGS, DVB subtitles and teletext are kept
/// with nothing found; Blu-ray LPCM (stream type 0x80) and HDMV text
/// subtitles are kept when their header decodes, with what it gives; any
/// other codec is not kept.
pub fn decoder_free_probe(row: &StreamRow, es: &[u8]) -> (r: Option<RowProbe>)
    ensures
        r is None <==> needs_payload_decoder(row.codec_id@, row.stream_type),
        r matches Some(p) ==> {
            let c = row.codec_id@;
            if kept_unprobed(c) {
                p.keep && p.enrichment.is_empty()
            } else if c == "A_PCM"@ && row.stream_type == 0x80 {
                match bd_lpcm(es@) {
                    None => !p.keep && p.enrichment.is_empty(),
                    Some((ch, rate, bits)) => p.keep && p.enrichment.channels == positive(ch)
                        && p.enrichment.sampling_frequency == (if rate > 0 { Some(SampleRate::Hz(rate)) } else { None::<SampleRate> })
                        && p.enrichment.bits_per_sample == positive(bits) && p.enrichment.pixel_dimensions is None
                        && p.enrichment.codec_private is None && p.enrichment.codec_override is None,
                }
            } else if c == "S_HDMV/TEXTST"@ {
                match textst_segment_len(es@) {
                    None => !p.keep && p.enrichment.is_empty(),
                    Some(n) => p.keep && (p.enrichment.codec_private matches Some(cp) && cp@ == es@.subrange(0, n))
                        && p.enrichment.channels is None && p.enrichment.sampling_frequency is None
                        && p.enrichment.bits_per_sample is None && p.enrichment.pixel_dimensions is None
                        && p.enrichment.codec_override is None,
                }
            } else {
                !p.keep && p.enrichment.is_empty()
            }
        },
{
    let c = row.codec_id.as_str();
    if row.stream_type == 0x83 || str_eq(c, "V_MPEG4/ISO/AVC") || str_eq(c, "V_MPEGH/ISO/HEVC") || str_eq(c, "V_MPEG1")
        || str_eq(c, "V_MPEG2") || str_eq(c, "V_VC1") || str_eq(c, "A_AC3") || str_eq(c, "A_EAC3")
        || str_eq(c, "A_MPEG/L3") || str_eq(c, "A_AAC") || str_eq(c, "A_DTS") {
        return None;
    }
    if str_eq(c, "S_HDMV/PGS") || str_eq(c, "S_DVBSUB") || str_eq(c, "S_TELETEXT") {
        return Some(RowProbe { keep: true, enrichment: EsEnrichment::default() });
    }
    let found = if str_eq(c, "A_PCM") && row.stream_type == 0x80 {
        decode_bd_lpcm_header(es)
    } else if str_eq(c, "S_HDMV/TEXTST") {
        decode_textst_codec_private(es)
    } else {
        None
    };
    match found {
        Some(e) => Some(RowProbe { keep: true, enrichment: e }),
        None => Some(RowProbe::default()),
    }
}

/// The Blu-ray LPCM header tables, entry by entry: the channel assignment
/// (high nibble of the third byte) 1 is mono, 3 stereo, 4 and 5 three
/// channels, 6 and 7 four, 8 five, 9 six, 10 seven, 11 eight, any other
/// none; the sample size code 1, 2, 3 is 16, 20, 24 bits, 0 none; the rate
/// code 1, 4, 5 is 48, 96, 192 kHz, any other unknown. A header with
/// assignment 1 reads as one channel.
pub proof fn law_bd_lpcm_tables(code: int, es: Seq<u8>)
    ensures
        code == 1 ==> bd_lpcm_channels(code) == 1,
        code == 3 ==> bd_lpcm_channels(code) == 2,
        (code == 4 || code == 5) ==> bd_lpcm_channels(code) == 3,
        (code == 6 || code == 7) ==> bd_lpcm_channels(code) == 4,
        code == 8 ==> bd_lpcm_channels(code) == 5,
        code == 9 ==> bd_lpcm_channels(code) == 6,
        code == 10 ==> bd_lpcm_channels(code) == 7,
        code == 11 ==> bd_lpcm_channels(code) == 8,
        (code == 0 || code == 2 || 12 <= code <= 15) ==> bd_lpcm_channels(code) == 0,
        code == 0 ==> bd_lpcm_bits(code) == 0,
        code == 1 ==> bd_lpcm_bits(code) == 16,
        code == 2 ==> bd_lpcm_bits(code) == 20,
        code == 3 ==> bd_lpcm_bits(code) == 24,
        code == 1 ==> bd_lpcm_rate(code) == 48000,
        code == 4 ==> bd_lpcm_rate(code) == 96000,
        code == 5 ==> bd_lpcm_rate(code) == 192000,
        (code == 0 || code == 2 || code == 3 || 6 <= code <= 15) ==> bd_lpcm_rate(code) == 0,
        es.len() >= 4 && es[2] / 16 == 1 ==> match bd_lpcm(es) {
            Some(h) => h.0 == 1,
            None => false,
        },
{
}

} // verus!
