//! MPEG transport stream packets: the sync byte 0x47, a 13-bit PID, flags,
//! the adaptation field control and the continuity counter, then an
//! optional adaptation field and the payload.  Packets are 188 bytes,
//! 192 with the 4-byte Blu-ray timecode prefix, or 204 with FEC bytes.

use vstd::prelude::*;
use crate::source::ParseError;

verus! {

/// Sync byte opening every packet.
pub const TS_SYNC_BYTE: u8 = 0x47;
/// Standard packet size.
pub const PACKET_SIZE_STANDARD: usize = 188;
/// Blu-ray M2TS packet size (timecode prefix included).
pub const PACKET_SIZE_BD_M2TS: usize = 192;
/// Packet size with forward error correction bytes.
pub const PACKET_SIZE_FEC: usize = 204;
/// Consecutive packets that must carry a sync byte to lock onto a size.
pub const SYNC_CONFIRMATIONS: usize = 5;
/// Furthest offset at which the first aligned packet is looked for.
pub const MAX_ALIGN_SCAN: usize = 65536;

/// A decoded packet header.
#[derive(Debug, Clone, Copy, PartialEq, Eq, Structural)]
pub struct PacketHeader {
    /// 13-bit packet identifier.
    pub pid: u16,
    pub transport_error: bool,
    pub payload_unit_start: bool,
    pub transport_priority: bool,
    pub scrambling: u8,
    /// 2-bit adaptation field control.
    pub adaptation_field_control: u8,
    pub continuity_counter: u8,
}

impl PacketHeader {
    /// An adaptation field follows the header (control 2 or 3).
    pub fn has_adaptation_field(&self) -> (r: bool)
        ensures
            r == (self.adaptation_field_control == 2 || self.adaptation_field_control == 3),
    {
        self.adaptation_field_control == 2 || self.adaptation_field_control == 3
    }

    /// The packet carries a payload (control 1 or 3).
    pub fn has_payload(&self) -> (r: bool)
        ensures
            r == (self.adaptation_field_control == 1 || self.adaptation_field_control == 3),
    {
        self.adaptation_field_control == 1 || self.adaptation_field_control == 3
    }
}

/// The header the first four bytes of `p` describe.
pub open spec fn header_of(p: Seq<u8>) -> PacketHeader {
    PacketHeader {
        pid: ((p[1] % 32) * 256 + p[2]) as u16,
        transport_error: p[1] >= 128,
        payload_unit_start: (p[1] / 64) % 2 == 1,
        transport_priority: (p[1] / 32) % 2 == 1,
        scrambling: (p[3] / 64) as u8,
        adaptation_field_control: ((p[3] / 16) % 4) as u8,
        continuity_counter: (p[3] % 16) as u8,
    }
}

/// Decode the packet header at the start of `packet`: `Malformed` (offset
/// 0) when there are fewer than four bytes or no sync byte.
pub fn decode_header(packet: &[u8]) -> (r: Result<PacketHeader, ParseError>)
    ensures
        packet@.len() < 4 || packet@[0] != TS_SYNC_BYTE ==> r == Err::<PacketHeader, ParseError>(
            ParseError::Malformed { offset: 0 },
        ),
        packet@.len() >= 4 && packet@[0] == TS_SYNC_BYTE ==> r == Ok::<PacketHeader, ParseError>(header_of(packet@)),
{
    if packet.len() < 4 {
        return Err(ParseError::Malformed { offset: 0 });
    }
    if packet[0] != TS_SYNC_BYTE {
        return Err(ParseError::Malformed { offset: 0 });
    }
    let b1 = packet[1];
    let b3 = packet[3];
    Ok(PacketHeader {
        pid: ((b1 % 32) as u16) * 256 + packet[2] as u16,
        transport_error: b1 >= 128,
        payload_unit_start: (b1 / 64) % 2 == 1,
        transport_priority: (b1 / 32) % 2 == 1,
        scrambling: b3 / 64,
        adaptation_field_control: (b3 / 16) % 4,
        continuity_counter: b3 % 16,
    })
}

/// Where the payload of `packet` starts, `None` when it has none: after
/// the header, and after the adaptation field when there is one; `None`
/// also when that offset is at or past the end.
pub open spec fn payload_start(p: Seq<u8>, h: PacketHeader) -> Option<int> {
    if !(h.adaptation_field_control == 1 || h.adaptation_field_control == 3) {
        None
    } else if h.adaptation_field_control == 2 || h.adaptation_field_control == 3 {
        if 4 >= p.len() || 5 + p[4] >= p.len() {
            None
        } else {
            Some(5 + p[4])
        }
    } else {
        Some(4)
    }
}

/// The payload of `packet` (see [`payload_start`]); empty when there is
/// none.
pub fn payload_slice<'a>(packet: &'a [u8], header: &PacketHeader) -> (r: &'a [u8])
    requires
        packet@.len() >= 4,
    ensures
        r@ == match payload_start(packet@, *header) {
            Some(s) => packet@.subrange(s, packet@.len() as int),
            None => Seq::<u8>::empty(),
        },
{
    if !header.has_payload() {
        return vstd::slice::slice_subrange(packet, 0, 0);
    }
    let mut offset: usize = 4;
    if header.has_adaptation_field() {
        if offset >= packet.len() {
            return vstd::slice::slice_subrange(packet, 0, 0);
        }
        let adaptation_length = packet[offset] as usize;
        offset = offset + 1 + adaptation_length;
        if offset >= packet.len() {
            return vstd::slice::slice_subrange(packet, 0, 0);
        }
    }
    vstd::slice::slice_subrange(packet, offset, packet.len())
}

/// Offset of the sync byte inside a packet unit of `size` bytes.
pub open spec fn sync_offset(size: int) -> int {
    if size == 192 {
        4
    } else {
        0
    }
}

/// Bytes needed to check the sync bytes of five packets of `size`.
pub open spec fn needed(size: int) -> int {
    size * 4 + sync_offset(size) + 1
}

/// Five consecutive packets of `size` starting at `start` carry a sync
/// byte.
pub open spec fn aligned_at(p: Seq<u8>, size: int, start: int) -> bool {
    forall|k: int| 0 <= k < 5 ==> #[trigger] p[start + k * size + sync_offset(size)] == TS_SYNC_BYTE
}

/// Last start offset tried for `size`.
pub open spec fn last_start(p: Seq<u8>, size: int) -> int {
    let m = p.len() - needed(size);
    if m < MAX_ALIGN_SCAN {
        m
    } else {
        MAX_ALIGN_SCAN as int
    }
}

/// The first offset from `start` up to `last` at which five packets of
/// `size` are aligned.
pub open spec fn first_aligned(p: Seq<u8>, size: int, start: int, last: int) -> Option<int>
    decreases last + 1 - start,
{
    if start > last {
        None
    } else if aligned_at(p, size, start) {
        Some(start)
    } else {
        first_aligned(p, size, start + 1, last)
    }
}

/// The first aligned start for `size`, `None` when the data is too short.
pub open spec fn aligned_for(p: Seq<u8>, size: int) -> Option<int> {
    if p.len() < needed(size) {
        None
    } else {
        first_aligned(p, size, 0, last_start(p, size))
    }
}

/// Packet size and first packet offset: the sizes 188, 192 and 204 are
/// tried in that order and the first with an aligned start wins.
pub open spec fn detected(p: Seq<u8>) -> Option<(int, int)> {
    match aligned_for(p, 188) {
        Some(s) => Some((188, s)),
        None => match aligned_for(p, 192) {
            Some(s) => Some((192, s)),
            None => match aligned_for(p, 204) {
                Some(s) => Some((204, s)),
                None => None,
            },
        },
    }
}

/// The first aligned start for `size` (see [`aligned_for`]).
fn find_alignment(probe: &[u8], size: usize) -> (r: Option<usize>)
    requires
        size == 188 || size == 192 || size == 204,
    ensures
        match r {
            Some(s) => aligned_for(probe@, size as int) == Some(s as int),
            None => aligned_for(probe@, size as int) is None,
        },
{
    let plen = probe.len();
    let sync_off: usize = if size == PACKET_SIZE_BD_M2TS { 4 } else { 0 };
    let need = size * 4 + sync_off + 1;
    if probe.len() < need {
        return None;
    }
    let max_start = if probe.len() - need < MAX_ALIGN_SCAN { probe.len() - need } else { MAX_ALIGN_SCAN };
    let mut start: usize = 0;
    while start <= max_start
        invariant
            size == 188 || size == 192 || size == 204,
            sync_off == sync_offset(size as int),
            need == needed(size as int),
            probe@.len() >= need,
            max_start == last_start(probe@, size as int),
            max_start <= MAX_ALIGN_SCAN,
            max_start + need <= probe@.len(),
            plen == probe@.len(),
            start <= max_start + 1,
            first_aligned(probe@, size as int, 0, max_start as int)
                == first_aligned(probe@, size as int, start as int, max_start as int),
        decreases max_start + 1 - start,
    {
        let mut k: usize = 0;
        let mut aligned = true;
        while k < 5
            invariant
                k <= 5,
                start <= max_start,
                size == 188 || size == 192 || size == 204,
                sync_off == sync_offset(size as int),
                max_start + need <= probe@.len(),
                plen == probe@.len(),
                need == size * 4 + sync_off + 1,
                aligned == forall|j: int| 0 <= j < k ==> #[trigger] probe@[start + j * size + sync_off] == TS_SYNC_BYTE,
            decreases 5 - k,
        {
            proof {
                assert(k * size <= 1020) by (nonlinear_arith)
                    requires
                        k < 5,
                        size <= 204;
                assert(start + k * size + sync_off < probe@.len()) by (nonlinear_arith)
                    requires
                        k < 5,
                        start <= max_start,
                        max_start + need <= probe@.len(),
                        need == size * 4 + sync_off + 1,
                        size <= 204;
            }
            let at = start + k * size + sync_off;
            if probe[at] != TS_SYNC_BYTE {
                aligned = false;
            }
            k = k + 1;
        }
        proof {
            assert(aligned == aligned_at(probe@, size as int, start as int));
        }
        if aligned {
            return Some(start);
        }
        start = start + 1;
    }
    None
}

/// Packet size and offset of the first whole packet (see [`detected`]).
pub fn detect_packet_size_aligned(probe: &[u8]) -> (r: Option<(usize, usize)>)
    ensures
        match r {
            Some((size, start)) => detected(probe@) == Some((size as int, start as int)),
            None => detected(probe@) is None,
        },
{
    if let Some(s) = find_alignment(probe, PACKET_SIZE_STANDARD) {
        return Some((PACKET_SIZE_STANDARD, s));
    }
    if let Some(s) = find_alignment(probe, PACKET_SIZE_BD_M2TS) {
        return Some((PACKET_SIZE_BD_M2TS, s));
    }
    if let Some(s) = find_alignment(probe, PACKET_SIZE_FEC) {
        return Some((PACKET_SIZE_FEC, s));
    }
    None
}

/// Packet size only (see [`detected`]).
pub fn detect_packet_size(probe: &[u8]) -> (r: Option<usize>)
    ensures
        match r {
            Some(size) => detected(probe@) matches Some((s, _)) && s == size,
            None => detected(probe@) is None,
        },
{
    match detect_packet_size_aligned(probe) {
        Some((size, _)) => Some(size),
        None => None,
    }
}

/// The PID of the Program Association Table.
pub fn is_pat_pid(pid: u16) -> (r: bool)
    ensures
        r == (pid == 0),
{
    pid == 0
}

} // verus!
