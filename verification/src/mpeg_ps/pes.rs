//! PES packet headers of an MPEG program stream: start code, stream id,
//! packet length, then the MPEG-1 or MPEG-2 optional header before the
//! elementary payload.

use vstd::prelude::*;
use crate::source::{ParseError, be16, be16_at};

verus! {

/// Stream id and declared packet length of a PES packet.
#[derive(Debug, Clone, Copy, PartialEq, Eq, Structural)]
pub struct PesHeader {
    pub stream_id: u8,
    pub packet_length: u16,
}

/// Decode the first six bytes of a PES packet.  `Malformed` (offset 0) when
/// fewer than six bytes are given or the `00 00 01` prefix is missing.
pub fn parse(bytes: &[u8]) -> (r: Result<PesHeader, ParseError>)
    ensures
        bytes@.len() < 6 || !(bytes@[0] == 0 && bytes@[1] == 0 && bytes@[2] == 1)
            ==> r == Err::<PesHeader, ParseError>(ParseError::Malformed { offset: 0 }),
        bytes@.len() >= 6 && bytes@[0] == 0 && bytes@[1] == 0 && bytes@[2] == 1
            ==> r == Ok::<PesHeader, ParseError>(PesHeader { stream_id: bytes@[3], packet_length: be16(bytes@, 4) as u16 }),
{
    if bytes.len() < 6 {
        return Err(ParseError::Malformed { offset: 0 });
    }
    if !(bytes[0] == 0x00 && bytes[1] == 0x00 && bytes[2] == 0x01) {
        return Err(ParseError::Malformed { offset: 0 });
    }
    Ok(PesHeader { stream_id: bytes[3], packet_length: be16_at(bytes, 4) })
}

/// Bytes after the 6-byte prefix that belong to the packet: the declared
/// length (all available bytes when it is zero), capped by what is given.
pub open spec fn pes_body_len(bytes: Seq<u8>) -> int {
    let declared = be16(bytes, 4);
    let avail = bytes.len() - 6;
    if declared == 0 { avail } else if declared < avail { declared } else { avail }
}

/// The first byte in `[from, to)` that is not `0xFF` stuffing.
pub open spec fn first_non_stuffing(bytes: Seq<u8>, from: int, to: int) -> Option<int>
    decreases to - from,
{
    if from >= to {
        None
    } else if bytes[from] != 0xFF {
        Some(from)
    } else {
        first_non_stuffing(bytes, from + 1, to)
    }
}

/// Where the elementary payload starts after the marker byte `c` at `q`,
/// the packet ending at `end`.  A 2-byte STD buffer size (`c` = `01xxxxxx`)
/// is skipped first, its second byte being the next marker; then an MPEG-1
/// PTS (`0010xxxx`, 4 more bytes) or PTS and DTS (`0011xxxx`, 9 more), an
/// MPEG-2 header (`10xxxxxx`: flags, header length and that many bytes), or
/// nothing (`0x0F`).  A marker of no such shape, or fields overrunning the
/// packet, give `end`.
pub open spec fn after_marker(bytes: Seq<u8>, q: int, end: int) -> int {
    let c0 = bytes[q];
    let std = c0 / 64 == 1;
    let c = if std { bytes[q + 2] } else { c0 };
    let p = if std { q + 3 } else { q + 1 };
    let rem = end - p;
    if std && end - (q + 1) < 2 {
        end
    } else if c / 16 == 2 {
        if rem < 4 { end } else { p + 4 }
    } else if c / 16 == 3 {
        if rem < 9 { end } else { p + 9 }
    } else if c / 64 == 2 {
        if rem < 2 || bytes[p + 1] > rem - 2 { end } else { p + 2 + bytes[p + 1] }
    } else if c != 0x0F {
        end
    } else {
        p
    }
}

/// Offset of the first elementary payload byte of the PES packet `bytes`
/// (the whole buffer when it has fewer than 7 bytes; the end of the packet
/// when no payload is exposed).
pub open spec fn payload_offset(bytes: Seq<u8>) -> int {
    if bytes.len() < 7 {
        bytes.len() as int
    } else {
        let end = 6 + pes_body_len(bytes);
        match first_non_stuffing(bytes, 6, end) {
            None => end,
            Some(q) => {
                let o = after_marker(bytes, q, end);
                if o < bytes.len() { o } else { bytes.len() as int }
            },
        }
    }
}

/// Offset within the PES packet `bytes` of its first elementary payload
/// byte (for private stream 1, the sub-stream id): see [`payload_offset`].
pub fn pes_payload_offset(bytes: &[u8]) -> (r: usize)
    ensures
        r == payload_offset(bytes@),
{
    let n = bytes.len();
    if n < 7 {
        return n;
    }
    let declared = be16_at(bytes, 4) as usize;
    let avail = n - 6;
    let mut len = if declared == 0 { avail } else if declared < avail { declared } else { avail };
    let end = 6 + len;
    let mut p: usize = 6;
    let ghost body_end = end as int;
    while len > 0 && bytes[p] == 0xFF
        invariant
            n == bytes@.len(),
            end == 6 + pes_body_len(bytes@),
            body_end == end,
            end <= n,
            6 <= p <= end,
            p + len == end,
            first_non_stuffing(bytes@, 6, end as int) == first_non_stuffing(bytes@, p as int, end as int),
        decreases len,
    {
        p = p + 1;
        len = len - 1;
    }
    if len == 0 {
        return end;
    }
    let q = p;
    let mut c = bytes[p];
    p = p + 1;
    len = len - 1;
    if c / 64 == 1 {
        if len < 2 {
            return end;
        }
        len = len - 2;
        c = bytes[p + 1];
        p = p + 2;
    }
    let o = if c / 16 == 2 {
        if len < 4 {
            return end;
        }
        p + 4
    } else if c / 16 == 3 {
        if len < 9 {
            return end;
        }
        p + 9
    } else if c / 64 == 2 {
        if len < 2 {
            return end;
        }
        let hdrlen = bytes[p + 1] as usize;
        if hdrlen > len - 2 {
            return end;
        }
        p + 2 + hdrlen
    } else if c != 0x0F {
        return end;
    } else {
        p
    };
    assert(o == after_marker(bytes@, q as int, end as int));
    if o < n { o } else { n }
}

} // verus!
