//! Program Stream Map (start code `0x000001BC`): after the start code come
//! the map length (`u16`), two version/marker bytes, the program stream
//! info length (`u16`) and its descriptors, the elementary stream map
//! length (`u16`), then per stream `stream_type`, `elementary_stream_id`,
//! an info length (`u16`) and its descriptors, and a CRC32.

use vstd::prelude::*;
use crate::source::{ParseError, be16, be16_at};

verus! {

/// Largest map length accepted.
pub const MAX_PSM_LENGTH: u16 = 1018;

/// One elementary stream of the map.
#[derive(Debug)]
pub struct PsmEntry {
    pub stream_type: u8,
    pub elementary_stream_id: u8,
    pub descriptors: Vec<u8>,
}

/// The elementary streams of a map, in order.
#[derive(Debug)]
pub struct ProgramStreamMap {
    pub entries: Vec<PsmEntry>,
}

/// An entry as values: stream type, stream id and descriptor bytes.
pub open spec fn entry_view(e: PsmEntry) -> (u8, u8, Seq<u8>) {
    (e.stream_type, e.elementary_stream_id, e.descriptors@)
}

/// The entries of the elementary stream map from `pos` to `map_end` in `p`:
/// one per four-byte entry header that fits; each keeps the descriptor
/// bytes that lie inside the map, and an entry whose descriptors run past
/// the map's end is the last.
pub open spec fn psm_entries(p: Seq<u8>, pos: int, map_end: int) -> Seq<(u8, u8, Seq<u8>)>
    decreases map_end - pos,
{
    if pos + 4 > map_end || pos < 0 {
        Seq::empty()
    } else {
        let desc_end = pos + 4 + be16(p, pos + 2);
        let clamped = if desc_end < map_end { desc_end } else { map_end };
        let e = (p[pos], p[pos + 1], p.subrange(pos + 4, clamped));
        if desc_end > map_end {
            seq![e]
        } else {
            seq![e] + psm_entries(p, desc_end, map_end)
        }
    }
}

/// What a map payload (the bytes after the start code) decodes to: `None`
/// when it is too short, its declared length is 0, over
/// [`MAX_PSM_LENGTH`], under 8 or longer than the payload, or the program
/// stream info or the elementary stream map overruns the declared length.
pub open spec fn psm_decode(p: Seq<u8>) -> Option<Seq<(u8, u8, Seq<u8>)>> {
    if p.len() < 2 {
        None
    } else {
        let psm_len = be16(p, 0);
        let declared_end = 2 + psm_len;
        if psm_len == 0 || psm_len > MAX_PSM_LENGTH || p.len() < declared_end || psm_len < 8 {
            None
        } else {
            let pos = 6 + be16(p, 4);
            if pos + 2 > declared_end - 4 {
                None
            } else {
                let map_end = pos + 2 + be16(p, pos);
                if map_end + 4 > declared_end {
                    None
                } else {
                    Some(psm_entries(p, pos + 2, map_end))
                }
            }
        }
    }
}

/// Decode a Program Stream Map payload; `Malformed` (offset 0) when
/// [`psm_decode`] finds it invalid.
pub fn parse(payload: &[u8]) -> (r: Result<ProgramStreamMap, ParseError>)
    ensures
        match psm_decode(payload@) {
            None => r == Err::<ProgramStreamMap, ParseError>(ParseError::Malformed { offset: 0 }),
            Some(es) => r matches Ok(m) && m.entries@.map_values(|e: PsmEntry| entry_view(e)) == es,
        },
{
    if payload.len() < 2 {
        return Err(ParseError::Malformed { offset: 0 });
    }
    let psm_len = be16_at(payload, 0) as usize;
    if psm_len == 0 || psm_len > MAX_PSM_LENGTH as usize {
        return Err(ParseError::Malformed { offset: 0 });
    }
    let declared_end = 2 + psm_len;
    if payload.len() < declared_end || psm_len < 8 {
        return Err(ParseError::Malformed { offset: 0 });
    }
    let psi_len = be16_at(payload, 4) as usize;
    let start = 6 + psi_len;
    if start + 2 > declared_end - 4 {
        return Err(ParseError::Malformed { offset: 0 });
    }
    let esi_len = be16_at(payload, start) as usize;
    let mut pos = start + 2;
    let map_end = pos + esi_len;
    if map_end + 4 > declared_end {
        return Err(ParseError::Malformed { offset: 0 });
    }
    let ghost p = payload@;
    let mut entries: Vec<PsmEntry> = Vec::new();
    loop
        invariant_except_break
            psm_entries(p, start + 2, map_end as int) == entries@.map_values(|e: PsmEntry| entry_view(e))
                + psm_entries(p, pos as int, map_end as int),
        invariant
            p == payload@,
            map_end + 4 <= declared_end,
            declared_end <= payload@.len(),
            declared_end <= 1020,
            start + 2 <= pos,
            pos <= map_end,
        ensures
            psm_entries(p, start + 2, map_end as int) == entries@.map_values(|e: PsmEntry| entry_view(e)),
        decreases map_end - pos,
    {
        if pos + 4 > map_end {
            proof {
                assert(entries@.map_values(|e: PsmEntry| entry_view(e)) + Seq::empty()
                    =~= entries@.map_values(|e: PsmEntry| entry_view(e)));
            }
            break;
        }
        let stream_type = payload[pos];
        let stream_id = payload[pos + 1];
        let info_len = be16_at(payload, pos + 2) as usize;
        let desc_start = pos + 4;
        let desc_end = desc_start + info_len;
        let clamped = if desc_end < map_end { desc_end } else { map_end };
        let descriptors = vstd::slice::slice_to_vec(vstd::slice::slice_subrange(payload, desc_start, clamped));
        let ghost before = entries@.map_values(|e: PsmEntry| entry_view(e));
        let entry = PsmEntry { stream_type, elementary_stream_id: stream_id, descriptors };
        let ghost ev = entry_view(entry);
        entries.push(entry);
        proof {
            assert(ev == (p[pos as int], p[pos + 1], p.subrange(pos + 4, clamped as int)));
            assert(entries@.map_values(|e: PsmEntry| entry_view(e)) =~= before.push(ev));
        }
        if desc_end > map_end {
            proof {
                assert(before + psm_entries(p, pos as int, map_end as int) =~= before.push(ev));
            }
            break;
        }
        proof {
            assert(before + psm_entries(p, pos as int, map_end as int)
                =~= before.push(ev) + psm_entries(p, desc_end as int, map_end as int));
        }
        pos = desc_end;
    }
    Ok(ProgramStreamMap { entries })
}

} // verus!
