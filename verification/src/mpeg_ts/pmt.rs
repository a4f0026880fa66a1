//! Program Map Table: `table_id` 2, section syntax and current/next flags,
//! a single section, the PCR PID, program descriptors, then per stream the
//! stream type, 13-bit elementary PID and its descriptors, and a CRC32,
//! which is not checked.

use vstd::prelude::*;
use crate::source::{ParseError, be16, be16_at};

verus! {

/// One elementary stream of the program.
#[derive(Debug, PartialEq, Eq)]
pub struct PmtStreamEntry {
    pub stream_type: u8,
    pub elementary_pid: u16,
    /// Descriptor bytes of the stream.
    pub descriptors: Vec<u8>,
}

/// A decoded table.
#[derive(Debug)]
pub struct Pmt {
    pub program_number: u16,
    pub pcr_pid: u16,
    /// Descriptor bytes that apply to the whole program.
    pub program_descriptors: Vec<u8>,
    pub streams: Vec<PmtStreamEntry>,
}

/// A stream entry as values: stream type, PID and descriptor bytes.
pub open spec fn stream_view(e: PmtStreamEntry) -> (u8, u16, Seq<u8>) {
    (e.stream_type, e.elementary_pid, e.descriptors@)
}

/// 12-bit value of the two bytes at `i`.
pub open spec fn len12(s: Seq<u8>, i: int) -> int {
    (s[i] % 16) * 256 + s[i + 1]
}

/// 13-bit PID of the two bytes at `i`.
pub open spec fn pid13(s: Seq<u8>, i: int) -> u16 {
    ((s[i] % 32) * 256 + s[i + 1]) as u16
}

/// The stream entries from `pos` to `end`: each needs a five-byte header
/// and descriptors that end inside the table; the first that does not
/// ends the list.
pub open spec fn pmt_streams(s: Seq<u8>, pos: int, end: int) -> Seq<(u8, u16, Seq<u8>)>
    decreases end - pos,
{
    if pos + 5 > end {
        Seq::empty()
    } else {
        let desc_end = pos + 5 + len12(s, pos + 3);
        if desc_end > end {
            Seq::empty()
        } else {
            seq![(s[pos], pid13(s, pos + 1), s.subrange(pos + 5, desc_end))] + pmt_streams(s, desc_end, end)
        }
    }
}

/// A decoded table as values: program number, PCR PID, program
/// descriptors and streams.
pub struct PmtView {
    pub program_number: u16,
    pub pcr_pid: u16,
    pub program_descriptors: Seq<u8>,
    pub streams: Seq<(u8, u16, Seq<u8>)>,
}

/// What a section decodes to, or the offset of its `Malformed` error:
/// under 16 bytes or not table 2 (0); no section syntax indicator (1); not
/// the current section (5); more than one section (6); a section length
/// outside 13..=1021 (1); more bytes declared than present (0); program
/// descriptors overrunning the table (0).
pub open spec fn pmt_decode(s: Seq<u8>) -> Result<PmtView, u64> {
    if s.len() < 16 || s[0] != 2 {
        Err(0)
    } else if s[1] < 128 {
        Err(1)
    } else if s[5] % 2 == 0 {
        Err(5)
    } else if s[6] != 0 || s[7] != 0 {
        Err(6)
    } else if len12(s, 1) < 13 || len12(s, 1) > 1021 {
        Err(1)
    } else if s.len() < 3 + len12(s, 1) {
        Err(0)
    } else if 12 + len12(s, 10) > 3 + len12(s, 1) - 4 {
        Err(0)
    } else {
        Ok(PmtView {
            program_number: be16(s, 3) as u16,
            pcr_pid: pid13(s, 8),
            program_descriptors: s.subrange(12, 12 + len12(s, 10)),
            streams: pmt_streams(s, 12 + len12(s, 10), 3 + len12(s, 1) - 4),
        })
    }
}

/// Decode a PMT section (starting at its `table_id`; see [`pmt_decode`]).
pub fn parse(section: &[u8]) -> (r: Result<Pmt, ParseError>)
    ensures
        match pmt_decode(section@) {
            Err(off) => r == Err::<Pmt, ParseError>(ParseError::Malformed { offset: off }),
            Ok(v) => r matches Ok(p) && p.program_number == v.program_number && p.pcr_pid == v.pcr_pid
                && p.program_descriptors@ == v.program_descriptors
                && p.streams@.map_values(|e: PmtStreamEntry| stream_view(e)) == v.streams,
        },
{
    if section.len() < 16 {
        return Err(ParseError::Malformed { offset: 0 });
    }
    if section[0] != 0x02 {
        return Err(ParseError::Malformed { offset: 0 });
    }
    if section[1] < 128 {
        return Err(ParseError::Malformed { offset: 1 });
    }
    if section[5] % 2 == 0 {
        return Err(ParseError::Malformed { offset: 5 });
    }
    if section[6] != 0 || section[7] != 0 {
        return Err(ParseError::Malformed { offset: 6 });
    }
    let section_length = ((section[1] % 16) as usize) * 256 + section[2] as usize;
    if section_length < 13 || section_length > 1021 {
        return Err(ParseError::Malformed { offset: 1 });
    }
    if section.len() < 3 + section_length {
        return Err(ParseError::Malformed { offset: 0 });
    }
    let program_number = be16_at(section, 3);
    let pcr_pid = ((section[8] % 32) as u16) * 256 + section[9] as u16;
    let program_info_length = ((section[10] % 16) as usize) * 256 + section[11] as usize;
    let table_end = 3 + section_length - 4;
    if 12 + program_info_length > table_end {
        return Err(ParseError::Malformed { offset: 0 });
    }
    let program_descriptors = vstd::slice::slice_to_vec(vstd::slice::slice_subrange(section, 12, 12 + program_info_length));
    let mut pos = 12 + program_info_length;
    let ghost s = section@;
    let ghost start = pos as int;
    let mut streams: Vec<PmtStreamEntry> = Vec::new();
    loop
        invariant_except_break
            pmt_streams(s, start, table_end as int) == streams@.map_values(|e: PmtStreamEntry| stream_view(e))
                + pmt_streams(s, pos as int, table_end as int),
        invariant
            s == section@,
            table_end <= section@.len(),
            table_end <= 1020,
            pos <= table_end,
        ensures
            pmt_streams(s, start, table_end as int) == streams@.map_values(|e: PmtStreamEntry| stream_view(e)),
        decreases table_end - pos,
    {
        if pos + 5 > table_end {
            proof {
                assert(streams@.map_values(|e: PmtStreamEntry| stream_view(e)) + Seq::empty()
                    =~= streams@.map_values(|e: PmtStreamEntry| stream_view(e)));
            }
            break;
        }
        let stream_type = section[pos];
        let elementary_pid = ((section[pos + 1] % 32) as u16) * 256 + section[pos + 2] as u16;
        let es_info_length = ((section[pos + 3] % 16) as usize) * 256 + section[pos + 4] as usize;
        let desc_end = pos + 5 + es_info_length;
        if desc_end > table_end {
            proof {
                assert(streams@.map_values(|e: PmtStreamEntry| stream_view(e)) + Seq::empty()
                    =~= streams@.map_values(|e: PmtStreamEntry| stream_view(e)));
            }
            break;
        }
        let descriptors = vstd::slice::slice_to_vec(vstd::slice::slice_subrange(section, pos + 5, desc_end));
        let ghost before = streams@.map_values(|e: PmtStreamEntry| stream_view(e));
        let entry = PmtStreamEntry { stream_type, elementary_pid, descriptors };
        let ghost ev = stream_view(entry);
        streams.push(entry);
        proof {
            assert(ev == (s[pos as int], pid13(s, pos + 1), s.subrange(pos + 5, desc_end as int)));
            assert(streams@.map_values(|e: PmtStreamEntry| stream_view(e)) =~= before.push(ev));
            assert(before + pmt_streams(s, pos as int, table_end as int)
                =~= before.push(ev) + pmt_streams(s, desc_end as int, table_end as int));
        }
        pos = desc_end;
    }
    Ok(Pmt { program_number, pcr_pid, program_descriptors, streams })
}

} // verus!
