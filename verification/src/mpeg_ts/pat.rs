//! Program Association Table: `table_id` 0, a 12-bit section length, the
//! transport stream id, version and section numbers, then four-byte
//! entries (program number, 13-bit PMT PID) and a CRC32, which is not
//! checked.

use vstd::prelude::*;
use crate::source::{ParseError, be16, be16_at};

verus! {

/// One program of the table.
#[derive(Debug, Clone, Copy, PartialEq, Eq, Structural)]
pub struct PatEntry {
    pub program_number: u16,
    pub pmt_pid: u16,
}

/// A decoded table.
#[derive(Debug)]
pub struct Pat {
    pub transport_stream_id: u16,
    pub entries: Vec<PatEntry>,
}

/// 12-bit section length of the section `s`.
pub open spec fn section_length(s: Seq<u8>) -> int {
    (s[1] % 16) * 256 + s[2]
}

/// The programs of the four-byte entries from `pos` to `end`, program
/// number 0 (the network information PID) left out.
pub open spec fn pat_entries(s: Seq<u8>, pos: int, end: int) -> Seq<PatEntry>
    decreases end - pos,
{
    if pos + 4 > end {
        Seq::empty()
    } else {
        let rest = pat_entries(s, pos + 4, end);
        let number = be16(s, pos);
        if number != 0 {
            seq![PatEntry { program_number: number as u16, pmt_pid: ((s[pos + 2] % 32) * 256 + s[pos + 3]) as u16 }] + rest
        } else {
            rest
        }
    }
}

/// A section this parser cannot take: a declared section length of zero,
/// which leaves no room for the CRC.
pub open spec fn pat_length_underflows(s: Seq<u8>) -> bool {
    s.len() >= 12 && s[0] == 0 && section_length(s) == 0
}

/// What a section decodes to: `None` when under 12 bytes, not table 0,
/// declaring more bytes than it has, or too short for its header.
pub open spec fn pat_decode(s: Seq<u8>) -> Option<(u16, Seq<PatEntry>)> {
    if s.len() < 12 || s[0] != 0 || s.len() < 3 + section_length(s) || 3 + section_length(s) - 4 < 8 {
        None
    } else {
        Some((be16(s, 3) as u16, pat_entries(s, 8, 3 + section_length(s) - 4)))
    }
}

/// Decode a PAT section (starting at its `table_id`); `Malformed` (offset
/// 0) when [`pat_decode`] finds none.
pub fn parse(section: &[u8]) -> (r: Result<Pat, ParseError>)
    requires
        !pat_length_underflows(section@),
    ensures
        match pat_decode(section@) {
            None => r == Err::<Pat, ParseError>(ParseError::Malformed { offset: 0 }),
            Some((tsid, es)) => r matches Ok(p) && p.transport_stream_id == tsid && p.entries@ == es,
        },
{
    if section.len() < 12 {
        return Err(ParseError::Malformed { offset: 0 });
    }
    if section[0] != 0x00 {
        return Err(ParseError::Malformed { offset: 0 });
    }
    let section_length = ((section[1] % 16) as usize) * 256 + section[2] as usize;
    if section.len() < 3 + section_length {
        return Err(ParseError::Malformed { offset: 0 });
    }
    let transport_stream_id = be16_at(section, 3);
    let table_end = 3 + section_length - 4;
    if table_end < 8 {
        return Err(ParseError::Malformed { offset: 0 });
    }
    let ghost s = section@;
    let mut entries: Vec<PatEntry> = Vec::new();
    let mut pos: usize = 8;
    while pos + 4 <= table_end
        invariant
            s == section@,
            table_end <= section@.len(),
            table_end < 4096 + 3,
            8 <= pos,
            pos <= table_end + 4,
            pat_entries(s, 8, table_end as int) == entries@ + pat_entries(s, pos as int, table_end as int),
        decreases table_end - pos,
    {
        let program_number = be16_at(section, pos);
        let pid = ((section[pos + 2] % 32) as u16) * 256 + section[pos + 3] as u16;
        let ghost before = entries@;
        if program_number != 0 {
            entries.push(PatEntry { program_number, pmt_pid: pid });
            proof {
                assert(before + pat_entries(s, pos as int, table_end as int)
                    =~= entries@ + pat_entries(s, pos + 4, table_end as int));
            }
        }
        pos = pos + 4;
    }
    proof {
        assert(entries@ + Seq::<PatEntry>::empty() =~= entries@);
    }
    Ok(Pat { transport_stream_id, entries })
}

} // verus!
