//! `stts` (decoding time-to-sample) box: only its first entry is read.

use vstd::prelude::*;
use crate::source::{FileSource, ParseError, be32};
use crate::mp4::atom::{BoxHeader, payload_or_zero};

verus! {

#[derive(Debug, Clone, Copy)]
pub struct SttsSummary {
    pub first_sample_count: u32,
    pub first_sample_delta: u32,
}

/// Parse the `stts` payload at the cursor: the first entry, or zeros when
/// the table is empty.  `Malformed` for a payload under 8 bytes or an entry
/// count whose entries do not fit the payload; `UnexpectedEof` when the data
/// ends before a field read.
pub fn parse(src: &mut FileSource, header: &BoxHeader) -> (r: Result<SttsSummary, ParseError>)
    ensures
        final(src).bytes() == old(src).bytes(),
        ({
            let p = old(src).pos();
            let bytes = old(src).bytes();
            let size = payload_or_zero(header@);
            let count = be32(bytes, p + 4);
            if size < 8 {
                r == Err::<SttsSummary, ParseError>(ParseError::Malformed { offset: header.start })
            } else if p + 8 > bytes.len() {
                r matches Err(e) && e is UnexpectedEof
            } else if count == 0 {
                &&& r matches Ok(s) && s.first_sample_count == 0 && s.first_sample_delta == 0
                &&& final(src).pos() == p + 8
            } else if 8 + count * 8 > size {
                r == Err::<SttsSummary, ParseError>(ParseError::Malformed { offset: header.start })
            } else if p + 16 > bytes.len() {
                r matches Err(e) && e is UnexpectedEof
            } else {
                &&& r matches Ok(s) && s.first_sample_count == be32(bytes, p + 8)
                    && s.first_sample_delta == be32(bytes, p + 12)
                &&& final(src).pos() == p + 16
            }
        }),
{
    let payload = match header.payload_size() {
        Some(s) => s,
        None => 0,
    };
    if payload < 8 {
        return Err(ParseError::Malformed { offset: header.start });
    }
    src.skip(4)?;
    let entry_count = src.read_u32_be()?;
    if entry_count == 0 {
        return Ok(SttsSummary { first_sample_count: 0, first_sample_delta: 0 });
    }
    let needed: u64 = 8 + entry_count as u64 * 8;
    if needed > payload {
        return Err(ParseError::Malformed { offset: header.start });
    }
    let first_sample_count = src.read_u32_be()?;
    let first_sample_delta = src.read_u32_be()?;
    Ok(SttsSummary { first_sample_count, first_sample_delta })
}

} // verus!
