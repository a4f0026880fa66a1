//! `stsc` (sample-to-chunk) box: up to a given number of
//! `(first_chunk, samples_per_chunk)` runs.

use vstd::prelude::*;
use crate::source::{FileSource, ParseError, be32};
use crate::mp4::atom::{BoxHeader, payload_or_zero};

verus! {

/// One `stsc` entry; `first_chunk` is 1-based as stored.
#[derive(Debug, Clone, Copy, PartialEq, Eq, Structural)]
pub struct StscEntry {
    pub first_chunk: u32,
    pub samples_per_chunk: u32,
}

/// Number of entries `stsc::parse` reads: the declared count, capped by
/// `max_entries` and by the entries the payload can hold.
pub open spec fn stsc_to_read(count: int, max_entries: int, size: int) -> int {
    let a = if count < max_entries { count } else { max_entries };
    let avail = (size - 8) / 12;
    if a < avail { a } else { avail }
}

/// Read up to `max_entries` `stsc` entries from the payload at the cursor.
/// An empty result for a payload under 8 bytes or an empty table;
/// `UnexpectedEof` when the data ends before an entry that is read.
pub fn parse(src: &mut FileSource, header: &BoxHeader, max_entries: usize) -> (r: Result<Vec<StscEntry>, ParseError>)
    ensures
        final(src).bytes() == old(src).bytes(),
        ({
            let p = old(src).pos();
            let bytes = old(src).bytes();
            let size = payload_or_zero(header@);
            let n = stsc_to_read(be32(bytes, p + 4), max_entries as int, size);
            if size < 8 {
                r matches Ok(v) && v@.len() == 0
            } else if p + 8 > bytes.len() {
                r matches Err(e) && e is UnexpectedEof
            } else if be32(bytes, p + 4) == 0 {
                r matches Ok(v) && v@.len() == 0
            } else if p + 8 + 12 * n > bytes.len() {
                r matches Err(e) && e is UnexpectedEof
            } else {
                &&& r matches Ok(v) && v@.len() == n && forall|i: int| 0 <= i < n ==> (#[trigger] v@[i]).first_chunk
                    == be32(bytes, p + 8 + 12 * i) && v@[i].samples_per_chunk == be32(bytes, p + 12 + 12 * i)
                &&& final(src).pos() == p + 8 + 12 * n
            }
        }),
{
    let size = match header.payload_size() {
        Some(s) => s,
        None => 0,
    };
    if size < 8 {
        return Ok(Vec::new());
    }
    src.skip(4)?;
    let entry_count = src.read_u32_be()?;
    if entry_count == 0 {
        return Ok(Vec::new());
    }
    let capped: u64 = if (entry_count as u64) < (max_entries as u64) {
        entry_count as u64
    } else {
        max_entries as u64
    };
    let available = (size - 8) / 12;
    let to_read = if capped < available {
        capped
    } else {
        available
    };
    let ghost p = old(src).pos();
    let ghost bytes = old(src).bytes();
    assert(to_read == stsc_to_read(be32(bytes, p + 4), max_entries as int, size as int));
    let mut entries: Vec<StscEntry> = Vec::new();
    let mut k: u64 = 0;
    while k < to_read
        invariant
            k <= to_read,
            to_read == stsc_to_read(be32(bytes, p + 4), max_entries as int, size as int),
            size == payload_or_zero(header@),
            size >= 8,
            be32(bytes, p + 4) != 0,
            src.bytes() == bytes,
            bytes == old(src).bytes(),
            p == old(src).pos(),
            src.pos() == p + 8 + 12 * k,
            p + 8 + 12 * k <= bytes.len(),
            entries@.len() == k,
            forall|i: int| 0 <= i < k ==> (#[trigger] entries@[i]).first_chunk == be32(bytes, p + 8 + 12 * i)
                && entries@[i].samples_per_chunk == be32(bytes, p + 12 + 12 * i),
        decreases to_read - k,
    {
        let first_chunk = src.read_u32_be()?;
        let samples_per_chunk = src.read_u32_be()?;
        let _sample_description_id = src.read_u32_be()?;
        entries.push(StscEntry { first_chunk, samples_per_chunk });
        k = k + 1;
    }
    Ok(entries)
}

} // verus!
