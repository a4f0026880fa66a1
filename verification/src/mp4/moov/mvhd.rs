//! `mvhd` (movie header) box: timescale, duration, display matrix and next
//! track id.  Version 0 uses 32-bit times (100-byte payload), version 1
//! 64-bit times (112 bytes).

use vstd::prelude::*;
use crate::source::{FileSource, ParseError, be32, be64};
use crate::mp4::atom::{BoxHeader, payload_or_zero};

verus! {

#[derive(Debug, Clone, Copy)]
pub struct MovieHeader {
    pub version: u8,
    pub timescale: u32,
    pub duration: u64,
    pub next_track_id: u32,
    /// 3×3 display matrix (16.16 fixed point in columns 0 and 1, 2.30 in
    /// column 2).
    pub matrix: [[i32; 3]; 3],
}

/// The display matrix whose nine big-endian cells start at `p`.
pub open spec fn matrix_at(bytes: Seq<u8>, p: int, m: [[i32; 3]; 3]) -> bool {
    forall|i: int, j: int| 0 <= i < 3 && 0 <= j < 3 ==> #[trigger] m[i][j] == be32(bytes, p + 12 * i + 4 * j) as i32
}

/// Read a 3×3 display matrix (nine big-endian `i32`) at the cursor.
pub fn read_matrix(src: &mut FileSource) -> (r: Result<[[i32; 3]; 3], ParseError>)
    ensures
        final(src).bytes() == old(src).bytes(),
        r is Ok <==> old(src).pos() + 36 <= old(src).bytes().len(),
        r matches Ok(m) ==> matrix_at(old(src).bytes(), old(src).pos(), m) && final(src).pos() == old(src).pos() + 36,
        r matches Err(e) ==> e is UnexpectedEof,
{
    let a = src.read_u32_be()? as i32;
    let b = src.read_u32_be()? as i32;
    let c = src.read_u32_be()? as i32;
    let d = src.read_u32_be()? as i32;
    let e = src.read_u32_be()? as i32;
    let f = src.read_u32_be()? as i32;
    let g = src.read_u32_be()? as i32;
    let h = src.read_u32_be()? as i32;
    let k = src.read_u32_be()? as i32;
    let m = [[a, b, c], [d, e, f], [g, h, k]];
    Ok(m)
}

/// Payload bytes `mvhd::parse` reads for `version`.
pub open spec fn mvhd_len(version: u8) -> int {
    if version == 0 { 100 } else { 112 }
}

/// `m` holds what the `mvhd` payload at `p` says.
pub open spec fn mvhd_matches(bytes: Seq<u8>, p: int, m: MovieHeader) -> bool {
    let v = bytes[p];
    &&& m.version == v
    &&& v == 0 ==> m.timescale == be32(bytes, p + 12) && m.duration == be32(bytes, p + 16)
        && matrix_at(bytes, p + 36, m.matrix) && m.next_track_id == be32(bytes, p + 96)
    &&& v != 0 ==> m.timescale == be32(bytes, p + 20) && m.duration == be64(bytes, p + 24)
        && matrix_at(bytes, p + 48, m.matrix) && m.next_track_id == be32(bytes, p + 108)
}

/// Parse the `mvhd` payload at the cursor.  `Malformed` when the payload is
/// shorter than 100 bytes, `UnexpectedEof` when the data ends first.
pub fn parse(src: &mut FileSource, header: &BoxHeader) -> (r: Result<MovieHeader, ParseError>)
    ensures
        final(src).bytes() == old(src).bytes(),
        ({
            let p = old(src).pos();
            let bytes = old(src).bytes();
            if payload_or_zero(header@) < 100 {
                r == Err::<MovieHeader, ParseError>(ParseError::Malformed { offset: header.start })
            } else if p + 1 > bytes.len() || p + mvhd_len(bytes[p]) > bytes.len() {
                r matches Err(e) && e is UnexpectedEof
            } else {
                &&& r matches Ok(m) && mvhd_matches(bytes, p, m)
                &&& final(src).pos() == p + mvhd_len(bytes[p])
            }
        }),
{
    let payload = match header.payload_size() {
        Some(s) => s,
        None => 0,
    };
    if payload < 100 {
        return Err(ParseError::Malformed { offset: header.start });
    }
    let version = src.read_u8()?;
    src.skip(3)?;
    let (timescale, duration) = if version == 0 {
        src.skip(8)?;
        let ts = src.read_u32_be()?;
        let dur = src.read_u32_be()? as u64;
        (ts, dur)
    } else {
        src.skip(16)?;
        let ts = src.read_u32_be()?;
        let dur = src.read_u64_be()?;
        (ts, dur)
    };
    src.skip(16)?;
    let matrix = read_matrix(src)?;
    src.skip(24)?;
    let next_track_id = src.read_u32_be()?;
    Ok(MovieHeader { version, timescale, duration, next_track_id, matrix })
}

} // verus!
