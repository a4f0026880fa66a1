//! `tkhd` (track header) box: track id, enabled flag, display matrix and
//! 16.16 fixed-point display size.

use vstd::prelude::*;
use crate::source::{FileSource, ParseError, be32};
use crate::mp4::atom::{BoxHeader, payload_or_zero};
use super::mvhd::{read_matrix, matrix_at};

verus! {

#[derive(Debug, Clone, Copy)]
pub struct TrackHeader {
    pub version: u8,
    pub track_id: u32,
    /// 16.16 fixed-point display width.
    pub width_fixed: u32,
    /// 16.16 fixed-point display height.
    pub height_fixed: u32,
    pub enabled: bool,
    /// Rotation read off the display matrix, `None` for the identity and
    /// for matrices that are not a quarter turn.
    pub rotation_degrees: Option<u32>,
    /// The matrix mirrors one axis.
    pub flipped: bool,
    /// The display matrix cells.
    pub matrix: [[i32; 3]; 3],
}

/// The 16.16 cell `x` lies within 0.01 of the integer `k`.
pub open spec fn near(x: i32, k: int) -> bool {
    -655 <= x - 65536 * k <= 655
}

/// Rotation and flip read off the 2×2 block `(a, b; c, d)` of a display
/// matrix: the identity, the three quarter turns (each cell within 0.01 of
/// its exact value), otherwise no rotation and a flip when the determinant
/// is negative.
pub open spec fn orientation(a: i32, b: i32, c: i32, d: i32) -> (Option<u32>, bool) {
    if near(a, 1) && near(b, 0) && near(c, 0) && near(d, 1) {
        (None, false)
    } else if near(a, 0) && near(b, 1) && near(c, -1) && near(d, 0) {
        (Some(90), false)
    } else if near(a, -1) && near(b, 0) && near(c, 0) && near(d, -1) {
        (Some(180), false)
    } else if near(a, 0) && near(b, -1) && near(c, 1) && near(d, 0) {
        (Some(270), false)
    } else {
        (None, a * d - b * c < 0)
    }
}

proof fn lemma_i32_product_bounds(x: i32, y: i32)
    ensures
        -0x4000_0000_0000_0000 <= x * y <= 0x4000_0000_0000_0000,
{
    assert(-0x4000_0000_0000_0000 <= x * y <= 0x4000_0000_0000_0000) by (nonlinear_arith)
        requires
            -0x8000_0000 <= x <= 0x7fff_ffff,
            -0x8000_0000 <= y <= 0x7fff_ffff,
    ;
}

fn near_exec(x: i32, k: i64) -> (r: bool)
    requires
        -1 <= k <= 1,
    ensures
        r == near(x, k as int),
{
    let v = x as i64 - 65536 * k;
    -655 <= v && v <= 655
}

/// Rotation and flip of a display matrix given by its cells.
pub fn decode_matrix_cells(m: &[[i32; 3]; 3]) -> (r: (Option<u32>, bool))
    ensures
        r == orientation(m[0][0], m[0][1], m[1][0], m[1][1]),
{
    let a = m[0][0];
    let b = m[0][1];
    let c = m[1][0];
    let d = m[1][1];
    if near_exec(a, 1) && near_exec(b, 0) && near_exec(c, 0) && near_exec(d, 1) {
        return (None, false);
    }
    if near_exec(a, 0) && near_exec(b, 1) && near_exec(c, -1) && near_exec(d, 0) {
        return (Some(90), false);
    }
    if near_exec(a, -1) && near_exec(b, 0) && near_exec(c, 0) && near_exec(d, -1) {
        return (Some(180), false);
    }
    if near_exec(a, 0) && near_exec(b, -1) && near_exec(c, 1) && near_exec(d, 0) {
        return (Some(270), false);
    }
    proof {
        lemma_i32_product_bounds(a, d);
        lemma_i32_product_bounds(b, c);
    }
    let ad = (a as i128) * (d as i128);
    let bc = (b as i128) * (c as i128);
    (None, ad < bc)
}

/// Rotation and flip of the 36-byte display matrix (nine big-endian cells).
pub fn decode_matrix(matrix: &[u8; 36]) -> (r: (Option<u32>, bool))
    ensures
        r == orientation(
            be32(matrix@, 0) as i32,
            be32(matrix@, 4) as i32,
            be32(matrix@, 12) as i32,
            be32(matrix@, 16) as i32,
        ),
{
    let a = cell(matrix, 0);
    let b = cell(matrix, 4);
    let c = cell(matrix, 12);
    let d = cell(matrix, 16);
    decode_matrix_cells(&[[a, b, 0], [c, d, 0], [0, 0, 0]])
}

fn cell(matrix: &[u8; 36], off: usize) -> (v: i32)
    requires
        off + 4 <= 36,
    ensures
        v == be32(matrix@, off as int) as i32,
{
    ((matrix[off] as u32) * 0x100_0000 + (matrix[off + 1] as u32) * 0x1_0000 + (matrix[off + 2] as u32) * 0x100
        + (matrix[off + 3] as u32)) as i32
}

/// Round a 16.16 fixed-point value to the nearest integer, halves up.
pub fn fixed_to_pixels(fixed: u32) -> (r: u32)
    ensures
        r == (fixed + 0x8000) / 65536,
{
    ((fixed as u64 + 0x8000) / 65536) as u32
}

/// Payload bytes `tkhd::parse` reads for `version`.
pub open spec fn tkhd_len(version: u8) -> int {
    if version == 0 { 84 } else { 96 }
}

/// `t` holds what the `tkhd` payload at `p` says.
pub open spec fn tkhd_matches(bytes: Seq<u8>, p: int, t: TrackHeader) -> bool {
    let v = bytes[p];
    let m = if v == 0 { p + 40 } else { p + 52 };
    &&& t.version == v
    &&& t.enabled == (bytes[p + 3] % 2 == 1)
    &&& t.track_id == be32(bytes, if v == 0 { p + 12 } else { p + 20 })
    &&& matrix_at(bytes, m, t.matrix)
    &&& t.width_fixed == be32(bytes, m + 36)
    &&& t.height_fixed == be32(bytes, m + 40)
    &&& (t.rotation_degrees, t.flipped) == orientation(t.matrix[0][0], t.matrix[0][1], t.matrix[1][0], t.matrix[1][1])
}

/// Parse the `tkhd` payload at the cursor.  `Malformed` when the payload is
/// shorter than 84 bytes, `UnexpectedEof` when the data ends first.
pub fn parse(src: &mut FileSource, header: &BoxHeader) -> (r: Result<TrackHeader, ParseError>)
    ensures
        final(src).bytes() == old(src).bytes(),
        ({
            let p = old(src).pos();
            let bytes = old(src).bytes();
            if payload_or_zero(header@) < 84 {
                r == Err::<TrackHeader, ParseError>(ParseError::Malformed { offset: header.start })
            } else if p + 1 > bytes.len() || p + tkhd_len(bytes[p]) > bytes.len() {
                r matches Err(e) && e is UnexpectedEof
            } else {
                &&& r matches Ok(t) && tkhd_matches(bytes, p, t)
                &&& final(src).pos() == p + tkhd_len(bytes[p])
            }
        }),
{
    let payload = match header.payload_size() {
        Some(s) => s,
        None => 0,
    };
    if payload < 84 {
        return Err(ParseError::Malformed { offset: header.start });
    }
    let version = src.read_u8()?;
    src.skip(2)?;
    let flags_low = src.read_u8()?;
    let track_id = if version == 0 {
        src.skip(8)?;
        let id = src.read_u32_be()?;
        src.skip(8)?;
        id
    } else {
        src.skip(16)?;
        let id = src.read_u32_be()?;
        src.skip(12)?;
        id
    };
    src.skip(16)?;
    let matrix = read_matrix(src)?;
    let width_fixed = src.read_u32_be()?;
    let height_fixed = src.read_u32_be()?;
    let (rotation_degrees, flipped) = decode_matrix_cells(&matrix);
    Ok(TrackHeader {
        version,
        track_id,
        width_fixed,
        height_fixed,
        enabled: flags_low % 2 == 1,
        rotation_degrees,
        flipped,
        matrix,
    })
}

} // verus!
