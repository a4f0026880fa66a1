//! Dolby Vision video stream descriptor.  Its body, most significant bit
//! first: version major (8 bits), version minor (8), profile (7), level
//! (6), RPU present (1), base layer present (1), enhancement layer present
//! (1); when the base layer is not present, its 13-bit PID and 3 reserved
//! bits follow; then a compatibility id (4) and 4 reserved bits.  The
//! decoder needs the fields up to the base-layer PID.

use vstd::prelude::*;

verus! {

/// The fields of a Dolby Vision descriptor that identification uses.
#[derive(Debug, Clone, Copy, PartialEq, Eq, Default, Structural)]
pub struct DoviDescriptor {
    pub profile: u32,
    /// The PID of the base layer, present when the descriptor says the base
    /// layer is carried elsewhere.
    pub base_layer_pid: Option<u16>,
}

/// Whether the base-layer-present flag (bit 1 of the fourth byte) is set.
pub open spec fn base_layer_present(body: Seq<u8>) -> bool {
    (body[3] / 2) % 2 == 1
}

/// What a descriptor body decodes to: `None` when the bits run out before
/// the flags, or, with the base layer elsewhere, before its PID and the
/// three bits after it.
pub open spec fn dovi_decode(body: Seq<u8>) -> Option<DoviDescriptor> {
    if body.len() < 4 {
        None
    } else if base_layer_present(body) {
        Some(DoviDescriptor { profile: (body[2] / 2) as u32, base_layer_pid: None })
    } else if body.len() < 6 {
        None
    } else {
        Some(DoviDescriptor {
            profile: (body[2] / 2) as u32,
            base_layer_pid: Some((body[4] * 32 + body[5] / 8) as u16),
        })
    }
}

/// Decode a Dolby Vision descriptor body as [`dovi_decode`] says.
pub fn decode(body: &[u8]) -> (r: Option<DoviDescriptor>)
    ensures
        r == dovi_decode(body@),
{
    if body.len() < 4 {
        return None;
    }
    let profile = (body[2] / 2) as u32;
    let bl_present = (body[3] / 2) % 2 == 1;
    if bl_present {
        return Some(DoviDescriptor { profile, base_layer_pid: None });
    }
    if body.len() < 6 {
        return None;
    }
    let pid = (body[4] as u16) * 32 + (body[5] / 8) as u16;
    Some(DoviDescriptor { profile, base_layer_pid: Some(pid) })
}

} // verus!
