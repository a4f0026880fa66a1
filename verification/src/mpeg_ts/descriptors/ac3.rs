//! AC-3 audio descriptor.  Its shape differs between DVB and ATSC, but its
//! presence alone marks the stream as AC-3, whatever the body holds.

use vstd::prelude::*;

verus! {

/// Whether a descriptor body marks the stream as AC-3: always.
pub fn decode(body: &[u8]) -> (r: bool)
    ensures
        r,
{
    true
}

} // verus!
