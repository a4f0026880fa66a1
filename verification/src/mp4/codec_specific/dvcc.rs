//! `dvcC` / `dvvC` (Dolby Vision configuration): kept as a block addition
//! keyed by the box FOURCC, not decoded into the codec configuration.

use vstd::prelude::*;
use crate::source::{FileSource, ParseError};
use crate::text::{latin1_chars, latin1_string};
use crate::mp4::atom::{BoxHeader, payload_read, read_payload};
use crate::mp4::moov::trak::TrackBuilder;

verus! {

/// `n` is `o` with `(fourcc, payload)` appended to its block additions, the
/// FOURCC rendered one character per byte.
pub open spec fn with_block_addition(o: TrackBuilder, n: TrackBuilder, fourcc: Seq<u8>, payload: Seq<u8>) -> bool {
    &&& n == (TrackBuilder { block_additions: n.block_additions, ..o })
    &&& n.block_additions@.len() == o.block_additions@.len() + 1
    &&& n.block_additions@.subrange(0, o.block_additions@.len() as int) == o.block_additions@
    &&& n.block_additions@.last().0@ == latin1_chars(fourcc)
    &&& n.block_additions@.last().1@ == payload
}

/// Parse a Dolby Vision configuration box with no caller cap.
pub fn parse(src: &mut FileSource, header: &BoxHeader, builder: &mut TrackBuilder) -> (r: Result<(), ParseError>)
    ensures
        final(src).bytes() == old(src).bytes(),
        match payload_read(old(src).bytes(), old(src).pos(), header@, u64::MAX) {
            Err(e) => r == Err::<(), ParseError>(e) && *final(builder) == *old(builder),
            Ok(pl) => if pl.len() < 4 {
                r == Err::<(), ParseError>(ParseError::Malformed { offset: header.start })
                    && *final(builder) == *old(builder)
            } else {
                r is Ok && with_block_addition(*old(builder), *final(builder), header@.kind, pl)
            },
        },
{
    parse_with_cap(src, header, builder, u64::MAX)
}

/// Parse a Dolby Vision configuration box at the cursor: its payload
/// (refused above `payload_cap`, `Malformed` under 4 bytes) is appended to
/// the block additions under the box FOURCC.
pub fn parse_with_cap(src: &mut FileSource, header: &BoxHeader, builder: &mut TrackBuilder, payload_cap: u64) -> (r: Result<(), ParseError>)
    ensures
        final(src).bytes() == old(src).bytes(),
        match payload_read(old(src).bytes(), old(src).pos(), header@, payload_cap) {
            Err(e) => r == Err::<(), ParseError>(e) && *final(builder) == *old(builder),
            Ok(pl) => if pl.len() < 4 {
                r == Err::<(), ParseError>(ParseError::Malformed { offset: header.start })
                    && *final(builder) == *old(builder)
            } else {
                r is Ok && with_block_addition(*old(builder), *final(builder), header@.kind, pl)
            },
        },
{
    let payload = read_payload(src, header, payload_cap)?;
    if payload.len() < 4 {
        return Err(ParseError::Malformed { offset: header.start });
    }
    let fourcc = latin1_string(&header.kind.0);
    builder.block_additions.push((fourcc, payload));
    proof {
        assert(builder.block_additions@.subrange(0, old(builder).block_additions@.len() as int)
            =~= old(builder).block_additions@);
    }
    Ok(())
}

} // verus!
