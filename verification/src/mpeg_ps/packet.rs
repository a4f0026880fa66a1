//! MPEG program-stream start codes: `00 00 01` followed by the stream id
//! byte.

use vstd::prelude::*;

verus! {

/// Pack header.
pub const PACK_HEADER: u8 = 0xBA;
/// System header.
pub const SYSTEM_HEADER: u8 = 0xBB;
/// Program stream map.
pub const PROGRAM_STREAM_MAP: u8 = 0xBC;
/// Private stream 1 (AC-3, DTS, LPCM, subpictures).
pub const PRIVATE_STREAM_1: u8 = 0xBD;
/// Padding stream.
pub const PADDING: u8 = 0xBE;
/// Private stream 2.
pub const PRIVATE_STREAM_2: u8 = 0xBF;
/// Program end code.
pub const PROGRAM_END_CODE: u8 = 0xB9;
/// VC-1 video stream id.
pub const VC1_VIDEO: u8 = 0xFD;

/// What a start code's stream id byte denotes.
#[derive(Debug, Clone, Copy, PartialEq, Eq, Structural)]
pub enum StartCode {
    PackHeader,
    SystemHeader,
    ProgramStreamMap,
    PrivateStream1,
    PrivateStream2,
    Padding,
    Audio(u8),
    Video(u8),
    ProgramEnd,
    Other(u8),
}

/// The start code a stream id byte denotes: the fixed ids, audio
/// `0xC0..=0xDF`, video `0xE0..=0xEF` and VC-1 `0xFD`.
pub open spec fn start_code_of(b: u8) -> StartCode {
    if b == PACK_HEADER {
        StartCode::PackHeader
    } else if b == SYSTEM_HEADER {
        StartCode::SystemHeader
    } else if b == PROGRAM_STREAM_MAP {
        StartCode::ProgramStreamMap
    } else if b == PRIVATE_STREAM_1 {
        StartCode::PrivateStream1
    } else if b == PADDING {
        StartCode::Padding
    } else if b == PRIVATE_STREAM_2 {
        StartCode::PrivateStream2
    } else if b == PROGRAM_END_CODE {
        StartCode::ProgramEnd
    } else if 0xC0 <= b <= 0xDF {
        StartCode::Audio(b)
    } else if 0xE0 <= b <= 0xEF || b == VC1_VIDEO {
        StartCode::Video(b)
    } else {
        StartCode::Other(b)
    }
}

impl StartCode {
    /// Classify a stream id byte (see [`start_code_of`]).
    pub fn from_byte(b: u8) -> (r: Self)
        ensures
            r == start_code_of(b),
    {
        if b == PACK_HEADER {
            StartCode::PackHeader
        } else if b == SYSTEM_HEADER {
            StartCode::SystemHeader
        } else if b == PROGRAM_STREAM_MAP {
            StartCode::ProgramStreamMap
        } else if b == PRIVATE_STREAM_1 {
            StartCode::PrivateStream1
        } else if b == PADDING {
            StartCode::Padding
        } else if b == PRIVATE_STREAM_2 {
            StartCode::PrivateStream2
        } else if b == PROGRAM_END_CODE {
            StartCode::ProgramEnd
        } else if 0xC0 <= b && b <= 0xDF {
            StartCode::Audio(b)
        } else if (0xE0 <= b && b <= 0xEF) || b == VC1_VIDEO {
            StartCode::Video(b)
        } else {
            StartCode::Other(b)
        }
    }
}

/// A start code (`00 00 01` and an id byte) begins at `i`.
pub open spec fn start_code_at(bytes: Seq<u8>, i: int) -> bool {
    &&& 0 <= i
    &&& i + 4 <= bytes.len()
    &&& bytes[i] == 0
    &&& bytes[i + 1] == 0
    &&& bytes[i + 2] == 1
}

/// The first start code at or after `from`, as its offset and stream id.
pub fn find_start_code(bytes: &[u8], from: usize) -> (r: Option<(usize, u8)>)
    ensures
        match r {
            Some((p, id)) => {
                &&& from <= p
                &&& start_code_at(bytes@, p as int)
                &&& id == bytes@[p + 3]
                &&& forall|j: int| from <= j < p ==> !start_code_at(bytes@, j)
            },
            None => forall|j: int| from <= j ==> !start_code_at(bytes@, j),
        },
{
    let len = bytes.len();
    if len < 4 {
        return None;
    }
    let mut i = from;
    while i <= len - 4
        invariant
            len == bytes@.len(),
            len >= 4,
            from <= i,
            forall|j: int| from <= j < i ==> !start_code_at(bytes@, j),
        decreases len - i,
    {
        if bytes[i] == 0x00 && bytes[i + 1] == 0x00 && bytes[i + 2] == 0x01 {
            return Some((i, bytes[i + 3]));
        }
        i = i + 1;
    }
    None
}

} // verus!
