//! PES headers carried in transport stream packets: the `00 00 01` prefix,
//! the stream id and the packet length; and the coarse class of a stream
//! id.

use vstd::prelude::*;
use crate::source::{ParseError, be16, be16_at};

verus! {

/// Stream id and declared packet length of a PES packet.
#[derive(Debug, Clone, Copy, PartialEq, Eq, Structural)]
pub struct PesHeader {
    pub stream_id: u8,
    pub packet_length: u16,
}

/// Decode the first six bytes of a PES packet: `Malformed` (offset 0) when
/// fewer than six bytes are given or the `00 00 01` prefix is missing.
pub fn parse(bytes: &[u8]) -> (r: Result<PesHeader, ParseError>)
    ensures
        bytes@.len() < 6 || !(bytes@[0] == 0 && bytes@[1] == 0 && bytes@[2] == 1)
            ==> r == Err::<PesHeader, ParseError>(ParseError::Malformed { offset: 0 }),
        bytes@.len() >= 6 && bytes@[0] == 0 && bytes@[1] == 0 && bytes@[2] == 1
            ==> r == Ok::<PesHeader, ParseError>(PesHeader { stream_id: bytes@[3], packet_length: be16(bytes@, 4) as u16 }),
{
    if bytes.len() < 6 {
        return Err(ParseError::Malformed { offset: 0 });
    }
    if !(bytes[0] == 0x00 && bytes[1] == 0x00 && bytes[2] == 0x01) {
        return Err(ParseError::Malformed { offset: 0 });
    }
    Ok(PesHeader { stream_id: bytes[3], packet_length: be16_at(bytes, 4) })
}

/// Coarse class of a stream id.
#[derive(Debug, Clone, Copy, PartialEq, Eq, Structural)]
pub enum StreamIdClass {
    Audio,
    Video,
    ProgramStreamMap,
    PrivateStream1,
    PrivateStream2,
    Padding,
    Reserved,
    Other,
}

/// The class of a stream id.
pub open spec fn stream_id_class(id: u8) -> StreamIdClass {
    if id == 0xBC {
        StreamIdClass::ProgramStreamMap
    } else if id == 0xBD {
        StreamIdClass::PrivateStream1
    } else if id == 0xBE {
        StreamIdClass::Padding
    } else if id == 0xBF {
        StreamIdClass::PrivateStream2
    } else if id == 0xF0 || id == 0xF1 || id == 0xFF {
        StreamIdClass::Reserved
    } else if 0xC0 <= id <= 0xDF {
        StreamIdClass::Audio
    } else if 0xE0 <= id <= 0xEF {
        StreamIdClass::Video
    } else {
        StreamIdClass::Other
    }
}

/// Classify a stream id (see [`stream_id_class`]).
pub fn classify_stream_id(stream_id: u8) -> (r: StreamIdClass)
    ensures
        r == stream_id_class(stream_id),
{
    if stream_id == 0xBC {
        StreamIdClass::ProgramStreamMap
    } else if stream_id == 0xBD {
        StreamIdClass::PrivateStream1
    } else if stream_id == 0xBE {
        StreamIdClass::Padding
    } else if stream_id == 0xBF {
        StreamIdClass::PrivateStream2
    } else if stream_id == 0xF0 || stream_id == 0xF1 || stream_id == 0xFF {
        StreamIdClass::Reserved
    } else if 0xC0 <= stream_id && stream_id <= 0xDF {
        StreamIdClass::Audio
    } else if 0xE0 <= stream_id && stream_id <= 0xEF {
        StreamIdClass::Video
    } else {
        StreamIdClass::Other
    }
}

} // verus!
