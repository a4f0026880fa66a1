//! MPEG program streams: start codes, PES headers and stream
//! classification.

pub mod identify;
pub mod packet;
pub mod pes;
pub mod stream_map;
pub mod reader;
