//! MPEG transport streams: packets, program tables, PES headers and
//! descriptors.

pub mod packet;
pub mod pat;
pub mod pmt;
pub mod pes;
pub mod descriptors;
pub mod reader;
pub mod stream_table;
pub mod identify;
