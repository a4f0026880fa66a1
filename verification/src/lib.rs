//! Header-level parsers for ISO BMFF / QuickTime and MPEG program / transport
//! streams, working on an in-memory byte source.

pub mod source;
pub mod model;
pub mod text;
pub mod codec;
pub mod mp4;
pub mod mpeg_ps;
pub mod mpeg_ts;
