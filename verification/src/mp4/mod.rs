//! ISO BMFF / QuickTime box parsers.

pub mod atom;
pub mod fragments;
pub mod ftyp;
pub mod moov;
pub mod codec_specific;
pub mod meta;
pub mod identify;
pub mod reader;
pub mod verify;
