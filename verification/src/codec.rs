//! Codecs as the readers name them: a broad kind, a Matroska-style codec
//! id and a display name.

use vstd::prelude::*;

verus! {

/// Broad kind of a stream.
#[derive(Debug, Clone, Copy, PartialEq, Eq, Structural)]
pub enum TrackKind {
    Video,
    Audio,
    Subtitle,
    Button,
    Unknown,
}

/// A codec: its kind, Matroska-style codec id and display name.
#[derive(Debug, Clone, Copy)]
pub struct Codec {
    pub kind: TrackKind,
    pub id: &'static str,
    pub name: &'static str,
}

/// A codec as values.
pub struct CodecView {
    pub kind: TrackKind,
    pub id: Seq<char>,
    pub name: Seq<char>,
}

impl View for Codec {
    type V = CodecView;

    open spec fn view(&self) -> CodecView {
        CodecView { kind: self.kind, id: self.id@, name: self.name@ }
    }
}

/// A codec view from its parts.
pub open spec fn cv(kind: TrackKind, id: &str, name: &str) -> CodecView {
    CodecView { kind, id: id@, name: name@ }
}

/// An optional codec as an optional view.
pub open spec fn codec_view(c: Option<Codec>) -> Option<CodecView> {
    match c {
        Some(x) => Some(x@),
        None => None,
    }
}

pub(crate) fn codec(kind: TrackKind, id: &'static str, name: &'static str) -> (c: Codec)
    ensures
        c@ == cv(kind, id, name),
{
    Codec { kind, id, name }
}

} // verus!
