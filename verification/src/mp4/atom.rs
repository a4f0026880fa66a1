//! ISO BMFF / QuickTime box header walker.
//!
//! Each box starts with a 32-bit big-endian size and a 4-byte type.  Size 1
//! means a 64-bit size follows (16-byte header); size 0 means the box runs
//! to the end of the data; any other size below 8 is malformed.

use vstd::prelude::*;
use crate::source::{FileSource, ParseError, be32, be64};
use crate::text::push_char;

verus! {

/// A 4-byte box type.  The raw bytes are kept, so non-ASCII types (the
/// `©` prefix of iTunes metadata atoms is 0xA9) round-trip.
#[derive(Debug, Clone, Copy)]
pub struct BoxType(pub [u8; 4]);

/// `b` is printable ASCII.
pub open spec fn is_printable(b: u8) -> bool {
    0x20 <= b <= 0x7E
}

/// The character shown for `b`: itself when printable, `?` otherwise.
pub open spec fn lossy_char(b: u8) -> char {
    if is_printable(b) {
        b as char
    } else {
        '?'
    }
}

/// The characters shown for a byte sequence.
pub open spec fn lossy_chars(b: Seq<u8>) -> Seq<char> {
    Seq::new(b.len(), |i: int| lossy_char(b[i]))
}

impl View for BoxType {
    type V = Seq<u8>;

    open spec fn view(&self) -> Seq<u8> {
        self.0@
    }
}

impl BoxType {
    /// Box type from a 4-byte literal.
    pub fn new(b: &[u8; 4]) -> (t: Self)
        ensures
            t@ == b@,
    {
        BoxType(*b)
    }

    /// `true` when every byte is printable ASCII.
    pub fn is_human_readable(&self) -> (r: bool)
        ensures
            r == (forall|i: int| 0 <= i < 4 ==> is_printable(#[trigger] self@[i])),
    {
        let r = 0x20 <= self.0[0] && self.0[0] <= 0x7E && 0x20 <= self.0[1] && self.0[1] <= 0x7E
            && 0x20 <= self.0[2] && self.0[2] <= 0x7E && 0x20 <= self.0[3] && self.0[3] <= 0x7E;
        proof {
            if !r {
                if !is_printable(self@[0]) {
                } else if !is_printable(self@[1]) {
                } else if !is_printable(self@[2]) {
                } else {
                    assert(!is_printable(self@[3]));
                }
            }
        }
        r
    }

    /// The type as text, `?` standing for each non-printable byte.
    pub fn as_str_lossy(&self) -> (s: String)
        ensures
            s@ == lossy_chars(self@),
    {
        let mut s = String::new();
        let mut i: usize = 0;
        while i < 4
            invariant
                i <= 4,
                self@.len() == 4,
                s@ == lossy_chars(self@.subrange(0, i as int)),
            decreases 4 - i,
        {
            let b = self.0[i];
            let c = if 0x20 <= b && b <= 0x7E {
                b as char
            } else {
                '?'
            };
            push_char(&mut s, c);
            i = i + 1;
            assert(s@ =~= lossy_chars(self@.subrange(0, i as int)));
        }
        assert(self@.subrange(0, 4) =~= self@);
        s
    }

    /// Compare against a 4-byte literal.
    pub fn eq_ascii(&self, ascii: &[u8; 4]) -> (r: bool)
        ensures
            r == (self@ == ascii@),
    {
        let r = self.0[0] == ascii[0] && self.0[1] == ascii[1] && self.0[2] == ascii[2]
            && self.0[3] == ascii[3];
        proof {
            if r {
                assert(self@ =~= ascii@);
            }
        }
        r
    }
}

/// A box header as values: start offset, type bytes, header length and
/// total size (`None` for a box that runs to the end of the data).
pub struct BoxHeaderView {
    pub start: int,
    pub kind: Seq<u8>,
    pub header_len: int,
    pub total_size: Option<int>,
}

impl BoxHeaderView {
    pub open spec fn payload_start(self) -> int {
        self.start + self.header_len
    }

    pub open spec fn end(self) -> Option<int> {
        match self.total_size {
            Some(s) => Some(self.start + s),
            None => None,
        }
    }

    pub open spec fn payload_size(self) -> Option<int> {
        match self.total_size {
            Some(s) => Some(if s >= self.header_len { s - self.header_len } else { 0 }),
            None => None,
        }
    }
}

/// One box header with its offsets decoded.
#[derive(Debug, Clone, Copy)]
pub struct BoxHeader {
    /// Absolute offset of the first header byte.
    pub start: u64,
    /// Box type.
    pub kind: BoxType,
    /// Header length: 8, or 16 for the 64-bit size form.
    pub header_len: u8,
    /// Total box size (header and payload); `None` for the to-end form.
    pub total_size: Option<u64>,
}

impl View for BoxHeader {
    type V = BoxHeaderView;

    open spec fn view(&self) -> BoxHeaderView {
        BoxHeaderView {
            start: self.start as int,
            kind: self.kind@,
            header_len: self.header_len as int,
            total_size: match self.total_size {
                Some(s) => Some(s as int),
                None => None,
            },
        }
    }
}

impl BoxHeader {
    /// The offsets this header describes fit in `u64`.
    pub open spec fn wf(&self) -> bool {
        &&& self.start + self.header_len <= u64::MAX
        &&& self.total_size matches Some(s) ==> self.start + s <= u64::MAX
    }

    /// Absolute offset of the first payload byte.
    pub fn payload_start(&self) -> (r: u64)
        requires
            self.wf(),
        ensures
            r == self@.payload_start(),
    {
        self.start + self.header_len as u64
    }

    /// Absolute offset one byte past the payload; `None` for the to-end form.
    pub fn end(&self) -> (r: Option<u64>)
        requires
            self.wf(),
        ensures
            r matches Some(e) ==> self@.end() == Some(e as int),
            r is None ==> self@.end() is None,
    {
        match self.total_size {
            Some(s) => Some(self.start + s),
            None => None,
        }
    }

    /// Payload size in bytes; `None` for the to-end form.
    pub fn payload_size(&self) -> (r: Option<u64>)
        ensures
            r matches Some(p) ==> self@.payload_size() == Some(p as int),
            r is None ==> self@.payload_size() is None,
    {
        match self.total_size {
            Some(s) => Some(if s >= self.header_len as u64 { s - self.header_len as u64 } else { 0 }),
            None => None,
        }
    }
}

/// The payload size of `h`, zero for the to-end form.
pub open spec fn payload_or_zero(h: BoxHeaderView) -> int {
    match h.payload_size() {
        Some(p) => p,
        None => 0,
    }
}

/// The header bytes at `pos` form a valid header whose offsets fit in `u64`.
pub open spec fn header_ok(bytes: Seq<u8>, pos: int) -> bool {
    &&& 0 <= pos
    &&& pos + 8 <= bytes.len()
    &&& {
        let size32 = be32(bytes, pos);
        ||| size32 == 0
        ||| (size32 == 1 && pos + 16 <= bytes.len() && be64(bytes, pos + 8) >= 16
            && pos + be64(bytes, pos + 8) <= u64::MAX)
        ||| (size32 >= 8 && pos + size32 <= u64::MAX)
    }
}

/// The header decoded from the bytes at `pos` (meaningful when
/// `header_ok(bytes, pos)`).
pub open spec fn header_at(bytes: Seq<u8>, pos: int) -> BoxHeaderView {
    let size32 = be32(bytes, pos);
    BoxHeaderView {
        start: pos,
        kind: bytes.subrange(pos + 4, pos + 8),
        header_len: if size32 == 1 { 16 } else { 8 },
        total_size: if size32 == 0 {
            None
        } else if size32 == 1 {
            Some(be64(bytes, pos + 8))
        } else {
            Some(size32)
        },
    }
}

/// The error reported for the header bytes at `pos` when `!header_ok`.
pub open spec fn header_error(bytes: Seq<u8>, pos: int) -> ParseError {
    if pos + 4 > bytes.len() {
        ParseError::UnexpectedEof { offset: pos as u64 }
    } else if pos + 8 > bytes.len() {
        ParseError::UnexpectedEof { offset: (pos + 4) as u64 }
    } else if be32(bytes, pos) == 1 && pos + 16 > bytes.len() {
        ParseError::UnexpectedEof { offset: (pos + 8) as u64 }
    } else {
        ParseError::Malformed { offset: pos as u64 }
    }
}

/// Decode the box header at absolute offset `pos` without moving the cursor.
pub fn box_header_at(src: &FileSource, pos: u64) -> (r: Result<BoxHeader, ParseError>)
    ensures
        r is Ok <==> header_ok(src.bytes(), pos as int),
        r matches Ok(h) ==> h@ == header_at(src.bytes(), pos as int) && h.wf(),
        r matches Err(e) ==> e == header_error(src.bytes(), pos as int),
{
    let bytes_len = src.length();
    if bytes_len < 4 || pos > bytes_len - 4 {
        return Err(ParseError::UnexpectedEof { offset: pos });
    }
    if bytes_len < 8 || pos > bytes_len - 8 {
        return Err(ParseError::UnexpectedEof { offset: pos + 4 });
    }
    let size32 = src.u32_at(pos);
    let kind = src.array4_at(pos + 4);
    if size32 == 0 {
        Ok(BoxHeader { start: pos, kind: BoxType(kind), header_len: 8, total_size: None })
    } else if size32 == 1 {
        if bytes_len < 16 || pos > bytes_len - 16 {
            return Err(ParseError::UnexpectedEof { offset: pos + 8 });
        }
        let large = src.u64_at(pos + 8);
        if large < 16 || large > u64::MAX - pos {
            return Err(ParseError::Malformed { offset: pos });
        }
        Ok(BoxHeader { start: pos, kind: BoxType(kind), header_len: 16, total_size: Some(large) })
    } else if size32 < 8 || size32 as u64 > u64::MAX - pos {
        Err(ParseError::Malformed { offset: pos })
    } else {
        Ok(BoxHeader { start: pos, kind: BoxType(kind), header_len: 8, total_size: Some(size32 as u64) })
    }
}


/// Cursor position after `read_box_header` at `pos`: past the header on
/// success, past the bytes read before the failure otherwise.
pub open spec fn header_cursor_after(bytes: Seq<u8>, pos: int) -> int {
    if header_ok(bytes, pos) {
        header_at(bytes, pos).payload_start()
    } else {
        match header_error(bytes, pos) {
            ParseError::UnexpectedEof { offset } => offset as int,
            _ => if be32(bytes, pos) == 1 { pos + 16 } else { pos + 8 },
        }
    }
}

/// Read one box header at the cursor and advance past it.
pub fn read_box_header(src: &mut FileSource) -> (r: Result<BoxHeader, ParseError>)
    ensures
        final(src).bytes() == old(src).bytes(),
        r is Ok <==> header_ok(old(src).bytes(), old(src).pos()),
        r matches Ok(h) ==> h@ == header_at(old(src).bytes(), old(src).pos()) && h.wf(),
        r matches Err(e) ==> e == header_error(old(src).bytes(), old(src).pos()),
        final(src).pos() == header_cursor_after(old(src).bytes(), old(src).pos()),
{
    let pos = src.position();
    let _len = src.length();
    let r = box_header_at(src, pos);
    match r {
        Ok(h) => {
            src.seek_to(pos + h.header_len as u64);
        },
        Err(ParseError::UnexpectedEof { offset }) => {
            src.seek_to(offset);
        },
        Err(_) => {
            assert(pos + 8 <= src.bytes().len());
            let size32 = src.u32_at(pos);
            assert(size32 == 1 ==> pos + 16 <= src.bytes().len());
            if size32 == 1 {
                src.seek_to(pos + 16);
            } else {
                src.seek_to(pos + 8);
            }
        },
    }
    r
}

/// Read the next header without advancing the cursor.
pub fn peek_box_header(src: &mut FileSource) -> (r: Result<BoxHeader, ParseError>)
    ensures
        final(src).bytes() == old(src).bytes(),
        final(src).pos() == old(src).pos(),
        r is Ok <==> header_ok(old(src).bytes(), old(src).pos()),
        r matches Ok(h) ==> h@ == header_at(old(src).bytes(), old(src).pos()) && h.wf(),
        r matches Err(e) ==> e == header_error(old(src).bytes(), old(src).pos()),
{
    let pos = src.position();
    box_header_at(src, pos)
}

/// Cursor position after skipping the payload of `h`: its end, or the end
/// of the data for the to-end form.
pub open spec fn skip_target(bytes: Seq<u8>, h: BoxHeaderView) -> int {
    match h.end() {
        Some(e) => e,
        None => bytes.len() as int,
    }
}

/// Seek past the payload of a box.
pub fn skip_payload(src: &mut FileSource, h: &BoxHeader)
    requires
        h.wf(),
    ensures
        final(src).bytes() == old(src).bytes(),
        final(src).pos() == skip_target(old(src).bytes(), h@),
{
    match h.end() {
        Some(end) => src.seek_to(end),
        None => {
            let len = src.length();
            src.seek_to(len);
        },
    }
}

/// Tells the walker whether a child's payload was already read.
#[derive(Debug, Clone, Copy, PartialEq, Eq, Structural)]
pub enum ChildAction {
    /// The payload was read: the cursor goes to the child's end when known
    /// and otherwise stays where it is.
    Consumed,
    /// The walker seeks past the payload itself.
    Skip,
}

/// Place the cursor after a child according to `action`.
pub fn finish_child(src: &mut FileSource, h: &BoxHeader, action: ChildAction)
    requires
        h.wf(),
    ensures
        final(src).bytes() == old(src).bytes(),
        final(src).pos() == match action {
            ChildAction::Skip => skip_target(old(src).bytes(), h@),
            ChildAction::Consumed => match h@.end() {
                Some(e) => e,
                None => old(src).pos(),
            },
        },
{
    match action {
        ChildAction::Consumed => {
            if let Some(end) = h.end() {
                src.seek_to(end);
            }
        },
        ChildAction::Skip => skip_payload(src, h),
    }
}

/// Measure that decreases along a walk.
pub open spec fn walk_measure(bytes: Seq<u8>, pos: int) -> nat {
    if pos <= bytes.len() {
        (bytes.len() - pos + 1) as nat
    } else {
        0
    }
}

/// The children found by walking from `pos` up to `end` (the parent's end,
/// `None` when the parent runs to the end of the data), every child's
/// payload skipped.  The walk stops at the parent's end, at trailing padding
/// shorter than a header, at the end of the data, and at a header cut short
/// by the end of the data; it fails on any other bad header and on a child
/// that extends past the parent.
pub open spec fn children_from(bytes: Seq<u8>, pos: int, end: Option<int>) -> Result<Seq<BoxHeaderView>, ParseError>
    decreases walk_measure(bytes, pos),
{
    if (end matches Some(e) && (pos >= e || e - pos < 8)) || pos >= bytes.len() || pos < 0 {
        Ok(Seq::empty())
    } else if !header_ok(bytes, pos) {
        match header_error(bytes, pos) {
            ParseError::UnexpectedEof { .. } => Ok(Seq::empty()),
            e => Err(e),
        }
    } else {
        let h = header_at(bytes, pos);
        if end matches Some(e) && h.end() matches Some(ce) && ce > e {
            Err(ParseError::Malformed { offset: pos as u64 })
        } else {
            let next = skip_target(bytes, h);
            if next <= pos {
                Err(ParseError::Malformed { offset: pos as u64 })
            } else {
                match children_from(bytes, next, end) {
                    Ok(rest) => Ok(seq![h].add(rest)),
                    Err(e) => Err(e),
                }
            }
        }
    }
}

/// The children of a parent box.
pub open spec fn children_of(bytes: Seq<u8>, parent: BoxHeaderView) -> Result<Seq<BoxHeaderView>, ParseError> {
    children_from(bytes, parent.payload_start(), parent.end())
}

/// List the immediate children of `parent`, in order, without moving the
/// cursor.  See `children_from` for where the walk stops and fails.
pub fn walk_children(src: &FileSource, parent: &BoxHeader) -> (r: Result<Vec<BoxHeader>, ParseError>)
    requires
        parent.wf(),
    ensures
        r matches Ok(v) ==> children_of(src.bytes(), parent@) == Ok::<Seq<BoxHeaderView>, ParseError>(
            v@.map_values(|h: BoxHeader| h@),
        ) && forall|i: int| 0 <= i < v@.len() ==> (#[trigger] v@[i]).wf(),
        r matches Err(e) ==> children_of(src.bytes(), parent@) == Err::<Seq<BoxHeaderView>, ParseError>(e),
{
    let parent_end = parent.end();
    let len = src.length();
    let mut pos = parent.payload_start();
    let mut out: Vec<BoxHeader> = Vec::new();
    let ghost bytes = src.bytes();
    let ghost end_spec = parent@.end();
    proof {
        match children_from(bytes, pos as int, end_spec) {
            Ok(rest) => {
                assert(out@.map_values(|h: BoxHeader| h@).add(rest) =~= rest);
            },
            Err(_) => {},
        }
    }
    loop
        invariant
            bytes == src.bytes(),
            len == bytes.len(),
            end_spec == parent@.end(),
            parent_end matches Some(e) ==> end_spec == Some(e as int),
            parent_end is None ==> end_spec is None,
            forall|i: int| 0 <= i < out@.len() ==> (#[trigger] out@[i]).wf(),
            children_of(bytes, parent@) == match children_from(bytes, pos as int, end_spec) {
                Ok(rest) => Ok(out@.map_values(|h: BoxHeader| h@).add(rest)),
                Err(e) => Err::<Seq<BoxHeaderView>, ParseError>(e),
            },
        decreases walk_measure(bytes, pos as int),
    {
        proof {
            reveal_with_fuel(children_from, 1);
        }
        if let Some(e) = parent_end {
            if pos >= e || e - pos < 8 {
                assert(out@.map_values(|h: BoxHeader| h@).add(Seq::empty()) =~= out@.map_values(|h: BoxHeader| h@));
                return Ok(out);
            }
        }
        if pos >= len {
            assert(out@.map_values(|h: BoxHeader| h@).add(Seq::empty()) =~= out@.map_values(|h: BoxHeader| h@));
            return Ok(out);
        }
        let header = match box_header_at(src, pos) {
            Ok(h) => h,
            Err(ParseError::UnexpectedEof { offset }) => {
                assert(out@.map_values(|h: BoxHeader| h@).add(Seq::empty()) =~= out@.map_values(|h: BoxHeader| h@));
                return Ok(out);
            },
            Err(e) => return Err(e),
        };
        if let (Some(e), Some(child_end)) = (parent_end, header.end()) {
            if child_end > e {
                return Err(ParseError::Malformed { offset: header.start });
            }
        }
        let next = match header.end() {
            Some(ce) => ce,
            None => len,
        };
        if next <= pos {
            return Err(ParseError::Malformed { offset: pos });
        }
        let ghost old_out = out@;
        out.push(header);
        proof {
            assert(out@.map_values(|h: BoxHeader| h@) =~= old_out.map_values(|h: BoxHeader| h@).push(header@));
            match children_from(bytes, next as int, end_spec) {
                Ok(rest) => {
                    assert(old_out.map_values(|h: BoxHeader| h@).add(seq![header@].add(rest))
                        =~= out@.map_values(|h: BoxHeader| h@).add(rest));
                },
                Err(_) => {},
            }
        }
        pos = next;
    }
}

/// The children found by the walk of [`children_from`] up to where it
/// stops or fails, and how it ended: the children before a failing one are
/// kept, with the failure.
pub open spec fn children_prefix(bytes: Seq<u8>, pos: int, end: Option<int>) -> (Seq<BoxHeaderView>, Result<(), ParseError>)
    decreases walk_measure(bytes, pos),
{
    if (end matches Some(e) && (pos >= e || e - pos < 8)) || pos >= bytes.len() || pos < 0 {
        (Seq::empty(), Ok(()))
    } else if !header_ok(bytes, pos) {
        match header_error(bytes, pos) {
            ParseError::UnexpectedEof { .. } => (Seq::empty(), Ok(())),
            e => (Seq::empty(), Err(e)),
        }
    } else {
        let h = header_at(bytes, pos);
        if end matches Some(e) && h.end() matches Some(ce) && ce > e {
            (Seq::empty(), Err(ParseError::Malformed { offset: pos as u64 }))
        } else {
            let next = skip_target(bytes, h);
            if next <= pos {
                (Seq::empty(), Err(ParseError::Malformed { offset: pos as u64 }))
            } else {
                let (rest, t) = children_prefix(bytes, next, end);
                (seq![h].add(rest), t)
            }
        }
    }
}

/// The children of a parent box up to the first that cannot be taken, and
/// how the walk ended (see [`children_prefix`]).
pub open spec fn child_walk(bytes: Seq<u8>, parent: BoxHeaderView) -> (Seq<BoxHeaderView>, Result<(), ParseError>) {
    children_prefix(bytes, parent.payload_start(), parent.end())
}

/// List the immediate children of `parent`, in order, up to the first
/// that cannot be taken, with how the walk ended (see [`child_walk`]),
/// without moving the cursor.
pub fn walk_children_prefix(src: &FileSource, parent: &BoxHeader) -> (r: (Vec<BoxHeader>, Result<(), ParseError>))
    requires
        parent.wf(),
    ensures
        child_walk(src.bytes(), parent@) == (r.0@.map_values(|h: BoxHeader| h@), r.1),
        forall|i: int| 0 <= i < r.0@.len() ==> (#[trigger] r.0@[i]).wf(),
{
    let parent_end = parent.end();
    let len = src.length();
    let mut pos = parent.payload_start();
    let mut out: Vec<BoxHeader> = Vec::new();
    let ghost bytes = src.bytes();
    let ghost end_spec = parent@.end();
    proof {
        let (rest, t) = children_prefix(bytes, pos as int, end_spec);
        assert(out@.map_values(|h: BoxHeader| h@).add(rest) =~= rest);
    }
    loop
        invariant
            bytes == src.bytes(),
            len == bytes.len(),
            end_spec == parent@.end(),
            parent_end matches Some(e) ==> end_spec == Some(e as int),
            parent_end is None ==> end_spec is None,
            forall|i: int| 0 <= i < out@.len() ==> (#[trigger] out@[i]).wf(),
            child_walk(bytes, parent@) == ({
                let (rest, t) = children_prefix(bytes, pos as int, end_spec);
                (out@.map_values(|h: BoxHeader| h@).add(rest), t)
            }),
        decreases walk_measure(bytes, pos as int),
    {
        proof {
            reveal_with_fuel(children_prefix, 1);
        }
        if let Some(e) = parent_end {
            if pos >= e || e - pos < 8 {
                assert(out@.map_values(|h: BoxHeader| h@).add(Seq::empty()) =~= out@.map_values(|h: BoxHeader| h@));
                return (out, Ok(()));
            }
        }
        if pos >= len {
            assert(out@.map_values(|h: BoxHeader| h@).add(Seq::empty()) =~= out@.map_values(|h: BoxHeader| h@));
            return (out, Ok(()));
        }
        let header = match box_header_at(src, pos) {
            Ok(h) => h,
            Err(ParseError::UnexpectedEof { offset }) => {
                assert(out@.map_values(|h: BoxHeader| h@).add(Seq::empty()) =~= out@.map_values(|h: BoxHeader| h@));
                return (out, Ok(()));
            },
            Err(e) => {
                assert(out@.map_values(|h: BoxHeader| h@).add(Seq::empty()) =~= out@.map_values(|h: BoxHeader| h@));
                return (out, Err(e));
            },
        };
        if let (Some(e), Some(child_end)) = (parent_end, header.end()) {
            if child_end > e {
                assert(out@.map_values(|h: BoxHeader| h@).add(Seq::empty()) =~= out@.map_values(|h: BoxHeader| h@));
                return (out, Err(ParseError::Malformed { offset: header.start }));
            }
        }
        let next = match header.end() {
            Some(ce) => ce,
            None => len,
        };
        if next <= pos {
            assert(out@.map_values(|h: BoxHeader| h@).add(Seq::empty()) =~= out@.map_values(|h: BoxHeader| h@));
            return (out, Err(ParseError::Malformed { offset: pos }));
        }
        let ghost old_out = out@;
        out.push(header);
        proof {
            assert(out@.map_values(|h: BoxHeader| h@) =~= old_out.map_values(|h: BoxHeader| h@).push(header@));
            let (rest, t) = children_prefix(bytes, next as int, end_spec);
            assert(old_out.map_values(|h: BoxHeader| h@).add(seq![header@].add(rest))
                =~= out@.map_values(|h: BoxHeader| h@).add(rest));
        }
        pos = next;
    }
}

/// Names an intermediate state of a fold over children (a quantifier
/// trigger; always true).
pub open spec fn stage<B>(mid: B, rc: Result<(), ParseError>) -> bool {
    true
}

/// Handling the children `hs` in order with `step` (which relates the
/// state before a child, after it, and the child's result) takes `o` to
/// `n` with result `r`: the first failing child ends it with its error.
pub open spec fn fold_children<B>(
    bytes: Seq<u8>,
    hs: Seq<BoxHeaderView>,
    step: spec_fn(Seq<u8>, BoxHeaderView, B, B, Result<(), ParseError>) -> bool,
    o: B,
    n: B,
    r: Result<(), ParseError>,
) -> bool
    decreases hs.len(),
{
    if hs.len() == 0 {
        r is Ok && n == o
    } else {
        exists|mid: B, rc: Result<(), ParseError>| #[trigger] stage(mid, rc) && step(bytes, hs[0], o, mid, rc) && match rc {
            Err(_) => r == rc && n == mid,
            Ok(_) => fold_children(bytes, hs.drop_first(), step, mid, n, r),
        }
    }
}

/// One step of [`fold_children`].
pub proof fn lemma_fold_step<B>(
    bytes: Seq<u8>,
    hs: Seq<BoxHeaderView>,
    step: spec_fn(Seq<u8>, BoxHeaderView, B, B, Result<(), ParseError>) -> bool,
    o: B,
    mid: B,
    rc: Result<(), ParseError>,
    n: B,
    r: Result<(), ParseError>,
)
    requires
        hs.len() > 0,
        step(bytes, hs[0], o, mid, rc),
        match rc {
            Err(_) => r == rc && n == mid,
            Ok(_) => fold_children(bytes, hs.drop_first(), step, mid, n, r),
        },
    ensures
        fold_children(bytes, hs, step, o, n, r),
{
    assert(stage(mid, rc));
}

/// Handling the children of `parent` with `step` takes `o` to `n` with
/// result `r`: the children before the first that cannot be taken are
/// handled in order (see [`fold_children`]); when all succeed, the result
/// is how the walk over the children ended.
pub open spec fn fold_walk<B>(
    bytes: Seq<u8>,
    parent: BoxHeaderView,
    step: spec_fn(Seq<u8>, BoxHeaderView, B, B, Result<(), ParseError>) -> bool,
    o: B,
    n: B,
    r: Result<(), ParseError>,
) -> bool {
    exists|mid: B, rm: Result<(), ParseError>| #[trigger] stage(mid, rm)
        && fold_children(bytes, child_walk(bytes, parent).0, step, o, mid, rm)
        && n == mid
        && match rm {
            Err(_) => r == rm,
            Ok(_) => r == child_walk(bytes, parent).1,
        }
}

/// [`fold_walk`] from a fold over the children that the walk took.
pub proof fn lemma_fold_walk<B>(
    bytes: Seq<u8>,
    parent: BoxHeaderView,
    step: spec_fn(Seq<u8>, BoxHeaderView, B, B, Result<(), ParseError>) -> bool,
    o: B,
    n: B,
    rm: Result<(), ParseError>,
    r: Result<(), ParseError>,
)
    requires
        fold_children(bytes, child_walk(bytes, parent).0, step, o, n, rm),
        match rm {
            Err(_) => r == rm,
            Ok(_) => r == child_walk(bytes, parent).1,
        },
    ensures
        fold_walk(bytes, parent, step, o, n, r),
{
    assert(stage(n, rm));
}

/// Largest payload `read_payload` accepts whatever cap the caller gives.
pub const SOFT_BOX_CAP: u64 = 67108864;

/// The cap `read_payload` applies for a caller cap of `cap`.
pub open spec fn effective_cap(cap: u64) -> u64 {
    if cap < SOFT_BOX_CAP { cap } else { SOFT_BOX_CAP }
}

/// What `read_payload` gives for the header `h` with the cursor at `p`.
pub open spec fn payload_read(bytes: Seq<u8>, p: int, h: BoxHeaderView, cap: u64) -> Result<Seq<u8>, ParseError> {
    let size = payload_or_zero(h);
    if size > effective_cap(cap) {
        Err(ParseError::OversizedElement {
            id: be32(h.kind, 0) as u64,
            size: size as u64,
            cap: effective_cap(cap),
            offset: h.start as u64,
        })
    } else if p + size > bytes.len() {
        Err(ParseError::UnexpectedEof { offset: p as u64 })
    } else {
        Ok(bytes.subrange(p, p + size))
    }
}

/// Read the payload of `h` from the cursor (which must stand at the payload
/// start), failing with `OversizedElement` when it exceeds
/// `min(cap, SOFT_BOX_CAP)`.  The to-end form reads nothing.  The cursor
/// moves past what was read, and stays on failure.
pub fn read_payload(src: &mut FileSource, h: &BoxHeader, cap: u64) -> (r: Result<Vec<u8>, ParseError>)
    ensures
        final(src).bytes() == old(src).bytes(),
        match payload_read(old(src).bytes(), old(src).pos(), h@, cap) {
            Ok(v) => r matches Ok(w) && w@ == v && final(src).pos() == old(src).pos() + v.len(),
            Err(e) => r == Err::<Vec<u8>, ParseError>(e) && final(src).pos() == old(src).pos(),
        },
{
    let size = match h.payload_size() {
        Some(s) => s,
        None => 0,
    };
    let eff = if cap < SOFT_BOX_CAP { cap } else { SOFT_BOX_CAP };
    if size > eff {
        let id = (h.kind.0[0] as u64) * 0x100_0000 + (h.kind.0[1] as u64) * 0x1_0000
            + (h.kind.0[2] as u64) * 0x100 + (h.kind.0[3] as u64);
        return Err(ParseError::OversizedElement { id, size, cap: eff, offset: h.start });
    }
    let ghost p = src.pos();
    let ghost bytes = src.bytes();
    let r = src.read_exact(size);
    proof {
        if p + size <= bytes.len() {
            assert(bytes.subrange(p, p + size).len() == size);
        }
    }
    r
}

/// The eight header bytes of a box of `size` bytes (0 for a box that runs
/// to the end of the data) and type `kind`: the size big endian, then the
/// type.
pub open spec fn box_header_bytes(size: u32, kind: Seq<u8>) -> Seq<u8> {
    seq![
        (size / 0x100_0000) as u8,
        ((size / 0x1_0000) % 0x100) as u8,
        ((size / 0x100) % 0x100) as u8,
        (size % 0x100) as u8,
    ] + kind
}

/// Reading a box header gives back what was written: where the bytes at
/// `pos` are the header of a box of `size` bytes (at least 8, or 0 for one
/// that runs to the end) and type `kind`, the header read there has that
/// start, type and size, is eight bytes long, and the cursor moves past it.
pub proof fn law_box_header_round_trip(bytes: Seq<u8>, pos: int, size: u32, kind: Seq<u8>)
    requires
        kind.len() == 4,
        size == 0 || size >= 8,
        0 <= pos,
        pos + 8 <= bytes.len(),
        pos + size <= u64::MAX,
        bytes.subrange(pos, pos + 8) == box_header_bytes(size, kind),
    ensures
        header_ok(bytes, pos),
        header_at(bytes, pos) == (BoxHeaderView {
            start: pos,
            kind,
            header_len: 8,
            total_size: if size == 0 { None } else { Some(size as int) },
        }),
        header_cursor_after(bytes, pos) == pos + 8,
{
    let h = box_header_bytes(size, kind);
    assert(bytes[pos] == h[0] && bytes[pos + 1] == h[1] && bytes[pos + 2] == h[2] && bytes[pos + 3] == h[3]);
    let s = size as int;
    assert(((s / 0x100_0000) % 0x100) * 0x100_0000 + ((s / 0x1_0000) % 0x100) * 0x1_0000 + ((s / 0x100) % 0x100) * 0x100 + s % 0x100 == s
        && s / 0x100_0000 < 0x100) by (nonlinear_arith)
        requires
            0 <= s < 0x1_0000_0000,
    ;
    assert(be32(bytes, pos) == s);
    assert(bytes.subrange(pos + 4, pos + 8) =~= kind) by {
        assert forall|i: int| 0 <= i < 4 implies bytes.subrange(pos + 4, pos + 8)[i] == kind[i] by {
            assert(bytes[pos + 4 + i] == h[4 + i]);
        }
    }
}

/// A box ends at or before `end` when both are known.
pub open spec fn ends_within(c: BoxHeaderView, end: Option<int>) -> bool {
    match (end, c.end()) {
        (Some(e), Some(ce)) => ce <= e,
        _ => true,
    }
}

/// The children a walk finds tile the parent's payload from the start:
/// the first starts where the walk starts, each next one where the one
/// before ends, each starts before the next, and none ends past the
/// parent's end.
pub proof fn law_children_contiguous(bytes: Seq<u8>, pos: int, end: Option<int>)
    ensures
        children_from(bytes, pos, end) matches Ok(cs) ==> {
            &&& cs.len() > 0 ==> cs[0].start == pos
            &&& forall|i: int| 0 < i < cs.len() ==> #[trigger] cs[i].start == skip_target(bytes, cs[i - 1])
            &&& forall|i: int| 0 < i < cs.len() ==> cs[i - 1].start < #[trigger] cs[i].start
            &&& forall|i: int| 0 <= i < cs.len() ==> ends_within(#[trigger] cs[i], end)
        },
    decreases walk_measure(bytes, pos),
{
    if (end matches Some(e) && (pos >= e || e - pos < 8)) || pos >= bytes.len() || pos < 0 {
    } else if !header_ok(bytes, pos) {
    } else {
        let h = header_at(bytes, pos);
        if end matches Some(e) && h.end() matches Some(ce) && ce > e {
        } else {
            let next = skip_target(bytes, h);
            if next > pos {
                law_children_contiguous(bytes, next, end);
                if let Ok(rest) = children_from(bytes, next, end) {
                    let cs = seq![h].add(rest);
                    assert(cs[0] == h);
                    assert forall|i: int| 0 < i < cs.len() implies #[trigger] cs[i].start == skip_target(bytes, cs[i - 1])
                        && cs[i - 1].start < cs[i].start by {
                        assert(cs[i] == rest[i - 1]);
                        if i > 1 {
                            assert(cs[i - 1] == rest[i - 2]);
                            assert(rest[i - 1].start == skip_target(bytes, rest[i - 2]));
                            assert(rest[i - 2].start < rest[i - 1].start);
                        } else {
                            assert(rest[0].start == next);
                        }
                    }
                    assert forall|i: int| 0 <= i < cs.len() implies ends_within(#[trigger] cs[i], end) by {
                        if i > 0 {
                            assert(cs[i] == rest[i - 1]);
                        } else {
                            assert(cs[i] == h);
                        }
                    }
                }
            }
        }
    }
}

} // verus!
