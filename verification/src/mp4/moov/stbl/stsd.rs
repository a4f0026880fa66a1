//! `stsd` (sample description): version and flags, an entry count and the
//! sample entry boxes.  Only the first entry fills the track: its FOURCC,
//! then after the 8-byte common header the video fields (70 bytes: width,
//! height and depth among them) or the audio fields (20 bytes, 36 with the
//! version-1 extension, 56 in version 2), then either the rest of the entry
//! kept as private data or the codec configuration boxes inside it.

use vstd::prelude::*;
use crate::source::{FileSource, ParseError, be16, be32, be64, be32_at, be64_at};
use crate::model::{
    AudioTrackProperties, ColorMetadata, Dimensions2D, SampleAspectRatio, SampleRate, TrackType,
    VideoTrackProperties, f64_positive, f64_rate, fixed16_rate,
};
use crate::mp4::atom::{
    BoxHeader, BoxHeaderView, header_at, header_error, header_ok, payload_or_zero, payload_read, read_box_header,
    read_payload, skip_payload, skip_target,
};
use crate::mp4::codec_specific::{av1c, avcc, colr, dvcc, esds, hex_chars, hex_encode, hvcc, pasp};
use crate::mp4::codec_specific::av1c::av1_applied;
use crate::mp4::codec_specific::avcc::avcc_outcome;
use crate::mp4::codec_specific::colr::{empty_color, with_colour};
use crate::mp4::codec_specific::dvcc::with_block_addition;
use crate::mp4::codec_specific::esds::esds_outcome;
use crate::mp4::codec_specific::hvcc::hvcc_outcome;
use crate::mp4::codec_specific::pasp::with_sample_aspect_ratio;
use crate::mp4::moov::hdlr::{fourcc, handler_track_type, is_fourcc};
use crate::mp4::moov::trak::{TrackBuilder, display_dims};
use crate::text::{latin1_chars, latin1_string};

verus! {

/// QuickTime video preamble: version, revision, vendor, temporal and
/// spatial quality.
pub const VIDEO_PREAMBLE_BYTES: u64 = 16;
/// Video fields after width and height: resolutions, reserved, frame
/// count, compressor name, depth, colour table id.
pub const VIDEO_TAIL_BYTES: u64 = 50;
/// Audio preamble: version, revision, vendor.
pub const AUDIO_PREAMBLE_BYTES: u64 = 8;
/// Audio fields: channels, sample size, reserved, sample rate.
pub const AUDIO_FIXED_BYTES: u64 = 12;
/// Most private bytes kept from a sample entry.
pub const PRIV_CAP: u64 = 65536;

/// Bytes left before `end` (when known) and before the end of the data,
/// zero when the position is past either.
pub open spec fn remaining(len: int, pos: int, end: Option<int>) -> int {
    let s = if len > pos { len - pos } else { 0 };
    match end {
        Some(e) => {
            let p = if e > pos { e - pos } else { 0 };
            if p < s { p } else { s }
        },
        None => s,
    }
}

/// The audio properties a sample-entry child box updates: the track's, or
/// empty ones.
pub open spec fn base_audio(a: Option<AudioTrackProperties>) -> AudioTrackProperties {
    match a {
        Some(x) => x,
        None => AudioTrackProperties {
            channels: None,
            sampling_frequency: None,
            output_sampling_frequency: None,
            bit_depth: None,
            codec_config: None,
        },
    }
}

/// `dOps` (Opus): with at least 11 payload bytes, the output channel count
/// (byte 1, when non-zero) and 48 kHz go into the audio properties and the
/// payload becomes the private data.
pub open spec fn dops_applied(o: TrackBuilder, n: TrackBuilder, pl: Seq<u8>) -> bool {
    if pl.len() < 11 {
        n == o
    } else {
        let a = base_audio(o.audio);
        &&& n == (TrackBuilder { audio: n.audio, codec_private_hex: n.codec_private_hex, ..o })
        &&& n.audio == Some(AudioTrackProperties {
            channels: if pl[1] != 0 { Some(pl[1] as u32) } else { a.channels },
            sampling_frequency: Some(SampleRate::Hz(48000)),
            ..a
        })
        &&& n.codec_private_hex matches Some(h) && h@ == hex_chars(pl)
    }
}

/// FLAC STREAMINFO fields packed in the big-endian `u64` at payload offset
/// 18: sample rate (top 20 bits), channels minus one (3 bits), bits per
/// sample minus one (5 bits).
pub open spec fn flac_packed(pl: Seq<u8>) -> int {
    be64(pl, 18)
}

/// `dfLa` (FLAC): the payload (at least 4 bytes) becomes the private data;
/// with a full STREAMINFO block (42 bytes in all) the sample rate (when
/// non-zero), channels and bit depth go into the audio properties.
pub open spec fn dfla_applied(o: TrackBuilder, n: TrackBuilder, pl: Seq<u8>) -> bool {
    if pl.len() < 4 {
        n == o
    } else if pl.len() < 42 {
        &&& n == (TrackBuilder { codec_private_hex: n.codec_private_hex, ..o })
        &&& n.codec_private_hex matches Some(h) && h@ == hex_chars(pl)
    } else {
        let a = base_audio(o.audio);
        let packed = flac_packed(pl);
        let rate = (packed / 0x1000_0000_0000) % 0x10_0000;
        &&& n == (TrackBuilder { audio: n.audio, codec_private_hex: n.codec_private_hex, ..o })
        &&& n.codec_private_hex matches Some(h) && h@ == hex_chars(pl)
        &&& n.audio == Some(AudioTrackProperties {
            sampling_frequency: if rate > 0 { Some(SampleRate::Hz(rate as u32)) } else { a.sampling_frequency },
            channels: Some(((packed / 0x200_0000_0000) % 8 + 1) as u32),
            bit_depth: Some(((packed / 0x10_0000_0000) % 32 + 1) as u32),
            ..a
        })
    }
}

/// `alac` (ALAC magic cookie): the payload becomes the private data; with
/// at least 28 bytes the channel count (byte 13), bit depth (byte 9) and
/// sample rate (`u32` at 24), each when non-zero, go into the audio
/// properties.
pub open spec fn alac_applied(o: TrackBuilder, n: TrackBuilder, pl: Seq<u8>) -> bool {
    &&& n.codec_private_hex matches Some(h) && h@ == hex_chars(pl)
    &&& if pl.len() < 28 {
        n == (TrackBuilder { codec_private_hex: n.codec_private_hex, ..o })
    } else {
        let a = base_audio(o.audio);
        let rate = be32(pl, 24);
        &&& n == (TrackBuilder { audio: n.audio, codec_private_hex: n.codec_private_hex, ..o })
        &&& n.audio == Some(AudioTrackProperties {
            channels: if pl[13] != 0 { Some(pl[13] as u32) } else { a.channels },
            bit_depth: if pl[9] != 0 { Some(pl[9] as u32) } else { a.bit_depth },
            sampling_frequency: if rate != 0 { Some(SampleRate::Hz(rate as u32)) } else { a.sampling_frequency },
            ..a
        })
    }
}

/// The error of reading the payload of `h` at `p` with cap `cap`.
pub open spec fn read_failed(bytes: Seq<u8>, p: int, h: BoxHeaderView, cap: u64, o: TrackBuilder, n: TrackBuilder, r: Result<(), ParseError>) -> bool {
    payload_read(bytes, p, h, cap) matches Err(e) && r == Err::<(), ParseError>(e) && n == o
}

/// The position a walk at `pos` continues from: `next`, which is past
/// `pos` for every decoded header, kept within the data (a walk past the
/// end stops as one at the end does).
pub open spec fn step_to(pos: int, next: int, len: int) -> int {
    if next <= pos {
        pos + 1
    } else if next > len {
        len
    } else {
        next
    }
}

/// What the sample-entry child box at `pos` (its header decoded, the
/// cursor at its payload) does: the codec configuration boxes update the
/// track as their parsers say, `wave` is walked like the entry itself, any
/// other box is passed over.
pub open spec fn child_step(bytes: Seq<u8>, pos: int, o: TrackBuilder, n: TrackBuilder, r: Result<(), ParseError>) -> bool
    decreases (bytes.len() - pos) * 2,
{
    let h = header_at(bytes, pos);
    let p = h.payload_start();
    let k = h.kind;
    if k == fourcc(0x61, 0x76, 0x63, 0x43) {
        read_failed(bytes, p, h, avcc::MAX_PAYLOAD, o, n, r) || (payload_read(bytes, p, h, avcc::MAX_PAYLOAD) matches Ok(pl)
            && avcc_outcome(o, n, r, pl, pos as u64))
    } else if k == fourcc(0x68, 0x76, 0x63, 0x43) {
        read_failed(bytes, p, h, hvcc::MAX_PAYLOAD, o, n, r) || (payload_read(bytes, p, h, hvcc::MAX_PAYLOAD) matches Ok(pl)
            && hvcc_outcome(o, n, r, pl, pos as u64))
    } else if k == fourcc(0x61, 0x76, 0x31, 0x43) {
        read_failed(bytes, p, h, u64::MAX, o, n, r) || (payload_read(bytes, p, h, u64::MAX) matches Ok(pl)
            && r is Ok && av1_applied(o, n, pl))
    } else if k == fourcc(0x65, 0x73, 0x64, 0x73) {
        read_failed(bytes, p, h, u64::MAX, o, n, r) || (payload_read(bytes, p, h, u64::MAX) matches Ok(pl)
            && esds_outcome(o, n, r, pl))
    } else if k == fourcc(0x63, 0x6f, 0x6c, 0x72) {
        read_failed(bytes, p, h, u64::MAX, o, n, r) || (payload_read(bytes, p, h, u64::MAX) matches Ok(pl)
            && r is Ok && if pl.len() < 4 { n == o } else { with_colour(o, n, pl) })
    } else if k == fourcc(0x70, 0x61, 0x73, 0x70) {
        read_failed(bytes, p, h, 16, o, n, r) || (payload_read(bytes, p, h, 16) matches Ok(pl)
            && if pl.len() < 8 {
                r == Err::<(), ParseError>(ParseError::Malformed { offset: pos as u64 }) && n == o
            } else {
                r is Ok && with_sample_aspect_ratio(o, n, SampleAspectRatio { num: be32(pl, 0) as u32, den: be32(pl, 4) as u32 })
            })
    } else if k == fourcc(0x64, 0x76, 0x63, 0x43) || k == fourcc(0x64, 0x76, 0x76, 0x43) {
        read_failed(bytes, p, h, u64::MAX, o, n, r) || (payload_read(bytes, p, h, u64::MAX) matches Ok(pl)
            && if pl.len() < 4 {
                r == Err::<(), ParseError>(ParseError::Malformed { offset: pos as u64 }) && n == o
            } else {
                r is Ok && with_block_addition(o, n, k, pl)
            })
    } else if k == fourcc(0x68, 0x76, 0x63, 0x45) {
        read_failed(bytes, p, h, PRIV_CAP, o, n, r) || (payload_read(bytes, p, h, PRIV_CAP) matches Ok(pl)
            && r is Ok && with_block_addition(o, n, k, pl))
    } else if k == fourcc(0x77, 0x61, 0x76, 0x65) {
        if 0 <= pos < bytes.len() {
            entry_children(bytes, step_to(pos, p, bytes.len() as int), h.end(), o, n, r)
        } else {
            r is Ok && n == o
        }
    } else if k == fourcc(0x64, 0x4f, 0x70, 0x73) {
        read_failed(bytes, p, h, 4096, o, n, r) || (payload_read(bytes, p, h, 4096) matches Ok(pl)
            && r is Ok && dops_applied(o, n, pl))
    } else if k == fourcc(0x64, 0x66, 0x4c, 0x61) {
        read_failed(bytes, p, h, PRIV_CAP, o, n, r) || (payload_read(bytes, p, h, PRIV_CAP) matches Ok(pl)
            && r is Ok && dfla_applied(o, n, pl))
    } else if k == fourcc(0x61, 0x6c, 0x61, 0x63) {
        read_failed(bytes, p, h, 4096, o, n, r) || (payload_read(bytes, p, h, 4096) matches Ok(pl)
            && r is Ok && alac_applied(o, n, pl))
    } else {
        r is Ok && n == o
    }
}

/// Names an intermediate state of a walk (a quantifier trigger; always
/// true).
pub open spec fn picked(mid: TrackBuilder, rc: Result<(), ParseError>) -> bool {
    true
}

/// The walk over the child boxes of a sample entry from `pos` up to `end`:
/// it stops (successfully) when fewer than 8 bytes remain, at a truncated
/// header, or at a child running past `end`; a malformed header or a
/// failing child ends it with that error.
pub open spec fn entry_children(bytes: Seq<u8>, pos: int, end: Option<int>, o: TrackBuilder, n: TrackBuilder, r: Result<(), ParseError>) -> bool
    decreases (bytes.len() - pos) * 2 + 1,
{
    if pos < 0 || pos >= bytes.len() || remaining(bytes.len() as int, pos, end) < 8 {
        r is Ok && n == o
    } else if !header_ok(bytes, pos) {
        n == o && match header_error(bytes, pos) {
            ParseError::UnexpectedEof { .. } => r is Ok,
            e => r == Err::<(), ParseError>(e),
        }
    } else {
        let h = header_at(bytes, pos);
        if end matches Some(e) && h.end() matches Some(ce) && ce > e {
            r is Ok && n == o
        } else {
            exists|mid: TrackBuilder, rc: Result<(), ParseError>|
                #[trigger] picked(mid, rc) && child_step(bytes, pos, o, mid, rc) && match rc {
                    Err(_) => r == rc && n == mid,
                    Ok(_) => {
                        let next = skip_target(bytes, h);
                        entry_children(bytes, step_to(pos, next, bytes.len() as int), end, mid, n, r)
                    },
                }
        }
    }
}

/// `a - p`, or zero when `p` is past `a`.
pub open spec fn sat_sub(a: u64, p: int) -> u64 {
    if a > p { (a - p) as u64 } else { 0 }
}

/// One step of [`entry_children`]: a child whose effect is `child_step`
/// and the walk after it give the walk from the child.
proof fn lemma_entry_step(
    bytes: Seq<u8>,
    pos: int,
    end: Option<int>,
    o: TrackBuilder,
    mid: TrackBuilder,
    rc: Result<(), ParseError>,
    n: TrackBuilder,
    r: Result<(), ParseError>,
)
    requires
        0 <= pos < bytes.len(),
        remaining(bytes.len() as int, pos, end) >= 8,
        header_ok(bytes, pos),
        !(end matches Some(x) && header_at(bytes, pos).end() matches Some(ce) && ce > x),
        child_step(bytes, pos, o, mid, rc),
        match rc {
            Err(_) => r == rc && n == mid,
            Ok(_) => entry_children(
                bytes,
                step_to(pos, skip_target(bytes, header_at(bytes, pos)), bytes.len() as int),
                end,
                mid,
                n,
                r,
            ),
        },
    ensures
        entry_children(bytes, pos, end, o, n, r),
{
    assert(picked(mid, rc));
}

/// Bytes left in the parent (when its end is known) and in the data (when
/// its length is known), the smaller of the two.
pub fn remaining_in_parent(src: &FileSource, parent_end: Option<u64>, stream_end: Option<u64>) -> (r: Option<u64>)
    ensures
        r == match (parent_end, stream_end) {
            (Some(a), Some(b)) => Some(if sat_sub(a, src.pos()) < sat_sub(b, src.pos()) {
                sat_sub(a, src.pos())
            } else {
                sat_sub(b, src.pos())
            }),
            (Some(a), None) => Some(sat_sub(a, src.pos())),
            (None, Some(b)) => Some(sat_sub(b, src.pos())),
            (None, None) => None,
        },
{
    let pos = src.position();
    let p = match parent_end {
        Some(e) => Some(if e > pos { e - pos } else { 0 }),
        None => None,
    };
    let s = match stream_end {
        Some(e) => Some(if e > pos { e - pos } else { 0 }),
        None => None,
    };
    match (p, s) {
        (Some(a), Some(b)) => Some(if a < b { a } else { b }),
        (Some(a), None) => Some(a),
        (None, Some(b)) => Some(b),
        (None, None) => None,
    }
}

/// Keep an `hvcE` (Dolby Vision enhancement-layer configuration) box as a
/// block addition under its FOURCC.
pub fn parse_hvce(src: &mut FileSource, header: &BoxHeader, builder: &mut TrackBuilder) -> (r: Result<(), ParseError>)
    ensures
        final(src).bytes() == old(src).bytes(),
        read_failed(old(src).bytes(), old(src).pos(), header@, PRIV_CAP, *old(builder), *final(builder), r)
            || (payload_read(old(src).bytes(), old(src).pos(), header@, PRIV_CAP) matches Ok(pl)
                && r is Ok && with_block_addition(*old(builder), *final(builder), header@.kind, pl)),
{
    let payload = read_payload(src, header, PRIV_CAP)?;
    let fourcc = latin1_string(&header.kind.0);
    builder.block_additions.push((fourcc, payload));
    proof {
        assert(builder.block_additions@.subrange(0, old(builder).block_additions@.len() as int)
            =~= old(builder).block_additions@);
    }
    Ok(())
}

/// Parse a `dOps` (Opus) box: see [`dops_applied`].
pub fn parse_dops(src: &mut FileSource, header: &BoxHeader, builder: &mut TrackBuilder) -> (r: Result<(), ParseError>)
    ensures
        final(src).bytes() == old(src).bytes(),
        read_failed(old(src).bytes(), old(src).pos(), header@, 4096, *old(builder), *final(builder), r)
            || (payload_read(old(src).bytes(), old(src).pos(), header@, 4096) matches Ok(pl)
                && r is Ok && dops_applied(*old(builder), *final(builder), pl)),
{
    let payload = read_payload(src, header, 4096)?;
    let pl = payload.as_slice();
    if pl.len() < 11 {
        return Ok(());
    }
    let channels = pl[1] as u32;
    let mut audio = match builder.audio.take() {
        Some(a) => a,
        None => AudioTrackProperties::default(),
    };
    if channels != 0 {
        audio.channels = Some(channels);
    }
    audio.sampling_frequency = Some(SampleRate::Hz(48000));
    builder.audio = Some(audio);
    builder.codec_private_hex = Some(hex_encode(pl));
    Ok(())
}

/// Parse a `dfLa` (FLAC) box: see [`dfla_applied`].
pub fn parse_dfla(src: &mut FileSource, header: &BoxHeader, builder: &mut TrackBuilder) -> (r: Result<(), ParseError>)
    ensures
        final(src).bytes() == old(src).bytes(),
        read_failed(old(src).bytes(), old(src).pos(), header@, PRIV_CAP, *old(builder), *final(builder), r)
            || (payload_read(old(src).bytes(), old(src).pos(), header@, PRIV_CAP) matches Ok(pl)
                && r is Ok && dfla_applied(*old(builder), *final(builder), pl)),
{
    let payload = read_payload(src, header, PRIV_CAP)?;
    let pl = payload.as_slice();
    if pl.len() < 4 {
        return Ok(());
    }
    builder.codec_private_hex = Some(hex_encode(pl));
    if pl.len() < 42 {
        return Ok(());
    }
    let packed = be64_at(pl, 18);
    let sample_rate = (packed / 0x1000_0000_0000) % 0x10_0000;
    let channels = ((packed / 0x200_0000_0000) % 8 + 1) as u32;
    let bits = ((packed / 0x10_0000_0000) % 32 + 1) as u32;
    let mut audio = match builder.audio.take() {
        Some(a) => a,
        None => AudioTrackProperties::default(),
    };
    if sample_rate > 0 {
        audio.sampling_frequency = Some(SampleRate::Hz(sample_rate as u32));
    }
    audio.channels = Some(channels);
    audio.bit_depth = Some(bits);
    builder.audio = Some(audio);
    Ok(())
}

/// Parse an `alac` magic cookie: see [`alac_applied`].
pub fn parse_alac(src: &mut FileSource, header: &BoxHeader, builder: &mut TrackBuilder) -> (r: Result<(), ParseError>)
    ensures
        final(src).bytes() == old(src).bytes(),
        read_failed(old(src).bytes(), old(src).pos(), header@, 4096, *old(builder), *final(builder), r)
            || (payload_read(old(src).bytes(), old(src).pos(), header@, 4096) matches Ok(pl)
                && r is Ok && alac_applied(*old(builder), *final(builder), pl)),
{
    let payload = read_payload(src, header, 4096)?;
    let pl = payload.as_slice();
    builder.codec_private_hex = Some(hex_encode(pl));
    if pl.len() < 28 {
        return Ok(());
    }
    let bit_depth = pl[9] as u32;
    let num_channels = pl[13] as u32;
    let sample_rate = be32_at(pl, 24);
    let mut audio = match builder.audio.take() {
        Some(a) => a,
        None => AudioTrackProperties::default(),
    };
    if num_channels != 0 {
        audio.channels = Some(num_channels);
    }
    if bit_depth != 0 {
        audio.bit_depth = Some(bit_depth);
    }
    if sample_rate != 0 {
        audio.sampling_frequency = Some(SampleRate::Hz(sample_rate));
    }
    builder.audio = Some(audio);
    Ok(())
}

/// Hand the child box `child` (cursor at its payload) to its parser: see
/// [`child_step`].
#[verifier::rlimit(40)]
fn dispatch_child(src: &mut FileSource, child: &BoxHeader, builder: &mut TrackBuilder) -> (r: Result<(), ParseError>)
    requires
        child.wf(),
        0 <= child.start < old(src).bytes().len(),
        header_ok(old(src).bytes(), child.start as int),
        child@ == header_at(old(src).bytes(), child.start as int),
        old(src).pos() == child@.payload_start(),
    ensures
        final(src).bytes() == old(src).bytes(),
        child_step(old(src).bytes(), child.start as int, *old(builder), *final(builder), r),
    decreases old(src).bytes().len() - child.start, 0int,
{
    let k = &child.kind.0;
    if is_fourcc(k, 0x61, 0x76, 0x63, 0x43) {
        avcc::parse(src, child, builder)
    } else if is_fourcc(k, 0x68, 0x76, 0x63, 0x43) {
        hvcc::parse(src, child, builder)
    } else if is_fourcc(k, 0x61, 0x76, 0x31, 0x43) {
        av1c::parse(src, child, builder)
    } else if is_fourcc(k, 0x65, 0x73, 0x64, 0x73) {
        esds::parse(src, child, builder)
    } else if is_fourcc(k, 0x63, 0x6f, 0x6c, 0x72) {
        colr::parse(src, child, builder)
    } else if is_fourcc(k, 0x70, 0x61, 0x73, 0x70) {
        pasp::parse(src, child, builder)
    } else if is_fourcc(k, 0x64, 0x76, 0x63, 0x43) || is_fourcc(k, 0x64, 0x76, 0x76, 0x43) {
        dvcc::parse(src, child, builder)
    } else if is_fourcc(k, 0x68, 0x76, 0x63, 0x45) {
        parse_hvce(src, child, builder)
    } else if is_fourcc(k, 0x77, 0x61, 0x76, 0x65) {
        walk_sample_entry_children(src, child, builder)
    } else if is_fourcc(k, 0x64, 0x4f, 0x70, 0x73) {
        parse_dops(src, child, builder)
    } else if is_fourcc(k, 0x64, 0x66, 0x4c, 0x61) {
        parse_dfla(src, child, builder)
    } else if is_fourcc(k, 0x61, 0x6c, 0x61, 0x63) {
        parse_alac(src, child, builder)
    } else {
        Ok(())
    }
}

/// Walk the child boxes of a sample entry (or of a `wave` box inside one)
/// from the cursor to the end of `parent`: see [`entry_children`].
pub fn walk_sample_entry_children(src: &mut FileSource, parent: &BoxHeader, builder: &mut TrackBuilder) -> (r: Result<(), ParseError>)
    requires
        parent.wf(),
    ensures
        final(src).bytes() == old(src).bytes(),
        entry_children(old(src).bytes(), old(src).pos(), parent@.end(), *old(builder), *final(builder), r),
    decreases old(src).bytes().len() - old(src).pos(), 1int,
{
    let end = parent.end();
    let stream_end = Some(src.length());
    let ghost bytes = src.bytes();
    let ghost p0 = src.pos();
    let ghost b0 = *builder;
    let ghost e = parent@.end();
    loop
        invariant
            src.bytes() == bytes,
            bytes == old(src).bytes(),
            p0 == old(src).pos(),
            b0 == *old(builder),
            e == parent@.end(),
            end matches Some(x) ==> e == Some(x as int),
            end is None ==> e is None,
            bytes.len() <= u64::MAX,
            stream_end == Some(bytes.len() as u64),
            p0 <= src.pos(),
            forall|nn: TrackBuilder, rr: Result<(), ParseError>|
                #[trigger] entry_children(bytes, src.pos(), e, *builder, nn, rr) ==> entry_children(bytes, p0, e, b0, nn, rr),
        decreases if src.pos() <= bytes.len() { bytes.len() - src.pos() + 1 } else { 0 },
    {
        let ghost pos = src.pos();
        let ghost bcur = *builder;
        let rem = match remaining_in_parent(src, end, stream_end) {
            Some(x) => x,
            None => return Ok(()),
        };
        assert(rem == remaining(bytes.len() as int, pos, e));
        if rem < 8 {
            assert(entry_children(bytes, pos, e, bcur, bcur, Ok(())));
            return Ok(());
        }
        assert(remaining(bytes.len() as int, pos, e) >= 8);
        let child = match read_box_header(src) {
            Ok(h) => h,
            Err(err) => {
                assert(entry_children(bytes, pos, e, bcur, bcur, Err(err)) || entry_children(bytes, pos, e, bcur, bcur, Ok(())));
                match err {
                    ParseError::UnexpectedEof { .. } => {
                        assert(entry_children(bytes, pos, e, bcur, bcur, Ok(())));
                        return Ok(());
                    },
                    _ => {
                        assert(entry_children(bytes, pos, e, bcur, bcur, Err(err)));
                        return Err(err);
                    },
                }
            },
        };
        let ghost h = child@;
        if let (Some(end_pos), Some(child_end)) = (end, child.end()) {
            if child_end > end_pos {
                assert(entry_children(bytes, pos, e, bcur, bcur, Ok(())));
                return Ok(());
            }
        }
        let rc = dispatch_child(src, &child, builder);
        assert(child_step(bytes, pos, bcur, *builder, rc));
        match rc {
            Err(err) => {
                proof {
                    lemma_entry_step(bytes, pos, e, bcur, *builder, rc, *builder, rc);
                }
                return Err(err);
            },
            Ok(()) => {},
        }
        let ghost bnext = *builder;
        assert(child_step(bytes, pos, bcur, bnext, rc) && rc is Ok);
        skip_payload(src, &child);
        proof {
            let next = skip_target(bytes, h);
            assert(next > pos);
            assert forall|nn: TrackBuilder, rr: Result<(), ParseError>|
                #[trigger] entry_children(bytes, src.pos(), e, *builder, nn, rr) implies entry_children(bytes, p0, e, b0, nn, rr) by {
                if next > bytes.len() {
                    assert(entry_children(bytes, bytes.len() as int, e, *builder, nn, rr));
                }
                lemma_entry_step(bytes, pos, e, bcur, bnext, rc, nn, rr);
            }
        }
    }
}

/// `r` failed by reading past the end of the data.
pub open spec fn eof_err<T>(r: Result<T, ParseError>) -> bool {
    r matches Err(e) && e is UnexpectedEof
}

/// Video FOURCCs whose configuration boxes are parsed one by one (AVC,
/// HEVC, AV1, MPEG-4 Part 2); other video entries keep their remaining
/// bytes as private data.
pub open spec fn known_priv_video(k: Seq<u8>) -> bool {
    ||| k == fourcc(0x61, 0x76, 0x63, 0x31)
    ||| k == fourcc(0x61, 0x76, 0x63, 0x33)
    ||| k == fourcc(0x68, 0x76, 0x63, 0x31)
    ||| k == fourcc(0x68, 0x65, 0x76, 0x31)
    ||| k == fourcc(0x61, 0x76, 0x30, 0x31)
    ||| k == fourcc(0x6d, 0x70, 0x34, 0x76)
    ||| k == fourcc(0x78, 0x76, 0x69, 0x64)
    ||| k == fourcc(0x58, 0x56, 0x49, 0x44)
}

/// `true` for the video FOURCCs of [`known_priv_video`].
pub fn is_known_priv_video_fourcc(fourcc: &[u8; 4]) -> (r: bool)
    ensures
        r == known_priv_video(fourcc@),
{
    is_fourcc(fourcc, 0x61, 0x76, 0x63, 0x31) || is_fourcc(fourcc, 0x61, 0x76, 0x63, 0x33)
        || is_fourcc(fourcc, 0x68, 0x76, 0x63, 0x31) || is_fourcc(fourcc, 0x68, 0x65, 0x76, 0x31)
        || is_fourcc(fourcc, 0x61, 0x76, 0x30, 0x31) || is_fourcc(fourcc, 0x6d, 0x70, 0x34, 0x76)
        || is_fourcc(fourcc, 0x78, 0x76, 0x69, 0x64) || is_fourcc(fourcc, 0x58, 0x56, 0x49, 0x44)
}

/// Keeping the `rem` bytes at `start` (at most [`PRIV_CAP`]) as the
/// private data of `o` gives `n` and `r`.
pub open spec fn capture_effect(bytes: Seq<u8>, start: int, rem: int, o: TrackBuilder, n: TrackBuilder, r: Result<(), ParseError>) -> bool {
    if rem <= 0 {
        r is Ok && n == o
    } else {
        let want = if rem < PRIV_CAP { rem } else { PRIV_CAP as int };
        if start + want > bytes.len() {
            r == Err::<(), ParseError>(ParseError::UnexpectedEof { offset: start as u64 }) && n == o
        } else {
            &&& r is Ok
            &&& n == (TrackBuilder { codec_private_hex: n.codec_private_hex, ..o })
            &&& n.codec_private_hex matches Some(h) && h@ == hex_chars(bytes.subrange(start, start + want))
        }
    }
}

/// Keep the `remaining` bytes after the first `bytes_consumed` of the
/// entry's payload as private data: see [`capture_effect`].
pub fn capture_remaining_as_private(
    src: &mut FileSource,
    entry: &BoxHeader,
    builder: &mut TrackBuilder,
    bytes_consumed: u64,
    remaining: u64,
) -> (r: Result<(), ParseError>)
    requires
        entry.wf(),
        entry@.payload_start() + bytes_consumed <= u64::MAX,
    ensures
        final(src).bytes() == old(src).bytes(),
        capture_effect(old(src).bytes(), entry@.payload_start() + bytes_consumed, remaining as int, *old(builder), *final(builder), r),
{
    if remaining == 0 {
        return Ok(());
    }
    src.seek_to(entry.payload_start() + bytes_consumed);
    let want = if remaining < PRIV_CAP { remaining } else { PRIV_CAP };
    let bytes = src.read_exact(want)?;
    if bytes.len() > 0 {
        builder.codec_private_hex = Some(hex_encode(bytes.as_slice()));
    }
    Ok(())
}

/// The video properties the 70 video fields at `q` give, the display size
/// coming from the track header of `o` when it has one.
pub open spec fn video_entry_props(v: VideoTrackProperties, o: TrackBuilder, bytes: Seq<u8>, q: int) -> bool {
    let w = be16(bytes, q + 16);
    let h = be16(bytes, q + 18);
    let depth = be16(bytes, q + 66);
    let dims = Dimensions2D { width: w as u32, height: h as u32 };
    &&& v.pixel_dimensions == (if w != 0 && h != 0 { Some(dims) } else { None })
    &&& v.display_dimensions == (if w != 0 && h != 0 {
        match display_dims(o) {
            Some(d) => Some(d),
            None => Some(dims),
        }
    } else {
        None
    })
    &&& v.color == (if depth != 0 && depth != 24 {
        Some(ColorMetadata { bits_per_channel: Some(depth as u32), ..empty_color() })
    } else {
        None
    })
    &&& v.codec_config is None
    &&& v.rotation_degrees is None
    &&& v.flipped is None
    &&& v.default_duration_ns is None
    &&& v.block_addition_mappings@.len() == 0
}

/// Parse the video fields of a sample entry at the cursor (`payload` being
/// the entry's payload size, `consumed_so_far` what was read of it): width
/// and height (after a 16-byte preamble) and depth (after 46 more bytes).
/// Returns the bytes read.
pub fn parse_video_sample_entry(
    src: &mut FileSource,
    entry: &BoxHeader,
    builder: &mut TrackBuilder,
    payload: u64,
    consumed_so_far: u64,
) -> (r: Result<u64, ParseError>)
    requires
        consumed_so_far <= 0x1_0000,
    ensures
        final(src).bytes() == old(src).bytes(),
        payload < consumed_so_far + 70 ==> r == Err::<u64, ParseError>(ParseError::Malformed { offset: entry.start })
            && *final(builder) == *old(builder),
        payload >= consumed_so_far + 70 && old(src).pos() + 70 > old(src).bytes().len() ==> eof_err(r)
            && *final(builder) == *old(builder),
        payload >= consumed_so_far + 70 && old(src).pos() + 70 <= old(src).bytes().len() ==> {
            &&& r == Ok::<u64, ParseError>(70)
            &&& final(src).pos() == old(src).pos() + 70
            &&& *final(builder) == (TrackBuilder { video: final(builder).video, ..*old(builder) })
            &&& final(builder).video matches Some(v) && video_entry_props(v, *old(builder), old(src).bytes(), old(src).pos())
        },
{
    let need = VIDEO_PREAMBLE_BYTES + 4 + VIDEO_TAIL_BYTES;
    if payload < consumed_so_far + need {
        return Err(ParseError::Malformed { offset: entry.start });
    }
    src.skip(VIDEO_PREAMBLE_BYTES)?;
    let width = src.read_u16_be()? as u32;
    let height = src.read_u16_be()? as u32;
    src.skip(8 + 4 + 2 + 32)?;
    let depth = src.read_u16_be()?;
    src.skip(2)?;
    let mut video = VideoTrackProperties::default();
    if width != 0 && height != 0 {
        video.pixel_dimensions = Some(Dimensions2D { width, height });
        video.display_dimensions = match builder.display_dimensions() {
            Some(d) => Some(d),
            None => Some(Dimensions2D { width, height }),
        };
    }
    if depth != 0 && depth != 24 {
        let mut color = ColorMetadata::default();
        color.bits_per_channel = Some(depth as u32);
        video.color = Some(color);
    }
    builder.video = Some(video);
    Ok(VIDEO_PREAMBLE_BYTES + 4 + VIDEO_TAIL_BYTES)
}

/// Bytes of the audio fields at `q`: 56 in version 2, 36 for version 1
/// when the entry has room for its extension, 20 otherwise.
pub open spec fn audio_entry_len(bytes: Seq<u8>, q: int, payload: int, consumed: int) -> int {
    let version = be16(bytes, q);
    if version == 2 {
        56
    } else if version == 1 && payload >= consumed + 36 {
        36
    } else {
        20
    }
}

/// The audio properties the audio fields at `q` give: in version 2 the
/// double sample rate, `u32` channels and bits per channel after the
/// placeholders; otherwise `u16` channels and sample size and a 16.16
/// sample rate.  Zero values are left unset.
pub open spec fn audio_entry_props(a: AudioTrackProperties, bytes: Seq<u8>, q: int) -> bool {
    let v2 = be16(bytes, q) == 2;
    let channels = if v2 { be32(bytes, q + 32) } else { be16(bytes, q + 8) };
    let sample_size = if v2 { be32(bytes, q + 40) } else { be16(bytes, q + 10) };
    let bits = be64(bytes, q + 24) as u64;
    let raw = be32(bytes, q + 16) as u32;
    &&& a.channels == (if channels != 0 { Some(channels as u32) } else { None })
    &&& a.bit_depth == (if sample_size != 0 { Some(sample_size as u32) } else { None })
    &&& a.sampling_frequency == (if v2 {
        if f64_positive(bits) { Some(f64_rate(bits)) } else { None }
    } else {
        if raw > 0 { Some(fixed16_rate(raw)) } else { None }
    })
    &&& a.output_sampling_frequency is None
    &&& a.codec_config is None
}

/// The audio fields at `q` can be read: all of them lie within the data,
/// the version-2 ones within the entry.
pub open spec fn audio_entry_error(bytes: Seq<u8>, q: int, payload: int, consumed: int) -> Option<bool> {
    if payload < consumed + 20 {
        Some(true)
    } else if q + 8 > bytes.len() {
        Some(false)
    } else if be16(bytes, q) == 2 && payload < consumed + 56 {
        Some(true)
    } else if q + audio_entry_len(bytes, q, payload, consumed) > bytes.len() {
        Some(false)
    } else {
        None
    }
}

/// Parse the audio fields of a sample entry at the cursor.  Returns the
/// bytes read.  `audio_entry_error` tells which failure comes: `Some(true)`
/// is `Malformed`, `Some(false)` a read past the end.
pub fn parse_audio_sample_entry(
    src: &mut FileSource,
    entry: &BoxHeader,
    builder: &mut TrackBuilder,
    payload: u64,
    consumed_so_far: u64,
) -> (r: Result<u64, ParseError>)
    requires
        consumed_so_far <= 0x1_0000,
    ensures
        final(src).bytes() == old(src).bytes(),
        match audio_entry_error(old(src).bytes(), old(src).pos(), payload as int, consumed_so_far as int) {
            Some(true) => r == Err::<u64, ParseError>(ParseError::Malformed { offset: entry.start })
                && *final(builder) == *old(builder),
            Some(false) => eof_err(r) && *final(builder) == *old(builder),
            None => {
                &&& r == Ok::<u64, ParseError>(
                    audio_entry_len(old(src).bytes(), old(src).pos(), payload as int, consumed_so_far as int) as u64,
                )
                &&& *final(builder) == (TrackBuilder { audio: final(builder).audio, ..*old(builder) })
                &&& final(builder).audio matches Some(a) && audio_entry_props(a, old(src).bytes(), old(src).pos())
            },
        },
{
    let need = AUDIO_PREAMBLE_BYTES + AUDIO_FIXED_BYTES;
    if payload < consumed_so_far + need {
        return Err(ParseError::Malformed { offset: entry.start });
    }
    let version = src.read_u16_be()?;
    let _revision = src.read_u16_be()?;
    let _vendor = src.read_u32_be()?;
    let channels: u32;
    let sample_size: u32;
    let sample_rate: Option<SampleRate>;
    let bytes: u64;
    if version == 2 {
        let need2 = AUDIO_PREAMBLE_BYTES + 48;
        if payload < consumed_so_far + need2 {
            return Err(ParseError::Malformed { offset: entry.start });
        }
        src.skip(16)?;
        let rate_bits = src.read_u64_be()?;
        channels = src.read_u32_be()?;
        src.skip(4)?;
        sample_size = src.read_u32_be()?;
        src.skip(12)?;
        sample_rate = if 0 < rate_bits && rate_bits <= 0x7FF0_0000_0000_0000 {
            Some(SampleRate::from_f64_bits(rate_bits))
        } else {
            None
        };
        bytes = AUDIO_PREAMBLE_BYTES + 48;
    } else {
        channels = src.read_u16_be()? as u32;
        sample_size = src.read_u16_be()? as u32;
        let _compression_id = src.read_u16_be()?;
        let _packet_size = src.read_u16_be()?;
        let raw = src.read_u32_be()?;
        sample_rate = if raw > 0 { Some(SampleRate::from_fixed16(raw)) } else { None };
        let mut b = AUDIO_PREAMBLE_BYTES + AUDIO_FIXED_BYTES;
        if version == 1 {
            let extra = 16u64;
            if payload >= consumed_so_far + b + extra {
                src.skip(extra)?;
                b = b + extra;
            }
        }
        bytes = b;
    }
    let mut audio = AudioTrackProperties::default();
    if channels != 0 {
        audio.channels = Some(channels);
    }
    audio.sampling_frequency = sample_rate;
    if sample_size != 0 {
        audio.bit_depth = Some(sample_size);
    }
    builder.audio = Some(audio);
    Ok(bytes)
}

/// The track type the handler of `o` gives (`Unknown` without a handler).
pub open spec fn handler_kind(o: TrackBuilder) -> TrackType {
    match o.handler_type {
        Some(h) => handler_track_type(h@),
        None => TrackType::Unknown,
    }
}

/// `m` is `o` after the fixed part of the first sample entry `e`: its
/// FOURCC recorded (as bytes and as text), then for a video or audio track
/// the properties its video or audio fields (at `q`) give.
pub open spec fn entry_fixed(o: TrackBuilder, m: TrackBuilder, bytes: Seq<u8>, e: BoxHeaderView, q: int) -> bool {
    &&& m == (TrackBuilder {
        sample_entry_kind: m.sample_entry_kind,
        codec_id_str: m.codec_id_str,
        video: m.video,
        audio: m.audio,
        ..o
    })
    &&& m.sample_entry_kind matches Some(k) && k@ == e.kind
    &&& m.codec_id_str matches Some(s) && s@ == latin1_chars(e.kind)
    &&& match handler_kind(o) {
        TrackType::Video => m.audio == o.audio && (m.video matches Some(v) && video_entry_props(v, o, bytes, q)),
        TrackType::Audio => m.video == o.video && (m.audio matches Some(a) && audio_entry_props(a, bytes, q)),
        _ => m.video == o.video && m.audio == o.audio,
    }
}

/// `n` is `o` with the FOURCC of the entry recorded and nothing else.
pub open spec fn kind_only(o: TrackBuilder, n: TrackBuilder, kind: Seq<u8>) -> bool {
    &&& n == (TrackBuilder { sample_entry_kind: n.sample_entry_kind, codec_id_str: n.codec_id_str, ..o })
    &&& n.sample_entry_kind matches Some(k) && k@ == kind
    &&& n.codec_id_str matches Some(s) && s@ == latin1_chars(kind)
}

/// What parsing the first sample entry `e` (cursor at its payload) does.
/// Its payload must hold the 8-byte common header (`Malformed` otherwise);
/// the FOURCC is recorded before the fields are read, so a failure there
/// keeps it.  After the fixed part, a video entry of an unlisted codec and
/// a subtitle entry other than `mp4s` keep the rest as private data; other
/// entries walk the rest as child boxes when 8 bytes or more remain.
pub open spec fn first_entry_effect(bytes: Seq<u8>, e: BoxHeaderView, o: TrackBuilder, n: TrackBuilder, r: Result<(), ParseError>) -> bool {
    let payload = payload_or_zero(e);
    let ps = e.payload_start();
    let q = ps + 8;
    let tt = handler_kind(o);
    let malformed = r == Err::<(), ParseError>(ParseError::Malformed { offset: e.start as u64 });
    if payload < 8 {
        malformed && n == o
    } else if q > bytes.len() {
        eof_err(r) && kind_only(o, n, e.kind)
    } else if tt == TrackType::Video && payload < 78 {
        malformed && kind_only(o, n, e.kind)
    } else if tt == TrackType::Video && q + 70 > bytes.len() {
        eof_err(r) && kind_only(o, n, e.kind)
    } else if tt == TrackType::Audio && audio_entry_error(bytes, q, payload, 8) is Some {
        (if audio_entry_error(bytes, q, payload, 8) == Some(true) { malformed } else { eof_err(r) })
            && kind_only(o, n, e.kind)
    } else {
        let consumed = 8 + match tt {
            TrackType::Video => 70,
            TrackType::Audio => audio_entry_len(bytes, q, payload, 8),
            _ => 0,
        };
        let rem = if payload > consumed { payload - consumed } else { 0 };
        let start = ps + consumed;
        exists|m: TrackBuilder| #[trigger] picked(m, r) && entry_fixed(o, m, bytes, e, q) && if (tt == TrackType::Video
            && !known_priv_video(e.kind)) || (tt == TrackType::Subtitles && e.kind != fourcc(0x6d, 0x70, 0x34, 0x73)) {
            capture_effect(bytes, start, rem, m, n, r)
        } else if rem >= 8 {
            entry_children(bytes, start, Some(start + rem), m, n, r)
        } else {
            r is Ok && n == m
        }
    }
}

/// Parse the first sample entry `entry` with the cursor at its payload:
/// see [`first_entry_effect`].
pub fn parse_first_entry(src: &mut FileSource, entry: &BoxHeader, builder: &mut TrackBuilder) -> (r: Result<(), ParseError>)
    requires
        entry.wf(),
        old(src).pos() == entry@.payload_start(),
    ensures
        final(src).bytes() == old(src).bytes(),
        first_entry_effect(old(src).bytes(), entry@, *old(builder), *final(builder), r),
{
    let ghost bytes = src.bytes();
    let ghost o = *builder;
    let payload = match entry.payload_size() {
        Some(p) => p,
        None => 0,
    };
    if payload < 8 {
        return Err(ParseError::Malformed { offset: entry.start });
    }
    builder.sample_entry_kind = Some(entry.kind.0);
    builder.codec_id_str = Some(latin1_string(&entry.kind.0));
    let ghost k1 = *builder;
    src.skip(6)?;
    let _data_ref_index = src.read_u16_be()?;
    let mut bytes_consumed: u64 = 8;
    let tt = match builder.handler_type {
        Some(h) => crate::mp4::moov::hdlr::classify_handler_type(&h),
        None => TrackType::Unknown,
    };
    let is_video = tt == TrackType::Video;
    let is_subtitle = tt == TrackType::Subtitles;
    if is_video {
        let n = parse_video_sample_entry(src, entry, builder, payload, bytes_consumed)?;
        bytes_consumed = bytes_consumed + n;
    } else if tt == TrackType::Audio {
        let n = parse_audio_sample_entry(src, entry, builder, payload, bytes_consumed)?;
        bytes_consumed = bytes_consumed + n;
    }
    let ghost m = *builder;
    let remaining = if payload > bytes_consumed { payload - bytes_consumed } else { 0 };
    if (is_video && !is_known_priv_video_fourcc(&entry.kind.0))
        || (is_subtitle && !is_fourcc(&entry.kind.0, 0x6d, 0x70, 0x34, 0x73)) {
        let r = capture_remaining_as_private(src, entry, builder, bytes_consumed, remaining);
        assert(picked(m, r));
        return r;
    }
    if remaining >= 8 {
        let start = entry.payload_start() + bytes_consumed;
        let synthetic = BoxHeader { start, kind: entry.kind, header_len: 0, total_size: Some(remaining) };
        src.seek_to(start);
        let r = walk_sample_entry_children(src, &synthetic, builder);
        assert(picked(m, r));
        return r;
    }
    assert(picked(m, Ok(())));
    Ok(())
}

/// The walk over the `k` entries after the first, from `pos`: only their
/// headers are read; it stops at `end` (when known).
pub open spec fn rest_entries(bytes: Seq<u8>, pos: int, end: Option<int>, k: int) -> Result<(), ParseError>
    decreases k,
{
    if k <= 0 {
        Ok(())
    } else if end matches Some(e) && pos >= e {
        Ok(())
    } else if !header_ok(bytes, pos) {
        Err(header_error(bytes, pos))
    } else {
        rest_entries(bytes, skip_target(bytes, header_at(bytes, pos)), end, k - 1)
    }
}

/// What parsing the `stsd` box `parent` with the cursor at its payload
/// (`p0`) does: the payload needs the 8-byte header (`Malformed`
/// otherwise); an entry count of zero changes nothing; the first entry
/// fills the track (see [`first_entry_effect`]) and the headers of the
/// others are read, up to the end of the box.
pub open spec fn stsd_effect(bytes: Seq<u8>, p0: int, parent: BoxHeaderView, o: TrackBuilder, n: TrackBuilder, r: Result<(), ParseError>) -> bool {
    if payload_or_zero(parent) < 8 {
        r == Err::<(), ParseError>(ParseError::Malformed { offset: parent.start as u64 }) && n == o
    } else if p0 + 4 > bytes.len() {
        r == Err::<(), ParseError>(ParseError::UnexpectedEof { offset: p0 as u64 }) && n == o
    } else if p0 + 8 > bytes.len() {
        r == Err::<(), ParseError>(ParseError::UnexpectedEof { offset: (p0 + 4) as u64 }) && n == o
    } else {
        let count = be32(bytes, p0 + 4);
        let p1 = p0 + 8;
        if count == 0 || (parent.end() matches Some(e) && p1 >= e) {
            r is Ok && n == o
        } else if !header_ok(bytes, p1) {
            r == Err::<(), ParseError>(header_error(bytes, p1)) && n == o
        } else {
            let h = header_at(bytes, p1);
            exists|m: TrackBuilder, r1: Result<(), ParseError>| #[trigger] picked(m, r1)
                && first_entry_effect(bytes, h, o, m, r1) && n == m && match r1 {
                    Err(_) => r == r1,
                    Ok(_) => r == rest_entries(bytes, skip_target(bytes, h), parent.end(), count - 1),
                }
        }
    }
}

/// Parse an `stsd` box with the cursor at its payload: see
/// [`stsd_effect`].
pub fn parse(src: &mut FileSource, parent: &BoxHeader, builder: &mut TrackBuilder) -> (r: Result<(), ParseError>)
    requires
        parent.wf(),
    ensures
        final(src).bytes() == old(src).bytes(),
        stsd_effect(old(src).bytes(), old(src).pos(), parent@, *old(builder), *final(builder), r),
{
    let ghost bytes = src.bytes();
    let payload = match parent.payload_size() {
        Some(p) => p,
        None => 0,
    };
    if payload < 8 {
        return Err(ParseError::Malformed { offset: parent.start });
    }
    src.skip(4)?;
    let entry_count = src.read_u32_be()?;
    if entry_count == 0 {
        return Ok(());
    }
    let stop_at = parent.end();
    let pos = src.position();
    if let Some(end) = stop_at {
        if pos >= end {
            return Ok(());
        }
    }
    let entry = read_box_header(src)?;
    let ghost h = entry@;
    let r1 = parse_first_entry(src, &entry, builder);
    let ghost m = *builder;
    assert(picked(m, r1));
    if let Err(e) = r1 {
        return Err(e);
    }
    skip_payload(src, &entry);
    let ghost e = parent@.end();
    let ghost after_first = src.pos();
    assert(stsd_effect(bytes, old(src).pos(), parent@, *old(builder), m, rest_entries(bytes, after_first, e, entry_count - 1)));
    let mut idx: u32 = 1;
    while idx < entry_count
        invariant
            src.bytes() == bytes,
            bytes == old(src).bytes(),
            stsd_effect(bytes, old(src).pos(), parent@, *old(builder), m, rest_entries(bytes, after_first, e, entry_count - 1)),
            *builder == m,
            1 <= idx <= entry_count,
            e == parent@.end(),
            stop_at matches Some(x) ==> e == Some(x as int),
            stop_at is None ==> e is None,
            rest_entries(bytes, after_first, e, entry_count - 1) == rest_entries(bytes, src.pos(), e, entry_count - idx),
        decreases entry_count - idx,
    {
        let pos = src.position();
        if let Some(end) = stop_at {
            if pos >= end {
                return Ok(());
            }
        }
        let entry = read_box_header(src)?;
        skip_payload(src, &entry);
        idx = idx + 1;
    }
    Ok(())
}

} // verus!
