//! `esds` (MPEG-4 elementary stream descriptor).  After the 4-byte full-box
//! header comes a tree of descriptors, each a tag byte, a length in up to
//! four 7-bit groups (top bit set on every group but the last) and a body.
//! The walk reads the object type of the DecoderConfig descriptor (tag 4,
//! nested in the ES descriptor, tag 3) and keeps the DecoderSpecificInfo
//! (tag 5) bytes.

use vstd::prelude::*;
use crate::source::{FileSource, ParseError, be16, be32};
use crate::model::AudioCodecConfig;
use crate::mp4::atom::{BoxHeader, payload_read, read_payload};
use crate::mp4::codec_specific::{hex_chars, hex_encode};
use crate::mp4::moov::trak::TrackBuilder;
use crate::text::owned;

verus! {

/// ES descriptor tag.
pub const TAG_ES_DESCRIPTOR: u8 = 0x03;
/// DecoderConfig descriptor tag.
pub const TAG_DECODER_CONFIG: u8 = 0x04;
/// DecoderSpecificInfo descriptor tag.
pub const TAG_DEC_SPECIFIC_INFO: u8 = 0x05;

/// A read position over a byte slice.  Reads past the end fail and leave
/// the position where it was.
pub struct Cursor<'a> {
    pub data: &'a [u8],
    pub pos: usize,
}

/// Position after a read of `n` bytes at `p` in `len` bytes: past them when
/// they fit, unchanged otherwise.
pub open spec fn adv(len: int, p: int, n: int) -> int {
    if p + n <= len {
        p + n
    } else {
        p
    }
}

/// Position after skipping `n` bytes from `p`, stopping at the end.
pub open spec fn clamp_skip(len: int, p: int, n: int) -> int {
    if p + n <= len {
        p + n
    } else {
        len
    }
}

/// The descriptor length at `p` and the position after it: up to four
/// bytes, seven bits each, most significant first; the top bit of a byte
/// says another follows, but the fourth ends the length regardless.
/// `None` when the data ends first.
pub open spec fn ber_length(data: Seq<u8>, p: int) -> Option<(nat, int)> {
    if p >= data.len() {
        None
    } else {
        let v0 = (data[p] % 128) as nat;
        if data[p] < 128 {
            Some((v0, p + 1))
        } else if p + 1 >= data.len() {
            None
        } else {
            let v1 = v0 * 128 + (data[p + 1] % 128) as nat;
            if data[p + 1] < 128 {
                Some((v1, p + 2))
            } else if p + 2 >= data.len() {
                None
            } else {
                let v2 = v1 * 128 + (data[p + 2] % 128) as nat;
                if data[p + 2] < 128 {
                    Some((v2, p + 3))
                } else if p + 3 >= data.len() {
                    None
                } else {
                    Some((v2 * 128 + (data[p + 3] % 128) as nat, p + 4))
                }
            }
        }
    }
}

/// Where the children of an ES descriptor whose body starts at `p` begin:
/// after `ES_ID` (2 bytes) and the flags byte, then `dependsOn_ES_ID` (2
/// bytes, flag bit 7), the URL (a length byte and that many bytes, bit 6)
/// and `OCR_ES_Id` (2 bytes, bit 5); skips stop at the end of the data.
pub open spec fn es_header_end(data: Seq<u8>, p: int) -> int {
    let len = data.len() as int;
    let p1 = adv(len, p, 2);
    let flags: u8 = if p1 < len { data[p1] } else { 0 };
    let p2 = adv(len, p1, 1);
    let p3 = if flags >= 0x80 { clamp_skip(len, p2, 2) } else { p2 };
    let p4 = if (flags / 64) % 2 == 1 {
        if p3 < len { clamp_skip(len, p3 + 1, data[p3] as int) } else { p3 }
    } else {
        p3
    };
    if (flags / 32) % 2 == 1 { clamp_skip(len, p4, 2) } else { p4 }
}

/// Where the children of a DecoderConfig descriptor whose body starts at
/// `p` begin: after object type, stream type, three buffer-size bytes and
/// two `u32` bit rates, each read only when it fits.
pub open spec fn dc_header_end(data: Seq<u8>, p: int) -> int {
    let len = data.len() as int;
    adv(len, adv(len, adv(len, adv(len, adv(len, adv(len, adv(len, p, 1), 1), 1), 1), 1), 4), 4)
}

/// Object type of a DecoderConfig body at `p` (0 when absent).
pub open spec fn object_type_at(data: Seq<u8>, p: int) -> u8 {
    if p < data.len() { data[p] } else { 0 }
}

/// Name of an MPEG-4 `objectTypeIndication`.
pub open spec fn object_type_name(idc: u8) -> Seq<char> {
    if idc == 0x40 {
        "AAC"@
    } else if idc == 0x41 {
        "AAC main"@
    } else if idc == 0x6B {
        "MP3 (MPEG-1 Layer III)"@
    } else if idc == 0x69 {
        "MP3 (MPEG-2 Layer III)"@
    } else if idc == 0x67 {
        "MPEG-2 AAC"@
    } else if idc == 0xA5 {
        "AC-3"@
    } else if idc == 0xA6 {
        "E-AC-3"@
    } else if idc == 0xA9 {
        "DTS"@
    } else if idc == 0xDD {
        "Vorbis"@
    } else {
        "Unknown"@
    }
}

/// What the descriptor walk has found so far.
pub struct EsdsFields {
    pub profile: Option<Seq<char>>,
    pub object_type: Option<u8>,
    pub ds_len: Option<nat>,
    pub ds_data: Option<Seq<u8>>,
}

/// The walk of the descriptors from `pos` in `data`, from the findings
/// `st`.  A descriptor whose body runs past the data is `Malformed` at its
/// body start, and so is an ES or DecoderConfig descriptor whose fixed
/// fields run past its own body.
pub open spec fn walk_desc(data: Seq<u8>, pos: int, st: EsdsFields) -> Result<EsdsFields, ParseError>
    decreases data.len() - pos,
{
    if pos < 0 || pos >= data.len() {
        Ok(st)
    } else {
        let tag = data[pos];
        match ber_length(data, pos + 1) {
            None => Ok(st),
            Some((l, p)) => {
                let body_end = p + l;
                if body_end > data.len() {
                    Err(ParseError::Malformed { offset: p as u64 })
                } else if tag == TAG_ES_DESCRIPTOR || tag == TAG_DECODER_CONFIG {
                    let inner = if tag == TAG_ES_DESCRIPTOR { es_header_end(data, p) } else { dc_header_end(data, p) };
                    let st1 = if tag == TAG_ES_DESCRIPTOR {
                        st
                    } else {
                        let ot = object_type_at(data, p);
                        EsdsFields { object_type: Some(ot), profile: Some(object_type_name(ot)), ..st }
                    };
                    if inner > body_end {
                        Err(ParseError::Malformed { offset: p as u64 })
                    } else {
                        match walk_desc(data.subrange(inner, body_end), 0, st1) {
                            Err(e) => Err(e),
                            Ok(st2) => walk_desc(data, body_end, st2),
                        }
                    }
                } else if tag == TAG_DEC_SPECIFIC_INFO {
                    walk_desc(data, body_end, EsdsFields {
                        ds_len: Some(l),
                        ds_data: Some(data.subrange(p, body_end)),
                        ..st
                    })
                } else {
                    walk_desc(data, body_end, st)
                }
            },
        }
    }
}

/// The findings held by the walk's outputs.
pub open spec fn fields_of(
    profile: Option<String>,
    object_type: Option<u8>,
    ds_len: Option<usize>,
    ds_data: Option<Vec<u8>>,
) -> EsdsFields {
    EsdsFields {
        profile: match profile {
            Some(s) => Some(s@),
            None => None,
        },
        object_type,
        ds_len: match ds_len {
            Some(l) => Some(l as nat),
            None => None,
        },
        ds_data: match ds_data {
            Some(d) => Some(d@),
            None => None,
        },
    }
}

impl<'a> Cursor<'a> {
    /// Read one byte.
    pub fn read_u8(&mut self) -> (r: Option<u8>)
        ensures
            final(self).data == old(self).data,
            if old(self).pos < old(self).data@.len() {
                r == Some(old(self).data@[old(self).pos as int]) && final(self).pos == old(self).pos + 1
            } else {
                r is None && final(self).pos == old(self).pos
            },
    {
        if self.pos < self.data.len() {
            let b = self.data[self.pos];
            self.pos = self.pos + 1;
            Some(b)
        } else {
            None
        }
    }

    /// Read a big-endian `u16`.
    pub fn read_u16_be(&mut self) -> (r: Option<u16>)
        ensures
            final(self).data == old(self).data,
            if old(self).pos + 2 <= old(self).data@.len() {
                r == Some(be16(old(self).data@, old(self).pos as int) as u16) && final(self).pos == old(self).pos + 2
            } else {
                r is None && final(self).pos == old(self).pos
            },
    {
        let len = self.data.len();
        if self.pos > len || len - self.pos < 2 {
            return None;
        }
        let v = (self.data[self.pos] as u16) * 0x100 + (self.data[self.pos + 1] as u16);
        self.pos = self.pos + 2;
        Some(v)
    }

    /// Read a big-endian `u32`.
    pub fn read_u32_be(&mut self) -> (r: Option<u32>)
        ensures
            final(self).data == old(self).data,
            if old(self).pos + 4 <= old(self).data@.len() {
                r == Some(be32(old(self).data@, old(self).pos as int) as u32) && final(self).pos == old(self).pos + 4
            } else {
                r is None && final(self).pos == old(self).pos
            },
    {
        let len = self.data.len();
        if self.pos > len || len - self.pos < 4 {
            return None;
        }
        let p = self.pos;
        let v = (self.data[p] as u32) * 0x100_0000 + (self.data[p + 1] as u32) * 0x1_0000
            + (self.data[p + 2] as u32) * 0x100 + (self.data[p + 3] as u32);
        self.pos = p + 4;
        Some(v)
    }

    /// The `len` bytes at the position, when they fit.
    pub fn slice(&self, len: usize) -> (r: Option<&'a [u8]>)
        ensures
            if self.pos + len <= self.data@.len() {
                r matches Some(s) && s@ == self.data@.subrange(self.pos as int, self.pos + len)
            } else {
                r is None
            },
    {
        let n = self.data.len();
        if self.pos > n || len > n - self.pos {
            None
        } else {
            Some(vstd::slice::slice_subrange(self.data, self.pos, self.pos + len))
        }
    }

    /// Move forward `n` bytes, stopping at the end.
    pub fn skip(&mut self, n: usize)
        ensures
            final(self).data == old(self).data,
            final(self).pos == if old(self).pos + n <= old(self).data@.len() {
                old(self).pos + n
            } else {
                old(self).data@.len() as int
            },
    {
        let len = self.data.len();
        if self.pos > len || n > len - self.pos {
            self.pos = len;
        } else {
            self.pos = self.pos + n;
        }
    }

    /// Read a descriptor length (see [`ber_length`]); the position after a
    /// failed read is not specified.
    pub fn read_ber_length(&mut self) -> (r: Option<usize>)
        ensures
            final(self).data == old(self).data,
            match ber_length(old(self).data@, old(self).pos as int) {
                Some((v, p)) => r == Some(v as usize) && final(self).pos == p,
                None => r is None,
            },
    {
        let mut value: usize = 0;
        let mut k: usize = 0;
        let ghost p0 = self.pos as int;
        while k < 4
            invariant
                self.data == old(self).data,
                k <= 4,
                self.pos == p0 + k,
                p0 == old(self).pos,
                value < pow128(k as nat),
                k >= 1 ==> p0 < self.data@.len() && self.data@[p0] >= 128,
                k >= 2 ==> p0 + 1 < self.data@.len() && self.data@[p0 + 1] >= 128,
                k >= 3 ==> p0 + 2 < self.data@.len() && self.data@[p0 + 2] >= 128,
                k >= 4 ==> p0 + 3 < self.data@.len() && self.data@[p0 + 3] >= 128,
                k == 4 ==> value == (((self.data@[p0] % 128) * 128 + self.data@[p0 + 1] % 128) * 128
                    + self.data@[p0 + 2] % 128) * 128 + self.data@[p0 + 3] % 128,
                k == 1 ==> value == self.data@[p0] % 128,
                k == 2 ==> value == (self.data@[p0] % 128) * 128 + self.data@[p0 + 1] % 128,
                k == 3 ==> value == ((self.data@[p0] % 128) * 128 + self.data@[p0 + 1] % 128) * 128
                    + self.data@[p0 + 2] % 128,
            decreases 4 - k,
        {
            let b = match self.read_u8() {
                Some(b) => b,
                None => return None,
            };
            assert(((value as int) * 128 + ((b % 128) as int)) < pow128((k + 1) as nat)) by {
                assert(pow128((k + 1) as nat) == pow128(k as nat) * 128);
            }
            value = value * 128 + (b % 128) as usize;
            k = k + 1;
            if b < 128 {
                return Some(value);
            }
        }
        Some(value)
    }
}

/// Walk the descriptors from the cursor (see [`walk_desc`]), recording the
/// object type and its name, and the DecoderSpecificInfo length and bytes.
/// Only the profile name of `cfg` changes.
pub fn walk(
    cursor: &mut Cursor,
    cfg: &mut AudioCodecConfig,
    object_type_out: &mut Option<u8>,
    decoder_specific_len_out: &mut Option<usize>,
    decoder_specific_data_out: &mut Option<Vec<u8>>,
) -> (r: Result<(), ParseError>)
    requires
        old(cursor).pos <= old(cursor).data@.len(),
    ensures
        *final(cfg) == (AudioCodecConfig { profile_name: final(cfg).profile_name, ..*old(cfg) }),
        match walk_desc(
            old(cursor).data@,
            old(cursor).pos as int,
            fields_of(old(cfg).profile_name, *old(object_type_out), *old(decoder_specific_len_out), *old(decoder_specific_data_out)),
        ) {
            Ok(st) => r is Ok && fields_of(
                final(cfg).profile_name,
                *final(object_type_out),
                *final(decoder_specific_len_out),
                *final(decoder_specific_data_out),
            ) == st,
            Err(e) => r == Err::<(), ParseError>(e),
        },
    decreases old(cursor).data@.len() - old(cursor).pos,
{
    let ghost data = cursor.data@;
    let ghost start = cursor.pos as int;
    let ghost init = fields_of(cfg.profile_name, *object_type_out, *decoder_specific_len_out, *decoder_specific_data_out);
    loop
        invariant
            cursor.data@ == data,
            data == old(cursor).data@,
            start == old(cursor).pos,
            start <= cursor.pos <= data.len(),
            init == fields_of(old(cfg).profile_name, *old(object_type_out), *old(decoder_specific_len_out), *old(decoder_specific_data_out)),
            *cfg == (AudioCodecConfig { profile_name: cfg.profile_name, ..*old(cfg) }),
            walk_desc(data, start, init) == walk_desc(
                data,
                cursor.pos as int,
                fields_of(cfg.profile_name, *object_type_out, *decoder_specific_len_out, *decoder_specific_data_out),
            ),
        decreases data.len() - cursor.pos,
    {
        let ghost st = fields_of(cfg.profile_name, *object_type_out, *decoder_specific_len_out, *decoder_specific_data_out);
        let ghost at = cursor.pos as int;
        let tag = match cursor.read_u8() {
            Some(t) => t,
            None => return Ok(()),
        };
        let len = match cursor.read_ber_length() {
            Some(l) => l,
            None => return Ok(()),
        };
        let p = cursor.pos;
        let n = cursor.data.len();
        if len > n - p {
            return Err(ParseError::Malformed { offset: p as u64 });
        }
        let body_end = p + len;
        if tag == TAG_ES_DESCRIPTOR || tag == TAG_DECODER_CONFIG {
            if tag == TAG_ES_DESCRIPTOR {
                let _es_id = cursor.read_u16_be();
                let flags = match cursor.read_u8() {
                    Some(f) => f,
                    None => 0,
                };
                if flags >= 0x80 {
                    cursor.skip(2);
                }
                if (flags / 64) % 2 == 1 {
                    if let Some(url_len) = cursor.read_u8() {
                        cursor.skip(url_len as usize);
                    }
                }
                if (flags / 32) % 2 == 1 {
                    cursor.skip(2);
                }
                assert(cursor.pos == es_header_end(data, p as int));
            } else {
                let object_type = match cursor.read_u8() {
                    Some(o) => o,
                    None => 0,
                };
                *object_type_out = Some(object_type);
                let _stream_type = cursor.read_u8();
                if cursor.read_u8().is_some() {
                    if cursor.read_u8().is_some() {
                        let _ = cursor.read_u8();
                    }
                }
                let _max_bitrate = cursor.read_u32_be();
                let _avg_bitrate = cursor.read_u32_be();
                cfg.profile_name = Some(owned(format_object_type(object_type)));
                assert(cursor.pos == dc_header_end(data, p as int));
            }
            if cursor.pos > body_end {
                return Err(ParseError::Malformed { offset: p as u64 });
            }
            let mut inner = Cursor { data: vstd::slice::slice_subrange(cursor.data, cursor.pos, body_end), pos: 0 };
            walk(&mut inner, cfg, object_type_out, decoder_specific_len_out, decoder_specific_data_out)?;
            cursor.pos = body_end;
        } else if tag == TAG_DEC_SPECIFIC_INFO {
            let bytes = match cursor.slice(len) {
                Some(b) => b,
                None => return Err(ParseError::Malformed { offset: p as u64 }),
            };
            *decoder_specific_len_out = Some(len);
            *decoder_specific_data_out = Some(vstd::slice::slice_to_vec(bytes));
            cursor.pos = body_end;
        } else {
            cursor.pos = body_end;
        }
    }
}

/// `objectTypeIndication` values of AAC (MPEG-4 audio and the MPEG-2 AAC
/// profiles).
pub open spec fn aac_object_type(object_type: u8) -> bool {
    object_type == 0x40 || object_type == 0x66 || object_type == 0x67 || object_type == 0x68
}

/// `true` for the AAC object types.
pub fn is_aac_object_type(object_type: u8) -> (r: bool)
    ensures
        r == aac_object_type(object_type),
{
    object_type == 0x40 || object_type == 0x66 || object_type == 0x67 || object_type == 0x68
}

/// Name of an MPEG-4 `objectTypeIndication`.
pub fn format_object_type(idc: u8) -> (s: &'static str)
    ensures
        s@ == object_type_name(idc),
{
    if idc == 0x40 {
        "AAC"
    } else if idc == 0x41 {
        "AAC main"
    } else if idc == 0x6B {
        "MP3 (MPEG-1 Layer III)"
    } else if idc == 0x69 {
        "MP3 (MPEG-2 Layer III)"
    } else if idc == 0x67 {
        "MPEG-2 AAC"
    } else if idc == 0xA5 {
        "AC-3"
    } else if idc == 0xA6 {
        "E-AC-3"
    } else if idc == 0xA9 {
        "DTS"
    } else if idc == 0xDD {
        "Vorbis"
    } else {
        "Unknown"
    }
}

/// No findings.
pub open spec fn no_fields() -> EsdsFields {
    EsdsFields { profile: None, object_type: None, ds_len: None, ds_data: None }
}

/// The audio configuration an `esds` payload `pl` leaves, given the walk's
/// findings `st`: the payload in hex and the object type's name.
pub open spec fn esds_config(c: AudioCodecConfig, pl: Seq<u8>, st: EsdsFields) -> bool {
    &&& c.raw_hex matches Some(h) && h@ == hex_chars(pl)
    &&& c.aac_object_type is None
    &&& match c.profile_name {
        Some(s) => st.profile == Some(s@),
        None => st.profile is None,
    }
}

/// The walk found an AAC object type.
pub open spec fn found_aac(st: EsdsFields) -> bool {
    st.object_type matches Some(t) && aac_object_type(t)
}

/// `n` is `o` after an `esds` payload `pl` whose walk found `st`. The
/// payload and the object type are recorded. For an object type other than
/// AAC the audio configuration and the DecoderSpecificInfo are the walk's
/// findings and the audio properties are unchanged. For an AAC object type
/// those are what decoding the AudioSpecificConfig (see
/// [`aac_config_bytes`]) gives, which is not stated here.
pub open spec fn esds_applied(o: TrackBuilder, n: TrackBuilder, pl: Seq<u8>, st: EsdsFields) -> bool {
    &&& n == (TrackBuilder {
        audio: n.audio,
        audio_codec_config: n.audio_codec_config,
        esds_object_type: n.esds_object_type,
        esds_decoder_specific_len: n.esds_decoder_specific_len,
        esds_decoder_specific_data: n.esds_decoder_specific_data,
        codec_private_hex: n.codec_private_hex,
        ..o
    })
    &&& n.codec_private_hex matches Some(h) && h@ == hex_chars(pl)
    &&& n.esds_object_type == st.object_type
    &&& !found_aac(st) ==> {
        &&& n.audio == o.audio
        &&& n.audio_codec_config matches Some(c) && esds_config(c, pl, st)
        &&& fields_of(None, None, n.esds_decoder_specific_len, n.esds_decoder_specific_data)
            == (EsdsFields { profile: None, object_type: None, ..st })
    }
}

/// AudioSpecificConfig sampling frequency index of a rate: 0 for a zero
/// rate, else the first index (rates 96000, 88200, 64000, 48000, 44100,
/// 32000, 24000, 22050, 16000, 12000, 11025, 8000, 7350) whose rate less
/// 1000 the rate reaches, else 0.
pub open spec fn sampling_frequency_index(rate: u32) -> u8 {
    if rate == 0 { 0 }
    else if rate >= 95000 { 0 }
    else if rate >= 87200 { 1 }
    else if rate >= 63000 { 2 }
    else if rate >= 47000 { 3 }
    else if rate >= 43100 { 4 }
    else if rate >= 31000 { 5 }
    else if rate >= 23000 { 6 }
    else if rate >= 21050 { 7 }
    else if rate >= 15000 { 8 }
    else if rate >= 11000 { 9 }
    else if rate >= 10025 { 10 }
    else if rate >= 7000 { 11 }
    else if rate >= 6350 { 12 }
    else { 0 }
}

/// AudioSpecificConfig channel configuration of a channel count: the first
/// position of the count in (0, 1, 2, 3, 4, 5, 6, 8, 0, 3, 4, 7, 8, 24, 8,
/// 12, 10, 12, 14, 12, 14), 0 when it is not there.
pub open spec fn channel_configuration(channels: u32) -> u8 {
    if channels <= 6 { channels as u8 }
    else if channels == 8 { 7 }
    else if channels == 7 { 11 }
    else if channels == 24 { 13 }
    else if channels == 12 { 15 }
    else if channels == 10 { 16 }
    else if channels == 14 { 18 }
    else { 0 }
}

/// The two bytes of the AudioSpecificConfig written when an AAC `esds` has
/// none: object type 1 (AAC Main) in 5 bits, the sampling frequency index
/// in 4, the channel configuration's low 4 bits, zero padding.
pub open spec fn default_asc(rate: u32, channels: u32) -> Seq<u8> {
    let idx = sampling_frequency_index(rate) as int;
    let cc = channel_configuration(channels) as int;
    seq![(8 + idx / 2) as u8, ((idx % 2) * 128 + (cc % 16) * 8) as u8]
}

/// The sampling frequency index of a rate (see [`sampling_frequency_index`]).
pub fn frequency_index(rate: u32) -> (r: u8)
    ensures
        r == sampling_frequency_index(rate),
{
    if rate == 0 { 0 }
    else if rate >= 95000 { 0 }
    else if rate >= 87200 { 1 }
    else if rate >= 63000 { 2 }
    else if rate >= 47000 { 3 }
    else if rate >= 43100 { 4 }
    else if rate >= 31000 { 5 }
    else if rate >= 23000 { 6 }
    else if rate >= 21050 { 7 }
    else if rate >= 15000 { 8 }
    else if rate >= 11000 { 9 }
    else if rate >= 10025 { 10 }
    else if rate >= 7000 { 11 }
    else if rate >= 6350 { 12 }
    else { 0 }
}

/// The channel configuration of a channel count (see
/// [`channel_configuration`]).
pub fn channel_config(channels: u32) -> (r: u8)
    ensures
        r == channel_configuration(channels),
{
    if channels <= 6 { channels as u8 }
    else if channels == 8 { 7 }
    else if channels == 7 { 11 }
    else if channels == 24 { 13 }
    else if channels == 12 { 15 }
    else if channels == 10 { 16 }
    else if channels == 14 { 18 }
    else { 0 }
}

/// The default AudioSpecificConfig for a rate and channel count (see
/// [`default_asc`]).
pub fn default_audio_specific_config(rate: u32, channels: u32) -> (r: Vec<u8>)
    ensures
        r@ == default_asc(rate, channels),
{
    let idx = frequency_index(rate);
    let cc = channel_config(channels);
    let b0: u8 = 8 + idx / 2;
    let b1: u8 = (idx % 2) * 128 + (cc % 16) * 8;
    let r = vec![b0, b1];
    assert(r@ =~= default_asc(rate, channels));
    r
}

/// The AudioSpecificConfig an AAC `esds` is decoded from: its
/// DecoderSpecificInfo when that holds at least two bytes, else the default
/// one for the track's rate (in Hz, rounded) and channel count.
pub open spec fn aac_asc(ds: Option<Seq<u8>>, rate: u32, channels: u32) -> Seq<u8> {
    match ds {
        Some(d) => if d.len() >= 2 { d } else { default_asc(rate, channels) },
        None => default_asc(rate, channels),
    }
}

/// The AudioSpecificConfig an AAC `esds` is decoded from (see [`aac_asc`]).
pub fn aac_config_bytes(ds: &Option<Vec<u8>>, rate: u32, channels: u32) -> (r: Vec<u8>)
    ensures
        r@ == aac_asc(
            match ds {
                Some(d) => Some(d@),
                None => None,
            },
            rate,
            channels,
        ),
{
    match ds {
        Some(d) => if d.len() >= 2 {
            let mut out: Vec<u8> = Vec::new();
            let mut i: usize = 0;
            while i < d.len()
                invariant
                    i <= d@.len(),
                    out@ == d@.subrange(0, i as int),
                decreases d@.len() - i,
            {
                out.push(d[i]);
                i = i + 1;
                assert(out@ =~= d@.subrange(0, i as int));
            }
            assert(d@.subrange(0, i as int) =~= d@);
            out
        } else {
            default_audio_specific_config(rate, channels)
        },
        None => default_audio_specific_config(rate, channels),
    }
}

/// What parsing the `esds` payload `pl` gives.
pub open spec fn esds_outcome(o: TrackBuilder, n: TrackBuilder, r: Result<(), ParseError>, pl: Seq<u8>) -> bool {
    if pl.len() < 4 {
        r is Ok && n == o
    } else {
        match walk_desc(pl.subrange(4, pl.len() as int), 0, no_fields()) {
            Err(e) => r == Err::<(), ParseError>(e) && n == o,
            Ok(st) => r is Ok && esds_applied(o, n, pl, st),
        }
    }
}

/// Parse an `esds` box with no caller cap.
pub fn parse(src: &mut FileSource, header: &BoxHeader, builder: &mut TrackBuilder) -> (r: Result<(), ParseError>)
    ensures
        final(src).bytes() == old(src).bytes(),
        match payload_read(old(src).bytes(), old(src).pos(), header@, u64::MAX) {
            Err(e) => r == Err::<(), ParseError>(e) && *final(builder) == *old(builder),
            Ok(pl) => esds_outcome(*old(builder), *final(builder), r, pl),
        },
{
    parse_with_cap(src, header, builder, u64::MAX)
}

/// Parse an `esds` box at the cursor, its payload refused above
/// `payload_cap`.  A payload under 4 bytes changes nothing.
pub fn parse_with_cap(src: &mut FileSource, header: &BoxHeader, builder: &mut TrackBuilder, payload_cap: u64) -> (r: Result<(), ParseError>)
    ensures
        final(src).bytes() == old(src).bytes(),
        match payload_read(old(src).bytes(), old(src).pos(), header@, payload_cap) {
            Err(e) => r == Err::<(), ParseError>(e) && *final(builder) == *old(builder),
            Ok(pl) => esds_outcome(*old(builder), *final(builder), r, pl),
        },
{
    let payload = read_payload(src, header, payload_cap)?;
    let pl = payload.as_slice();
    if pl.len() < 4 {
        return Ok(());
    }
    let body = vstd::slice::slice_subrange(pl, 4, pl.len());
    let mut cursor = Cursor { data: body, pos: 0 };
    let mut cfg = AudioCodecConfig::default();
    cfg.raw_hex = Some(hex_encode(pl));
    let mut object_type: Option<u8> = None;
    let mut decoder_specific_len: Option<usize> = None;
    let mut decoder_specific_data: Option<Vec<u8>> = None;
    walk(&mut cursor, &mut cfg, &mut object_type, &mut decoder_specific_len, &mut decoder_specific_data)?;
    builder.audio_codec_config = Some(cfg);
    builder.esds_object_type = object_type;
    builder.esds_decoder_specific_len = decoder_specific_len;
    builder.esds_decoder_specific_data = decoder_specific_data;
    builder.codec_private_hex = Some(hex_encode(pl));
    Ok(())
}

/// `128` to the power `k`, for `k <= 4`.
pub open spec fn pow128(k: nat) -> int {
    if k == 0 {
        1
    } else if k == 1 {
        128
    } else if k == 2 {
        16384
    } else if k == 3 {
        2097152
    } else {
        268435456
    }
}

/// Object type names, entry by entry (0x40 AAC, 0x41 AAC main, 0x6B MP3
/// (MPEG-1 Layer III), 0x69 MP3 (MPEG-2 Layer III), 0x67 MPEG-2 AAC, 0xA5
/// AC-3, 0xA6 E-AC-3, 0xA9 DTS, 0xDD Vorbis, any other Unknown). Each
/// sampling rate of the AudioSpecificConfig table gets the first index
/// whose rate less 1000 Hz it reaches (so 96000 is 0 and 44100 is 4, but
/// 11025 falls to 9 and 7350 to 11), and a rate of 0 or below every entry
/// gets 0; each channel count gets its configuration (1 to 6
/// themselves, 8 seven, 7 eleven; others 0 but for 24, 12, 10, 14).
pub proof fn law_esds_tables(idc: u8, ch: u32)
    ensures
        idc == 0x40 ==> object_type_name(idc) == "AAC"@,
        idc == 0x41 ==> object_type_name(idc) == "AAC main"@,
        idc == 0x6B ==> object_type_name(idc) == "MP3 (MPEG-1 Layer III)"@,
        idc == 0x69 ==> object_type_name(idc) == "MP3 (MPEG-2 Layer III)"@,
        idc == 0x67 ==> object_type_name(idc) == "MPEG-2 AAC"@,
        idc == 0xA5 ==> object_type_name(idc) == "AC-3"@,
        idc == 0xA6 ==> object_type_name(idc) == "E-AC-3"@,
        idc == 0xA9 ==> object_type_name(idc) == "DTS"@,
        idc == 0xDD ==> object_type_name(idc) == "Vorbis"@,
        !(idc == 0x40 || idc == 0x41 || idc == 0x6B || idc == 0x69 || idc == 0x67 || idc == 0xA5 || idc == 0xA6
            || idc == 0xA9 || idc == 0xDD) ==> object_type_name(idc) == "Unknown"@,
        sampling_frequency_index(96000) == 0 && sampling_frequency_index(88200) == 1
            && sampling_frequency_index(64000) == 2 && sampling_frequency_index(48000) == 3
            && sampling_frequency_index(44100) == 4 && sampling_frequency_index(32000) == 5
            && sampling_frequency_index(24000) == 6 && sampling_frequency_index(22050) == 7
            && sampling_frequency_index(16000) == 8 && sampling_frequency_index(12000) == 9
            && sampling_frequency_index(11025) == 9 && sampling_frequency_index(8000) == 11
            && sampling_frequency_index(7350) == 11 && sampling_frequency_index(0) == 0
            && sampling_frequency_index(1) == 0,
        1 <= ch <= 6 ==> channel_configuration(ch) == ch,
        ch == 8 ==> channel_configuration(ch) == 7,
        ch == 7 ==> channel_configuration(ch) == 11,
        ch == 24 ==> channel_configuration(ch) == 13,
        ch == 12 ==> channel_configuration(ch) == 15,
        ch == 10 ==> channel_configuration(ch) == 16,
        ch == 14 ==> channel_configuration(ch) == 18,
        !(ch <= 8 || ch == 10 || ch == 12 || ch == 14 || ch == 24) ==> channel_configuration(ch) == 0,
{
}

} // verus!
