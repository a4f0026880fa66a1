//! DVB service descriptor.  Body: service type (1 byte), provider name
//! length (1), provider name, service name length (1), service name.  A
//! DVB string may start with a character-table byte (0x01 to 0x1F), which
//! is dropped; the rest is read as UTF-8, or byte for byte as Latin-1 when
//! it is not valid UTF-8.

use vstd::prelude::*;
use crate::text::{latin1_chars, latin1_string, utf8_decoded, utf8_strict};

verus! {

/// The text bytes of a DVB string: without its character-table byte.
pub open spec fn dvb_payload(bytes: Seq<u8>) -> Seq<u8> {
    if bytes.len() > 0 && 0x01 <= bytes[0] <= 0x1F {
        bytes.subrange(1, bytes.len() as int)
    } else {
        bytes
    }
}

/// The text of DVB string bytes `payload` given what strict UTF-8
/// decoding made of them: that text, or each byte as a character.
pub open spec fn dvb_text(payload: Seq<u8>, decoded: Option<Seq<char>>) -> Seq<char> {
    match decoded {
        Some(t) => t,
        None => latin1_chars(payload),
    }
}

/// The text of a DVB string.
pub open spec fn dvb_string_chars(bytes: Seq<u8>) -> Seq<char> {
    if bytes.len() == 0 {
        Seq::empty()
    } else {
        dvb_text(dvb_payload(bytes), utf8_decoded(dvb_payload(bytes)))
    }
}

/// The text of DVB string bytes `payload` from the outcome of strict UTF-8
/// decoding (see [`dvb_text`]).
pub fn dvb_text_from(payload: &[u8], decoded: Option<String>) -> (s: String)
    ensures
        s@ == dvb_text(payload@, match decoded { Some(t) => Some(t@), None => None }),
{
    match decoded {
        Some(t) => t,
        None => latin1_string(payload),
    }
}

/// Decode a DVB string (see [`dvb_string_chars`]).
pub fn decode_dvb_string(bytes: &[u8]) -> (s: String)
    ensures
        s@ == dvb_string_chars(bytes@),
{
    if bytes.len() == 0 {
        return String::new();
    }
    let payload = if 0x01 <= bytes[0] && bytes[0] <= 0x1F {
        vstd::slice::slice_subrange(bytes, 1, bytes.len())
    } else {
        bytes
    };
    assert(payload@ == dvb_payload(bytes@));
    let decoded = utf8_strict(payload);
    dvb_text_from(payload, decoded)
}

/// Where the service name of a body lies, as start and end: `None` when
/// the body is under two bytes, the provider name leaves no room for the
/// name length, or the name runs past the body.
pub open spec fn service_name_range(body: Seq<u8>) -> Option<(int, int)> {
    if body.len() < 2 {
        None
    } else if 2 + body[1] >= body.len() {
        None
    } else {
        let start = 2 + body[1] + 1;
        let end = start + body[2 + body[1]];
        if end > body.len() {
            None
        } else {
            Some((start, end))
        }
    }
}

/// The service name of a service descriptor body, decoded as a DVB string.
pub fn decode(body: &[u8]) -> (r: Option<String>)
    ensures
        match service_name_range(body@) {
            None => r is None,
            Some((start, end)) => r matches Some(s) && s@ == dvb_string_chars(body@.subrange(start, end)),
        },
{
    if body.len() < 2 {
        return None;
    }
    let provider_len = body[1] as usize;
    let after_provider = 2 + provider_len;
    if after_provider >= body.len() {
        return None;
    }
    let service_name_len = body[after_provider] as usize;
    let name_start = after_provider + 1;
    let name_end = name_start + service_name_len;
    if name_end > body.len() {
        return None;
    }
    let raw = vstd::slice::slice_subrange(body, name_start, name_end);
    Some(decode_dvb_string(raw))
}

/// The provider and service names of a service descriptor body, decoded
/// as DVB strings: `None` where [`service_name_range`] finds no name.
pub open spec fn service_full(body: Seq<u8>) -> Option<(Seq<char>, Seq<char>)> {
    match service_name_range(body) {
        None => None,
        Some((start, end)) => Some((
            dvb_string_chars(body.subrange(2, 2 + body[1])),
            dvb_string_chars(body.subrange(start, end)),
        )),
    }
}

/// Decode the provider and service names of a service descriptor body (see
/// [`service_full`]).
pub fn decode_full(body: &[u8]) -> (r: Option<(String, String)>)
    ensures
        match service_full(body@) {
            None => r is None,
            Some((p, n)) => r matches Some((a, b)) && a@ == p && b@ == n,
        },
{
    if body.len() < 2 {
        return None;
    }
    let provider_len = body[1] as usize;
    let after_provider = 2 + provider_len;
    if after_provider >= body.len() {
        return None;
    }
    let service_name_len = body[after_provider] as usize;
    let name_start = after_provider + 1;
    let name_end = name_start + service_name_len;
    if name_end > body.len() {
        return None;
    }
    let provider = decode_dvb_string(vstd::slice::slice_subrange(body, 2, after_provider));
    let name = decode_dvb_string(vstd::slice::slice_subrange(body, name_start, name_end));
    Some((provider, name))
}

} // verus!
