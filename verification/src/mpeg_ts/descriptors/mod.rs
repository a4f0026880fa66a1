//! Program Map Table descriptors: each is a tag byte, a length byte and
//! that many body bytes.  The sub-modules decode the bodies of the tags
//! below; this module holds what they share.

use vstd::prelude::*;
use vstd::string::StrSliceExecFns;
use crate::text::{utf8_lossy, utf8_lossy_chars, trim_to_string, trimmed_chars, push_char};
use self::dovi::{DoviDescriptor, dovi_decode};
use self::registration::{RegistrationDescriptor, registration_decode, registration_view};
use self::subtitling::{SubtitlingEntry, subtitling_entries, subtitling_view};
use self::teletext::{TeletextEntry, teletext_entries, teletext_view};

pub mod ac3;
pub mod dovi;
pub mod registration;
pub mod service;
pub mod subtitling;
pub mod teletext;

verus! {

/// ISO 639 language descriptor tag.
pub const TAG_ISO_639_LANGUAGE: u8 = 0x0A;
/// Teletext descriptor tag.
pub const TAG_TELETEXT: u8 = 0x56;
/// AC-3 descriptor tag.
pub const TAG_AC3: u8 = 0x6A;
/// DTS descriptor tag.
pub const TAG_DTS: u8 = 0x7B;
/// Enhanced AC-3 descriptor tag.
pub const TAG_EAC3: u8 = 0x7A;
/// DVB service descriptor tag.
pub const TAG_SERVICE: u8 = 0x48;
/// HEVC video descriptor tag.
pub const TAG_HEVC: u8 = 0x38;
/// Dolby Vision descriptor tag.
pub const TAG_DOVI: u8 = 0xB0;
/// Registration descriptor tag.
pub const TAG_REGISTRATION: u8 = 0x05;
/// DVB subtitling descriptor tag.
pub const TAG_SUBTITLING: u8 = 0x59;

/// `s` without the NUL characters at its end.
pub open spec fn without_trailing_nul(s: Seq<char>) -> Seq<char>
    decreases s.len(),
{
    if s.len() > 0 && s.last() == '\0' {
        without_trailing_nul(s.drop_last())
    } else {
        s
    }
}

/// The language code of a descriptor entry: its three bytes decoded as
/// UTF-8 (invalid sequences replaced), trailing NULs dropped, then white
/// space trimmed from both ends.
pub open spec fn entry_language_chars(bytes: Seq<u8>) -> Seq<char> {
    trimmed_chars(without_trailing_nul(utf8_lossy_chars(bytes)))
}

/// Decodes the language bytes of a descriptor entry as
/// [`entry_language_chars`] says.
pub fn entry_language(bytes: &[u8]) -> (s: String)
    ensures
        s@ == entry_language_chars(bytes@),
{
    let decoded = utf8_lossy(bytes);
    let text = decoded.as_str();
    let mut k: usize = text.unicode_len();
    assert(text@.subrange(0, k as int) =~= text@);
    while k > 0 && text.get_char(k - 1) == '\0'
        invariant
            k <= text@.len(),
            without_trailing_nul(text@) == without_trailing_nul(text@.subrange(0, k as int)),
        decreases k,
    {
        proof {
            let t = text@.subrange(0, k as int);
            assert(t.drop_last() =~= text@.subrange(0, k - 1));
        }
        k = k - 1;
    }
    proof {
        let t = text@.subrange(0, k as int);
        assert(without_trailing_nul(t) == t);
        assert(text@.subrange(0, text@.len() as int) =~= text@);
    }
    let kept = text.substring_char(0, k);
    trim_to_string(kept)
}

/// The language of an ISO 639 language descriptor: its first three bytes
/// when all are ASCII letters, lowered; `None` under three bytes or with
/// another byte among them.
pub open spec fn iso_language(body: Seq<u8>) -> Option<Seq<char>> {
    if body.len() >= 3 && (forall|i: int| 0 <= i < 3 ==> ascii_letter(#[trigger] body[i])) {
        Some(Seq::new(3, |i: int| lower_letter(body[i])))
    } else {
        None
    }
}

/// An ASCII letter.
pub open spec fn ascii_letter(b: u8) -> bool {
    (0x41 <= b && b <= 0x5A) || (0x61 <= b && b <= 0x7A)
}

/// An ASCII letter as a small letter.
pub open spec fn lower_letter(b: u8) -> char {
    if 0x41 <= b && b <= 0x5A { ((b + 32) as u8) as char } else { b as char }
}

/// Decode an ISO 639 language descriptor body as [`iso_language`] says.
pub fn decode_iso_language(body: &[u8]) -> (r: Option<String>)
    ensures
        match r {
            Some(s) => iso_language(body@) == Some(s@),
            None => iso_language(body@) is None,
        },
{
    if body.len() < 3 {
        return None;
    }
    let mut i: usize = 0;
    while i < 3
        invariant
            i <= 3,
            body@.len() >= 3,
            forall|j: int| 0 <= j < i ==> ascii_letter(#[trigger] body@[j]),
        decreases 3 - i,
    {
        let b = body[i];
        if !((0x41 <= b && b <= 0x5A) || (0x61 <= b && b <= 0x7A)) {
            assert(!ascii_letter(body@[i as int]));
            return None;
        }
        i = i + 1;
    }
    let mut out = String::new();
    let mut k: usize = 0;
    while k < 3
        invariant
            k <= 3,
            body@.len() >= 3,
            forall|j: int| 0 <= j < 3 ==> ascii_letter(#[trigger] body@[j]),
            out@ == Seq::new(k as nat, |j: int| lower_letter(body@[j])),
        decreases 3 - k,
    {
        let b = body[k];
        let c: char = if 0x41 <= b && b <= 0x5A { ((b + 32) as u8) as char } else { b as char };
        push_char(&mut out, c);
        k = k + 1;
        assert(out@ =~= Seq::new(k as nat, |j: int| lower_letter(body@[j])));
    }
    Some(out)
}

/// What the descriptors of a stream say, as values.
pub struct SummaryView {
    pub language: Option<Seq<char>>,
    pub teletext_page: Option<u32>,
    pub is_ac3: bool,
    pub is_eac3: bool,
    pub is_dts: bool,
    pub registration: Option<(Seq<char>, Option<u8>)>,
    pub subtitling: Seq<(Seq<char>, u8, u16, u16)>,
    pub teletext: Seq<(Seq<char>, u8, u32)>,
    pub dovi: Option<DoviDescriptor>,
    /// A descriptor other than the ISO 639 language one was seen.
    pub disambiguating: bool,
}

/// Nothing found yet.
pub open spec fn empty_summary() -> SummaryView {
    SummaryView {
        language: None,
        teletext_page: None,
        is_ac3: false,
        is_eac3: false,
        is_dts: false,
        registration: None,
        subtitling: Seq::empty(),
        teletext: Seq::empty(),
        dovi: None,
        disambiguating: false,
    }
}

/// `f` after one descriptor: a language, a teletext page, a registration
/// or a Dolby Vision descriptor that decodes replaces the earlier one; the
/// AC-3, E-AC-3 and DTS descriptors mark the stream; a teletext or DVB
/// subtitling descriptor's entries replace the earlier ones; every
/// descriptor but the language one is disambiguating.
pub open spec fn apply_descriptor(f: SummaryView, tag: u8, body: Seq<u8>) -> SummaryView {
    let g = SummaryView { disambiguating: f.disambiguating || tag != TAG_ISO_639_LANGUAGE, ..f };
    if tag == TAG_ISO_639_LANGUAGE {
        match iso_language(body) {
            Some(l) => SummaryView { language: Some(l), ..g },
            None => g,
        }
    } else if tag == TAG_TELETEXT {
        let entries = teletext_entries(body);
        SummaryView {
            teletext_page: if entries.len() > 0 { Some(entries[0].2) } else { g.teletext_page },
            teletext: entries,
            ..g
        }
    } else if tag == TAG_AC3 {
        SummaryView { is_ac3: true, ..g }
    } else if tag == TAG_EAC3 {
        SummaryView { is_eac3: true, ..g }
    } else if tag == TAG_DTS {
        SummaryView { is_dts: true, ..g }
    } else if tag == TAG_REGISTRATION {
        match registration_decode(body) {
            Some(r) => SummaryView { registration: Some(r), ..g },
            None => g,
        }
    } else if tag == TAG_SUBTITLING {
        SummaryView { subtitling: subtitling_entries(body), ..g }
    } else if tag == TAG_DOVI {
        match dovi_decode(body) {
            Some(d) => SummaryView { dovi: Some(d), ..g },
            None => g,
        }
    } else {
        g
    }
}

/// The summary of the descriptors from `pos` on: each is a tag byte, a
/// length byte and that many bytes; the walk stops at a descriptor that
/// does not fit.
pub open spec fn summary_from(d: Seq<u8>, pos: int, f: SummaryView) -> SummaryView
    decreases d.len() - pos,
{
    if pos < 0 || pos + 2 > d.len() {
        f
    } else {
        let end = pos + 2 + d[pos + 1];
        if end > d.len() {
            f
        } else {
            summary_from(d, end, apply_descriptor(f, d[pos], d.subrange(pos + 2, end)))
        }
    }
}

/// What the descriptors of a stream say.
pub struct DescriptorSummary {
    pub language_iso_639_2: Option<String>,
    pub teletext_page: Option<u32>,
    pub is_ac3: bool,
    pub is_eac3: bool,
    pub is_dts: bool,
    pub registration: Option<RegistrationDescriptor>,
    pub subtitling_entries: Vec<SubtitlingEntry>,
    pub teletext_entries: Vec<TeletextEntry>,
    pub dovi: Option<DoviDescriptor>,
    /// A descriptor other than the ISO 639 language one was seen.
    pub has_disambiguating_tag: bool,
}

/// A summary as values.
pub open spec fn summary_view(s: DescriptorSummary) -> SummaryView {
    SummaryView {
        language: match s.language_iso_639_2 {
            Some(l) => Some(l@),
            None => None,
        },
        teletext_page: s.teletext_page,
        is_ac3: s.is_ac3,
        is_eac3: s.is_eac3,
        is_dts: s.is_dts,
        registration: registration_view(s.registration),
        subtitling: s.subtitling_entries@.map_values(|e: SubtitlingEntry| subtitling_view(e)),
        teletext: s.teletext_entries@.map_values(|e: TeletextEntry| teletext_view(e)),
        dovi: s.dovi,
        disambiguating: s.has_disambiguating_tag,
    }
}

fn apply(s: &mut DescriptorSummary, tag: u8, body: &[u8])
    ensures
        summary_view(*final(s)) == apply_descriptor(summary_view(*old(s)), tag, body@),
{
    if tag != TAG_ISO_639_LANGUAGE {
        s.has_disambiguating_tag = true;
    }
    if tag == TAG_ISO_639_LANGUAGE {
        if let Some(l) = decode_iso_language(body) {
            s.language_iso_639_2 = Some(l);
        }
    } else if tag == TAG_TELETEXT {
        let entries = teletext::decode_all(body);
        if entries.len() > 0 {
            s.teletext_page = Some(entries[0].page);
        }
        s.teletext_entries = entries;
    } else if tag == TAG_AC3 {
        s.is_ac3 = true;
    } else if tag == TAG_EAC3 {
        s.is_eac3 = true;
    } else if tag == TAG_DTS {
        s.is_dts = true;
    } else if tag == TAG_REGISTRATION {
        let r = registration::decode(body);
        if r.is_some() {
            s.registration = r;
        }
    } else if tag == TAG_SUBTITLING {
        s.subtitling_entries = subtitling::decode_all(body);
    } else if tag == TAG_DOVI {
        let d = dovi::decode(body);
        if d.is_some() {
            s.dovi = d;
        }
    }
    assert(summary_view(*s).subtitling =~= apply_descriptor(summary_view(*old(s)), tag, body@).subtitling);
    assert(summary_view(*s).teletext =~= apply_descriptor(summary_view(*old(s)), tag, body@).teletext);
}

/// Walk a stream's descriptor list (see [`summary_from`]).
pub fn walk(descriptors: &[u8]) -> (r: DescriptorSummary)
    ensures
        summary_view(r) == summary_from(descriptors@, 0, empty_summary()),
{
    let mut s = DescriptorSummary {
        language_iso_639_2: None,
        teletext_page: None,
        is_ac3: false,
        is_eac3: false,
        is_dts: false,
        registration: None,
        subtitling_entries: Vec::new(),
        teletext_entries: Vec::new(),
        dovi: None,
        has_disambiguating_tag: false,
    };
    assert(summary_view(s).subtitling =~= empty_summary().subtitling);
    assert(summary_view(s).teletext =~= empty_summary().teletext);
    let mut pos: usize = 0;
    let n = descriptors.len();
    while pos < n && n - pos >= 2
        invariant_except_break
            summary_from(descriptors@, 0, empty_summary()) == summary_from(descriptors@, pos as int, summary_view(s)),
        invariant
            n == descriptors@.len(),
            pos <= n,
        ensures
            summary_from(descriptors@, 0, empty_summary()) == summary_view(s),
        decreases n - pos,
    {
        let len = descriptors[pos + 1] as usize;
        if n - pos - 2 < len {
            break;
        }
        let end = pos + 2 + len;
        let tag = descriptors[pos];
        apply(&mut s, tag, vstd::slice::slice_subrange(descriptors, pos + 2, end));
        pos = end;
    }
    s
}

} // verus!
