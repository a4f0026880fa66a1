//! The rows of the per-PID stream registry, one per track a Program Map
//! Table entry gives, and the canonical codec ids of transport stream
//! `stream_type` values.
//!
//! The rows of an entry: a private stream (`stream_type` 0x06) takes its
//! codec from a registration descriptor, then from an AC-3, E-AC-3 or DTS
//! descriptor; a DVB subtitling descriptor gives one row per language; a
//! teletext descriptor one row per subtitle page (a stream whose pages are
//! all of other types is of unknown kind); a private stream with no
//! descriptor but a language one is AC-3. A TrueHD stream (0x83) gets a
//! coupled AC-3 row on the same PID. The name and kind of a `stream_type`
//! come from the stream-type catalogue, which the caller looks up.

use vstd::prelude::*;
use crate::codec::{TrackKind, CodecView};
use crate::text::{owned, push_char};
use crate::mpeg_ts::pmt::PmtStreamEntry;
use crate::mpeg_ts::identify::clone_opt_string;
use crate::mpeg_ts::descriptors::{self, SummaryView, summary_from, empty_summary, summary_view};
use crate::mpeg_ts::descriptors::registration::{self, hdmv_codec_of, fourcc_codec, entry_view};
use crate::mpeg_ts::descriptors::subtitling::{SubtitlingEntry, subtitling_view};
use crate::mpeg_ts::descriptors::teletext::{TeletextEntry, teletext_view};

verus! {

/// One stream of the registry.
#[derive(Debug, Clone)]
pub struct StreamRow {
    pub pid: u16,
    pub stream_type: u8,
    pub program_number: u16,
    pub language: Option<String>,
    pub teletext_page: Option<u32>,
    pub service_name: Option<String>,
    pub codec_id: String,
    pub codec_name: String,
    pub track_kind: TrackKind,
    /// Codec private data of a DVB subtitle stream.
    pub codec_private: Option<Vec<u8>>,
    /// For a teletext subtitle page, whether it is for the hearing impaired.
    pub hearing_impaired: Option<bool>,
    /// Dolby Vision profile from the stream's Dolby Vision descriptor.
    pub dovi_profile: Option<u32>,
    /// PID of the Dolby Vision base layer, when the descriptor names one.
    pub dovi_base_layer_pid: Option<u16>,
}

/// The Matroska-style codec id of a `stream_type`, for the types that
/// have one.
pub open spec fn stream_type_codec_id(st: u8) -> Option<Seq<char>> {
    if st == 0x01 {
        Some("V_MPEG1"@)
    } else if st == 0x02 {
        Some("V_MPEG2"@)
    } else if st == 0x03 || st == 0x04 {
        Some("A_MPEG/L3"@)
    } else if st == 0x06 {
        Some("S_TX"@)
    } else if st == 0x0F || st == 0x11 {
        Some("A_AAC"@)
    } else if st == 0x10 {
        Some("V_MPEG4/ISO/ASP"@)
    } else if st == 0x1B {
        Some("V_MPEG4/ISO/AVC"@)
    } else if st == 0x24 {
        Some("V_MPEGH/ISO/HEVC"@)
    } else if st == 0xEA {
        Some("V_VC1"@)
    } else if st == 0x80 {
        Some("A_PCM"@)
    } else if st == 0x81 || st == 0xA1 {
        Some("A_AC3"@)
    } else if st == 0x82 || st == 0x85 || st == 0x86 || st == 0xA2 {
        Some("A_DTS"@)
    } else if st == 0x83 {
        Some("A_TRUEHD"@)
    } else if st == 0x84 || st == 0x87 {
        Some("A_EAC3"@)
    } else if st == 0x90 {
        Some("S_HDMV/PGS"@)
    } else if st == 0x92 {
        Some("S_HDMV/TEXTST"@)
    } else {
        None
    }
}

/// The canonical codec id of a `stream_type` (see
/// [`stream_type_codec_id`]).
pub fn canonical_codec_id(stream_type: u8) -> (r: Option<&'static str>)
    ensures
        match r {
            Some(s) => stream_type_codec_id(stream_type) == Some(s@),
            None => stream_type_codec_id(stream_type) is None,
        },
{
    let st = stream_type;
    if st == 0x01 {
        Some("V_MPEG1")
    } else if st == 0x02 {
        Some("V_MPEG2")
    } else if st == 0x03 || st == 0x04 {
        Some("A_MPEG/L3")
    } else if st == 0x06 {
        Some("S_TX")
    } else if st == 0x0F || st == 0x11 {
        Some("A_AAC")
    } else if st == 0x10 {
        Some("V_MPEG4/ISO/ASP")
    } else if st == 0x1B {
        Some("V_MPEG4/ISO/AVC")
    } else if st == 0x24 {
        Some("V_MPEGH/ISO/HEVC")
    } else if st == 0xEA {
        Some("V_VC1")
    } else if st == 0x80 {
        Some("A_PCM")
    } else if st == 0x81 || st == 0xA1 {
        Some("A_AC3")
    } else if st == 0x82 || st == 0x85 || st == 0x86 || st == 0xA2 {
        Some("A_DTS")
    } else if st == 0x83 {
        Some("A_TRUEHD")
    } else if st == 0x84 || st == 0x87 {
        Some("A_EAC3")
    } else if st == 0x90 {
        Some("S_HDMV/PGS")
    } else if st == 0x92 {
        Some("S_HDMV/TEXTST")
    } else {
        None
    }
}

/// A row as values.
pub struct StreamRowView {
    pub pid: u16,
    pub stream_type: u8,
    pub program_number: u16,
    pub language: Option<Seq<char>>,
    pub teletext_page: Option<u32>,
    pub service_name: Option<Seq<char>>,
    pub codec_id: Seq<char>,
    pub codec_name: Seq<char>,
    pub track_kind: TrackKind,
    pub codec_private: Option<Seq<u8>>,
    pub hearing_impaired: Option<bool>,
    pub dovi_profile: Option<u32>,
    pub dovi_base_layer_pid: Option<u16>,
}

/// The values of a row.
pub open spec fn row_view(r: StreamRow) -> StreamRowView {
    StreamRowView {
        pid: r.pid,
        stream_type: r.stream_type,
        program_number: r.program_number,
        language: match r.language { Some(l) => Some(l@), None => None },
        teletext_page: r.teletext_page,
        service_name: match r.service_name { Some(l) => Some(l@), None => None },
        codec_id: r.codec_id@,
        codec_name: r.codec_name@,
        track_kind: r.track_kind,
        codec_private: match r.codec_private { Some(b) => Some(b@), None => None },
        hearing_impaired: r.hearing_impaired,
        dovi_profile: r.dovi_profile,
        dovi_base_layer_pid: r.dovi_base_layer_pid,
    }
}

/// An upper-case hexadecimal digit.
pub open spec fn hex_digit(v: int) -> char {
    if v < 10 { (48 + v) as char } else { (55 + v) as char }
}

/// `0x` and the two upper-case hexadecimal digits of a `stream_type`.
pub open spec fn hex_stream_type(st: u8) -> Seq<char> {
    seq!['0', 'x', hex_digit((st / 16) as int), hex_digit((st % 16) as int)]
}

/// The stream-type catalogue's name and kind as values.
pub open spec fn catalogue_view(c: Option<(&str, TrackKind)>) -> Option<(Seq<char>, TrackKind)> {
    match c {
        Some((n, k)) => Some((n@, k)),
        None => None,
    }
}

/// The codec a `stream_type` names: its canonical id, else `0x` and its
/// hexadecimal value; the catalogue's name and kind, else "Unknown".
pub open spec fn base_codec(st: u8, cat: Option<(Seq<char>, TrackKind)>) -> CodecView {
    CodecView {
        id: match stream_type_codec_id(st) {
            Some(i) => i,
            None => hex_stream_type(st),
        },
        name: match cat {
            Some((n, _)) => n,
            None => "Unknown"@,
        },
        kind: match cat {
            Some((_, k)) => k,
            None => TrackKind::Unknown,
        },
    }
}

/// `c` replaced by the codec a registration names: for "HDMV" the codec of
/// its stream coding type, else the codec of the format identifier; kept
/// when the registration names none.
pub open spec fn registered_codec(c: CodecView, reg: Option<(Seq<char>, Option<u8>)>) -> CodecView {
    match reg {
        None => c,
        Some((id, sct)) => if id == "HDMV"@ {
            match sct {
                Some(t) => match hdmv_codec_of(t) {
                    Some(h) => h,
                    None => c,
                },
                None => c,
            }
        } else {
            match fourcc_codec(id) {
                Some(h) => h,
                None => c,
            }
        },
    }
}

/// AC-3 audio.
pub open spec fn ac3_codec() -> CodecView {
    CodecView { kind: TrackKind::Audio, id: "A_AC3"@, name: "AC-3"@ }
}

/// The codec of a stream: for a private stream the registered one, then
/// AC-3, E-AC-3 or DTS when such a descriptor is present; unknown kind for
/// a private stream with teletext entries (reached only when none is a
/// subtitle page); AC-3 for a private stream of no known kind with no
/// descriptor but a language one.
pub open spec fn stream_codec(st: u8, s: SummaryView, cat: Option<(Seq<char>, TrackKind)>) -> CodecView {
    let b = base_codec(st, cat);
    let r = if st == 0x06 { registered_codec(b, s.registration) } else { b };
    let f = if st != 0x06 {
        r
    } else if s.is_ac3 {
        ac3_codec()
    } else if s.is_eac3 {
        CodecView { kind: TrackKind::Audio, id: "A_EAC3"@, name: "E-AC-3"@ }
    } else if s.is_dts {
        CodecView { kind: TrackKind::Audio, id: "A_DTS"@, name: "DTS"@ }
    } else {
        r
    };
    let t = if st == 0x06 && s.teletext.len() > 0 { CodecView { kind: TrackKind::Unknown, ..f } } else { f };
    if st == 0x06 && t.kind != TrackKind::Audio && t.kind != TrackKind::Video && t.kind != TrackKind::Subtitle
        && !s.disambiguating {
        ac3_codec()
    } else {
        t
    }
}

/// The teletext entries that are subtitle pages (types 2 and 5), in order.
pub open spec fn subtitle_pages(t: Seq<(Seq<char>, u8, u32)>) -> Seq<(Seq<char>, u8, u32)>
    decreases t.len(),
{
    if t.len() == 0 {
        Seq::empty()
    } else {
        let rest = subtitle_pages(t.drop_last());
        if t.last().1 == 2 || t.last().1 == 5 { rest.push(t.last()) } else { rest }
    }
}

/// The row of a DVB subtitling entry.
pub open spec fn dvbsub_row(pid: u16, st: u8, pn: u16, e: (Seq<char>, u8, u16, u16)) -> StreamRowView {
    StreamRowView {
        pid,
        stream_type: st,
        program_number: pn,
        language: Some(e.0),
        teletext_page: None,
        service_name: None,
        codec_id: "S_DVBSUB"@,
        codec_name: "DVB Subtitles"@,
        track_kind: TrackKind::Subtitle,
        codec_private: Some(seq![(e.2 / 256) as u8, (e.2 % 256) as u8, (e.3 / 256) as u8, (e.3 % 256) as u8, e.1]),
        hearing_impaired: None,
        dovi_profile: None,
        dovi_base_layer_pid: None,
    }
}

/// The row of a teletext subtitle page.
pub open spec fn teletext_row(pid: u16, st: u8, pn: u16, e: (Seq<char>, u8, u32)) -> StreamRowView {
    StreamRowView {
        pid,
        stream_type: st,
        program_number: pn,
        language: Some(e.0),
        teletext_page: Some(e.2),
        service_name: None,
        codec_id: "S_TELETEXT"@,
        codec_name: "DVB Teletext"@,
        track_kind: TrackKind::Subtitle,
        codec_private: None,
        hearing_impaired: Some(e.1 == 5),
        dovi_profile: None,
        dovi_base_layer_pid: None,
    }
}

/// The main row of a stream: its codec (see [`stream_codec`]), language
/// and teletext page, and for a video stream the Dolby Vision profile and
/// base-layer PID.
pub open spec fn primary_row(pid: u16, st: u8, pn: u16, s: SummaryView, cat: Option<(Seq<char>, TrackKind)>) -> StreamRowView {
    let c = stream_codec(st, s, cat);
    StreamRowView {
        pid,
        stream_type: st,
        program_number: pn,
        language: s.language,
        teletext_page: s.teletext_page,
        service_name: None,
        codec_id: c.id,
        codec_name: c.name,
        track_kind: c.kind,
        codec_private: None,
        hearing_impaired: None,
        dovi_profile: match s.dovi {
            Some(d) => if c.kind == TrackKind::Video { Some(d.profile) } else { None },
            None => None,
        },
        dovi_base_layer_pid: match s.dovi {
            Some(d) => if c.kind == TrackKind::Video { d.base_layer_pid } else { None },
            None => None,
        },
    }
}

/// The AC-3 row coupled to a TrueHD stream.
pub open spec fn coupled_row(pid: u16, st: u8, pn: u16, s: SummaryView) -> StreamRowView {
    StreamRowView {
        pid,
        stream_type: st,
        program_number: pn,
        language: s.language,
        teletext_page: None,
        service_name: None,
        codec_id: "A_AC3"@,
        codec_name: "AC-3"@,
        track_kind: TrackKind::Audio,
        codec_private: None,
        hearing_impaired: None,
        dovi_profile: None,
        dovi_base_layer_pid: None,
    }
}

/// The rows of a Program Map Table entry (see the module's description).
pub open spec fn stream_rows(pid: u16, pn: u16, st: u8, descs: Seq<u8>, cat: Option<(Seq<char>, TrackKind)>) -> Seq<StreamRowView> {
    let s = summary_from(descs, 0, empty_summary());
    if st == 0x06 && s.subtitling.len() > 0 {
        s.subtitling.map_values(|e: (Seq<char>, u8, u16, u16)| dvbsub_row(pid, st, pn, e))
    } else if st == 0x06 && subtitle_pages(s.teletext).len() > 0 {
        subtitle_pages(s.teletext).map_values(|e: (Seq<char>, u8, u32)| teletext_row(pid, st, pn, e))
    } else if st == 0x83 {
        seq![primary_row(pid, st, pn, s, cat), coupled_row(pid, st, pn, s)]
    } else {
        seq![primary_row(pid, st, pn, s, cat)]
    }
}

fn hex_char(v: u8) -> (c: char)
    requires
        v < 16,
    ensures
        c == hex_digit(v as int),
{
    if v < 10 { (48 + v) as char } else { (55 + v) as char }
}

/// `0x` and the hexadecimal digits of a `stream_type`.
pub fn hex_id(st: u8) -> (r: String)
    ensures
        r@ == hex_stream_type(st),
{
    let mut out = owned("0x");
    proof {
        reveal_strlit("0x");
    }
    push_char(&mut out, hex_char(st / 16));
    push_char(&mut out, hex_char(st % 16));
    assert(out@ =~= hex_stream_type(st));
    out
}

/// The codec of a stream (see [`stream_codec`]), with its id and name.
fn codec_of(st: u8, s: &descriptors::DescriptorSummary, catalogue: Option<(&str, TrackKind)>) -> (r: (String, String, TrackKind))
    ensures
        (CodecView { id: r.0@, name: r.1@, kind: r.2 }) == stream_codec(st, summary_view(*s), catalogue_view(catalogue)),
{
    let ghost sv = summary_view(*s);
    let ghost cat = catalogue_view(catalogue);
    let mut id = match canonical_codec_id(st) {
        Some(i) => owned(i),
        None => hex_id(st),
    };
    let (mut name, mut kind) = match catalogue {
        Some((n, k)) => (owned(n), k),
        None => (owned("Unknown"), TrackKind::Unknown),
    };
    assert((CodecView { id: id@, name: name@, kind }) == base_codec(st, cat));
    if st == 0x06 {
        if let Some(reg) = &s.registration {
            if crate::text::str_eq(reg.format_identifier.as_str(), "HDMV") {
                if let Some(sct) = reg.hdmv_stream_coding_type {
                    if let Some((ci, cn, ck)) = registration::hdmv_codec(sct) {
                        id = owned(ci);
                        name = owned(cn);
                        kind = ck;
                    }
                }
            } else if let Some((ci, cn, ck)) = registration::codec_for_fourcc(reg.format_identifier.as_str()) {
                id = owned(ci);
                name = owned(cn);
                kind = ck;
            }
        }
        assert((CodecView { id: id@, name: name@, kind }) == registered_codec(base_codec(st, cat), sv.registration));
        if s.is_ac3 {
            id = owned("A_AC3");
            name = owned("AC-3");
            kind = TrackKind::Audio;
        } else if s.is_eac3 {
            id = owned("A_EAC3");
            name = owned("E-AC-3");
            kind = TrackKind::Audio;
        } else if s.is_dts {
            id = owned("A_DTS");
            name = owned("DTS");
            kind = TrackKind::Audio;
        }
        if s.teletext_entries.len() > 0 {
            kind = TrackKind::Unknown;
        }
        if kind != TrackKind::Audio && kind != TrackKind::Video && kind != TrackKind::Subtitle
            && !s.has_disambiguating_tag {
            id = owned("A_AC3");
            name = owned("AC-3");
            kind = TrackKind::Audio;
        }
    }
    (id, name, kind)
}

fn subtitle_pages_of(t: &Vec<TeletextEntry>) -> (r: Vec<TeletextEntry>)
    ensures
        r@.map_values(|e: TeletextEntry| teletext_view(e)) == subtitle_pages(t@.map_values(|e: TeletextEntry| teletext_view(e))),
{
    let ghost all = t@.map_values(|e: TeletextEntry| teletext_view(e));
    let mut out: Vec<TeletextEntry> = Vec::new();
    let mut i: usize = 0;
    while i < t.len()
        invariant
            i <= t@.len(),
            all == t@.map_values(|e: TeletextEntry| teletext_view(e)),
            out@.map_values(|e: TeletextEntry| teletext_view(e)) == subtitle_pages(all.take(i as int)),
        decreases t@.len() - i,
    {
        proof {
            assert(all.take(i + 1).drop_last() =~= all.take(i as int));
        }
        let e = &t[i];
        if e.is_subtitle() {
            out.push(TeletextEntry {
                language_iso_639_2: e.language_iso_639_2.clone(),
                teletext_type: e.teletext_type,
                page: e.page,
            });
        }
        i = i + 1;
        proof {
            assert(out@.map_values(|e: TeletextEntry| teletext_view(e)) =~= subtitle_pages(all.take(i as int)));
        }
    }
    assert(all.take(i as int) =~= all);
    out
}

/// The rows of a Program Map Table entry on `pid` of program
/// `program_number` (see [`stream_rows`]); `catalogue` is the stream-type
/// catalogue's name and kind for the entry's `stream_type`.
pub fn build_rows(pid: u16, program_number: u16, entry: &PmtStreamEntry, catalogue: Option<(&str, TrackKind)>) -> (r: Vec<StreamRow>)
    ensures
        r@.map_values(|x: StreamRow| row_view(x))
            == stream_rows(pid, program_number, entry.stream_type, entry.descriptors@, catalogue_view(catalogue)),
{
    let st = entry.stream_type;
    let s = descriptors::walk(entry.descriptors.as_slice());
    let ghost sv = summary_view(s);
    let ghost cat = catalogue_view(catalogue);
    let ghost want = stream_rows(pid, program_number, st, entry.descriptors@, cat);
    let mut rows: Vec<StreamRow> = Vec::new();
    if st == 0x06 && s.subtitling_entries.len() > 0 {
        let mut i: usize = 0;
        while i < s.subtitling_entries.len()
            invariant
                i <= s.subtitling_entries@.len(),
                sv == summary_view(s),
                sv.subtitling.len() > 0,
                want == sv.subtitling.map_values(|e: (Seq<char>, u8, u16, u16)| dvbsub_row(pid, st, program_number, e)),
                rows@.len() == i,
                forall|j: int| 0 <= j < i ==> row_view(#[trigger] rows@[j]) == want[j],
            decreases s.subtitling_entries@.len() - i,
        {
            let e = &s.subtitling_entries[i];
            let cp = e.codec_private();
            let private = vec![cp[0], cp[1], cp[2], cp[3], cp[4]];
            rows.push(StreamRow {
                pid,
                stream_type: st,
                program_number,
                language: Some(e.language_iso_639_2.clone()),
                teletext_page: None,
                service_name: None,
                codec_id: owned("S_DVBSUB"),
                codec_name: owned("DVB Subtitles"),
                track_kind: TrackKind::Subtitle,
                codec_private: Some(private),
                hearing_impaired: None,
                dovi_profile: None,
                dovi_base_layer_pid: None,
            });
            proof {
                assert(sv.subtitling[i as int] == subtitling_view(s.subtitling_entries@[i as int]));
                assert(private@ =~= cp@);
                assert(row_view(rows@[i as int]) == want[i as int]);
            }
            i = i + 1;
        }
        assert(rows@.map_values(|x: StreamRow| row_view(x)) =~= want);
        return rows;
    }
    let pages = subtitle_pages_of(&s.teletext_entries);
    if st == 0x06 && pages.len() > 0 {
        let ghost pv = pages@.map_values(|e: TeletextEntry| teletext_view(e));
        let mut i: usize = 0;
        while i < pages.len()
            invariant
                i <= pages@.len(),
                pv == pages@.map_values(|e: TeletextEntry| teletext_view(e)),
                want == pv.map_values(|e: (Seq<char>, u8, u32)| teletext_row(pid, st, program_number, e)),
                rows@.len() == i,
                forall|j: int| 0 <= j < i ==> row_view(#[trigger] rows@[j]) == want[j],
            decreases pages@.len() - i,
        {
            let e = &pages[i];
            rows.push(StreamRow {
                pid,
                stream_type: st,
                program_number,
                language: Some(e.language_iso_639_2.clone()),
                teletext_page: Some(e.page),
                service_name: None,
                codec_id: owned("S_TELETEXT"),
                codec_name: owned("DVB Teletext"),
                track_kind: TrackKind::Subtitle,
                codec_private: None,
                hearing_impaired: Some(e.is_hearing_impaired()),
                dovi_profile: None,
                dovi_base_layer_pid: None,
            });
            proof {
                assert(pv[i as int] == teletext_view(pages@[i as int]));
                assert(row_view(rows@[i as int]) == want[i as int]);
            }
            i = i + 1;
        }
        assert(rows@.map_values(|x: StreamRow| row_view(x)) =~= want);
        return rows;
    }
    let (codec_id, codec_name, kind) = codec_of(st, &s, catalogue);
    let (dovi_profile, dovi_base_layer_pid) = match s.dovi {
        Some(d) => if kind == TrackKind::Video { (Some(d.profile), d.base_layer_pid) } else { (None, None) },
        None => (None, None),
    };
    let primary = StreamRow {
        pid,
        stream_type: st,
        program_number,
        language: clone_opt_string(&s.language_iso_639_2),
        teletext_page: s.teletext_page,
        service_name: None,
        codec_id,
        codec_name,
        track_kind: kind,
        codec_private: None,
        hearing_impaired: None,
        dovi_profile,
        dovi_base_layer_pid,
    };
    assert(row_view(primary) == primary_row(pid, st, program_number, sv, cat));
    if st == 0x83 {
        let coupled = StreamRow {
            pid,
            stream_type: st,
            program_number,
            language: clone_opt_string(&s.language_iso_639_2),
            teletext_page: None,
            service_name: None,
            codec_id: owned("A_AC3"),
            codec_name: owned("AC-3"),
            track_kind: TrackKind::Audio,
            codec_private: None,
            hearing_impaired: None,
            dovi_profile: None,
            dovi_base_layer_pid: None,
        };
        rows.push(primary);
        rows.push(coupled);
    } else {
        rows.push(primary);
    }
    assert(rows@.map_values(|x: StreamRow| row_view(x)) =~= want);
    rows
}

/// The canonical codec id of each transport stream type, entry by entry:
/// MPEG-1 and MPEG-2 video, MPEG audio (0x03, 0x04), generic private data
/// (0x06), AAC (ADTS 0x0F and LATM 0x11), MPEG-4 Visual, AVC, HEVC, VC-1,
/// Blu-ray LPCM, AC-3 (0x81 and ATSC 0xA1), DTS (0x82, 0x85, 0x86, 0xA2),
/// TrueHD, E-AC-3 (0x84 and ATSC 0x87), PGS and text subtitles; no other
/// stream type has one.
pub proof fn law_stream_type_codec_ids(st: u8)
    ensures
        st == 0x01 ==> stream_type_codec_id(st) == Some("V_MPEG1"@),
        st == 0x02 ==> stream_type_codec_id(st) == Some("V_MPEG2"@),
        (st == 0x03 || st == 0x04) ==> stream_type_codec_id(st) == Some("A_MPEG/L3"@),
        st == 0x06 ==> stream_type_codec_id(st) == Some("S_TX"@),
        (st == 0x0F || st == 0x11) ==> stream_type_codec_id(st) == Some("A_AAC"@),
        st == 0x10 ==> stream_type_codec_id(st) == Some("V_MPEG4/ISO/ASP"@),
        st == 0x1B ==> stream_type_codec_id(st) == Some("V_MPEG4/ISO/AVC"@),
        st == 0x24 ==> stream_type_codec_id(st) == Some("V_MPEGH/ISO/HEVC"@),
        st == 0xEA ==> stream_type_codec_id(st) == Some("V_VC1"@),
        st == 0x80 ==> stream_type_codec_id(st) == Some("A_PCM"@),
        (st == 0x81 || st == 0xA1) ==> stream_type_codec_id(st) == Some("A_AC3"@),
        (st == 0x82 || st == 0x85 || st == 0x86 || st == 0xA2) ==> stream_type_codec_id(st) == Some("A_DTS"@),
        st == 0x83 ==> stream_type_codec_id(st) == Some("A_TRUEHD"@),
        (st == 0x84 || st == 0x87) ==> stream_type_codec_id(st) == Some("A_EAC3"@),
        st == 0x90 ==> stream_type_codec_id(st) == Some("S_HDMV/PGS"@),
        st == 0x92 ==> stream_type_codec_id(st) == Some("S_HDMV/TEXTST"@),
        stream_type_codec_id(st) is None <==> !(st == 0x01 || st == 0x02 || st == 0x03 || st == 0x04 || st == 0x06
            || st == 0x0F || st == 0x11 || st == 0x10 || st == 0x1B || st == 0x24 || st == 0xEA || st == 0x80
            || st == 0x81 || st == 0xA1 || st == 0x82 || st == 0x85 || st == 0x86 || st == 0xA2 || st == 0x83
            || st == 0x84 || st == 0x87 || st == 0x90 || st == 0x92),
{
}

/// A stream that no descriptor speaks for gets the canonical codec id of
/// its stream type in its row; E-AC-3 stream types (0x84, 0x87) give
/// E-AC-3 rows.
pub proof fn law_rows_take_canonical_ids(pid: u16, pn: u16, st: u8, cat: Option<(Seq<char>, TrackKind)>)
    requires
        st != 0x06,
        stream_type_codec_id(st) is Some,
    ensures
        stream_rows(pid, pn, st, Seq::empty(), cat)[0].codec_id == stream_type_codec_id(st)->0,
        (st == 0x84 || st == 0x87) ==> stream_rows(pid, pn, st, Seq::empty(), cat)[0].codec_id == "A_EAC3"@,
{
    assert(summary_from(Seq::<u8>::empty(), 0, empty_summary()) == empty_summary());
}

/// A private stream (0x06) with no registration takes its codec from the
/// descriptors: an AC-3 descriptor gives AC-3, else an E-AC-3 one E-AC-3,
/// else a DTS one DTS; with none of these and no descriptor but a
/// language one, it is AC-3.
pub proof fn law_private_stream_codecs(s: SummaryView, cat: Option<(Seq<char>, TrackKind)>)
    requires
        s.registration is None,
        s.teletext.len() == 0,
    ensures
        s.is_ac3 ==> stream_codec(0x06, s, cat) == ac3_codec(),
        !s.is_ac3 && s.is_eac3 ==> stream_codec(0x06, s, cat) == (CodecView { kind: TrackKind::Audio, id: "A_EAC3"@, name: "E-AC-3"@ }),
        !s.is_ac3 && !s.is_eac3 && s.is_dts ==> stream_codec(0x06, s, cat) == (CodecView { kind: TrackKind::Audio, id: "A_DTS"@, name: "DTS"@ }),
        !s.is_ac3 && !s.is_eac3 && !s.is_dts && !s.disambiguating && cat is None ==> stream_codec(0x06, s, cat) == ac3_codec(),
        ac3_codec() == (CodecView { kind: TrackKind::Audio, id: "A_AC3"@, name: "AC-3"@ }),
{
}

} // verus!
