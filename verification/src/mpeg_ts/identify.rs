//! Tracks and programs of a transport stream from its stream registry:
//! which rows become tracks (classified, probed, not a hidden Dolby Vision
//! enhancement layer), their compact ids, what the payload probes added,
//! and the programs with their services and tracks.

use vstd::prelude::*;
use std::collections::HashMap;
use crate::codec::TrackKind;
use crate::model::{
    AudioTrackProperties, CodecInfo, CodecPrivate, CommonTrackProperties, ContainerFormat, Dimensions2D,
    MediaMetadata, Program, SampleRate, SubtitleTrackProperties, Track, TrackProperties, TrackType,
    VideoTrackProperties,
};
use crate::mp4::codec_specific::{hex_chars, hex_encode};
use super::stream_table::StreamRow;

verus! {

/// Codec parameters a probe of a stream's PES payload recovered.
#[derive(Debug, Clone)]
pub struct EsEnrichment {
    pub channels: Option<u32>,
    pub sampling_frequency: Option<SampleRate>,
    pub bits_per_sample: Option<u32>,
    pub pixel_dimensions: Option<(u32, u32)>,
    /// Codec private data taken from the payload (HDMV text subtitles).
    pub codec_private: Option<Vec<u8>>,
    /// Codec id and name the payload showed, replacing the table's.
    pub codec_override: Option<(String, String)>,
}

impl EsEnrichment {
    pub open spec fn is_empty(&self) -> bool {
        &&& self.channels is None
        &&& self.sampling_frequency is None
        &&& self.bits_per_sample is None
        &&& self.pixel_dimensions is None
        &&& self.codec_private is None
        &&& self.codec_override is None
    }
}

impl Default for EsEnrichment {
    fn default() -> (e: Self)
        ensures
            e.is_empty(),
    {
        EsEnrichment {
            channels: None,
            sampling_frequency: None,
            bits_per_sample: None,
            pixel_dimensions: None,
            codec_private: None,
            codec_override: None,
        }
    }
}

/// The outcome of a row's payload probe: whether the row is kept, and what
/// the probe found.
#[derive(Debug, Clone)]
pub struct RowProbe {
    pub keep: bool,
    pub enrichment: EsEnrichment,
}

impl Default for RowProbe {
    fn default() -> (p: Self)
        ensures
            !p.keep,
            p.enrichment.is_empty(),
    {
        RowProbe { keep: false, enrichment: EsEnrichment::default() }
    }
}

/// Whether a stream with codec `cand_codec` and pixel size `cand_dims`
/// carries the Dolby Vision base layer of an enhancement layer with codec
/// `el_codec`, profile `profile` and size `el_dims`: same codec, profile 4
/// or 7, both sizes known; profile 4 pairs a 1920×1080 base with a layer of
/// half its size; profile 7 a 1920×1080 base with a layer of the same size,
/// or a 3840×2160 base with a layer of half its size.
pub open spec fn dovi_base_layer(
    cand_codec: Seq<char>,
    el_codec: Seq<char>,
    profile: u32,
    cand_dims: Option<(u32, u32)>,
    el_dims: Option<(u32, u32)>,
) -> bool {
    &&& cand_codec == el_codec
    &&& (profile == 4 || profile == 7)
    &&& match (cand_dims, el_dims) {
        (Some((cw, ch)), Some((ew, eh))) => {
            let full_hd = cw == 1920 && ch == 1080;
            let uhd = cw == 3840 && ch == 2160;
            if profile == 4 {
                full_hd && ew == cw / 2 && eh == ch / 2
            } else {
                (full_hd && ew == cw && eh == ch) || (uhd && ew == cw / 2 && eh == ch / 2)
            }
        },
        _ => false,
    }
}

/// Whether `cand` carries the Dolby Vision base layer of `el` (see
/// [`dovi_base_layer`]).
pub fn contains_dovi_base_layer(
    cand: &StreamRow,
    el: &StreamRow,
    el_profile: u32,
    cand_dims: Option<(u32, u32)>,
    el_dims: Option<(u32, u32)>,
) -> (r: bool)
    ensures
        r == dovi_base_layer(cand.codec_id@, el.codec_id@, el_profile, cand_dims, el_dims),
{
    if cand.codec_id != el.codec_id {
        return false;
    }
    if el_profile != 4 && el_profile != 7 {
        return false;
    }
    let (cw, ch) = match cand_dims {
        Some(d) => d,
        None => {
            return false;
        },
    };
    let (ew, eh) = match el_dims {
        Some(d) => d,
        None => {
            return false;
        },
    };
    let full_hd = cw == 1920 && ch == 1080;
    let uhd = cw == 3840 && ch == 2160;
    if el_profile == 4 {
        full_hd && ew == cw / 2 && eh == ch / 2
    } else {
        (full_hd && ew == cw && eh == ch) || (uhd && ew == cw / 2 && eh == ch / 2)
    }
}

/// Whether row `i` has a probe that keeps it.
pub open spec fn probe_keeps(probes: Seq<RowProbe>, i: int) -> bool {
    0 <= i < probes.len() && probes[i].keep
}

/// The pixel size the probe of row `i` found.
pub open spec fn probe_dims(probes: Seq<RowProbe>, i: int) -> Option<(u32, u32)> {
    if 0 <= i < probes.len() {
        probes[i].enrichment.pixel_dimensions
    } else {
        None
    }
}

/// Whether row `j` carries the base layer of the Dolby Vision enhancement
/// layer in row `el`: the row with the PID the descriptor names, or, when
/// it names none, a row that [`dovi_base_layer`] accepts.
pub open spec fn pairs_with(rows: Seq<StreamRow>, probes: Seq<RowProbe>, el: int, j: int) -> bool {
    &&& j != el
    &&& match rows[el].dovi_base_layer_pid {
        Some(pid) => rows[j].pid == pid,
        None => dovi_base_layer(
            rows[j].codec_id@,
            rows[el].codec_id@,
            rows[el].dovi_profile->0,
            probe_dims(probes, j),
            probe_dims(probes, el),
        ),
    }
}

/// Whether row `el` is a Dolby Vision enhancement layer that is hidden: it
/// has a profile, its probe keeps it, and some other row carries its base
/// layer.
pub open spec fn hidden_layer(rows: Seq<StreamRow>, probes: Seq<RowProbe>, el: int) -> bool {
    &&& rows[el].dovi_profile is Some
    &&& probe_keeps(probes, el)
    &&& exists|j: int| 0 <= j < rows.len() && #[trigger] pairs_with(rows, probes, el, j)
}

/// Whether row `j` carries the base layer of row `el` (see [`pairs_with`]).
fn row_pairs_with(rows: &Vec<StreamRow>, probes: &Vec<RowProbe>, el: usize, j: usize, profile: u32) -> (r: bool)
    requires
        el < rows@.len(),
        j < rows@.len(),
        rows@[el as int].dovi_profile == Some(profile),
    ensures
        r == pairs_with(rows@, probes@, el as int, j as int),
{
    if j == el {
        return false;
    }
    match rows[el].dovi_base_layer_pid {
        Some(pid) => rows[j].pid == pid,
        None => {
            let cand_dims = if j < probes.len() { probes[j].enrichment.pixel_dimensions } else { None };
            let el_dims = if el < probes.len() { probes[el].enrichment.pixel_dimensions } else { None };
            contains_dovi_base_layer(&rows[j], &rows[el], profile, cand_dims, el_dims)
        },
    }
}

/// For every row, whether it is a hidden Dolby Vision enhancement layer
/// (see [`hidden_layer`]).
pub fn compute_hidden_dovi_layers(rows: &Vec<StreamRow>, probes: &Vec<RowProbe>) -> (r: Vec<bool>)
    ensures
        r@.len() == rows@.len(),
        forall|i: int| 0 <= i < rows@.len() ==> r@[i] == hidden_layer(rows@, probes@, i),
{
    let mut hidden: Vec<bool> = Vec::new();
    let mut el: usize = 0;
    while el < rows.len()
        invariant
            el <= rows@.len(),
            hidden@.len() == el,
            forall|i: int| 0 <= i < el ==> hidden@[i] == hidden_layer(rows@, probes@, i),
        decreases rows@.len() - el,
    {
        let mut found = false;
        match rows[el].dovi_profile {
            Some(profile) => {
                if el < probes.len() && probes[el].keep {
                    let mut j: usize = 0;
                    while j < rows.len()
                        invariant_except_break
                            !found,
                            forall|k: int| 0 <= k < j ==> !pairs_with(rows@, probes@, el as int, k),
                        invariant
                            el < rows@.len(),
                            rows@[el as int].dovi_profile == Some(profile),
                            j <= rows@.len(),
                        ensures
                            found ==> exists|k: int| 0 <= k < rows@.len() && #[trigger] pairs_with(rows@, probes@, el as int, k),
                            !found ==> forall|k: int| 0 <= k < rows@.len() ==> !pairs_with(rows@, probes@, el as int, k),
                        decreases rows@.len() - j,
                    {
                        if row_pairs_with(rows, probes, el, j, profile) {
                            found = true;
                            break;
                        }
                        j = j + 1;
                    }
                }
            },
            None => {},
        }
        hidden.push(found);
        el = el + 1;
    }
    hidden
}

/// The track type of a track kind.
pub open spec fn kind_track_type(k: TrackKind) -> TrackType {
    match k {
        TrackKind::Video => TrackType::Video,
        TrackKind::Audio => TrackType::Audio,
        TrackKind::Subtitle => TrackType::Subtitles,
        TrackKind::Button => TrackType::Buttons,
        TrackKind::Unknown => TrackType::Unknown,
    }
}

/// An optional string as its characters.
pub open spec fn opt_chars(s: Option<String>) -> Option<Seq<char>> {
    match s {
        Some(t) => Some(t@),
        None => None,
    }
}

/// The codec private data of a track: the probe's, else the row's.
pub open spec fn private_bytes(row: StreamRow, e: Option<EsEnrichment>) -> Option<Seq<u8>> {
    match e {
        Some(x) if x.codec_private is Some => Some(x.codec_private->0@),
        _ => match row.codec_private {
            Some(b) => Some(b@),
            None => None,
        },
    }
}

/// The track row `row` becomes with id `id` and its probe's findings `e`:
/// numbered and identified by its PID, with its program, teletext page,
/// hearing-impaired flag and language; video properties with the probed
/// pixel size (also the display size), audio properties with the probed
/// channels, rate and bit depth, or image-subtitle properties named by the
/// codec name, by its kind; the codec private data as hexadecimal; the
/// probe's codec id and name when it found one, else the row's.
pub open spec fn ts_track_of(id: i64, row: StreamRow, e: Option<EsEnrichment>, t: Track) -> bool {
    let c = t.properties.common;
    let kind = kind_track_type(row.track_kind);
    &&& t.id == id
    &&& t.track_type == kind
    &&& c.number == Some(row.pid as u64)
    &&& c.stream_id == Some(row.pid as u32)
    &&& c.program_number == Some(row.program_number as u32)
    &&& c.teletext_page == row.teletext_page
    &&& c.hearing_impaired == row.hearing_impaired
    &&& opt_chars(c.language) == opt_chars(row.language)
    &&& c.track_name is None && c.enabled is None && c.num_index_entries is None && c.sub_stream_id is None
    &&& t.properties.tags@.len() == 0
    &&& (kind == TrackType::Video ==> (t.properties.video matches Some(v) && {
        let dims = match e {
            Some(x) => match x.pixel_dimensions {
                Some((w, h)) => Some(Dimensions2D { width: w, height: h }),
                None => None,
            },
            None => None,
        };
        &&& v.pixel_dimensions == dims
        &&& v.display_dimensions == dims
        &&& VideoTrackProperties { pixel_dimensions: None, display_dimensions: None, ..v }.is_empty()
    }))
    &&& (kind != TrackType::Video ==> t.properties.video is None)
    &&& (kind == TrackType::Audio ==> (t.properties.audio matches Some(a) && {
        &&& a.channels == match e { Some(x) => x.channels, None => None }
        &&& a.sampling_frequency == match e { Some(x) => x.sampling_frequency, None => None }
        &&& a.bit_depth == match e { Some(x) => x.bits_per_sample, None => None }
        &&& a.output_sampling_frequency is None && a.codec_config is None
    }))
    &&& (kind != TrackType::Audio ==> t.properties.audio is None)
    &&& (kind == TrackType::Subtitles ==> (t.properties.subtitle matches Some(s) && {
        &&& !s.text_subtitles && s.encoding is None
        &&& opt_chars(s.variant) == Some(row.codec_name@)
        &&& s.teletext_page == row.teletext_page
    }))
    &&& (kind != TrackType::Subtitles ==> t.properties.subtitle is None)
    &&& match private_bytes(row, e) {
        Some(b) => t.codec.codec_private matches Some(cp) && cp.length == b.len() && cp.hex@ == hex_chars(b),
        None => t.codec.codec_private is None,
    }
    &&& match e {
        Some(x) if x.codec_override is Some => match x.codec_override {
            Some((oid, oname)) => t.codec.id@ == oid@ && opt_chars(t.codec.name) == Some(oname@),
            None => false,
        },
        _ => t.codec.id@ == row.codec_id@ && opt_chars(t.codec.name) == Some(row.codec_name@),
    }
}

pub(crate) fn clone_opt_string(s: &Option<String>) -> (r: Option<String>)
    ensures
        opt_chars(r) == opt_chars(*s),
{
    match s {
        Some(t) => Some(t.clone()),
        None => None,
    }
}

/// Codec private data from its bytes: the length and the hexadecimal text.
fn codec_private_of(bytes: &Vec<u8>) -> (cp: CodecPrivate)
    ensures
        cp.length == bytes@.len(),
        cp.hex@ == hex_chars(bytes@),
{
    CodecPrivate { length: bytes.len() as u64, hex: hex_encode(bytes.as_slice()) }
}

/// The track of a row (see [`ts_track_of`]).
pub fn make_track(id: i64, row: &StreamRow, enrichment: Option<&EsEnrichment>) -> (t: Track)
    ensures
        ts_track_of(id, *row, match enrichment { Some(e) => Some(*e), None => None }, t),
{
    let track_type = match row.track_kind {
        TrackKind::Video => TrackType::Video,
        TrackKind::Audio => TrackType::Audio,
        TrackKind::Subtitle => TrackType::Subtitles,
        TrackKind::Button => TrackType::Buttons,
        TrackKind::Unknown => TrackType::Unknown,
    };
    let mut common = CommonTrackProperties::default();
    common.number = Some(row.pid as u64);
    common.stream_id = Some(row.pid as u32);
    common.program_number = Some(row.program_number as u32);
    common.teletext_page = row.teletext_page;
    common.hearing_impaired = row.hearing_impaired;
    common.language = clone_opt_string(&row.language);
    let mut video: Option<VideoTrackProperties> = None;
    let mut audio: Option<AudioTrackProperties> = None;
    let mut subtitle: Option<SubtitleTrackProperties> = None;
    match track_type {
        TrackType::Video => {
            let mut v = VideoTrackProperties::default();
            if let Some(e) = enrichment {
                if let Some((w, h)) = e.pixel_dimensions {
                    let dims = Dimensions2D { width: w, height: h };
                    v.pixel_dimensions = Some(dims);
                    v.display_dimensions = Some(dims);
                }
            }
            video = Some(v);
        },
        TrackType::Audio => {
            let mut a = AudioTrackProperties::default();
            if let Some(e) = enrichment {
                a.channels = e.channels;
                a.sampling_frequency = e.sampling_frequency;
                a.bit_depth = e.bits_per_sample;
            }
            audio = Some(a);
        },
        TrackType::Subtitles => {
            subtitle = Some(SubtitleTrackProperties {
                text_subtitles: false,
                encoding: None,
                variant: Some(row.codec_name.clone()),
                teletext_page: row.teletext_page,
            });
        },
        _ => {},
    }
    let from_probe = match enrichment {
        Some(e) => match &e.codec_private {
            Some(b) => Some(codec_private_of(b)),
            None => None,
        },
        None => None,
    };
    let codec_private = match from_probe {
        Some(cp) => Some(cp),
        None => match &row.codec_private {
            Some(b) => Some(codec_private_of(b)),
            None => None,
        },
    };
    let (codec_id, codec_name) = match enrichment {
        Some(e) => match &e.codec_override {
            Some((i, n)) => (i.clone(), n.clone()),
            None => (row.codec_id.clone(), row.codec_name.clone()),
        },
        None => (row.codec_id.clone(), row.codec_name.clone()),
    };
    Track {
        id,
        track_type,
        codec: CodecInfo { id: codec_id, name: Some(codec_name), codec_private },
        properties: TrackProperties { common, tags: Vec::new(), video, audio, subtitle },
    }
}

/// Whether row `i` becomes a track: classified, kept by its probe, and not
/// a hidden Dolby Vision enhancement layer.
pub open spec fn row_kept(rows: Seq<StreamRow>, probes: Seq<RowProbe>, i: int) -> bool {
    &&& rows[i].track_kind != TrackKind::Unknown
    &&& probe_keeps(probes, i)
    &&& !hidden_layer(rows, probes, i)
}

/// How many of the first `n` rows become tracks: the id of the track of
/// row `n` when it becomes one.
pub open spec fn kept_before(rows: Seq<StreamRow>, probes: Seq<RowProbe>, n: int) -> nat
    decreases n,
{
    if n <= 0 {
        0
    } else {
        kept_before(rows, probes, n - 1) + if row_kept(rows, probes, n - 1) { 1nat } else { 0nat }
    }
}

/// The ids of the tracks of program `pn` among the first `n` rows, in row
/// order.
pub open spec fn program_track_ids(rows: Seq<StreamRow>, probes: Seq<RowProbe>, pn: u16, n: int) -> Seq<i64>
    decreases n,
{
    if n <= 0 {
        Seq::empty()
    } else {
        let t = program_track_ids(rows, probes, pn, n - 1);
        if row_kept(rows, probes, n - 1) && rows[n - 1].program_number == pn {
            t.push(kept_before(rows, probes, n - 1) as i64)
        } else {
            t
        }
    }
}

/// The first service name a row of program `pn` has.
pub open spec fn first_service_name(rows: Seq<StreamRow>, pn: u16) -> Option<Seq<char>>
    decreases rows.len(),
{
    if rows.len() == 0 {
        None
    } else {
        let f = first_service_name(rows.drop_last(), pn);
        if f is Some {
            f
        } else if rows.last().program_number == pn {
            opt_chars(rows.last().service_name)
        } else {
            None
        }
    }
}

/// Whether some row belongs to program `pn`.
pub open spec fn has_program(rows: Seq<StreamRow>, pn: u16) -> bool {
    exists|k: int| 0 <= k < rows.len() && #[trigger] rows[k].program_number == pn
}

/// Whether program `pn` is among `progs`.
pub open spec fn program_listed(progs: Seq<Program>, pn: u16) -> bool {
    exists|i: int| 0 <= i < progs.len() && #[trigger] progs[i].program_number == pn
}

/// The service name of program `pn`: the Service Description Table's when
/// it gives a non-empty one, else the rows' first.
pub open spec fn service_name_of(rows: Seq<StreamRow>, sdt: Map<u16, (String, String)>, pn: u16) -> Option<Seq<char>> {
    if sdt.contains_key(pn) && sdt[pn].1@.len() > 0 {
        Some(sdt[pn].1@)
    } else {
        first_service_name(rows, pn)
    }
}

/// The service provider of program `pn`: the Service Description Table's
/// when it gives a non-empty one.
pub open spec fn provider_of(sdt: Map<u16, (String, String)>, pn: u16) -> Option<Seq<char>> {
    if sdt.contains_key(pn) && sdt[pn].0@.len() > 0 {
        Some(sdt[pn].0@)
    } else {
        None
    }
}

/// The programs of the rows: one per program number the rows have, in
/// increasing order, each with its service name and provider and the ids
/// of its tracks, its PMT PID unknown.
pub open spec fn programs_built(
    rows: Seq<StreamRow>,
    probes: Seq<RowProbe>,
    sdt: Map<u16, (String, String)>,
    progs: Seq<Program>,
) -> bool {
    &&& forall|i: int, j: int| 0 <= i < j < progs.len() ==> progs[i].program_number < progs[j].program_number
    &&& forall|k: int| 0 <= k < rows.len() ==> program_listed(progs, #[trigger] rows[k].program_number)
    &&& forall|i: int| 0 <= i < progs.len() ==> {
        let p = #[trigger] progs[i];
        let pn = p.program_number as u16;
        &&& p.program_number < 65536
        &&& has_program(rows, pn)
        &&& p.pmt_pid is None
        &&& opt_chars(p.service_name) == service_name_of(rows, sdt, pn)
        &&& opt_chars(p.service_provider) == provider_of(sdt, pn)
        &&& p.track_ids@ == program_track_ids(rows, probes, pn, rows.len() as int)
    }
}

/// The programs of the first `n` rows before the Service Description
/// Table and the tracks are applied.
pub open spec fn programs_seen(rows: Seq<StreamRow>, n: int, progs: Seq<Program>) -> bool {
    &&& forall|i: int, j: int| 0 <= i < j < progs.len() ==> progs[i].program_number < progs[j].program_number
    &&& forall|k: int| 0 <= k < n ==> program_listed(progs, #[trigger] rows[k].program_number)
    &&& forall|i: int| 0 <= i < progs.len() ==> {
        let p = #[trigger] progs[i];
        let pn = p.program_number as u16;
        &&& p.program_number < 65536
        &&& has_program(rows.subrange(0, n), pn)
        &&& p.pmt_pid is None
        &&& opt_chars(p.service_name) == first_service_name(rows.subrange(0, n), pn)
        &&& p.service_provider is None
        &&& p.track_ids@.len() == 0
    }
}

proof fn lemma_seen_prefix(rows: Seq<StreamRow>, k: int)
    requires
        0 <= k < rows.len(),
    ensures
        rows.subrange(0, k + 1).drop_last() == rows.subrange(0, k),
        rows.subrange(0, k + 1).last() == rows[k],
        forall|q: u16| has_program(rows.subrange(0, k), q) ==> has_program(rows.subrange(0, k + 1), q),
        has_program(rows.subrange(0, k + 1), rows[k].program_number),
{
    let pre = rows.subrange(0, k);
    let post = rows.subrange(0, k + 1);
    assert(post.drop_last() =~= pre);
    assert forall|q: u16| has_program(pre, q) implies has_program(post, q) by {
        let w = choose|w: int| 0 <= w < pre.len() && #[trigger] pre[w].program_number == q;
        assert(post[w] == pre[w]);
    }
    assert(post[k] == rows[k]);
}

proof fn lemma_seen_update(rows: Seq<StreamRow>, k: int, before: Seq<Program>, after: Seq<Program>, pos: int)
    requires
        0 <= k < rows.len(),
        programs_seen(rows, k, before),
        0 <= pos < before.len(),
        before[pos].program_number == rows[k].program_number,
        after.len() == before.len(),
        forall|i: int| 0 <= i < before.len() && i != pos ==> after[i] == before[i],
        after[pos].program_number == before[pos].program_number,
        after[pos].pmt_pid == before[pos].pmt_pid,
        after[pos].service_provider == before[pos].service_provider,
        after[pos].track_ids == before[pos].track_ids,
        opt_chars(after[pos].service_name) == if before[pos].service_name is None {
            opt_chars(rows[k].service_name)
        } else {
            opt_chars(before[pos].service_name)
        },
    ensures
        programs_seen(rows, k + 1, after),
{
    lemma_seen_prefix(rows, k);
    let post = rows.subrange(0, k + 1);
    assert forall|i: int| 0 <= i < after.len() implies {
        let p = #[trigger] after[i];
        let q = p.program_number as u16;
        &&& opt_chars(p.service_name) == first_service_name(post, q)
        &&& has_program(post, q)
    } by {
        if i != pos {
            assert(after[i] == before[i]);
        }
    }
    assert forall|kk: int| 0 <= kk < k + 1 implies program_listed(after, #[trigger] rows[kk].program_number) by {
        if kk < k {
            let w = choose|w: int| 0 <= w < before.len() && #[trigger] before[w].program_number == rows[kk].program_number;
            assert(after[w].program_number == before[w].program_number);
        } else {
            assert(after[pos].program_number == rows[kk].program_number);
        }
    }
    assert forall|a: int, b: int| 0 <= a < b < after.len() implies after[a].program_number < after[b].program_number by {
        assert(after[a].program_number == before[a].program_number);
        assert(after[b].program_number == before[b].program_number);
    }
}

proof fn lemma_seen_insert(rows: Seq<StreamRow>, k: int, before: Seq<Program>, p: Program, pos: int)
    requires
        0 <= k < rows.len(),
        programs_seen(rows, k, before),
        0 <= pos <= before.len(),
        forall|i: int| 0 <= i < pos ==> #[trigger] before[i].program_number < rows[k].program_number,
        pos < before.len() ==> before[pos].program_number > rows[k].program_number,
        p.program_number == rows[k].program_number,
        p.pmt_pid is None,
        p.service_provider is None,
        p.track_ids@.len() == 0,
        opt_chars(p.service_name) == opt_chars(rows[k].service_name),
    ensures
        programs_seen(rows, k + 1, before.insert(pos, p)),
{
    lemma_seen_prefix(rows, k);
    let pre = rows.subrange(0, k);
    let post = rows.subrange(0, k + 1);
    let after = before.insert(pos, p);
    let pn = rows[k].program_number;
    before.insert_ensures(pos, p);
    assert(first_service_name(pre, pn) is None) by {
        if first_service_name(pre, pn) is Some {
            lemma_first_service_name_has(pre, pn);
            let w = choose|w: int| 0 <= w < pre.len() && #[trigger] pre[w].program_number == pn;
            assert(rows[w] == pre[w]);
            let e = choose|i: int| 0 <= i < before.len() && #[trigger] before[i].program_number == rows[w].program_number;
            if e < pos {
            } else if e > pos {
                assert(before[pos].program_number < before[e].program_number);
            }
        }
    }
    assert forall|i: int| 0 <= i < after.len() implies {
        let q = #[trigger] after[i];
        let qn = q.program_number as u16;
        &&& opt_chars(q.service_name) == first_service_name(post, qn)
        &&& has_program(post, qn)
    } by {
        if i < pos {
            assert(after[i] == before[i]);
        } else if i > pos {
            assert(after[i] == before[i - 1]);
        }
    }
    assert forall|a: int, b: int| 0 <= a < b < after.len() implies after[a].program_number < after[b].program_number by {
        if b < pos {
            assert(after[a] == before[a] && after[b] == before[b]);
        } else if b == pos {
            assert(after[a] == before[a]);
        } else if a < pos {
            assert(after[a] == before[a] && after[b] == before[b - 1]);
        } else if a == pos {
            assert(after[b] == before[b - 1]);
            if b - 1 > pos {
                assert(before[pos].program_number < before[b - 1].program_number);
            }
        } else {
            assert(after[a] == before[a - 1] && after[b] == before[b - 1]);
        }
    }
    assert forall|kk: int| 0 <= kk < k + 1 implies program_listed(after, #[trigger] rows[kk].program_number) by {
        if kk < k {
            let w = choose|w: int| 0 <= w < before.len() && #[trigger] before[w].program_number == rows[kk].program_number;
            if w < pos {
                assert(after[w] == before[w]);
            } else {
                assert(after[w + 1] == before[w]);
            }
        } else {
            assert(after[pos].program_number == rows[kk].program_number);
        }
    }
}

/// Records the program of row `k` in `progs`.
fn add_row_program(progs: &mut Vec<Program>, rows: &Vec<StreamRow>, k: usize)
    requires
        k < rows@.len(),
        programs_seen(rows@, k as int, old(progs)@),
    ensures
        programs_seen(rows@, k + 1, final(progs)@),
{
    let pn = rows[k].program_number as u32;
    let ghost before = progs@;
    let mut pos: usize = 0;
    while pos < progs.len() && progs[pos].program_number < pn
        invariant
            pos <= progs@.len(),
            progs@ == before,
            forall|i: int| 0 <= i < pos ==> #[trigger] progs@[i].program_number < pn,
        decreases progs@.len() - pos,
    {
        pos = pos + 1;
    }
    if pos < progs.len() && progs[pos].program_number == pn {
        if progs[pos].service_name.is_none() {
            let p = progs.remove(pos);
            let name = clone_opt_string(&rows[k].service_name);
            progs.insert(pos, Program { service_name: name, ..p });
        }
        proof {
            lemma_seen_update(rows@, k as int, before, progs@, pos as int);
        }
    } else {
        let p = Program {
            program_number: pn,
            pmt_pid: None,
            service_name: clone_opt_string(&rows[k].service_name),
            service_provider: None,
            track_ids: Vec::new(),
        };
        proof {
            lemma_seen_insert(rows@, k as int, before, p, pos as int);
        }
        progs.insert(pos, p);
    }
}

/// The programs of the rows, before the Service Description Table and the
/// tracks are applied (see [`programs_seen`]).
fn collect_programs(rows: &Vec<StreamRow>) -> (progs: Vec<Program>)
    ensures
        programs_seen(rows@, rows@.len() as int, progs@),
{
    let mut progs: Vec<Program> = Vec::new();
    let mut k: usize = 0;
    while k < rows.len()
        invariant
            k <= rows@.len(),
            programs_seen(rows@, k as int, progs@),
        decreases rows@.len() - k,
    {
        add_row_program(&mut progs, rows, k);
        k = k + 1;
    }
    progs
}

proof fn lemma_first_service_name_has(rows: Seq<StreamRow>, pn: u16)
    requires
        first_service_name(rows, pn) is Some,
    ensures
        has_program(rows, pn),
    decreases rows.len(),
{
    let d = rows.drop_last();
    if first_service_name(d, pn) is Some {
        lemma_first_service_name_has(d, pn);
        let w = choose|w: int| 0 <= w < d.len() && #[trigger] d[w].program_number == pn;
        assert(rows[w] == d[w]);
    } else {
        assert(rows[rows.len() - 1].program_number == pn);
    }
}

/// Track ids follow row order without repeats: a row kept before another
/// gets a smaller id.
pub proof fn law_track_ids_increase(rows: Seq<StreamRow>, probes: Seq<RowProbe>, i: int, k: int)
    requires
        0 <= i < k,
        row_kept(rows, probes, i),
    ensures
        kept_before(rows, probes, i) < kept_before(rows, probes, k),
    decreases k - i,
{
    if k > i + 1 {
        law_track_ids_increase(rows, probes, i, k - 1);
    }
}

proof fn lemma_kept_before_bound(rows: Seq<StreamRow>, probes: Seq<RowProbe>, k: int)
    requires
        0 <= k,
    ensures
        kept_before(rows, probes, k) <= k,
    decreases k,
{
    if k > 0 {
        lemma_kept_before_bound(rows, probes, k - 1);
    }
}

/// The programs after the Service Description Table: a non-empty provider
/// or service name it gives for a program replaces the program's.
pub open spec fn sdt_applied(before: Program, after: Program, sdt: Map<u16, (String, String)>) -> bool {
    let pn = before.program_number as u16;
    &&& after.program_number == before.program_number
    &&& after.pmt_pid == before.pmt_pid
    &&& after.track_ids == before.track_ids
    &&& opt_chars(after.service_name) == if sdt.contains_key(pn) && sdt[pn].1@.len() > 0 {
        Some(sdt[pn].1@)
    } else {
        opt_chars(before.service_name)
    }
    &&& opt_chars(after.service_provider) == if sdt.contains_key(pn) && sdt[pn].0@.len() > 0 {
        Some(sdt[pn].0@)
    } else {
        opt_chars(before.service_provider)
    }
}

/// Applies the Service Description Table to the programs (see
/// [`sdt_applied`]).
fn apply_sdt(progs: &mut Vec<Program>, sdt: &HashMap<u16, (String, String)>)
    requires
        forall|i: int| 0 <= i < old(progs)@.len() ==> #[trigger] old(progs)@[i].program_number < 65536,
    ensures
        final(progs)@.len() == old(progs)@.len(),
        forall|i: int| 0 <= i < old(progs)@.len() ==> sdt_applied(old(progs)@[i], #[trigger] final(progs)@[i], sdt@),
{
    broadcast use vstd::std_specs::hash::group_hash_axioms;
    let ghost before = progs@;
    let mut i: usize = 0;
    while i < progs.len()
        invariant
            progs@.len() == before.len(),
            i <= progs@.len(),
            forall|j: int| 0 <= j < before.len() ==> #[trigger] before[j].program_number < 65536,
            forall|j: int| 0 <= j < i ==> sdt_applied(before[j], #[trigger] progs@[j], sdt@),
            forall|j: int| i <= j < progs@.len() ==> #[trigger] progs@[j] == before[j],
        decreases progs@.len() - i,
    {
        let pn = progs[i].program_number as u16;
        match sdt.get(&pn) {
            Some(entry) => {
                let p = progs.remove(i);
                let provider = if entry.0.as_str().is_empty() { p.service_provider } else { Some(entry.0.clone()) };
                let name = if entry.1.as_str().is_empty() { p.service_name } else { Some(entry.1.clone()) };
                progs.insert(i, Program { service_name: name, service_provider: provider, ..p });
            },
            None => {},
        }
        i = i + 1;
    }
}

/// Turns the rows that are kept into tracks of `out` with compact ids from
/// 0, and records each track's id in its program.
fn emit_tracks(
    rows: &Vec<StreamRow>,
    probes: &Vec<RowProbe>,
    hidden: &Vec<bool>,
    progs: &mut Vec<Program>,
    out: &mut MediaMetadata,
)
    requires
        rows@.len() < i64::MAX,
        hidden@.len() == rows@.len(),
        forall|i: int| 0 <= i < rows@.len() ==> hidden@[i] == hidden_layer(rows@, probes@, i),
        forall|k: int| 0 <= k < rows@.len() ==> program_listed(old(progs)@, #[trigger] rows@[k].program_number),
        forall|i: int| 0 <= i < old(progs)@.len() ==> (#[trigger] old(progs)@[i]).track_ids@.len() == 0,
        forall|i: int| 0 <= i < old(progs)@.len() ==> (#[trigger] old(progs)@[i]).program_number < 65536,
        forall|i: int, j: int| 0 <= i < j < old(progs)@.len() ==> old(progs)@[i].program_number != old(progs)@[j].program_number,
    ensures
        final(progs)@.len() == old(progs)@.len(),
        forall|i: int| 0 <= i < old(progs)@.len() ==> {
            let a = #[trigger] final(progs)@[i];
            let b = old(progs)@[i];
            &&& a.program_number == b.program_number
            &&& a.pmt_pid == b.pmt_pid
            &&& a.service_name == b.service_name
            &&& a.service_provider == b.service_provider
            &&& a.track_ids@ == program_track_ids(rows@, probes@, b.program_number as u16, rows@.len() as int)
        },
        *final(out) == (MediaMetadata { tracks: final(out).tracks, ..*old(out) }),
        final(out).tracks@.len() == old(out).tracks@.len() + kept_before(rows@, probes@, rows@.len() as int),
        forall|i: int| 0 <= i < old(out).tracks@.len() ==> final(out).tracks@[i] == old(out).tracks@[i],
        forall|i: int| 0 <= i < rows@.len() && #[trigger] row_kept(rows@, probes@, i) ==> ts_track_of(
            kept_before(rows@, probes@, i) as i64,
            rows@[i],
            Some(probes@[i].enrichment),
            final(out).tracks@[old(out).tracks@.len() + kept_before(rows@, probes@, i) as int],
        ),
{
    let ghost base = out.tracks@;
    let ghost om = *out;
    let ghost before = progs@;
    let mut track_id: i64 = 0;
    let mut k: usize = 0;
    while k < rows.len()
        invariant
            rows@.len() < i64::MAX,
            k <= rows@.len(),
            hidden@.len() == rows@.len(),
            forall|i: int| 0 <= i < rows@.len() ==> hidden@[i] == hidden_layer(rows@, probes@, i),
            forall|kk: int| 0 <= kk < rows@.len() ==> program_listed(before, #[trigger] rows@[kk].program_number),
            forall|i: int| 0 <= i < before.len() ==> (#[trigger] before[i]).program_number < 65536,
            forall|i: int, j: int| 0 <= i < j < before.len() ==> before[i].program_number != before[j].program_number,
            track_id == kept_before(rows@, probes@, k as int),
            progs@.len() == before.len(),
            forall|i: int| 0 <= i < before.len() ==> {
                let a = #[trigger] progs@[i];
                let b = before[i];
                &&& a.program_number == b.program_number
                &&& a.pmt_pid == b.pmt_pid
                &&& a.service_name == b.service_name
                &&& a.service_provider == b.service_provider
                &&& a.track_ids@ == program_track_ids(rows@, probes@, b.program_number as u16, k as int)
            },
            *out == (MediaMetadata { tracks: out.tracks, ..om }),
            out.tracks@.len() == base.len() + kept_before(rows@, probes@, k as int),
            forall|i: int| 0 <= i < base.len() ==> out.tracks@[i] == base[i],
            forall|i: int| 0 <= i < k && #[trigger] row_kept(rows@, probes@, i) ==> ts_track_of(
                kept_before(rows@, probes@, i) as i64,
                rows@[i],
                Some(probes@[i].enrichment),
                out.tracks@[base.len() + kept_before(rows@, probes@, i) as int],
            ),
        decreases rows@.len() - k,
    {
        proof {
            lemma_kept_before_bound(rows@, probes@, k as int);
        }
        let kept = rows[k].track_kind != TrackKind::Unknown && k < probes.len() && probes[k].keep && !hidden[k];
        assert(kept == row_kept(rows@, probes@, k as int));
        if kept {
            let t = make_track(track_id, &rows[k], Some(&probes[k].enrichment));
            let pn = rows[k].program_number as u32;
            let mut pi: usize = 0;
            while pi < progs.len() && progs[pi].program_number != pn
                invariant
                    pi <= progs@.len(),
                    forall|i: int| 0 <= i < pi ==> #[trigger] progs@[i].program_number != pn,
                decreases progs@.len() - pi,
            {
                pi = pi + 1;
            }
            proof {
                if pi >= progs@.len() {
                    let w = choose|w: int| 0 <= w < before.len() && #[trigger] before[w].program_number == rows@[k as int].program_number;
                    assert(progs@[w].program_number == before[w].program_number);
                }
            }
            let ghost progs_before = progs@;
            let mut p = progs.remove(pi);
            p.track_ids.push(track_id);
            progs.insert(pi, p);
            let ghost tracks_before = out.tracks@;
            out.tracks.push(t);
            proof {
                assert forall|i: int| 0 <= i < k + 1 && #[trigger] row_kept(rows@, probes@, i) implies ts_track_of(
                    kept_before(rows@, probes@, i) as i64,
                    rows@[i],
                    Some(probes@[i].enrichment),
                    out.tracks@[base.len() + kept_before(rows@, probes@, i) as int],
                ) by {
                    if i < k {
                        law_track_ids_increase(rows@, probes@, i, k as int);
                        assert(out.tracks@[base.len() + kept_before(rows@, probes@, i) as int] == tracks_before[base.len() + kept_before(rows@, probes@, i) as int]);
                    }
                }
                assert forall|i: int| 0 <= i < before.len() implies {
                    let a = #[trigger] progs@[i];
                    let b = before[i];
                    &&& a.program_number == b.program_number
                    &&& a.pmt_pid == b.pmt_pid
                    &&& a.service_name == b.service_name
                    &&& a.service_provider == b.service_provider
                    &&& a.track_ids@ == program_track_ids(rows@, probes@, b.program_number as u16, k + 1)
                } by {
                    if i != pi {
                        assert(progs@[i] == progs_before[i]);
                        assert(before[i].program_number != before[pi as int].program_number);
                    }
                }
            }
            track_id = track_id + 1;
        } else {
            proof {
                assert forall|i: int| 0 <= i < before.len() implies {
                    let a = #[trigger] progs@[i];
                    let b = before[i];
                    a.track_ids@ == program_track_ids(rows@, probes@, b.program_number as u16, k + 1)
                } by {}
            }
        }
        k = k + 1;
    }
}

/// Marks `out` as an MPEG transport stream (recognised, supported, not
/// fragmented), appends a track for every row that is kept (see
/// [`row_kept`]) with compact ids from 0 in row order (see
/// [`ts_track_of`]), and replaces its programs with those of the rows
/// (see [`programs_built`]).  `probes` runs parallel to `rows`; a row
/// without a probe is not kept.
pub fn finalise_with_probes(
    rows: Vec<StreamRow>,
    sdt: &HashMap<u16, (String, String)>,
    probes: &Vec<RowProbe>,
    out: &mut MediaMetadata,
)
    requires
        rows@.len() < i64::MAX,
    ensures
        final(out).format == ContainerFormat::MpegTs,
        final(out).recognized,
        final(out).supported,
        final(out).properties.is_fragmented == Some(false),
        final(out).properties.title == old(out).properties.title,
        final(out).properties.muxing_app == old(out).properties.muxing_app,
        final(out).properties.movie_timescale == old(out).properties.movie_timescale,
        final(out).properties.duration_ns == old(out).properties.duration_ns,
        final(out).properties.major_brand == old(out).properties.major_brand,
        final(out).properties.compatible_brands == old(out).properties.compatible_brands,
        programs_built(rows@, probes@, sdt@, final(out).properties.programs@),
        final(out).global_tags == old(out).global_tags,
        final(out).chapters == old(out).chapters,
        final(out).attachments == old(out).attachments,
        final(out).per_track_tag_count == old(out).per_track_tag_count,
        final(out).tracks@.len() == old(out).tracks@.len() + kept_before(rows@, probes@, rows@.len() as int),
        forall|i: int| 0 <= i < old(out).tracks@.len() ==> final(out).tracks@[i] == old(out).tracks@[i],
        forall|i: int| 0 <= i < rows@.len() && #[trigger] row_kept(rows@, probes@, i) ==> ts_track_of(
            kept_before(rows@, probes@, i) as i64,
            rows@[i],
            Some(probes@[i].enrichment),
            final(out).tracks@[old(out).tracks@.len() + kept_before(rows@, probes@, i) as int],
        ),
{
    out.format = ContainerFormat::MpegTs;
    out.recognized = true;
    out.supported = true;
    out.properties.is_fragmented = Some(false);
    let mut progs = collect_programs(&rows);
    assert(rows@.subrange(0, rows@.len() as int) =~= rows@);
    let ghost seen = progs@;
    apply_sdt(&mut progs, sdt);
    let ghost applied = progs@;
    let hidden = compute_hidden_dovi_layers(&rows, probes);
    proof {
        assert forall|i: int, j: int| 0 <= i < j < applied.len() implies applied[i].program_number != applied[j].program_number by {
            assert(sdt_applied(seen[i], applied[i], sdt@));
            assert(sdt_applied(seen[j], applied[j], sdt@));
        }
        assert forall|kk: int| 0 <= kk < rows@.len() implies program_listed(applied, #[trigger] rows@[kk].program_number) by {
            let w = choose|w: int| 0 <= w < seen.len() && #[trigger] seen[w].program_number == rows@[kk].program_number;
            assert(sdt_applied(seen[w], applied[w], sdt@));
        }
        assert forall|i: int| 0 <= i < applied.len() implies (#[trigger] applied[i]).track_ids@.len() == 0
            && applied[i].program_number < 65536 by {
            assert(sdt_applied(seen[i], applied[i], sdt@));
        }
    }
    emit_tracks(&rows, probes, &hidden, &mut progs, out);
    proof {
        let fin = progs@;
        assert forall|i: int, j: int| 0 <= i < j < fin.len() implies fin[i].program_number < fin[j].program_number by {
            assert(fin[i].program_number == applied[i].program_number);
            assert(fin[j].program_number == applied[j].program_number);
            assert(sdt_applied(seen[i], applied[i], sdt@));
            assert(sdt_applied(seen[j], applied[j], sdt@));
        }
        assert forall|kk: int| 0 <= kk < rows@.len() implies program_listed(fin, #[trigger] rows@[kk].program_number) by {
            let w = choose|w: int| 0 <= w < applied.len() && #[trigger] applied[w].program_number == rows@[kk].program_number;
            assert(fin[w].program_number == applied[w].program_number);
        }
        assert forall|i: int| 0 <= i < fin.len() implies {
            let p = #[trigger] fin[i];
            let pn = p.program_number as u16;
            &&& p.program_number < 65536
            &&& has_program(rows@, pn)
            &&& p.pmt_pid is None
            &&& opt_chars(p.service_name) == service_name_of(rows@, sdt@, pn)
            &&& opt_chars(p.service_provider) == provider_of(sdt@, pn)
            &&& p.track_ids@ == program_track_ids(rows@, probes@, pn, rows@.len() as int)
        } by {
            assert(sdt_applied(seen[i], applied[i], sdt@));
            assert(fin[i].program_number == applied[i].program_number);
        }
    }
    out.properties.programs = progs;
}

/// Finalises the rows with every row kept, no probe findings and no
/// Service Description Table (see [`finalise_with_probes`]).
pub fn finalise(rows: Vec<StreamRow>, out: &mut MediaMetadata)
    requires
        rows@.len() < i64::MAX,
    ensures
        ({
            let probes = Seq::new(rows@.len(), |i: int| RowProbe { keep: true, enrichment: EsEnrichment {
                channels: None,
                sampling_frequency: None,
                bits_per_sample: None,
                pixel_dimensions: None,
                codec_private: None,
                codec_override: None,
            } });
            &&& final(out).format == ContainerFormat::MpegTs
            &&& programs_built(rows@, probes, Map::empty(), final(out).properties.programs@)
            &&& final(out).tracks@.len() == old(out).tracks@.len() + kept_before(rows@, probes, rows@.len() as int)
            &&& forall|i: int| 0 <= i < old(out).tracks@.len() ==> final(out).tracks@[i] == old(out).tracks@[i]
            &&& forall|i: int| 0 <= i < rows@.len() && #[trigger] row_kept(rows@, probes, i) ==> ts_track_of(
                kept_before(rows@, probes, i) as i64,
                rows@[i],
                Some(probes[i].enrichment),
                final(out).tracks@[old(out).tracks@.len() + kept_before(rows@, probes, i) as int],
            )
        }),
{
    broadcast use vstd::std_specs::hash::group_hash_axioms;
    let mut probes: Vec<RowProbe> = Vec::new();
    let mut i: usize = 0;
    while i < rows.len()
        invariant
            i <= rows@.len(),
            probes@.len() == i,
            forall|j: int| 0 <= j < i ==> #[trigger] probes@[j] == (RowProbe { keep: true, enrichment: EsEnrichment {
                channels: None,
                sampling_frequency: None,
                bits_per_sample: None,
                pixel_dimensions: None,
                codec_private: None,
                codec_override: None,
            } }),
        decreases rows@.len() - i,
    {
        probes.push(RowProbe { keep: true, enrichment: EsEnrichment::default() });
        i = i + 1;
    }
    let sdt: HashMap<u16, (String, String)> = HashMap::new();
    let ghost expected = Seq::new(rows@.len(), |i: int| RowProbe { keep: true, enrichment: EsEnrichment {
        channels: None,
        sampling_frequency: None,
        bits_per_sample: None,
        pixel_dimensions: None,
        codec_private: None,
        codec_override: None,
    } });
    assert(probes@ =~= expected);
    assert(sdt@ =~= Map::<u16, (String, String)>::empty());
    finalise_with_probes(rows, &sdt, &probes, out);
}

/// Track kinds become track types one for one: video, audio, subtitles,
/// buttons, unknown.
pub proof fn law_kind_track_types()
    ensures
        kind_track_type(TrackKind::Video) == TrackType::Video,
        kind_track_type(TrackKind::Audio) == TrackType::Audio,
        kind_track_type(TrackKind::Subtitle) == TrackType::Subtitles,
        kind_track_type(TrackKind::Button) == TrackType::Buttons,
        kind_track_type(TrackKind::Unknown) == TrackType::Unknown,
{
}

} // verus!
