//! Registration descriptor: a four-byte format identifier (a FourCC)
//! followed by private bytes.  The identifier "HDMV" marks a Blu-ray
//! stream, whose body then holds a stuffing byte 0xFF and the stream
//! coding type; any other identifier is looked up as a codec FourCC.

use vstd::prelude::*;
use vstd::string::StrSliceExecFns;
use crate::codec::{TrackKind, CodecView, cv};
use crate::text::{ascii_lower, ascii_lower_char, push_char, str_eq, utf8_lossy, utf8_lossy_chars};

verus! {

/// A decoded registration descriptor.
#[derive(Debug, Clone, PartialEq, Eq)]
pub struct RegistrationDescriptor {
    /// The format identifier, decoded from its four bytes as UTF-8 with
    /// invalid sequences replaced.
    pub format_identifier: String,
    /// For "HDMV" with the stuffing byte in place, the stream coding type.
    pub hdmv_stream_coding_type: Option<u8>,
}

/// What a body decodes to: `None` under four bytes; else the identifier
/// and, for "HDMV" in a body of at least eight bytes whose fifth byte is
/// 0xFF, the sixth byte as the stream coding type.
pub open spec fn registration_decode(body: Seq<u8>) -> Option<(Seq<char>, Option<u8>)> {
    if body.len() < 4 {
        None
    } else {
        let id = utf8_lossy_chars(body.subrange(0, 4));
        Some((id, if id == "HDMV"@ && body.len() >= 8 && body[4] == 0xFF { Some(body[5]) } else { None }))
    }
}

/// A decoded descriptor as values.
pub open spec fn registration_view(r: Option<RegistrationDescriptor>) -> Option<(Seq<char>, Option<u8>)> {
    match r {
        Some(d) => Some((d.format_identifier@, d.hdmv_stream_coding_type)),
        None => None,
    }
}

/// Decode a registration descriptor body as [`registration_decode`] says.
pub fn decode(body: &[u8]) -> (r: Option<RegistrationDescriptor>)
    ensures
        registration_view(r) == registration_decode(body@),
{
    if body.len() < 4 {
        return None;
    }
    let format_identifier = utf8_lossy(vstd::slice::slice_subrange(body, 0, 4));
    let hdmv_stream_coding_type = if str_eq(format_identifier.as_str(), "HDMV") && body.len() >= 8 && body[4] == 0xFF {
        Some(body[5])
    } else {
        None
    };
    Some(RegistrationDescriptor { format_identifier, hdmv_stream_coding_type })
}

/// A codec table entry (codec id, display name, kind) as a codec view.
pub open spec fn entry_view(r: Option<(&'static str, &'static str, TrackKind)>) -> Option<CodecView> {
    match r {
        Some((id, name, kind)) => Some(cv(kind, id, name)),
        None => None,
    }
}

/// The codec of a Blu-ray stream coding type.
pub open spec fn hdmv_codec_of(t: u8) -> Option<CodecView> {
    if t == 0x02 {
        Some(cv(TrackKind::Video, "V_MPEG12", "MPEG-1/2"))
    } else if t == 0x1B {
        Some(cv(TrackKind::Video, "V_MPEG4/ISO/AVC", "AVC/H.264/MPEG-4p10"))
    } else if t == 0x24 {
        Some(cv(TrackKind::Video, "V_MPEGH/ISO/HEVC", "HEVC/H.265/MPEG-H"))
    } else if t == 0xEA {
        Some(cv(TrackKind::Video, "V_VC1", "VC-1"))
    } else if t == 0x80 {
        Some(cv(TrackKind::Audio, "A_PCM", "LPCM"))
    } else if t == 0x81 {
        Some(cv(TrackKind::Audio, "A_AC3", "AC-3"))
    } else if t == 0x82 || t == 0x85 || t == 0x86 {
        Some(cv(TrackKind::Audio, "A_DTS", "DTS"))
    } else if t == 0x83 {
        Some(cv(TrackKind::Audio, "A_TRUEHD", "TrueHD"))
    } else if t == 0x84 || t == 0x87 {
        Some(cv(TrackKind::Audio, "A_EAC3", "E-AC-3"))
    } else if t == 0x90 {
        Some(cv(TrackKind::Subtitle, "S_HDMV/PGS", "HDMV PGS"))
    } else if t == 0x92 {
        Some(cv(TrackKind::Subtitle, "S_HDMV/TEXTST", "HDMV Text Subtitles"))
    } else {
        None
    }
}

/// The codec id, name and kind of a Blu-ray stream coding type.
pub fn hdmv_codec(stream_coding_type: u8) -> (r: Option<(&'static str, &'static str, TrackKind)>)
    ensures
        entry_view(r) == hdmv_codec_of(stream_coding_type),
{
    let t = stream_coding_type;
    if t == 0x02 {
        Some(("V_MPEG12", "MPEG-1/2", TrackKind::Video))
    } else if t == 0x1B {
        Some(("V_MPEG4/ISO/AVC", "AVC/H.264/MPEG-4p10", TrackKind::Video))
    } else if t == 0x24 {
        Some(("V_MPEGH/ISO/HEVC", "HEVC/H.265/MPEG-H", TrackKind::Video))
    } else if t == 0xEA {
        Some(("V_VC1", "VC-1", TrackKind::Video))
    } else if t == 0x80 {
        Some(("A_PCM", "LPCM", TrackKind::Audio))
    } else if t == 0x81 {
        Some(("A_AC3", "AC-3", TrackKind::Audio))
    } else if t == 0x82 || t == 0x85 || t == 0x86 {
        Some(("A_DTS", "DTS", TrackKind::Audio))
    } else if t == 0x83 {
        Some(("A_TRUEHD", "TrueHD", TrackKind::Audio))
    } else if t == 0x84 || t == 0x87 {
        Some(("A_EAC3", "E-AC-3", TrackKind::Audio))
    } else if t == 0x90 {
        Some(("S_HDMV/PGS", "HDMV PGS", TrackKind::Subtitle))
    } else if t == 0x92 {
        Some(("S_HDMV/TEXTST", "HDMV Text Subtitles", TrackKind::Subtitle))
    } else {
        None
    }
}

/// The video codec a key names exactly.
pub open spec fn exact_video_codec(k: Seq<char>) -> Option<CodecView> {
    if k == "AV01"@ {
        Some(cv(TrackKind::Video, "V_AV1", "AV1"))
    } else if k == "CVID"@ {
        Some(cv(TrackKind::Video, "V_CINEPAK", "Cinepak"))
    } else if k == "DRAC"@ {
        Some(cv(TrackKind::Video, "V_DIRAC", "Dirac"))
    } else if k == "APCH"@ || k == "APCN"@ || k == "APCS"@ || k == "APCO"@ || k == "AP4H"@ {
        Some(cv(TrackKind::Video, "V_PRORES", "ProRes"))
    } else if k == "SVQI"@ || k == "SVQ1"@ {
        Some(cv(TrackKind::Video, "V_SVQ1", "Sorenson v1"))
    } else if k == "SVQ3"@ {
        Some(cv(TrackKind::Video, "V_SVQ3", "Sorenson v3"))
    } else if k == "THEO"@ || k == "THRA"@ {
        Some(cv(TrackKind::Video, "V_THEORA", "Theora"))
    } else if k == "VC-1"@ || k == "WVC1"@ {
        Some(cv(TrackKind::Video, "V_VC1", "VC-1"))
    } else if k == "VP80"@ {
        Some(cv(TrackKind::Video, "V_VP8", "VP8"))
    } else if k == "VP90"@ || k == "VP09"@ {
        Some(cv(TrackKind::Video, "V_VP9", "VP9"))
    } else {
        None
    }
}

/// The audio codec a key names exactly.
pub open spec fn exact_audio_codec(k: Seq<char>) -> Option<CodecView> {
    if k == "MP4A"@ || k == "RAAC"@ || k == "RACP"@ {
        Some(cv(TrackKind::Audio, "A_AAC", "AAC"))
    } else if k == "ALAC"@ {
        Some(cv(TrackKind::Audio, "A_ALAC", "ALAC"))
    } else if k == "ATRC"@ {
        Some(cv(TrackKind::Audio, "A_REAL/ATRC", "ATRAC3"))
    } else if k == "COOK"@ {
        Some(cv(TrackKind::Audio, "A_REAL/COOK", "G2/Cook"))
    } else if k == "28_8"@ {
        Some(cv(TrackKind::Audio, "A_REAL/28_8", "LD-CELP"))
    } else if k == "FLAC"@ {
        Some(cv(TrackKind::Audio, "A_FLAC", "FLAC"))
    } else if k == "MLP "@ {
        Some(cv(TrackKind::Audio, "A_MLP", "MLP"))
    } else if k == "MP2A"@ {
        Some(cv(TrackKind::Audio, "A_MPEG/L2", "MP2"))
    } else if k == "LAME"@ || k == "MPGA"@ {
        Some(cv(TrackKind::Audio, "A_MPEG/L3", "MP3"))
    } else if k == "OPUS"@ {
        Some(cv(TrackKind::Audio, "A_OPUS", "Opus"))
    } else if k == "TWOS"@ {
        Some(cv(TrackKind::Audio, "A_PCM/INT/BIG", "PCM"))
    } else if k == "SOWT"@ || k == "RAW "@ || k == "LPCM"@ || k == "IN24"@ {
        Some(cv(TrackKind::Audio, "A_PCM/INT/LIT", "PCM"))
    } else if k == "QDM2"@ {
        Some(cv(TrackKind::Audio, "A_QUICKTIME/QDM2", "QDMC"))
    } else if k == "RALF"@ {
        Some(cv(TrackKind::Audio, "A_REAL/RALF", "RealAudio-Lossless"))
    } else if k == "SIPR"@ {
        Some(cv(TrackKind::Audio, "A_REAL/SIPR", "Sipro/ACELP-NET"))
    } else if k == "TTA1"@ {
        Some(cv(TrackKind::Audio, "A_TTA1", "TrueAudio"))
    } else if k == "TRHD"@ || k == "MLPA"@ {
        Some(cv(TrackKind::Audio, "A_TRUEHD", "TrueHD"))
    } else if k == "LPCJ"@ || k == "14_4"@ {
        Some(cv(TrackKind::Audio, "A_REAL/14_4", "VSELP"))
    } else if k == "VORB"@ {
        Some(cv(TrackKind::Audio, "A_VORBIS", "Vorbis"))
    } else if k == "WVPK"@ {
        Some(cv(TrackKind::Audio, "A_WAVPACK4", "WavPack4"))
    } else {
        None
    }
}

/// The subtitle codec a key names exactly.
pub open spec fn exact_subtitle_codec(k: Seq<char>) -> Option<CodecView> {
    if k == "KATE"@ {
        Some(cv(TrackKind::Subtitle, "S_KATE", "Kate"))
    } else if k == "TX3G"@ {
        Some(cv(TrackKind::Subtitle, "S_TX3G", "Timed Text"))
    } else if k == "USF "@ {
        Some(cv(TrackKind::Subtitle, "S_TEXT/USF", "UniversalSubtitleFormat"))
    } else {
        None
    }
}

/// Whether the key starts with the three characters given.
pub open spec fn starts3(k: Seq<char>, a: char, b: char, c: char) -> bool {
    k[0] == a && k[1] == b && k[2] == c
}

/// AVC keys: "AVC" followed by any character, "H264", "X264".
pub open spec fn avc_key(k: Seq<char>) -> bool {
    starts3(k, 'A', 'V', 'C') || k == "H264"@ || k == "X264"@
}

/// HEVC keys.
pub open spec fn hevc_key(k: Seq<char>) -> bool {
    k == "HEVC"@ || k == "HVC1"@ || k == "HEV1"@ || k == "H265"@ || k == "X265"@ || k == "DVH1"@ || k == "DVHE"@
}

/// MPEG-1/2 video keys, among them "M1V" or "M2V" followed by any
/// character.
pub open spec fn mpeg12_key(k: Seq<char>) -> bool {
    k == "MPEG"@ || k == "MPG1"@ || k == "MPG2"@ || k == "MPGV"@ || k == "MP1V"@ || k == "MP2V"@ || k == "H262"@
        || (k[0] == 'M' && (k[1] == '1' || k[1] == '2') && k[2] == 'V')
}

/// MPEG-4 part 2 keys.
pub open spec fn mpeg4_part2_key(k: Seq<char>) -> bool {
    k == "3IV2"@ || k == "XVID"@ || k == "XVIX"@ || k == "DIVX"@ || k == "DX50"@ || k == "FMP4"@ || k == "MP4V"@
}

/// RealVideo keys: "RV", a version digit 1 to 4, any digit.
pub open spec fn realvideo_key(k: Seq<char>) -> bool {
    k[0] == 'R' && k[1] == 'V' && '1' <= k[2] && k[2] <= '4' && '0' <= k[3] && k[3] <= '9'
}

/// The RealVideo codec of a version digit.
pub open spec fn realvideo_codec_of(v: char) -> CodecView {
    if v == '1' {
        cv(TrackKind::Video, "V_REAL/RV10", "RealVideo")
    } else if v == '2' {
        cv(TrackKind::Video, "V_REAL/RV20", "RealVideo")
    } else if v == '3' {
        cv(TrackKind::Video, "V_REAL/RV30", "RealVideo")
    } else {
        cv(TrackKind::Video, "V_REAL/RV40", "RealVideo")
    }
}

/// AC-3 keys, among them "AC3" followed by any character.
pub open spec fn ac3_key(k: Seq<char>) -> bool {
    k == "AC-3"@ || k == "SAC3"@ || k == "EAC3"@ || k == "EC-3"@ || k == "A52 "@ || k == "A52B"@ || k == "DNET"@ || starts3(k, 'A', 'C', '3')
}

/// DTS keys: "DTS" followed by one of ' ', 'B', 'C', 'E', 'H', 'L'.
pub open spec fn dts_key(k: Seq<char>) -> bool {
    starts3(k, 'D', 'T', 'S') && (k[3] == ' ' || k[3] == 'B' || k[3] == 'C' || k[3] == 'E' || k[3] == 'H' || k[3] == 'L')
}

/// MP2 keys: "MP2" followed by any character, ".MP1", ".MP2".
pub open spec fn mp2_key(k: Seq<char>) -> bool {
    starts3(k, 'M', 'P', '2') || k == ".MP1"@ || k == ".MP2"@
}

/// MP3 keys: "MP3" followed by any character, ".MP3".
pub open spec fn mp3_key(k: Seq<char>) -> bool {
    starts3(k, 'M', 'P', '3') || k == ".MP3"@
}

/// The codec of a key by the families above, tried in this order.
pub open spec fn family_codec(k: Seq<char>) -> Option<CodecView> {
    if avc_key(k) {
        Some(cv(TrackKind::Video, "V_MPEG4/ISO/AVC", "AVC/H.264/MPEG-4p10"))
    } else if hevc_key(k) {
        Some(cv(TrackKind::Video, "V_MPEGH/ISO/HEVC", "HEVC/H.265/MPEG-H"))
    } else if mpeg12_key(k) {
        Some(cv(TrackKind::Video, "V_MPEG12", "MPEG-1/2"))
    } else if mpeg4_part2_key(k) {
        Some(cv(TrackKind::Video, "V_MPEG4/ISO/ASP", "MPEG-4p2"))
    } else if realvideo_key(k) {
        Some(realvideo_codec_of(k[2]))
    } else if starts3(k, 'A', 'A', 'C') {
        Some(cv(TrackKind::Audio, "A_AAC", "AAC"))
    } else if ac3_key(k) {
        Some(cv(TrackKind::Audio, "A_AC3", "AC-3"))
    } else if dts_key(k) {
        Some(cv(TrackKind::Audio, "A_DTS", "DTS"))
    } else if mp2_key(k) {
        Some(cv(TrackKind::Audio, "A_MPEG/L2", "MP2"))
    } else if mp3_key(k) {
        Some(cv(TrackKind::Audio, "A_MPEG/L3", "MP3"))
    } else if starts3(k, 'P', 'C', 'M') {
        Some(cv(TrackKind::Audio, "A_PCM/INT/LIT", "PCM"))
    } else {
        None
    }
}

/// The codec of a four-character key: the exact names first, then the
/// families.
pub open spec fn key_codec(k: Seq<char>) -> Option<CodecView> {
    if exact_video_codec(k) is Some {
        exact_video_codec(k)
    } else if exact_audio_codec(k) is Some {
        exact_audio_codec(k)
    } else if exact_subtitle_codec(k) is Some {
        exact_subtitle_codec(k)
    } else {
        family_codec(k)
    }
}

/// Whether `c` is an ASCII control character.
pub open spec fn ascii_control(c: char) -> bool {
    (c as u32) < 0x20 || (c as u32) == 0x7F
}

/// `c` with an ASCII small letter raised.
pub open spec fn ascii_upper_char(c: char) -> char {
    if 'a' <= c && c <= 'z' {
        ((c as int) - 32) as char
    } else {
        c
    }
}

/// The lookup key of a FourCC: its ASCII control characters dropped and
/// its small letters raised.
pub open spec fn fourcc_key(s: Seq<char>) -> Seq<char>
    decreases s.len(),
{
    if s.len() == 0 {
        Seq::empty()
    } else {
        let k = fourcc_key(s.drop_last());
        if ascii_control(s.last()) {
            k
        } else {
            k.push(ascii_upper_char(s.last()))
        }
    }
}

/// The codec a registration FourCC names: looked up by its key when that
/// is four ASCII characters, none otherwise (a key of four bytes that are
/// not all ASCII names nothing, as every name in the tables is ASCII).
pub open spec fn fourcc_codec(s: Seq<char>) -> Option<CodecView> {
    let k = fourcc_key(s);
    if k.len() == 4 && (forall|i: int| 0 <= i < 4 ==> (k[i] as u32) < 0x80) {
        key_codec(k)
    } else {
        None
    }
}

/// The video codec a key names exactly.
fn exact_video(k: &str) -> (r: Option<(&'static str, &'static str, TrackKind)>)
    ensures
        entry_view(r) == exact_video_codec(k@),
{
    if str_eq(k, "AV01") {
        Some(("V_AV1", "AV1", TrackKind::Video))
    } else if str_eq(k, "CVID") {
        Some(("V_CINEPAK", "Cinepak", TrackKind::Video))
    } else if str_eq(k, "DRAC") {
        Some(("V_DIRAC", "Dirac", TrackKind::Video))
    } else if str_eq(k, "APCH") || str_eq(k, "APCN") || str_eq(k, "APCS") || str_eq(k, "APCO") || str_eq(k, "AP4H") {
        Some(("V_PRORES", "ProRes", TrackKind::Video))
    } else if str_eq(k, "SVQI") || str_eq(k, "SVQ1") {
        Some(("V_SVQ1", "Sorenson v1", TrackKind::Video))
    } else if str_eq(k, "SVQ3") {
        Some(("V_SVQ3", "Sorenson v3", TrackKind::Video))
    } else if str_eq(k, "THEO") || str_eq(k, "THRA") {
        Some(("V_THEORA", "Theora", TrackKind::Video))
    } else if str_eq(k, "VC-1") || str_eq(k, "WVC1") {
        Some(("V_VC1", "VC-1", TrackKind::Video))
    } else if str_eq(k, "VP80") {
        Some(("V_VP8", "VP8", TrackKind::Video))
    } else if str_eq(k, "VP90") || str_eq(k, "VP09") {
        Some(("V_VP9", "VP9", TrackKind::Video))
    } else {
        None
    }
}

/// The audio codec a key names exactly.
fn exact_audio(k: &str) -> (r: Option<(&'static str, &'static str, TrackKind)>)
    ensures
        entry_view(r) == exact_audio_codec(k@),
{
    if str_eq(k, "MP4A") || str_eq(k, "RAAC") || str_eq(k, "RACP") {
        Some(("A_AAC", "AAC", TrackKind::Audio))
    } else if str_eq(k, "ALAC") {
        Some(("A_ALAC", "ALAC", TrackKind::Audio))
    } else if str_eq(k, "ATRC") {
        Some(("A_REAL/ATRC", "ATRAC3", TrackKind::Audio))
    } else if str_eq(k, "COOK") {
        Some(("A_REAL/COOK", "G2/Cook", TrackKind::Audio))
    } else if str_eq(k, "28_8") {
        Some(("A_REAL/28_8", "LD-CELP", TrackKind::Audio))
    } else if str_eq(k, "FLAC") {
        Some(("A_FLAC", "FLAC", TrackKind::Audio))
    } else if str_eq(k, "MLP ") {
        Some(("A_MLP", "MLP", TrackKind::Audio))
    } else if str_eq(k, "MP2A") {
        Some(("A_MPEG/L2", "MP2", TrackKind::Audio))
    } else if str_eq(k, "LAME") || str_eq(k, "MPGA") {
        Some(("A_MPEG/L3", "MP3", TrackKind::Audio))
    } else if str_eq(k, "OPUS") {
        Some(("A_OPUS", "Opus", TrackKind::Audio))
    } else if str_eq(k, "TWOS") {
        Some(("A_PCM/INT/BIG", "PCM", TrackKind::Audio))
    } else if str_eq(k, "SOWT") || str_eq(k, "RAW ") || str_eq(k, "LPCM") || str_eq(k, "IN24") {
        Some(("A_PCM/INT/LIT", "PCM", TrackKind::Audio))
    } else if str_eq(k, "QDM2") {
        Some(("A_QUICKTIME/QDM2", "QDMC", TrackKind::Audio))
    } else if str_eq(k, "RALF") {
        Some(("A_REAL/RALF", "RealAudio-Lossless", TrackKind::Audio))
    } else if str_eq(k, "SIPR") {
        Some(("A_REAL/SIPR", "Sipro/ACELP-NET", TrackKind::Audio))
    } else if str_eq(k, "TTA1") {
        Some(("A_TTA1", "TrueAudio", TrackKind::Audio))
    } else if str_eq(k, "TRHD") || str_eq(k, "MLPA") {
        Some(("A_TRUEHD", "TrueHD", TrackKind::Audio))
    } else if str_eq(k, "LPCJ") || str_eq(k, "14_4") {
        Some(("A_REAL/14_4", "VSELP", TrackKind::Audio))
    } else if str_eq(k, "VORB") {
        Some(("A_VORBIS", "Vorbis", TrackKind::Audio))
    } else if str_eq(k, "WVPK") {
        Some(("A_WAVPACK4", "WavPack4", TrackKind::Audio))
    } else {
        None
    }
}

/// The subtitle codec a key names exactly.
fn exact_subtitle(k: &str) -> (r: Option<(&'static str, &'static str, TrackKind)>)
    ensures
        entry_view(r) == exact_subtitle_codec(k@),
{
    if str_eq(k, "KATE") {
        Some(("S_KATE", "Kate", TrackKind::Subtitle))
    } else if str_eq(k, "TX3G") {
        Some(("S_TX3G", "Timed Text", TrackKind::Subtitle))
    } else if str_eq(k, "USF ") {
        Some(("S_TEXT/USF", "UniversalSubtitleFormat", TrackKind::Subtitle))
    } else {
        None
    }
}

/// Whether the key starts with the three characters given.
fn starts_with3(k: &str, a: char, b: char, c: char) -> (r: bool)
    requires
        k@.len() == 4,
    ensures
        r == starts3(k@, a, b, c),
{
    k.get_char(0) == a && k.get_char(1) == b && k.get_char(2) == c
}

/// The codec of a key by the families (see [`family_codec`]).
fn family(k: &str) -> (r: Option<(&'static str, &'static str, TrackKind)>)
    requires
        k@.len() == 4,
    ensures
        entry_view(r) == family_codec(k@),
{
    let c0 = k.get_char(0);
    let c1 = k.get_char(1);
    let c2 = k.get_char(2);
    let c3 = k.get_char(3);
    if starts_with3(k, 'A', 'V', 'C') || str_eq(k, "H264") || str_eq(k, "X264") {
        Some(("V_MPEG4/ISO/AVC", "AVC/H.264/MPEG-4p10", TrackKind::Video))
    } else if str_eq(k, "HEVC") || str_eq(k, "HVC1") || str_eq(k, "HEV1") || str_eq(k, "H265") || str_eq(k, "X265") || str_eq(k, "DVH1") || str_eq(k, "DVHE") {
        Some(("V_MPEGH/ISO/HEVC", "HEVC/H.265/MPEG-H", TrackKind::Video))
    } else if str_eq(k, "MPEG") || str_eq(k, "MPG1") || str_eq(k, "MPG2") || str_eq(k, "MPGV") || str_eq(k, "MP1V") || str_eq(k, "MP2V") || str_eq(k, "H262")
        || (c0 == 'M' && (c1 == '1' || c1 == '2') && c2 == 'V') {
        Some(("V_MPEG12", "MPEG-1/2", TrackKind::Video))
    } else if str_eq(k, "3IV2") || str_eq(k, "XVID") || str_eq(k, "XVIX") || str_eq(k, "DIVX") || str_eq(k, "DX50") || str_eq(k, "FMP4") || str_eq(k, "MP4V") {
        Some(("V_MPEG4/ISO/ASP", "MPEG-4p2", TrackKind::Video))
    } else if c0 == 'R' && c1 == 'V' && '1' <= c2 && c2 <= '4' && '0' <= c3 && c3 <= '9' {
        if c2 == '1' {
            Some(("V_REAL/RV10", "RealVideo", TrackKind::Video))
        } else if c2 == '2' {
            Some(("V_REAL/RV20", "RealVideo", TrackKind::Video))
        } else if c2 == '3' {
            Some(("V_REAL/RV30", "RealVideo", TrackKind::Video))
        } else {
            Some(("V_REAL/RV40", "RealVideo", TrackKind::Video))
        }
    } else if starts_with3(k, 'A', 'A', 'C') {
        Some(("A_AAC", "AAC", TrackKind::Audio))
    } else if str_eq(k, "AC-3") || str_eq(k, "SAC3") || str_eq(k, "EAC3") || str_eq(k, "EC-3") || str_eq(k, "A52 ") || str_eq(k, "A52B") || str_eq(k, "DNET") || starts_with3(k, 'A', 'C', '3') {
        Some(("A_AC3", "AC-3", TrackKind::Audio))
    } else if starts_with3(k, 'D', 'T', 'S') && (c3 == ' ' || c3 == 'B' || c3 == 'C' || c3 == 'E' || c3 == 'H' || c3 == 'L') {
        Some(("A_DTS", "DTS", TrackKind::Audio))
    } else if starts_with3(k, 'M', 'P', '2') || str_eq(k, ".MP1") || str_eq(k, ".MP2") {
        Some(("A_MPEG/L2", "MP2", TrackKind::Audio))
    } else if starts_with3(k, 'M', 'P', '3') || str_eq(k, ".MP3") {
        Some(("A_MPEG/L3", "MP3", TrackKind::Audio))
    } else if starts_with3(k, 'P', 'C', 'M') {
        Some(("A_PCM/INT/LIT", "PCM", TrackKind::Audio))
    } else {
        None
    }
}

/// Whether `c` is an ASCII control character.
fn is_ascii_control(c: char) -> (r: bool)
    ensures
        r == ascii_control(c),
{
    (c as u32) < 0x20 || (c as u32) == 0x7F
}

/// `c` with an ASCII small letter raised.
fn ascii_upper(c: char) -> (r: char)
    ensures
        r == ascii_upper_char(c),
{
    if 'a' <= c && c <= 'z' {
        ((c as u8) - 32) as char
    } else {
        c
    }
}

/// The codec id, name and kind a registration FourCC names (see
/// [`fourcc_codec`]).
pub fn codec_for_fourcc(fourcc: &str) -> (r: Option<(&'static str, &'static str, TrackKind)>)
    ensures
        entry_view(r) == fourcc_codec(fourcc@),
{
    let n = fourcc.unicode_len();
    let mut key = String::new();
    let mut ascii = true;
    let mut i: usize = 0;
    while i < n
        invariant
            n == fourcc@.len(),
            i <= n,
            key@ == fourcc_key(fourcc@.subrange(0, i as int)),
            ascii == (forall|j: int| 0 <= j < key@.len() ==> (key@[j] as u32) < 0x80),
        decreases n - i,
    {
        let c = fourcc.get_char(i);
        proof {
            assert(fourcc@.subrange(0, i + 1).drop_last() =~= fourcc@.subrange(0, i as int));
        }
        if !is_ascii_control(c) {
            let u = ascii_upper(c);
            if (u as u32) >= 0x80 {
                ascii = false;
            }
            let ghost before = key@;
            push_char(&mut key, u);
            proof {
                assert(key@[before.len() as int] == u);
                assert(forall|j: int| 0 <= j < before.len() ==> key@[j] == before[j]);
            }
        }
        i = i + 1;
    }
    assert(fourcc@.subrange(0, n as int) =~= fourcc@);
    if !ascii || key.unicode_len() != 4 {
        return None;
    }
    let k = key.as_str();
    if let Some(e) = exact_video(k) {
        return Some(e);
    }
    if let Some(e) = exact_audio(k) {
        return Some(e);
    }
    if let Some(e) = exact_subtitle(k) {
        return Some(e);
    }
    family(k)
}

proof fn lemma_fourcc_key_lower(s: Seq<char>)
    ensures
        fourcc_key(ascii_lower(s)) == fourcc_key(s),
    decreases s.len(),
{
    if s.len() > 0 {
        let l = ascii_lower(s);
        assert(l.drop_last() =~= ascii_lower(s.drop_last()));
        lemma_fourcc_key_lower(s.drop_last());
        let c = s.last();
        assert(l.last() == ascii_lower_char(c));
        assert(ascii_control(ascii_lower_char(c)) == ascii_control(c));
        assert(ascii_upper_char(ascii_lower_char(c)) == ascii_upper_char(c));
    }
}

/// `s` with its ASCII small letters raised.
pub open spec fn ascii_upper_text(s: Seq<char>) -> Seq<char> {
    Seq::new(s.len(), |i: int| ascii_upper_char(s[i]))
}

proof fn lemma_fourcc_key_upper(s: Seq<char>)
    ensures
        fourcc_key(ascii_upper_text(s)) == fourcc_key(s),
    decreases s.len(),
{
    if s.len() > 0 {
        let u = ascii_upper_text(s);
        assert(u.drop_last() =~= ascii_upper_text(s.drop_last()));
        lemma_fourcc_key_upper(s.drop_last());
        let c = s.last();
        assert(u.last() == ascii_upper_char(c));
        assert(ascii_control(ascii_upper_char(c)) == ascii_control(c));
        assert(ascii_upper_char(ascii_upper_char(c)) == ascii_upper_char(c));
    }
}

/// The FourCC lookup ignores letter case: a FourCC names the same codec as
/// the same text with its ASCII capitals lowered and as the same text with
/// its ASCII small letters raised; and text that is not four characters
/// long once its ASCII control characters are dropped names no codec.
pub proof fn law_fourcc_case_insensitive(s: Seq<char>)
    ensures
        fourcc_codec(ascii_lower(s)) == fourcc_codec(s),
        fourcc_codec(ascii_upper_text(s)) == fourcc_codec(s),
        fourcc_key(s).len() != 4 ==> fourcc_codec(s) is None,
{
    lemma_fourcc_key_lower(s);
    lemma_fourcc_key_upper(s);
}

/// The codecs of Blu-ray stream coding types, entry by entry: 0x02 MPEG-1/2
/// video, 0x1B AVC, 0x24 HEVC, 0xEA VC-1, 0x80 LPCM, 0x81 AC-3, 0x82 0x85
/// 0x86 DTS, 0x83 TrueHD, 0x84 0x87 E-AC-3, 0x90 PGS, 0x92 text
/// subtitles; none otherwise.
pub proof fn law_hdmv_codecs(t: u8)
    ensures
        t == 0x02 ==> hdmv_codec_of(t) == Some(CodecView { kind: TrackKind::Video, id: "V_MPEG12"@, name: "MPEG-1/2"@ }),
        t == 0x1B ==> hdmv_codec_of(t) == Some(CodecView { kind: TrackKind::Video, id: "V_MPEG4/ISO/AVC"@, name: "AVC/H.264/MPEG-4p10"@ }),
        t == 0x24 ==> hdmv_codec_of(t) == Some(CodecView { kind: TrackKind::Video, id: "V_MPEGH/ISO/HEVC"@, name: "HEVC/H.265/MPEG-H"@ }),
        t == 0xEA ==> hdmv_codec_of(t) == Some(CodecView { kind: TrackKind::Video, id: "V_VC1"@, name: "VC-1"@ }),
        t == 0x80 ==> hdmv_codec_of(t) == Some(CodecView { kind: TrackKind::Audio, id: "A_PCM"@, name: "LPCM"@ }),
        t == 0x81 ==> hdmv_codec_of(t) == Some(CodecView { kind: TrackKind::Audio, id: "A_AC3"@, name: "AC-3"@ }),
        (t == 0x82 || t == 0x85 || t == 0x86) ==> hdmv_codec_of(t) == Some(CodecView { kind: TrackKind::Audio, id: "A_DTS"@, name: "DTS"@ }),
        t == 0x83 ==> hdmv_codec_of(t) == Some(CodecView { kind: TrackKind::Audio, id: "A_TRUEHD"@, name: "TrueHD"@ }),
        (t == 0x84 || t == 0x87) ==> hdmv_codec_of(t) == Some(CodecView { kind: TrackKind::Audio, id: "A_EAC3"@, name: "E-AC-3"@ }),
        t == 0x90 ==> hdmv_codec_of(t) == Some(CodecView { kind: TrackKind::Subtitle, id: "S_HDMV/PGS"@, name: "HDMV PGS"@ }),
        t == 0x92 ==> hdmv_codec_of(t) == Some(CodecView { kind: TrackKind::Subtitle, id: "S_HDMV/TEXTST"@, name: "HDMV Text Subtitles"@ }),
        hdmv_codec_of(t) is None <==> !(t == 0x02 || t == 0x1B || t == 0x24 || t == 0xEA || (0x80 <= t <= 0x87)
            || t == 0x90 || t == 0x92),
{
}

} // verus!
