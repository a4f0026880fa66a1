//! Data model the parsers fill in: track, container and metadata properties.

use vstd::prelude::*;
use vstd::arithmetic::power2::{pow2, lemma2_to64, lemma2_to64_rest, lemma_pow2_unfold, lemma_pow2_strictly_increases};

verus! {

/// Width × height in pixels.
#[derive(Debug, Clone, Copy, PartialEq, Eq, Structural)]
pub struct Dimensions2D {
    pub width: u32,
    pub height: u32,
}

/// Sampling frequency of an audio track.  Integer rates are held as `Hz`;
/// a 16.16 fixed-point rate with a fractional part keeps its raw value; a
/// rate given as an IEEE-754 double that is not a whole number of hertz in
/// `u32` range keeps its bit pattern.
#[derive(Debug, Clone, Copy, PartialEq, Eq, Structural)]
pub enum SampleRate {
    Hz(u32),
    Fixed16(u32),
    Float64Bits(u64),
}

/// The rate a 16.16 fixed-point value `raw` stands for: whole hertz when
/// the fraction is zero, the raw value otherwise.
pub open spec fn fixed16_rate(raw: u32) -> SampleRate {
    if raw % 65536 == 0 {
        SampleRate::Hz(raw / 65536)
    } else {
        SampleRate::Fixed16(raw)
    }
}

/// The IEEE-754 double with bit pattern `bits` is greater than zero (not
/// negative, not zero, not NaN).
pub open spec fn f64_positive(bits: u64) -> bool {
    0 < bits <= 0x7FF0_0000_0000_0000
}

/// The whole number in `1..2^32` that the double with bit pattern `bits`
/// equals exactly, if it is one: with exponent field `e` and fraction `m`,
/// the value is `(2^52 + m) / 2^(1075 - e)`.
pub open spec fn f64_whole(bits: u64) -> Option<u32> {
    let e = (bits / 0x10_0000_0000_0000) % 2048;
    let m = bits % 0x10_0000_0000_0000;
    if bits >= 0x8000_0000_0000_0000 || e < 1023 || e > 1054 {
        None
    } else {
        let d = pow2((1075 - e) as nat) as int;
        let full = 0x10_0000_0000_0000 + m;
        if full % d == 0 {
            Some((full / d) as u32)
        } else {
            None
        }
    }
}

/// The rate of a positive double with bit pattern `bits`: whole hertz when
/// it is one, the bit pattern otherwise.
pub open spec fn f64_rate(bits: u64) -> SampleRate {
    match f64_whole(bits) {
        Some(n) => SampleRate::Hz(n),
        None => SampleRate::Float64Bits(bits),
    }
}

impl SampleRate {
    /// The rate of a 16.16 fixed-point value (see [`fixed16_rate`]).
    pub fn from_fixed16(raw: u32) -> (r: SampleRate)
        ensures
            r == fixed16_rate(raw),
    {
        if raw % 65536 == 0 {
            SampleRate::Hz(raw / 65536)
        } else {
            SampleRate::Fixed16(raw)
        }
    }

    /// The rate of a positive double given by its bit pattern (see
    /// [`f64_rate`]).
    pub fn from_f64_bits(bits: u64) -> (r: SampleRate)
        ensures
            r == f64_rate(bits),
    {
        let e = (bits / 0x10_0000_0000_0000) % 2048;
        let m = bits % 0x10_0000_0000_0000;
        if bits >= 0x8000_0000_0000_0000 || e < 1023 || e > 1054 {
            return SampleRate::Float64Bits(bits);
        }
        let shift = 1075 - e;
        proof {
            lemma2_to64();
            lemma2_to64_rest();
        }
        let mut d: u64 = 1;
        let mut i: u64 = 0;
        while i < shift
            invariant
                i <= shift <= 52,
                d == pow2(i as nat),
                pow2(52) == 0x10_0000_0000_0000,
            decreases shift - i,
        {
            proof {
                lemma_pow2_unfold((i + 1) as nat);
                if i + 1 < 52 {
                    lemma_pow2_strictly_increases((i + 1) as nat, 52);
                }
            }
            d = d * 2;
            i = i + 1;
        }
        let full = 0x10_0000_0000_0000 + m;
        if full % d == 0 {
            proof {
                if shift > 21 {
                    lemma_pow2_strictly_increases(21, shift as nat);
                }
                assert(full / d <= full / 0x20_0000) by {
                    vstd::arithmetic::div_mod::lemma_div_is_ordered_by_denominator(full as int, 0x20_0000, d as int);
                }
            }
            SampleRate::Hz((full / d) as u32)
        } else {
            SampleRate::Float64Bits(bits)
        }
    }
}

/// Colour range signalled by a colour information box.
#[derive(Debug, Clone, Copy, PartialEq, Eq, Structural)]
pub enum ColorRange {
    Broadcast,
    Full,
}

/// Chroma subsampling of a video stream.
#[derive(Debug, Clone, Copy, PartialEq, Eq, Structural)]
pub enum ChromaFormat {
    Monochrome,
    Yuv420,
    Yuv422,
    Yuv444,
    Other,
}

/// HEVC tier.
#[derive(Debug, Clone, Copy, PartialEq, Eq, Structural)]
pub enum HevcTier {
    Main,
    High,
}

/// Pixel aspect ratio.
#[derive(Debug, Clone, Copy, PartialEq, Eq, Structural)]
pub struct SampleAspectRatio {
    pub num: u32,
    pub den: u32,
}

/// Track type derived from a handler.
#[derive(Debug, Clone, Copy, PartialEq, Eq, Structural)]
pub enum TrackType {
    Video,
    Audio,
    Subtitles,
    Buttons,
    Unknown,
}

/// Container format.
#[derive(Debug, Clone, Copy, PartialEq, Eq, Structural)]
pub enum ContainerFormat {
    Unknown,
    Mp4,
    QuickTime,
    MpegPs,
    MpegTs,
}

/// Colour description of a video track.
#[derive(Debug)]
pub struct ColorMetadata {
    pub bits_per_channel: Option<u32>,
    pub primaries: Option<u32>,
    pub transfer_characteristics: Option<u32>,
    pub matrix_coefficients: Option<u32>,
    pub range: Option<ColorRange>,
}

impl ColorMetadata {
    pub open spec fn is_empty(&self) -> bool {
        &&& self.bits_per_channel is None
        &&& self.primaries is None
        &&& self.transfer_characteristics is None
        &&& self.matrix_coefficients is None
        &&& self.range is None
    }
}

impl Default for ColorMetadata {
    fn default() -> (c: Self)
        ensures
            c.is_empty(),
    {
        ColorMetadata {
            bits_per_channel: None,
            primaries: None,
            transfer_characteristics: None,
            matrix_coefficients: None,
            range: None,
        }
    }
}


/// Decoded configuration record of a video codec (avcC, hvcC, av1C, pasp).
#[derive(Debug)]
pub struct VideoCodecConfig {
    pub profile_idc: Option<u32>,
    pub profile_name: Option<String>,
    pub level_idc: Option<u32>,
    pub level_name: Option<String>,
    pub tier: Option<HevcTier>,
    pub chroma_format: Option<ChromaFormat>,
    pub bit_depth_luma: Option<u32>,
    pub bit_depth_chroma: Option<u32>,
    pub raw_hex: Option<String>,
    pub is_elementary_stream: Option<bool>,
    pub sample_aspect_ratio: Option<SampleAspectRatio>,
}

impl VideoCodecConfig {
    pub open spec fn is_empty(&self) -> bool {
        &&& self.profile_idc is None
        &&& self.profile_name is None
        &&& self.level_idc is None
        &&& self.level_name is None
        &&& self.tier is None
        &&& self.chroma_format is None
        &&& self.bit_depth_luma is None
        &&& self.bit_depth_chroma is None
        &&& self.raw_hex is None
        &&& self.is_elementary_stream is None
        &&& self.sample_aspect_ratio is None
    }
}

impl Default for VideoCodecConfig {
    fn default() -> (c: Self)
        ensures
            c.is_empty(),
    {
        VideoCodecConfig {
            profile_idc: None,
            profile_name: None,
            level_idc: None,
            level_name: None,
            tier: None,
            chroma_format: None,
            bit_depth_luma: None,
            bit_depth_chroma: None,
            raw_hex: None,
            is_elementary_stream: None,
            sample_aspect_ratio: None,
        }
    }
}

/// A block-addition mapping carried by a video track (Dolby Vision boxes).
#[derive(Debug)]
pub struct BlockAdditionMapping {
    pub id_type: String,
    pub data_hex: String,
}

/// Orientation of a video track from its combined display matrices: the
/// yaw (0 or 180 degrees) and the cells `[1][0]` and `[1][1]` of the
/// combined matrix (16.16 fixed point), whose angle is the roll.
#[derive(Debug, Clone, Copy, PartialEq, Eq, Structural)]
pub struct DisplayOrientation {
    pub yaw_degrees: u32,
    pub m10: i64,
    pub m11: i64,
}

/// Video properties of a track.
#[derive(Debug)]
pub struct VideoTrackProperties {
    pub pixel_dimensions: Option<Dimensions2D>,
    pub display_dimensions: Option<Dimensions2D>,
    pub color: Option<ColorMetadata>,
    pub codec_config: Option<VideoCodecConfig>,
    pub rotation_degrees: Option<u32>,
    pub flipped: Option<bool>,
    pub default_duration_ns: Option<u64>,
    pub block_addition_mappings: Vec<BlockAdditionMapping>,
    pub orientation: Option<DisplayOrientation>,
}

impl VideoTrackProperties {
    pub open spec fn is_empty(&self) -> bool {
        &&& self.pixel_dimensions is None
        &&& self.display_dimensions is None
        &&& self.color is None
        &&& self.codec_config is None
        &&& self.rotation_degrees is None
        &&& self.flipped is None
        &&& self.default_duration_ns is None
        &&& self.block_addition_mappings@.len() == 0
        &&& self.orientation is None
    }
}

impl Default for VideoTrackProperties {
    fn default() -> (v: Self)
        ensures
            v.is_empty(),
    {
        VideoTrackProperties {
            pixel_dimensions: None,
            display_dimensions: None,
            color: None,
            codec_config: None,
            rotation_degrees: None,
            flipped: None,
            default_duration_ns: None,
            block_addition_mappings: Vec::new(),
            orientation: None,
        }
    }
}

/// Decoded audio codec configuration (esds).
#[derive(Debug)]
pub struct AudioCodecConfig {
    pub raw_hex: Option<String>,
    pub profile_name: Option<String>,
    pub aac_object_type: Option<u32>,
}

impl AudioCodecConfig {
    pub open spec fn is_empty(&self) -> bool {
        &&& self.raw_hex is None
        &&& self.profile_name is None
        &&& self.aac_object_type is None
    }
}

impl Default for AudioCodecConfig {
    fn default() -> (c: Self)
        ensures
            c.is_empty(),
    {
        AudioCodecConfig { raw_hex: None, profile_name: None, aac_object_type: None }
    }
}

/// Audio properties of a track.
#[derive(Debug)]
pub struct AudioTrackProperties {
    pub channels: Option<u32>,
    pub sampling_frequency: Option<SampleRate>,
    pub output_sampling_frequency: Option<SampleRate>,
    pub bit_depth: Option<u32>,
    pub codec_config: Option<AudioCodecConfig>,
}

impl AudioTrackProperties {
    pub open spec fn is_empty(&self) -> bool {
        &&& self.channels is None
        &&& self.sampling_frequency is None
        &&& self.output_sampling_frequency is None
        &&& self.bit_depth is None
        &&& self.codec_config is None
    }
}

impl Default for AudioTrackProperties {
    fn default() -> (a: Self)
        ensures
            a.is_empty(),
    {
        AudioTrackProperties {
            channels: None,
            sampling_frequency: None,
            output_sampling_frequency: None,
            bit_depth: None,
            codec_config: None,
        }
    }
}

/// One `name = value` tag.
#[derive(Debug)]
pub struct TagEntry {
    pub name: String,
    pub value: String,
    pub language: Option<String>,
}

/// A file attached to the container (cover art).
#[derive(Debug)]
pub struct Attachment {
    pub id: u32,
    pub file_name: String,
    pub mime_type: Option<String>,
    pub size: u64,
}

/// A program of a transport stream.
#[derive(Debug)]
pub struct Program {
    pub program_number: u32,
    pub pmt_pid: Option<u32>,
    pub service_name: Option<String>,
    pub service_provider: Option<String>,
    /// Ids of the program's tracks.
    pub track_ids: Vec<i64>,
}

/// Container-level properties.
#[derive(Debug)]
pub struct ContainerProperties {
    pub title: Option<String>,
    pub muxing_app: Option<String>,
    pub movie_timescale: Option<u32>,
    pub duration_ns: Option<u64>,
    pub is_fragmented: Option<bool>,
    pub major_brand: Option<String>,
    pub compatible_brands: Vec<String>,
    pub programs: Vec<Program>,
}

impl ContainerProperties {
    pub open spec fn is_empty(&self) -> bool {
        &&& self.title is None
        &&& self.muxing_app is None
        &&& self.movie_timescale is None
        &&& self.duration_ns is None
        &&& self.is_fragmented is None
        &&& self.major_brand is None
        &&& self.compatible_brands@.len() == 0
        &&& self.programs@.len() == 0
    }
}

impl Default for ContainerProperties {
    fn default() -> (p: Self)
        ensures
            p.is_empty(),
    {
        ContainerProperties {
            title: None,
            muxing_app: None,
            movie_timescale: None,
            duration_ns: None,
            is_fragmented: None,
            major_brand: None,
            compatible_brands: Vec::new(),
            programs: Vec::new(),
        }
    }
}

/// Codec private data as hexadecimal text, with its length in bytes.
#[derive(Debug)]
pub struct CodecPrivate {
    pub length: u64,
    pub hex: String,
}

/// Codec of a track: its id, display name and private data.
#[derive(Debug)]
pub struct CodecInfo {
    pub id: String,
    pub name: Option<String>,
    pub codec_private: Option<CodecPrivate>,
}

/// Subtitle properties of a track.
#[derive(Debug)]
pub struct SubtitleTrackProperties {
    pub text_subtitles: bool,
    pub encoding: Option<String>,
    pub variant: Option<String>,
    pub teletext_page: Option<u32>,
}

/// Properties every track can have.
#[derive(Debug)]
pub struct CommonTrackProperties {
    pub number: Option<u64>,
    pub track_name: Option<String>,
    /// ISO 639-2 language code.
    pub language: Option<String>,
    pub enabled: Option<bool>,
    pub num_index_entries: Option<u64>,
    pub stream_id: Option<u32>,
    pub sub_stream_id: Option<u32>,
    pub program_number: Option<u32>,
    pub teletext_page: Option<u32>,
    pub hearing_impaired: Option<bool>,
}

impl CommonTrackProperties {
    pub open spec fn is_empty(&self) -> bool {
        &&& self.number is None
        &&& self.track_name is None
        &&& self.language is None
        &&& self.enabled is None
        &&& self.num_index_entries is None
        &&& self.stream_id is None
        &&& self.sub_stream_id is None
        &&& self.program_number is None
        &&& self.teletext_page is None
        &&& self.hearing_impaired is None
    }
}

impl Default for CommonTrackProperties {
    fn default() -> (c: Self)
        ensures
            c.is_empty(),
    {
        CommonTrackProperties {
            number: None,
            track_name: None,
            language: None,
            enabled: None,
            num_index_entries: None,
            stream_id: None,
            sub_stream_id: None,
            program_number: None,
            teletext_page: None,
            hearing_impaired: None,
        }
    }
}

/// All properties of a track.
#[derive(Debug)]
pub struct TrackProperties {
    pub common: CommonTrackProperties,
    pub tags: Vec<TagEntry>,
    pub video: Option<VideoTrackProperties>,
    pub audio: Option<AudioTrackProperties>,
    pub subtitle: Option<SubtitleTrackProperties>,
}

/// One track of the file.
#[derive(Debug)]
pub struct Track {
    pub id: i64,
    pub track_type: TrackType,
    pub codec: CodecInfo,
    pub properties: TrackProperties,
}

/// Chapter summary.
#[derive(Debug, Clone, Copy, PartialEq, Eq, Structural)]
pub struct Chapters {
    pub num_entries: u32,
    pub num_editions: u32,
}

/// Metadata collected for one file: container properties, global tags,
/// chapters and attachments.
#[derive(Debug)]
pub struct MediaMetadata {
    pub format: ContainerFormat,
    pub properties: ContainerProperties,
    pub recognized: bool,
    pub supported: bool,
    pub global_tags: Vec<TagEntry>,
    pub chapters: Chapters,
    pub attachments: Vec<Attachment>,
    pub tracks: Vec<Track>,
    /// Number of tags over all tracks.
    pub per_track_tag_count: u32,
}

impl MediaMetadata {
    pub open spec fn is_empty(&self) -> bool {
        &&& self.format == ContainerFormat::Unknown
        &&& self.properties.is_empty()
        &&& !self.recognized
        &&& !self.supported
        &&& self.global_tags@.len() == 0
        &&& self.chapters == Chapters { num_entries: 0, num_editions: 0 }
        &&& self.attachments@.len() == 0
        &&& self.tracks@.len() == 0
        &&& self.per_track_tag_count == 0
    }

    /// Empty metadata: unknown format, no properties, tags, chapters or
    /// attachments.
    pub fn new() -> (m: Self)
        ensures
            m.is_empty(),
    {
        MediaMetadata {
            format: ContainerFormat::Unknown,
            properties: ContainerProperties::default(),
            recognized: false,
            supported: false,
            global_tags: Vec::new(),
            chapters: Chapters { num_entries: 0, num_editions: 0 },
            attachments: Vec::new(),
            tracks: Vec::new(),
            per_track_tag_count: 0,
        }
    }
}

} // verus!
