//! `ftyp` (file type) box: major brand, minor version and the compatible
//! brands that follow to the end of the box.

use vstd::prelude::*;
use crate::source::{FileSource, ParseError, be32};
use crate::model::ContainerFormat;
use crate::text::{str_eq, push_char};
use super::atom::{BoxHeader, lossy_chars, payload_or_zero};

verus! {

/// Brands of a `ftyp` box, each rendered with `?` for non-printable bytes.
#[derive(Debug)]
pub struct FileType {
    pub major_brand: String,
    pub minor_version: u32,
    pub compatible_brands: Vec<String>,
}

/// The QuickTime brand.
pub open spec fn qt_brand() -> Seq<char> {
    "qt  "@
}

/// Brands recognised as belonging to the MP4 family.
pub open spec fn is_mp4_brand_spec(b: Seq<char>) -> bool {
    ||| b == "isom"@ ||| b == "iso2"@ ||| b == "iso3"@ ||| b == "iso4"@ ||| b == "iso5"@
    ||| b == "iso6"@ ||| b == "iso7"@ ||| b == "iso8"@ ||| b == "iso9"@ ||| b == "mp41"@
    ||| b == "mp42"@ ||| b == "mp4v"@ ||| b == "M4V "@ ||| b == "M4A "@ ||| b == "M4P "@
    ||| b == "M4B "@ ||| b == "avc1"@ ||| b == "av01"@ ||| b == "dby1"@ ||| b == "mp71"@
    ||| b == "msdh"@ ||| b == "msix"@ ||| b == "f4v "@ ||| b == "MSNV"@ ||| b == "iml1"@
    ||| b == "iml2"@
}

impl FileType {
    /// Some compatible brand is the QuickTime brand.
    pub open spec fn has_qt_compatible(&self) -> bool {
        exists|i: int| 0 <= i < self.compatible_brands@.len() && #[trigger] self.compatible_brands@[i]@ == qt_brand()
    }

    /// Classify the brand set: QuickTime when the major brand or any
    /// compatible brand is `qt  `, MP4 otherwise (an MP4-family brand and an
    /// unrecognised brand list both give MP4).
    pub fn classify(&self) -> (r: ContainerFormat)
        ensures
            r == if self.major_brand@ == qt_brand() || self.has_qt_compatible() {
                ContainerFormat::QuickTime
            } else {
                ContainerFormat::Mp4
            },
    {
        if str_eq(self.major_brand.as_str(), "qt  ") {
            return ContainerFormat::QuickTime;
        }
        let mut i: usize = 0;
        while i < self.compatible_brands.len()
            invariant
                i <= self.compatible_brands@.len(),
                forall|j: int| 0 <= j < i ==> #[trigger] self.compatible_brands@[j]@ != qt_brand(),
            decreases self.compatible_brands.len() - i,
        {
            if str_eq(self.compatible_brands[i].as_str(), "qt  ") {
                return ContainerFormat::QuickTime;
            }
            i = i + 1;
        }
        if is_mp4_brand(self.major_brand.as_str()) {
            return ContainerFormat::Mp4;
        }
        let mut k: usize = 0;
        while k < self.compatible_brands.len()
            invariant
                k <= self.compatible_brands@.len(),
                self.major_brand@ != qt_brand(),
                forall|j: int| 0 <= j < self.compatible_brands@.len() ==> #[trigger] self.compatible_brands@[j]@ != qt_brand(),
            decreases self.compatible_brands.len() - k,
        {
            if is_mp4_brand(self.compatible_brands[k].as_str()) {
                return ContainerFormat::Mp4;
            }
            k = k + 1;
        }
        ContainerFormat::Mp4
    }
}

/// `true` for the recognised MP4-family brands.
pub fn is_mp4_brand(brand: &str) -> (r: bool)
    ensures
        r == is_mp4_brand_spec(brand@),
{
    str_eq(brand, "isom") || str_eq(brand, "iso2") || str_eq(brand, "iso3") || str_eq(brand, "iso4")
        || str_eq(brand, "iso5") || str_eq(brand, "iso6") || str_eq(brand, "iso7") || str_eq(brand, "iso8")
        || str_eq(brand, "iso9") || str_eq(brand, "mp41") || str_eq(brand, "mp42") || str_eq(brand, "mp4v")
        || str_eq(brand, "M4V ") || str_eq(brand, "M4A ") || str_eq(brand, "M4P ") || str_eq(brand, "M4B ")
        || str_eq(brand, "avc1") || str_eq(brand, "av01") || str_eq(brand, "dby1") || str_eq(brand, "mp71")
        || str_eq(brand, "msdh") || str_eq(brand, "msix") || str_eq(brand, "f4v ") || str_eq(brand, "MSNV")
        || str_eq(brand, "iml1") || str_eq(brand, "iml2")
}

/// A brand as text, `?` standing for each non-printable byte.
pub fn bytes_to_brand(b: &[u8; 4]) -> (s: String)
    ensures
        s@ == lossy_chars(b@),
{
    let mut s = String::new();
    let mut i: usize = 0;
    while i < 4
        invariant
            i <= 4,
            b@.len() == 4,
            s@ == lossy_chars(b@.subrange(0, i as int)),
        decreases 4 - i,
    {
        let x = b[i];
        let c = if 0x20 <= x && x <= 0x7E {
            x as char
        } else {
            '?'
        };
        push_char(&mut s, c);
        i = i + 1;
        assert(s@ =~= lossy_chars(b@.subrange(0, i as int)));
    }
    assert(b@.subrange(0, 4) =~= b@);
    s
}

/// Offset of the first read that crosses the end of `len` bytes when the
/// payload of `size` bytes at `p` is read in 4-byte chunks plus a final
/// shorter chunk.
pub open spec fn chunked_eof_offset(p: int, size: int, len: int) -> int {
    let avail = if len > p { len - p } else { 0 };
    p + 4 * if avail / 4 < size / 4 { avail / 4 } else { size / 4 }
}

/// `ft` holds what the `ftyp` payload at `p` of `size` bytes says.
pub open spec fn ftyp_matches(bytes: Seq<u8>, p: int, size: int, ft: FileType) -> bool {
    &&& ft.major_brand@ == lossy_chars(bytes.subrange(p, p + 4))
    &&& ft.minor_version == be32(bytes, p + 4)
    &&& ft.compatible_brands@.len() == (size - 8) / 4
    &&& forall|i: int| 0 <= i < (size - 8) / 4 ==> (#[trigger] ft.compatible_brands@[i])@ == lossy_chars(
        bytes.subrange(p + 8 + 4 * i, p + 12 + 4 * i),
    )
}

/// Read the `ftyp` payload from the cursor, which must stand at the payload
/// start.  Fails with `Malformed` when the payload is shorter than 8 bytes
/// and with `UnexpectedEof` when the data ends inside it; on success the
/// cursor ends at the payload end.
pub fn parse(src: &mut FileSource, header: &BoxHeader) -> (r: Result<FileType, ParseError>)
    ensures
        final(src).bytes() == old(src).bytes(),
        ({
            let size = payload_or_zero(header@);
            let p = old(src).pos();
            let bytes = old(src).bytes();
            if size < 8 {
                r == Err::<FileType, ParseError>(ParseError::Malformed { offset: header.start })
            } else if p + size > bytes.len() {
                r == Err::<FileType, ParseError>(
                    ParseError::UnexpectedEof { offset: chunked_eof_offset(p, size, bytes.len() as int) as u64 },
                )
            } else {
                &&& r matches Ok(ft) && ftyp_matches(bytes, p, size, ft)
                &&& final(src).pos() == p + size
            }
        }),
{
    let payload = match header.payload_size() {
        Some(s) => s,
        None => 0,
    };
    if payload < 8 {
        return Err(ParseError::Malformed { offset: header.start });
    }
    let ghost p = src.pos();
    let ghost bytes = src.bytes();
    let major_bytes = match src.read_array4() {
        Ok(b) => b,
        Err(e) => return Err(e),
    };
    let minor_version = match src.read_u32_be() {
        Ok(v) => v,
        Err(e) => return Err(e),
    };
    let mut compatible: Vec<String> = Vec::new();
    let mut consumed: u64 = 8;
    while consumed <= payload - 4
        invariant
            8 <= consumed <= payload,
            payload == payload_or_zero(header@),
            consumed % 4 == 0,
            src.bytes() == bytes,
            bytes == old(src).bytes(),
            p == old(src).pos(),
            src.pos() == p + consumed,
            p + consumed <= bytes.len(),
            compatible@.len() == (consumed - 8) / 4,
            forall|i: int| 0 <= i < (consumed - 8) / 4 ==> (#[trigger] compatible@[i])@ == lossy_chars(
                bytes.subrange(p + 8 + 4 * i, p + 12 + 4 * i),
            ),
        decreases payload - consumed,
    {
        let b = match src.read_array4() {
            Ok(b) => b,
            Err(e) => {
                proof {
                    let avail = bytes.len() - p;
                    assert(avail / 4 == consumed / 4);
                }
                return Err(e);
            },
        };
        compatible.push(bytes_to_brand(&b));
        consumed = consumed + 4;
    }
    if consumed < payload {
        let pad = payload - consumed;
        match src.skip(pad) {
            Ok(()) => {},
            Err(e) => {
                proof {
                    let avail = bytes.len() - p;
                    assert(avail / 4 >= payload / 4);
                }
                return Err(e);
            },
        }
    }
    Ok(FileType { major_brand: bytes_to_brand(&major_bytes), minor_version, compatible_brands: compatible })
}

} // verus!
