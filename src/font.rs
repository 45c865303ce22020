//! Header decoding of both font generations.
use vstd::prelude::*;

use crate::table::{
    entries_view, lemma_skipping_scan_succeeds, parse_utf16_table, parse_utf8_table,
    utf16_decoder, utf16_markers, utf16_table, utf16_units, utf8_decoder, utf8_markers,
    utf8_table, DecodePolicy, EntryModel, TableEntry,
};
use crate::verilog::{render_verilog, verilog_text};

verus! {

/// The generation of a font file, which fixes its layout.
#[derive(Clone, Copy, Debug, PartialEq, Eq, Structural)]
pub enum Version {
    PSF1,
    PSF2,
}

/// Why a font could not be read.
#[derive(Clone, Copy, Debug, PartialEq, Eq, Structural)]
pub enum ParseError {
    /// The input ends inside the header or the bitmap.
    UnexpectedEof,
    /// The magic bytes belong to neither generation.
    UnrecognizedFormat,
    /// A second-generation header version above the supported one.
    UnsupportedHeaderVersion,
    /// A mapping-table buffer is not valid text for the generation.
    TableDecodeFailure,
}

pub const PSF1_MAGIC0: u8 = 0x36;
pub const PSF1_MAGIC1: u8 = 0x04;
pub const PSF1_MODE512: u8 = 0x01;
pub const PSF1_MODEHASTAB: u8 = 0x02;
pub const PSF1_MODEHASSEQ: u8 = 0x04;
pub const PSF2_MAXVERSION: u32 = 0;
pub const PSF2_HASUNICODETABLE: u32 = 0x01;
pub const PSF2_HEADER_LEN: u32 = 32;

/// A parsed font.
pub struct PSF {
    pub version: Version,
    /// Bytes per glyph.
    pub charsize: u32,
    pub height: u32,
    pub width: u32,
    /// Number of glyphs.
    pub length: u32,
    /// `length` glyphs of `charsize` bytes, in file order.
    pub bitmap: Vec<u8>,
    /// One entry per glyph record of the mapping table, where there is one.
    pub table: Option<Vec<TableEntry>>,
}

pub struct FontModel {
    pub version: Version,
    pub charsize: u32,
    pub height: u32,
    pub width: u32,
    pub length: u32,
    pub bitmap: Seq<u8>,
    pub table: Option<Seq<EntryModel>>,
}

impl View for PSF {
    type V = FontModel;

    open spec fn view(&self) -> FontModel {
        FontModel {
            version: self.version,
            charsize: self.charsize,
            height: self.height,
            width: self.width,
            length: self.length,
            bitmap: self.bitmap@,
            table: match self.table {
                Some(t) => Some(entries_view(t@)),
                None => None,
            },
        }
    }
}

/// The little-endian 32-bit integer at byte `at`.
pub open spec fn le_u32(b: Seq<u8>, at: int) -> u32 {
    (b[at] as int + 256 * b[at + 1] as int + 65536 * b[at + 2] as int + 16777216 * b[at
        + 3] as int) as u32
}

/// The bytes from `k` on; none where `k` lies past the end.
pub open spec fn tail(b: Seq<u8>, k: int) -> Seq<u8> {
    if k <= b.len() {
        b.subrange(k, b.len() as int)
    } else {
        seq![]
    }
}

/// Entries of a mapping table of the given generation.
pub open spec fn table_of(table: Seq<u8>, version: Version, policy: DecodePolicy) -> Option<
    Seq<EntryModel>,
> {
    match version {
        Version::PSF1 => utf16_table(table, policy),
        Version::PSF2 => utf8_table(table, policy),
    }
}

pub open spec fn is_psf1(b: Seq<u8>) -> bool {
    b.len() >= 4 && b[0] == PSF1_MAGIC0 && b[1] == PSF1_MAGIC1
}

pub open spec fn is_psf2(b: Seq<u8>) -> bool {
    b.len() >= 4 && b[0] == 0x72 && b[1] == 0xb5 && b[2] == 0x4a && b[3] == 0x86
}

pub open spec fn psf1_length(b: Seq<u8>) -> u32 {
    if b[2] & PSF1_MODE512 != 0 {
        512
    } else {
        256
    }
}

pub open spec fn psf1_bitmap_end(b: Seq<u8>) -> int {
    4 + b[3] * psf1_length(b)
}

pub open spec fn psf1_has_table(b: Seq<u8>) -> bool {
    b[2] & (PSF1_MODEHASTAB | PSF1_MODEHASSEQ) != 0
}

/// A first-generation file: a 4-byte header, the bitmap, then the table
/// where the mode asks for one.
pub open spec fn parse_psf1(b: Seq<u8>) -> Result<FontModel, ParseError> {
    let end = psf1_bitmap_end(b);
    if end > b.len() {
        Err(ParseError::UnexpectedEof)
    } else {
        let font = FontModel {
            version: Version::PSF1,
            charsize: b[3] as u32,
            height: b[3] as u32,
            width: 8,
            length: psf1_length(b),
            bitmap: b.subrange(4, end),
            table: None,
        };
        if !psf1_has_table(b) {
            Ok(font)
        } else {
            match utf16_table(b.subrange(end, b.len() as int), DecodePolicy::Abort) {
                Some(t) => Ok(FontModel { table: Some(t), ..font }),
                None => Err(ParseError::TableDecodeFailure),
            }
        }
    }
}

pub open spec fn psf2_header_size(b: Seq<u8>) -> u32 {
    le_u32(b, 8)
}

/// Where the bitmap of a second-generation file begins: at the declared
/// header size, or right after the fixed fields where that size is too small.
pub open spec fn psf2_bitmap_start(b: Seq<u8>) -> int {
    if psf2_header_size(b) >= PSF2_HEADER_LEN {
        psf2_header_size(b) as int
    } else {
        PSF2_HEADER_LEN as int
    }
}

pub open spec fn psf2_bitmap_len(b: Seq<u8>) -> int {
    le_u32(b, 20) * le_u32(b, 16)
}

pub open spec fn psf2_bitmap_end(b: Seq<u8>) -> int {
    psf2_bitmap_start(b) + psf2_bitmap_len(b)
}

/// Whether the whole bitmap is there; reading no bytes never fails.
pub open spec fn psf2_bitmap_present(b: Seq<u8>) -> bool {
    psf2_bitmap_len(b) == 0 || psf2_bitmap_end(b) <= b.len()
}

pub open spec fn psf2_has_table(b: Seq<u8>) -> bool {
    le_u32(b, 12) & PSF2_HASUNICODETABLE != 0
}

pub open spec fn psf2_table(b: Seq<u8>) -> Option<Seq<EntryModel>> {
    utf8_table(tail(b, psf2_bitmap_end(b)), DecodePolicy::Abort)
}

/// A second-generation file: magic, seven little-endian fields (version,
/// header size, flags, glyph count, glyph size, height, width), the bitmap at
/// the header size, then the table where the flags ask for one. The version
/// is checked last.
pub open spec fn parse_psf2(b: Seq<u8>) -> Result<FontModel, ParseError> {
    if b.len() < PSF2_HEADER_LEN {
        Err(ParseError::UnexpectedEof)
    } else if !psf2_bitmap_present(b) {
        Err(ParseError::UnexpectedEof)
    } else if psf2_has_table(b) && psf2_table(b) is None {
        Err(ParseError::TableDecodeFailure)
    } else if le_u32(b, 4) > PSF2_MAXVERSION {
        Err(ParseError::UnsupportedHeaderVersion)
    } else {
        Ok(
            FontModel {
                version: Version::PSF2,
                charsize: le_u32(b, 20),
                height: le_u32(b, 24),
                width: le_u32(b, 28),
                length: le_u32(b, 16),
                bitmap: if psf2_bitmap_len(b) == 0 {
                    seq![]
                } else {
                    b.subrange(psf2_bitmap_start(b), psf2_bitmap_end(b))
                },
                table: if psf2_has_table(b) {
                    psf2_table(b)
                } else {
                    None
                },
            },
        )
    }
}

/// What a font file's bytes hold.
pub open spec fn parse_font(b: Seq<u8>) -> Result<FontModel, ParseError> {
    if b.len() < 4 {
        Err(ParseError::UnexpectedEof)
    } else if is_psf1(b) {
        parse_psf1(b)
    } else if is_psf2(b) {
        parse_psf2(b)
    } else {
        Err(ParseError::UnrecognizedFormat)
    }
}

fn read_le_u32(b: &[u8], at: usize) -> (r: u32)
    requires
        at + 4 <= b@.len(),
    ensures
        r == le_u32(b@, at as int),
{
    b[at] as u32 + (b[at + 1] as u32) * 256 + (b[at + 2] as u32) * 65536 + (b[at + 3] as u32)
        * 16777216
}

fn copy_range(b: &[u8], from: usize, to: usize) -> (r: Vec<u8>)
    requires
        from <= to <= b@.len(),
    ensures
        r@ == b@.subrange(from as int, to as int),
{
    let mut r: Vec<u8> = Vec::new();
    let mut k: usize = from;
    while k < to
        invariant
            from <= k <= to <= b@.len(),
            r@ == b@.subrange(from as int, k as int),
        decreases to - k,
    {
        r.push(b[k]);
        k = k + 1;
        assert(r@ =~= b@.subrange(from as int, k as int));
    }
    r
}

impl PSF {
    /// Decodes a mapping table of the given generation; a buffer that is not
    /// valid text fails the whole table.
    pub fn parse_table(table: &[u8], version: &Version) -> (r: Result<Vec<TableEntry>, ParseError>)
        ensures
            match r {
                Ok(v) => table_of(table@, *version, DecodePolicy::Abort) == Some(entries_view(v@)),
                Err(e) => e == ParseError::TableDecodeFailure && table_of(
                    table@,
                    *version,
                    DecodePolicy::Abort,
                ) is None,
            },
    {
        Self::parse_table_with(table, version, DecodePolicy::Abort)
    }

    /// Decodes a mapping table of the given generation, treating a buffer
    /// that is not valid text as the policy says.
    pub fn parse_table_with(table: &[u8], version: &Version, policy: DecodePolicy) -> (r: Result<
        Vec<TableEntry>,
        ParseError,
    >)
        ensures
            match r {
                Ok(v) => table_of(table@, *version, policy) == Some(entries_view(v@)),
                Err(e) => e == ParseError::TableDecodeFailure && table_of(table@, *version, policy) is None,
            },
            policy == DecodePolicy::SkipEntry ==> r is Ok,
    {
        proof {
            lemma_skipping_scan_succeeds(utf16_units(table@), utf16_markers(), utf16_decoder());
            lemma_skipping_scan_succeeds(table@, utf8_markers(), utf8_decoder());
        }
        let decoded = match version {
            Version::PSF1 => parse_utf16_table(table, policy),
            Version::PSF2 => parse_utf8_table(table, policy),
        };
        match decoded {
            Some(v) => Ok(v),
            None => Err(ParseError::TableDecodeFailure),
        }
    }

    /// Renders the font's bitmap as a Verilog lookup table.
    pub fn into_verilog(&self) -> (text: Vec<u8>)
        requires
            self.charsize > 0,
        ensures
            text@ == verilog_text(self.charsize as nat, self.bitmap@),
    {
        render_verilog(self.charsize, self.bitmap.as_slice())
    }

    /// The declared header size of a second-generation file where it is below
    /// the 32 bytes of fixed fields; reading then goes on right after them.
    pub fn undersized_header(bytes: &[u8]) -> (r: Option<u32>)
        ensures
            r == (if is_psf2(bytes@) && bytes@.len() >= PSF2_HEADER_LEN && psf2_header_size(
                bytes@,
            ) < PSF2_HEADER_LEN {
                Some(psf2_header_size(bytes@))
            } else {
                None::<u32>
            }),
    {
        if bytes.len() >= 32 && bytes[0] == 0x72 && bytes[1] == 0xb5 && bytes[2] == 0x4a
            && bytes[3] == 0x86 {
            let header_size = read_le_u32(bytes, 8);
            if header_size < PSF2_HEADER_LEN {
                return Some(header_size);
            }
        }
        None
    }

    /// Reads a font from the whole contents of a font file.
    pub fn try_from(bytes: &[u8]) -> (r: Result<PSF, ParseError>)
        ensures
            match r {
                Ok(f) => parse_font(bytes@) == Ok::<FontModel, ParseError>(f@),
                Err(e) => parse_font(bytes@) == Err::<FontModel, ParseError>(e),
            },
    {
        let len = bytes.len();
        assert(bytes@.len() == len);
        if len < 4 {
            return Err(ParseError::UnexpectedEof);
        }
        if bytes[0] == PSF1_MAGIC0 && bytes[1] == PSF1_MAGIC1 {
            let mode = bytes[2];
            let height = bytes[3];
            let length: u32 = if mode & PSF1_MODE512 != 0 { 512 } else { 256 };
            assert(height as int * length as int <= 255 * 512) by (nonlinear_arith)
                requires
                    height <= 255,
                    length <= 512,
            ;
            let end = 4 + height as usize * length as usize;
            if end > len {
                return Err(ParseError::UnexpectedEof);
            }
            let bitmap = copy_range(bytes, 4, end);
            let table = if mode & (PSF1_MODEHASTAB | PSF1_MODEHASSEQ) != 0 {
                let rest = copy_range(bytes, end, len);
                match Self::parse_table(rest.as_slice(), &Version::PSF1) {
                    Ok(t) => Some(t),
                    Err(e) => {
                        return Err(e);
                    },
                }
            } else {
                None
            };
            let font = PSF {
                version: Version::PSF1,
                charsize: height as u32,
                height: height as u32,
                width: 8,
                length,
                bitmap,
                table,
            };
            assert(font@ == parse_psf1(bytes@).unwrap());
            Ok(font)
        } else if bytes[0] == 0x72 && bytes[1] == 0xb5 && bytes[2] == 0x4a && bytes[3] == 0x86 {
            if len < 32 {
                return Err(ParseError::UnexpectedEof);
            }
            let header_version = read_le_u32(bytes, 4);
            let header_size = read_le_u32(bytes, 8);
            let flags = read_le_u32(bytes, 12);
            let length = read_le_u32(bytes, 16);
            let charsize = read_le_u32(bytes, 20);
            let height = read_le_u32(bytes, 24);
            let width = read_le_u32(bytes, 28);
            let start: u64 = if header_size >= PSF2_HEADER_LEN {
                header_size as u64
            } else {
                PSF2_HEADER_LEN as u64
            };
            assert(charsize as int * length as int <= 0xFFFF_FFFE_0000_0001) by (nonlinear_arith)
                requires
                    charsize <= 0xFFFF_FFFF,
                    length <= 0xFFFF_FFFF,
            ;
            let size: u64 = charsize as u64 * length as u64;
            let bitmap = if size == 0 {
                Vec::new()
            } else {
                if start + size > len as u64 {
                    return Err(ParseError::UnexpectedEof);
                }
                copy_range(bytes, start as usize, (start + size) as usize)
            };
            let end: u64 = start + size;
            let table = if flags & PSF2_HASUNICODETABLE != 0 {
                let rest = if end <= len as u64 {
                    copy_range(bytes, end as usize, len)
                } else {
                    Vec::new()
                };
                assert(rest@ =~= tail(bytes@, psf2_bitmap_end(bytes@)));
                match Self::parse_table(rest.as_slice(), &Version::PSF2) {
                    Ok(t) => Some(t),
                    Err(e) => {
                        return Err(e);
                    },
                }
            } else {
                None
            };
            if header_version > PSF2_MAXVERSION {
                return Err(ParseError::UnsupportedHeaderVersion);
            }
            let font = PSF {
                version: Version::PSF2,
                charsize,
                height,
                width,
                length,
                bitmap,
                table,
            };
            assert(font@.bitmap =~= parse_psf2(bytes@).unwrap().bitmap);
            assert(font@ == parse_psf2(bytes@).unwrap());
            Ok(font)
        } else {
            Err(ParseError::UnrecognizedFormat)
        }
    }
}

/// A first-generation font has 256 glyphs, or 512 where mode bit 0x01 is set.
pub proof fn lemma_psf1_glyph_count(b: Seq<u8>)
    requires
        is_psf1(b),
        parse_font(b) is Ok,
    ensures
        b[2] == 0 ==> parse_font(b)->Ok_0.length == 256,
        b[2] & 0x01 != 0 ==> parse_font(b)->Ok_0.length == 512,
        b[2] & 0x01 == 0 ==> parse_font(b)->Ok_0.length == 256,
{
    let mode = b[2];
    assert(mode == 0 ==> mode & 0x01 == 0) by (bit_vector);
}

/// Every font read holds exactly its glyphs: glyph size times glyph count is
/// the length of the bitmap.
pub proof fn lemma_bitmap_holds_every_glyph(b: Seq<u8>)
    requires
        parse_font(b) is Ok,
    ensures
        parse_font(b)->Ok_0.charsize * parse_font(b)->Ok_0.length == parse_font(
            b,
        )->Ok_0.bitmap.len(),
{
    if is_psf1(b) {
        let f = parse_font(b)->Ok_0;
        assert(f.charsize * f.length == b[3] * psf1_length(b));
    }
}

/// Four bytes that carry neither magic are refused as an unrecognized
/// format, with no font produced.
pub proof fn lemma_unrecognized_magic(b: Seq<u8>)
    requires
        b.len() >= 4,
        !(b[0] == PSF1_MAGIC0 && b[1] == PSF1_MAGIC1),
        !is_psf2(b),
    ensures
        parse_font(b) == Err::<FontModel, ParseError>(ParseError::UnrecognizedFormat),
{
}

/// An unsupported second-generation header version is reported only once the
/// bitmap and the table have been read: a missing bitmap or an undecodable
/// table is reported instead.
pub proof fn lemma_version_checked_last(b: Seq<u8>)
    requires
        is_psf2(b),
        b.len() >= PSF2_HEADER_LEN,
        le_u32(b, 4) > PSF2_MAXVERSION,
    ensures
        parse_font(b) == (if !psf2_bitmap_present(b) {
            Err::<FontModel, ParseError>(ParseError::UnexpectedEof)
        } else if psf2_has_table(b) && psf2_table(b) is None {
            Err(ParseError::TableDecodeFailure)
        } else {
            Err(ParseError::UnsupportedHeaderVersion)
        }),
{
}

} // verus!
