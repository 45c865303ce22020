use psf2verilog::font::{ParseError, Version, PSF};

fn psf1(mode: u8, height: u8, glyphs: usize, table: &[u8]) -> Vec<u8> {
    let mut b = vec![0x36, 0x04, mode, height];
    for i in 0..glyphs * height as usize {
        b.push(i as u8);
    }
    b.extend_from_slice(table);
    b
}

fn psf2(fields: [u32; 7], gap: usize, bitmap: &[u8], table: &[u8]) -> Vec<u8> {
    let mut b = vec![0x72, 0xb5, 0x4a, 0x86];
    for f in fields.iter() {
        b.extend_from_slice(&f.to_le_bytes());
    }
    b.extend(std::iter::repeat(0xEE).take(gap));
    b.extend_from_slice(bitmap);
    b.extend_from_slice(table);
    b
}

#[test]
fn psf1_mode_zero_has_256_glyphs() {
    let f = PSF::try_from(&psf1(0x00, 2, 256, &[])).unwrap();
    assert_eq!(f.version, Version::PSF1);
    assert_eq!(f.length, 256);
    assert_eq!(f.charsize, 2);
    assert_eq!(f.height, 2);
    assert_eq!(f.width, 8);
    assert_eq!(f.bitmap.len(), 512);
    assert_eq!(f.bitmap[3], 3);
    assert!(f.table.is_none());
}

#[test]
fn psf1_mode512_bit_has_512_glyphs() {
    let f = PSF::try_from(&psf1(0x01, 1, 512, &[])).unwrap();
    assert_eq!(f.length, 512);
    assert_eq!(f.charsize as usize * f.length as usize, f.bitmap.len());
}

#[test]
fn psf1_table_follows_bitmap() {
    let f = PSF::try_from(&psf1(0x02, 1, 256, &[0x41, 0x00, 0xFF, 0xFF])).unwrap();
    let t = f.table.unwrap();
    assert_eq!(t.len(), 1);
    assert_eq!(t[0].represented, vec!['A']);
    assert!(t[0].sequences.is_empty());
}

#[test]
fn psf1_sequence_bit_also_gates_table() {
    let f = PSF::try_from(&psf1(0x04, 1, 256, &[0x42, 0x00, 0xFF, 0xFF])).unwrap();
    assert_eq!(f.table.unwrap()[0].represented, vec!['B']);
}

#[test]
fn psf1_bad_utf16_table_is_decode_failure() {
    let r = PSF::try_from(&psf1(0x02, 1, 256, &[0x00, 0xD8, 0xFF, 0xFF]));
    assert_eq!(r.err(), Some(ParseError::TableDecodeFailure));
}

#[test]
fn psf1_truncated_bitmap_is_eof() {
    let mut b = psf1(0x00, 2, 256, &[]);
    b.pop();
    assert_eq!(PSF::try_from(&b).err(), Some(ParseError::UnexpectedEof));
}

#[test]
fn short_input_is_eof() {
    assert_eq!(PSF::try_from(&[0x36, 0x04, 0x00]).err(), Some(ParseError::UnexpectedEof));
}

#[test]
fn zero_magic_is_unrecognized() {
    assert_eq!(PSF::try_from(&[0, 0, 0, 0]).err(), Some(ParseError::UnrecognizedFormat));
    assert_eq!(PSF::try_from(&[0u8; 64]).err(), Some(ParseError::UnrecognizedFormat));
}

#[test]
fn psf2_basic_geometry() {
    let b = psf2([0, 32, 0, 2, 3, 3, 8], 0, &[1, 2, 3, 4, 5, 6], &[]);
    let f = PSF::try_from(&b).unwrap();
    assert_eq!(f.version, Version::PSF2);
    assert_eq!(f.length, 2);
    assert_eq!(f.charsize, 3);
    assert_eq!(f.height, 3);
    assert_eq!(f.width, 8);
    assert_eq!(f.bitmap, vec![1, 2, 3, 4, 5, 6]);
    assert_eq!(f.charsize as usize * f.length as usize, f.bitmap.len());
    assert!(f.table.is_none());
    assert_eq!(PSF::undersized_header(&b), None);
}

#[test]
fn psf2_skips_rest_of_header() {
    let b = psf2([0, 40, 0, 1, 2, 2, 8], 8, &[0xAB, 0xCD], &[]);
    let f = PSF::try_from(&b).unwrap();
    assert_eq!(f.bitmap, vec![0xAB, 0xCD]);
}

#[test]
fn psf2_undersized_header_reads_on() {
    let b = psf2([0, 16, 0, 1, 2, 2, 8], 0, &[0x11, 0x22], &[]);
    assert_eq!(PSF::undersized_header(&b), Some(16));
    let f = PSF::try_from(&b).unwrap();
    assert_eq!(f.bitmap, vec![0x11, 0x22]);
}

#[test]
fn psf2_table_in_utf8() {
    let b = psf2([0, 32, 1, 2, 1, 1, 8], 0, &[7, 8], &[0x41, 0xFF, 0xC3, 0xA9, 0xFE, 0x42, 0xFF]);
    let t = PSF::try_from(&b).unwrap().table.unwrap();
    assert_eq!(t.len(), 2);
    assert_eq!(t[0].represented, vec!['A']);
    assert_eq!(t[1].represented, vec!['\u{e9}']);
    assert_eq!(t[1].sequences, vec!['B']);
}

#[test]
fn psf2_version_one_is_unsupported_after_reading() {
    let b = psf2([1, 32, 1, 1, 1, 1, 8], 0, &[0], &[0x41, 0xFF]);
    assert_eq!(PSF::try_from(&b).err(), Some(ParseError::UnsupportedHeaderVersion));
}

#[test]
fn psf2_version_one_with_short_bitmap_is_eof() {
    let b = psf2([1, 32, 0, 4, 1, 1, 8], 0, &[0, 0], &[]);
    assert_eq!(PSF::try_from(&b).err(), Some(ParseError::UnexpectedEof));
}

#[test]
fn psf2_version_one_with_bad_table_is_decode_failure() {
    let b = psf2([1, 32, 1, 1, 1, 1, 8], 0, &[0], &[0xC3, 0xFF]);
    assert_eq!(PSF::try_from(&b).err(), Some(ParseError::TableDecodeFailure));
}

#[test]
fn psf2_short_header_is_eof() {
    let b = vec![0x72, 0xb5, 0x4a, 0x86, 0, 0, 0, 0];
    assert_eq!(PSF::try_from(&b).err(), Some(ParseError::UnexpectedEof));
}

#[test]
fn psf2_empty_bitmap_past_end_is_accepted() {
    let b = psf2([0, 100, 0, 0, 4, 4, 8], 0, &[], &[]);
    let f = PSF::try_from(&b).unwrap();
    assert!(f.bitmap.is_empty());
    assert_eq!(f.length, 0);
}

#[test]
fn psf_renders_through_into_verilog() {
    let b = psf2([0, 32, 0, 2, 1, 1, 8], 0, &[0x0A, 0xFF], &[]);
    let f = PSF::try_from(&b).unwrap();
    let text = String::from_utf8(f.into_verilog()).unwrap();
    assert!(text.contains("    1'b1 : characterraster = 8'hFF;\n"));
}
