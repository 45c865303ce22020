use psf2verilog::font::{ParseError, Version, PSF};
use psf2verilog::table::{parse_utf16_table, parse_utf8_table, DecodePolicy, Marker, TableScanner};

#[test]
fn utf16_single_entry() {
    let t = PSF::parse_table(&[0x41, 0x00, 0xFF, 0xFF], &Version::PSF1).unwrap();
    assert_eq!(t.len(), 1);
    assert_eq!(t[0].represented, vec!['A']);
    assert!(t[0].sequences.is_empty());
}

#[test]
fn utf16_combining_sequence() {
    let bytes = [0x41, 0x00, 0xFE, 0xFF, 0x01, 0x03, 0xFF, 0xFF];
    let t = PSF::parse_table(&bytes, &Version::PSF1).unwrap();
    assert_eq!(t.len(), 1);
    assert_eq!(t[0].represented, vec!['A']);
    assert_eq!(t[0].sequences, vec!['\u{0301}']);
}

#[test]
fn utf16_surrogate_pair() {
    let bytes = [0x3D, 0xD8, 0x00, 0xDE, 0xFF, 0xFF];
    let t = PSF::parse_table(&bytes, &Version::PSF1).unwrap();
    assert_eq!(t[0].represented, vec!['\u{1F600}']);
}

#[test]
fn utf16_odd_trailing_byte_is_dropped() {
    let t = PSF::parse_table(&[0x41, 0x00, 0xFF, 0xFF, 0x42], &Version::PSF1).unwrap();
    assert_eq!(t.len(), 1);
}

#[test]
fn utf8_single_entry() {
    let t = PSF::parse_table(&[0x41, 0xFF], &Version::PSF2).unwrap();
    assert_eq!(t.len(), 1);
    assert_eq!(t[0].represented, vec!['A']);
    assert!(t[0].sequences.is_empty());
}

#[test]
fn utf8_two_separators_give_two_empty_entries() {
    let t = PSF::parse_table(&[0xFF, 0xFF], &Version::PSF2).unwrap();
    assert_eq!(t.len(), 2);
    for e in t.iter() {
        assert!(e.represented.is_empty());
        assert!(e.sequences.is_empty());
    }
}

#[test]
fn utf8_sequences_are_concatenated() {
    let bytes = [0x41, 0xFE, 0x42, 0x43, 0xFE, 0x44, 0xFF];
    let t = PSF::parse_table(&bytes, &Version::PSF2).unwrap();
    assert_eq!(t[0].represented, vec!['A']);
    assert_eq!(t[0].sequences, vec!['B', 'C', 'D']);
}

#[test]
fn utf8_unterminated_run_is_dropped() {
    let t = PSF::parse_table(&[0x41, 0xFF, 0x42], &Version::PSF2).unwrap();
    assert_eq!(t.len(), 1);
    assert!(PSF::parse_table(&[0x41], &Version::PSF2).unwrap().is_empty());
}

#[test]
fn utf8_invalid_buffer_is_decode_failure() {
    let r = PSF::parse_table(&[0xC3, 0xFF], &Version::PSF2);
    assert_eq!(r.err(), Some(ParseError::TableDecodeFailure));
    assert!(parse_utf8_table(&[0x80, 0xFE], DecodePolicy::Abort).is_none());
}

#[test]
fn scanner_transitions() {
    let mut s: TableScanner<u8> = TableScanner::new();
    s.push(0x41);
    assert_eq!(s.pending(), &vec![0x41]);
    s.close(vec!['A'], Marker::StartSequence);
    assert!(s.pending().is_empty());
    s.close(vec!['x'], Marker::StartSequence);
    s.close(vec!['y'], Marker::Separator);
    s.close(vec!['B'], Marker::Separator);
    let e = s.into_entries();
    assert_eq!(e.len(), 2);
    assert_eq!(e[0].represented, vec!['A']);
    assert_eq!(e[0].sequences, vec!['x', 'y']);
    assert_eq!(e[1].represented, vec!['B']);
    assert!(e[1].sequences.is_empty());
}

#[test]
fn skipping_drops_only_the_bad_entry() {
    let bytes = [0x41, 0xFF, 0x42, 0xFE, 0xC3, 0xFF, 0x43, 0xFF];
    let t = PSF::parse_table_with(&bytes, &Version::PSF2, DecodePolicy::SkipEntry).unwrap();
    assert_eq!(t.len(), 2);
    assert_eq!(t[0].represented, vec!['A']);
    assert_eq!(t[1].represented, vec!['C']);
    let aborted = PSF::parse_table_with(&bytes, &Version::PSF2, DecodePolicy::Abort);
    assert_eq!(aborted.err(), Some(ParseError::TableDecodeFailure));
}

#[test]
fn skipping_utf16_unpaired_surrogate() {
    let bytes = [0x00, 0xDC, 0xFF, 0xFF, 0x41, 0x00, 0xFF, 0xFF];
    let t = parse_utf16_table(&bytes, DecodePolicy::SkipEntry).unwrap();
    assert_eq!(t.len(), 1);
    assert_eq!(t[0].represented, vec!['A']);
    assert!(parse_utf16_table(&bytes, DecodePolicy::Abort).is_none());
}

#[test]
fn scanner_discard_damages_entry() {
    let mut s: TableScanner<u8> = TableScanner::new();
    s.close(vec!['A'], Marker::StartSequence);
    s.discard(Marker::StartSequence);
    s.close(vec!['z'], Marker::Separator);
    s.discard(Marker::Separator);
    s.close(vec!['B'], Marker::Separator);
    let e = s.into_entries();
    assert_eq!(e.len(), 1);
    assert_eq!(e[0].represented, vec!['B']);
}
