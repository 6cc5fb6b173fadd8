use slicer_rs::scan::{contains, ends_with, matches_at, read_le_u32, same, starts_with};

#[test]
fn needle_is_found_where_it_lies() {
    assert!(matches_at(b"hello world", b"world", 6));
    assert!(!matches_at(b"hello world", b"world", 5));
    assert!(!matches_at(b"hello world", b"world", 7));
    assert!(!matches_at(b"hello world", b"world", 100));
    assert!(matches_at(b"abc", b"", 3));
    assert!(!matches_at(b"abc", b"", 4));
}

#[test]
fn needle_is_found_anywhere() {
    assert!(contains(b"hello world", b"hello"));
    assert!(contains(b"hello world", b"o w"));
    assert!(contains(b"hello world", b"d"));
    assert!(contains(b"hello world", b""));
    assert!(contains(b"", b""));
    assert!(!contains(b"hello world", b"worlds"));
    assert!(!contains(b"", b"a"));
    assert!(!contains(b"aab", b"aba"));
    assert!(contains(b"aaab", b"aab"));
}

#[test]
fn prefix_and_suffix_are_told_apart() {
    assert!(starts_with(b"solid part", b"solid"));
    assert!(!starts_with(b"a solid part", b"solid"));
    assert!(!starts_with(b"sol", b"solid"));
    assert!(ends_with(b"part.stl", b".stl"));
    assert!(!ends_with(b"part.stl ", b".stl"));
    assert!(!ends_with(b"stl", b".stl"));
    assert!(ends_with(b"anything", b""));
}

#[test]
fn number_is_read_least_significant_byte_first() {
    assert_eq!(read_le_u32(&[0x78, 0x56, 0x34, 0x12], 0), Some(0x1234_5678));
    assert_eq!(read_le_u32(&[9, 9, 1, 0, 0, 0], 2), Some(1));
    assert_eq!(read_le_u32(&[0xff, 0xff, 0xff, 0xff], 0), Some(u32::MAX));
    assert_eq!(read_le_u32(&[0, 0, 0, 0x80], 0), Some(0x8000_0000));
}

#[test]
fn number_is_not_read_past_the_end() {
    assert_eq!(read_le_u32(&[], 0), None);
    assert_eq!(read_le_u32(&[1, 2, 3], 0), None);
    assert_eq!(read_le_u32(&[1, 2, 3, 4], 1), None);
    assert_eq!(read_le_u32(&[1, 2, 3, 4], usize::MAX), None);
}

#[test]
fn byte_strings_are_compared_whole() {
    assert!(same(b"", b""));
    assert!(same(b"cm", b"cm"));
    assert!(!same(b"cm", b"cmm"));
    assert!(!same(b"cm", b"c"));
    assert!(!same(b"cm", b"mm"));
}
