//! Unit conversions between UTF-8 and UTF-16 indexing, through the document
//! buffer's handler surface.

use core::ops::Range;
use ime_core::document::DocumentBuffer;
use ime_core::handler::TextInputHandler;

fn doc_with(text: &str) -> DocumentBuffer {
    let mut d = DocumentBuffer::new();
    d.replace_range(0..0, text);
    d
}

#[test]
fn utf16_count_ascii() {
    let mut d = doc_with("hello");
    assert_eq!(d.len(), 5);
    assert_eq!(d.utf8_to_utf16(0..5), 5);
    assert_eq!(d.utf8_to_utf16(1..4), 3);
    assert_eq!(d.utf8_to_utf16(2..2), 0);
}

#[test]
fn utf16_count_two_byte_char() {
    // h(1) é(2) l(1) l(1) o(1) = 6 UTF-8 units, 5 UTF-16 units
    let mut d = doc_with("héllo");
    assert_eq!(d.len(), 6);
    assert_eq!(d.utf8_to_utf16(0..6), 5);
    assert_eq!(d.utf8_to_utf16(0..1), 1);
    assert_eq!(d.utf8_to_utf16(1..3), 1);
}

#[test]
fn utf16_count_surrogate_pair() {
    // the note emoji is 4 UTF-8 units and one surrogate pair (2 UTF-16 units)
    let mut d = doc_with("a\u{1D11E}b");
    assert_eq!(d.len(), 6);
    assert_eq!(d.utf8_to_utf16(0..6), 4);
    assert_eq!(d.utf8_to_utf16(1..5), 2);
}

#[test]
fn utf16_to_utf8_inverts_counts() {
    let mut d = doc_with("héllo");
    // UTF-16 offsets 0..5 map to bytes 0,1,3,4,5,6
    assert_eq!(d.utf16_to_utf8(0..0), 0);
    assert_eq!(d.utf16_to_utf8(0..1), 1);
    assert_eq!(d.utf16_to_utf8(0..2), 3);
    assert_eq!(d.utf16_to_utf8(1..2), 2);
    assert_eq!(d.utf16_to_utf8(2..5), 3);
}

#[test]
fn utf16_to_utf8_saturates_past_end() {
    let mut d = doc_with("hi");
    assert_eq!(d.utf16_to_utf8(0..100), 2);
    assert_eq!(d.utf16_to_utf8(50..100), 0);
}

#[test]
fn utf16_offset_inside_surrogate_pair_rounds_up() {
    let mut d = doc_with("\u{1D11E}x");
    // one UTF-16 unit stops inside the pair; the conversion rounds up past
    // the whole scalar
    assert_eq!(d.utf16_to_utf8(0..1), 4);
    assert_eq!(d.utf16_to_utf8(0..2), 4);
    assert_eq!(d.utf16_to_utf8(0..3), 5);
}

#[test]
fn char_boundaries_at_ends() {
    // both ends of a non-empty document are boundaries
    let mut d = doc_with("héllo");
    assert!(d.is_char_boundary(0));
    let len = d.len();
    assert!(d.is_char_boundary(len));
}

#[test]
fn char_boundary_inside_sequence_is_false() {
    let mut d = doc_with("héllo");
    assert!(d.is_char_boundary(1));
    // byte 2 is the continuation byte of the two-byte character
    assert!(!d.is_char_boundary(2));
    assert!(d.is_char_boundary(3));
    // past the end is never a boundary
    assert!(!d.is_char_boundary(7));
}

#[test]
fn char_boundary_on_empty_document() {
    let mut d = DocumentBuffer::new();
    assert!(d.is_char_boundary(0));
    assert!(!d.is_char_boundary(1));
}

#[test]
fn slice_returns_code_units() {
    let mut d = doc_with("héllo");
    assert_eq!(d.slice(0..1), b"h".to_vec());
    assert_eq!(d.slice(1..3), "é".as_bytes().to_vec());
    assert_eq!(d.slice(0..6), "héllo".as_bytes().to_vec());
}

#[test]
fn line_ranges_split_after_newlines() {
    let mut d = doc_with("ab\ncd\n");
    let first: Range<usize> = d.line_range(0);
    assert_eq!(first, 0..3);
    assert_eq!(d.line_range(2), 0..3);
    assert_eq!(d.line_range(3), 3..6);
    // the position at the very end sits on the empty last line
    assert_eq!(d.line_range(6), 6..6);
}
