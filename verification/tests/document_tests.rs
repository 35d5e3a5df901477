//! The document buffer: selection and composition state, edits, and the
//! fixed-grid layout oracles.

use ime_core::document::DocumentBuffer;
use ime_core::geometry::Point;
use ime_core::geometry::Rect;
use ime_core::handler::TextInputHandler;

fn buffer_with(text: &str) -> DocumentBuffer {
    let mut d = DocumentBuffer::new();
    d.replace_range(0..0, text);
    d
}

#[test]
fn replace_range_splices_text() {
    let mut d = buffer_with("hello");
    d.replace_range(1..3, "EY");
    assert_eq!(d.slice(0..5), b"hEYlo".to_vec());
    d.replace_range(5..5, "!");
    assert_eq!(d.slice(0..6), b"hEYlo!".to_vec());
    d.replace_range(0..6, "");
    assert_eq!(d.len(), 0);
}

#[test]
fn replace_range_leaves_selection_alone() {
    // replace_range does not adjust the stored selection or composition;
    // callers recompute them
    let mut d = buffer_with("hello");
    d.set_selected_range(2..4);
    d.set_composition_range(Some(1..2));
    d.replace_range(0..1, "XY");
    assert_eq!(d.selected_range(), 2..4);
    assert_eq!(d.composition_range(), Some(1..2));
}

#[test]
fn selection_set_and_get() {
    let mut d = buffer_with("héllo");
    d.set_selected_range(1..3);
    assert_eq!(d.selected_range(), 1..3);
    d.set_selected_range(6..6);
    assert_eq!(d.selected_range(), 6..6);
}

#[test]
fn composition_set_then_get_returns_it() {
    let mut d = buffer_with("héllo");
    d.set_composition_range(Some(1..3));
    assert_eq!(d.composition_range(), Some(1..3));
}

#[test]
fn composition_set_none_clears() {
    let mut d = buffer_with("héllo");
    d.set_composition_range(Some(1..3));
    d.set_composition_range(None);
    assert_eq!(d.composition_range(), None);
}

#[test]
fn composition_empty_range_is_none() {
    // setting a zero-length composition is the same as clearing it
    let mut d = buffer_with("héllo");
    d.set_composition_range(Some(1..3));
    d.set_composition_range(Some(4..4));
    assert_eq!(d.composition_range(), None);
}

#[test]
fn bounding_box_is_the_widget_frame() {
    let mut d = buffer_with("hi");
    d.set_frame(10, 20, 100, 40);
    assert_eq!(d.bounding_box(), Some(Rect::new(10, 20, 110, 60)));
}

#[test]
fn bounding_box_absent_when_offscreen() {
    let mut d = buffer_with("hi");
    d.set_visible(false);
    assert_eq!(d.bounding_box(), None);
}

#[test]
fn hit_test_inside_points_at_the_glyph() {
    // default grid: 8 by 16 cells at the origin
    let mut d = buffer_with("héllo");
    let hit = d.hit_test_point(Point::new(4, 5));
    assert_eq!(hit.idx, 0);
    assert!(hit.is_inside);
    // second glyph cell holds the two-byte character starting at byte 1
    let hit = d.hit_test_point(Point::new(12, 5));
    assert_eq!(hit.idx, 1);
    assert!(hit.is_inside);
    // third glyph cell: the l after the two-byte character, byte 3
    let hit = d.hit_test_point(Point::new(20, 5));
    assert_eq!(hit.idx, 3);
    assert!(hit.is_inside);
}

#[test]
fn hit_test_outside_still_yields_nearest_index() {
    // a point outside the bounding box reports is_inside false but still
    // maps to the nearest index — the query never fails
    let mut d = buffer_with("héllo");
    let hit = d.hit_test_point(Point::new(-100, -100));
    assert!(!hit.is_inside);
    assert_eq!(hit.idx, 0);
    let hit = d.hit_test_point(Point::new(100000, 5));
    assert!(!hit.is_inside);
    assert_eq!(hit.idx, 6);
}

#[test]
fn hit_test_second_line() {
    let mut d = buffer_with("ab\ncd");
    let hit = d.hit_test_point(Point::new(4, 20));
    assert_eq!(hit.idx, 3);
    assert!(hit.is_inside);
    let hit = d.hit_test_point(Point::new(12, 20));
    assert_eq!(hit.idx, 4);
}

#[test]
fn hit_test_below_last_line_clamps() {
    let mut d = buffer_with("ab\ncd");
    let hit = d.hit_test_point(Point::new(0, 100000));
    assert_eq!(hit.idx, 3);
    assert!(!hit.is_inside);
}

#[test]
fn slice_bounding_box_on_a_line() {
    let mut d = buffer_with("ab\ncd");
    // the d on the second line: one glyph starting one cell in
    let r = d.slice_bounding_box(4..5);
    assert_eq!(r, Some(Rect::new(8, 16, 16, 32)));
    // offscreen text has no boxes at all
    d.set_visible(false);
    assert_eq!(d.slice_bounding_box(4..5), None);
}

#[test]
fn slice_bounding_box_multibyte_columns() {
    // columns count scalars, not bytes: the l after é sits in cell 2
    let mut d = buffer_with("héllo");
    let r = d.slice_bounding_box(3..4);
    assert_eq!(r, Some(Rect::new(16, 0, 24, 16)));
}
