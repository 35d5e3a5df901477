//! The protocol-facing callbacks: range decoding with fallbacks, marked-text
//! edits, insertion, and command dispatch.

use ime_core::actions::Action;
use ime_core::actions::CommandOutcome;
use ime_core::actions::Direction;
use ime_core::actions::Movement;
use ime_core::adapter;
use ime_core::commands::do_command_by_selector;
use ime_core::document::DocumentBuffer;
use ime_core::geometry::Point;
use ime_core::handler::TextInputHandler;
use ime_core::session::SessionCoordinator;
use ime_core::token::TextInputToken;
use ime_core::translate::NSRange;
use ime_core::translate::NS_NOT_FOUND;
use ime_core::translate::decode_nsrange;
use ime_core::translate::encode_nsrange;

fn field_with(text: &str) -> (SessionCoordinator, TextInputToken, DocumentBuffer) {
    let mut session = SessionCoordinator::new();
    let token = session.register();
    let mut d = DocumentBuffer::new();
    d.replace_range(0..0, text);
    (session, token, d)
}

#[test]
fn os_range_round_trip() {
    // encoding a boundary-aligned range and decoding the result comes back
    // to the same range
    let (_, _, mut d) = field_with("héllo");
    let encoded = encode_nsrange(&mut d, 1..4);
    assert_eq!(encoded, NSRange::new(1, 2));
    let decoded = decode_nsrange(&mut d, &encoded, 0);
    assert_eq!(decoded, Some(1..4));
}

#[test]
fn decode_sentinel_is_absent() {
    // exactly one location value stands for "no range given"
    let (_, _, mut d) = field_with("héllo");
    assert_eq!(decode_nsrange(&mut d, &NSRange::none(), 0), None);
    assert_eq!(decode_nsrange(&mut d, &NSRange::new(NS_NOT_FOUND, 1), 0), None);
    // every other location decodes; far-out offsets saturate at the end
    assert_eq!(decode_nsrange(&mut d, &NSRange::new(0x7fff_ffff, 1), 0), Some(6..6));
    assert_eq!(decode_nsrange(&mut d, &NSRange::new(u64::MAX, 1), 0), Some(6..6));
}

#[test]
fn decode_relative_to_base_offset() {
    // a range relative to byte offset 3 ("hél" = 2 UTF-16 units)
    let (_, _, mut d) = field_with("héllo");
    assert_eq!(decode_nsrange(&mut d, &NSRange::new(0, 2), 3), Some(3..5));
    assert_eq!(decode_nsrange(&mut d, &NSRange::new(1, 1), 3), Some(4..5));
}

#[test]
fn decode_clamps_past_document_end() {
    let (_, _, mut d) = field_with("hi");
    assert_eq!(decode_nsrange(&mut d, &NSRange::new(1, 100), 0), Some(1..2));
    assert_eq!(decode_nsrange(&mut d, &NSRange::new(40, 2), 0), Some(2..2));
}

#[test]
fn insert_text_over_caret() {
    // document "héllo", caret after the h; a sentinel replacement range
    // falls back to the selection; "X" lands at the caret and the caret
    // moves one unit right, to (2,2), which encodes to OS units (2,0)
    let (mut session, token, mut d) = field_with("héllo");
    d.set_selected_range(1..1);
    let done = adapter::insert_text(&mut session, token, &mut d, "X", NSRange::none());
    assert!(done);
    assert_eq!(d.slice(0..7), "hXéllo".as_bytes().to_vec());
    assert_eq!(d.selected_range(), 2..2);
    assert_eq!(d.composition_range(), None);
    let os_selection = adapter::selected_range(&mut session, token, &mut d);
    assert_eq!(os_selection, NSRange::new(2, 0));
}

#[test]
fn insert_text_replaces_composition_first() {
    // with no explicit range, an existing composition wins over the selection
    let (mut session, token, mut d) = field_with("héllo");
    d.set_selected_range(0..0);
    d.set_composition_range(Some(1..3));
    let done = adapter::insert_text(&mut session, token, &mut d, "e", NSRange::none());
    assert!(done);
    assert_eq!(d.slice(0..5), b"hello".to_vec());
    assert_eq!(d.composition_range(), None);
    assert_eq!(d.selected_range(), 2..2);
}

#[test]
fn insert_text_with_explicit_range() {
    let (mut session, token, mut d) = field_with("héllo");
    d.set_selected_range(0..0);
    let done = adapter::insert_text(&mut session, token, &mut d, "a", NSRange::new(1, 1));
    assert!(done);
    assert_eq!(d.slice(0..5), b"hallo".to_vec());
    assert_eq!(d.selected_range(), 2..2);
}

#[test]
fn insert_text_refused_without_lock() {
    let (mut session, token, mut d) = field_with("héllo");
    d.set_selected_range(1..1);
    let guard = session.acquire(token, true).unwrap();
    let done = adapter::insert_text(&mut session, token, &mut d, "X", NSRange::none());
    assert!(!done);
    assert_eq!(d.slice(0..6), "héllo".as_bytes().to_vec());
    session.release(guard);
}

#[test]
fn set_marked_text_empty_replacement_clears_composition() {
    // composition (1,3); replacing it with zero-length text shrinks the
    // span to nothing, and the length-zero normalization clears it
    let (mut session, token, mut d) = field_with("héllo");
    d.set_selected_range(1..1);
    d.set_composition_range(Some(1..3));
    let done = adapter::set_marked_text(
        &mut session,
        token,
        &mut d,
        "",
        NSRange::none(),
        NSRange::none(),
    );
    assert!(done);
    assert_eq!(d.composition_range(), None);
    assert_eq!(d.slice(0..4), b"hllo".to_vec());
    // no explicit selection came in, and the stored caret is still a valid
    // position of the new text, so it stays
    assert_eq!(d.selected_range(), 1..1);
}

#[test]
fn set_marked_text_collapses_a_stranded_selection() {
    // a shrinking edit with no explicit selection from the OS: the stored
    // caret at 2 no longer names a position of the new (empty) text, so it
    // collapses to the caret after the replaced span instead of dangling
    let (mut session, token, mut d) = field_with("ab");
    d.set_selected_range(2..2);
    let done = adapter::set_marked_text(
        &mut session,
        token,
        &mut d,
        "",
        NSRange::none(),
        NSRange::new(0, 2),
    );
    assert!(done);
    assert_eq!(d.len(), 0);
    assert_eq!(d.composition_range(), None);
    assert_eq!(d.selected_range(), 0..0);
    // the follow-up OS query runs inside its contract
    assert_eq!(adapter::selected_range(&mut session, token, &mut d), NSRange::new(0, 0));
}

#[test]
fn set_marked_text_starts_a_composition_at_the_selection() {
    // no composition and no replacement range: the marked text goes over
    // the selection and becomes the new composition
    let (mut session, token, mut d) = field_with("ab");
    d.set_selected_range(1..1);
    let done = adapter::set_marked_text(
        &mut session,
        token,
        &mut d,
        "xy",
        NSRange::new(2, 0),
        NSRange::none(),
    );
    assert!(done);
    assert_eq!(d.slice(0..4), b"axyb".to_vec());
    assert_eq!(d.composition_range(), Some(1..3));
    // the selected range came in relative to the replaced range's start
    assert_eq!(d.selected_range(), 3..3);
}

#[test]
fn set_marked_text_grows_the_composition() {
    let (mut session, token, mut d) = field_with("ab");
    d.set_selected_range(1..1);
    adapter::set_marked_text(&mut session, token, &mut d, "x", NSRange::new(1, 0), NSRange::none());
    assert_eq!(d.composition_range(), Some(1..2));
    // second event replaces the whole composition with longer text
    adapter::set_marked_text(
        &mut session,
        token,
        &mut d,
        "xyz",
        NSRange::new(3, 0),
        NSRange::none(),
    );
    assert_eq!(d.slice(0..5), b"axyzb".to_vec());
    assert_eq!(d.composition_range(), Some(1..4));
    assert_eq!(d.selected_range(), 4..4);
}

#[test]
fn unmark_text_clears_composition() {
    let (mut session, token, mut d) = field_with("héllo");
    d.set_composition_range(Some(1..3));
    assert!(adapter::unmark_text(&mut session, token, &mut d));
    assert_eq!(d.composition_range(), None);
    assert_eq!(d.slice(0..6), "héllo".as_bytes().to_vec());
}

#[test]
fn has_marked_text_reports_composition() {
    let (mut session, token, mut d) = field_with("héllo");
    assert!(!adapter::has_marked_text(&mut session, token, &mut d));
    d.set_composition_range(Some(1..3));
    assert!(adapter::has_marked_text(&mut session, token, &mut d));
    // unknown token: no lock, so the answer is false
    let stranger = TextInputToken::from_raw(999);
    assert!(!adapter::has_marked_text(&mut session, stranger, &mut d));
}

#[test]
fn marked_range_encodes_composition() {
    let (mut session, token, mut d) = field_with("héllo");
    assert_eq!(adapter::marked_range(&mut session, token, &mut d), NSRange::none());
    d.set_composition_range(Some(1..4));
    assert_eq!(adapter::marked_range(&mut session, token, &mut d), NSRange::new(1, 2));
}

#[test]
fn selected_range_encodes_selection() {
    let (mut session, token, mut d) = field_with("héllo");
    d.set_selected_range(1..4);
    assert_eq!(adapter::selected_range(&mut session, token, &mut d), NSRange::new(1, 2));
}

#[test]
fn attributed_substring_returns_slice_and_actual_range() {
    let (mut session, token, mut d) = field_with("héllo");
    let r = adapter::attributed_substring_for_proposed_range(
        &mut session,
        token,
        &mut d,
        NSRange::new(1, 2),
    );
    let (bytes, actual) = r.unwrap();
    assert_eq!(bytes, "él".as_bytes().to_vec());
    assert_eq!(actual, NSRange::new(1, 2));
    // the sentinel has no fallback here: the operation aborts
    let r = adapter::attributed_substring_for_proposed_range(
        &mut session,
        token,
        &mut d,
        NSRange::none(),
    );
    assert!(r.is_none());
}

#[test]
fn character_index_for_point_hits_glyphs() {
    let (mut session, token, mut d) = field_with("héllo");
    assert_eq!(adapter::character_index_for_point(&mut session, token, &mut d, Point::new(12, 5)), 1);
    let stranger = TextInputToken::from_raw(999);
    assert_eq!(
        adapter::character_index_for_point(&mut session, stranger, &mut d, Point::new(12, 5)),
        0
    );
}

#[test]
fn first_rect_cuts_at_the_line_end() {
    let (mut session, token, mut d) = field_with("ab\ncd");
    // the decoded range 0..4 spans two lines; it is cut at the end of the
    // first line, and that cut range is what gets measured and re-encoded
    let r = adapter::first_rect_for_character_range(&mut session, token, &mut d, NSRange::new(0, 4));
    let (rect, actual) = r.unwrap();
    assert_eq!(actual, NSRange::new(0, 3));
    assert_eq!(rect.x0, 0);
    assert_eq!(rect.y0, 0);
    assert_eq!(rect.y1, 16);
    // offscreen text yields nothing
    d.set_visible(false);
    let r = adapter::first_rect_for_character_range(&mut session, token, &mut d, NSRange::new(0, 1));
    assert!(r.is_none());
}

#[test]
fn command_dispatch_known_selectors() {
    assert_eq!(
        do_command_by_selector("moveLeft:"),
        CommandOutcome::Perform(Action::Move(Movement::Grapheme(Direction::Left)))
    );
    assert_eq!(
        do_command_by_selector("deleteBackward:"),
        CommandOutcome::Perform(Action::Delete(Movement::Grapheme(Direction::Upstream)))
    );
    assert_eq!(do_command_by_selector("selectAll:"), CommandOutcome::Perform(Action::SelectAll));
    assert_eq!(
        do_command_by_selector("insertNewline:"),
        CommandOutcome::Perform(Action::InsertNewLine { ignore_autocomplete: false })
    );
    assert_eq!(
        do_command_by_selector("insertNewlineIgnoringFieldEditor:"),
        CommandOutcome::Perform(Action::InsertNewLine { ignore_autocomplete: true })
    );
    assert_eq!(
        do_command_by_selector("uppercaseWord:"),
        CommandOutcome::Perform(Action::UppercaseWord)
    );
}

#[test]
fn command_dispatch_recognized_but_unhandled() {
    assert_eq!(do_command_by_selector("yank:"), CommandOutcome::Ignore);
    assert_eq!(do_command_by_selector("cancelOperation:"), CommandOutcome::Ignore);
    assert_eq!(do_command_by_selector("setMark:"), CommandOutcome::Ignore);
}

#[test]
fn command_dispatch_unknown_selector() {
    assert_eq!(do_command_by_selector("flyToTheMoon:"), CommandOutcome::Unknown);
    assert_eq!(do_command_by_selector(""), CommandOutcome::Unknown);
    // close but not equal: a missing colon is a different selector
    assert_eq!(do_command_by_selector("moveLeft"), CommandOutcome::Unknown);
}
