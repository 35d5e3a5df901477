//! The protocol-facing half of each OS input-method callback.
//!
//! Every function brokers an edit lock for the field named by `token`
//! through the session coordinator — read-only for pure queries, mutable for
//! anything that writes — decodes the OS-native ranges with the documented
//! per-callback fallback, performs the document operations, re-encodes the
//! results, and releases the lock before returning. A refused lock (unknown
//! token, destroyed field, or a reentrant callback hitting the single-writer
//! rule) makes the callback do nothing, never crash or block.

use core::ops::Range;
use vstd::prelude::*;
use vstd::string::StringSliceAdditionalSpecFns;
use vstd::utf8::is_char_boundary;
use vstd::utf8::is_char_boundary_start_end_of_seq;

use crate::geometry::Point;
use crate::geometry::Rect;
use crate::handler::DocModel;
use crate::handler::MAX_COORD;
use crate::handler::MAX_DOC_LEN;
use crate::handler::TextInputHandler;
use crate::handler::doc_wf;
use crate::handler::range_wf;
use crate::handler::spliced;
use crate::handler::text_wf;
use crate::session::SessionCoordinator;
use crate::session::same_session_misc;
use crate::token::TextInputToken;
use crate::translate::NSRange;
use crate::translate::NS_NOT_FOUND;
use crate::translate::decode_nsrange;
use crate::translate::encode_nsrange;
use crate::translate::ns_range_is_sentinel;
use crate::translate::spec_decode_nsrange;
use crate::translate::spec_encode_nsrange;

verus! {

/// The session's observable state is unchanged: every callback releases the
/// lock it acquired before returning.
pub open spec fn session_preserved(a: SessionCoordinator, b: SessionCoordinator) -> bool {
    &&& forall|u: u64| #![trigger b.is_registered(u)] b.is_registered(u) == a.is_registered(u)
    &&& forall|u: u64| #![trigger b.mutable_held(u)] b.mutable_held(u) == a.mutable_held(u)
    &&& forall|u: u64| #![trigger b.readers_of(u)] b.readers_of(u) == a.readers_of(u)
    &&& same_session_misc(a, b)
}

/// The handler's whole abstract view (document model and line structure) is
/// unchanged.
pub open spec fn view_preserved<H: TextInputHandler>(a: H, b: H) -> bool {
    &&& b.model() == a.model()
    &&& forall|j: int| #![trigger b.line_of(j)] b.line_of(j) == a.line_of(j)
}

/// Does the input method own a not-yet-committed span in this field?
/// Answers false when no lock can be had.
pub fn has_marked_text<H: TextInputHandler>(
    session: &mut SessionCoordinator,
    token: TextInputToken,
    handler: &mut H,
) -> (r: bool)
    ensures
        session_preserved(*old(session), *final(session)),
        view_preserved(*old(handler), *final(handler)),
        r == (old(session).spec_can_acquire(token.spec_raw(), false) && old(
            handler,
        ).model().composition is Some),
{
    let guard = match session.acquire(token, false) {
        Some(g) => g,
        None => {
            return false;
        },
    };
    let r = match handler.composition_range() {
        Some(_) => true,
        None => false,
    };
    session.release(guard);
    r
}

/// The composition span in OS units, or the sentinel range when there is no
/// composition or no lock can be had.
pub fn marked_range<H: TextInputHandler>(
    session: &mut SessionCoordinator,
    token: TextInputToken,
    handler: &mut H,
) -> (r: NSRange)
    requires
        doc_wf(old(handler).model()),
    ensures
        session_preserved(*old(session), *final(session)),
        view_preserved(*old(handler), *final(handler)),
        ({
            let m = old(handler).model();
            if old(session).spec_can_acquire(token.spec_raw(), false) {
                match m.composition {
                    Some(c) => (r.location as int, r.length as int) == spec_encode_nsrange(
                        m.text,
                        c.0,
                        c.1,
                    ) && !ns_range_is_sentinel(r),
                    None => r.location == NS_NOT_FOUND && r.length == 0,
                }
            } else {
                r.location == NS_NOT_FOUND && r.length == 0
            }
        }),
{
    let guard = match session.acquire(token, false) {
        Some(g) => g,
        None => {
            return NSRange::none();
        },
    };
    let r = match handler.composition_range() {
        Some(range) => encode_nsrange(handler, range),
        None => NSRange::none(),
    };
    session.release(guard);
    r
}

/// The selection in OS units, or the sentinel range when no lock can be had.
pub fn selected_range<H: TextInputHandler>(
    session: &mut SessionCoordinator,
    token: TextInputToken,
    handler: &mut H,
) -> (r: NSRange)
    requires
        doc_wf(old(handler).model()),
    ensures
        session_preserved(*old(session), *final(session)),
        view_preserved(*old(handler), *final(handler)),
        ({
            let m = old(handler).model();
            if old(session).spec_can_acquire(token.spec_raw(), false) {
                (r.location as int, r.length as int) == spec_encode_nsrange(
                    m.text,
                    m.sel_start,
                    m.sel_end,
                ) && !ns_range_is_sentinel(r)
            } else {
                r.location == NS_NOT_FOUND && r.length == 0
            }
        }),
{
    let guard = match session.acquire(token, false) {
        Some(g) => g,
        None => {
            return NSRange::none();
        },
    };
    let range = handler.selected_range();
    let r = encode_nsrange(handler, range);
    session.release(guard);
    r
}

/// Abandon the composition: the text the input method had marked stays in
/// the document as ordinary text, and the composition span is cleared.
/// Returns whether a mutable lock was granted and the clearing happened.
pub fn unmark_text<H: TextInputHandler>(
    session: &mut SessionCoordinator,
    token: TextInputToken,
    handler: &mut H,
) -> (r: bool)
    requires
        text_wf(old(handler).model().text),
    ensures
        session_preserved(*old(session), *final(session)),
        r == old(session).spec_can_acquire(token.spec_raw(), true),
        r ==> final(handler).model() == (DocModel {
            composition: None::<(int, int)>,
            ..old(handler).model()
        }),
        !r ==> *final(handler) == *old(handler),
        forall|j: int| #![trigger final(handler).line_of(j)] final(handler).line_of(j) == old(
            handler,
        ).line_of(j),
{
    let guard = match session.acquire(token, true) {
        Some(g) => g,
        None => {
            return false;
        },
    };
    handler.set_composition_range(None);
    session.release(guard);
    true
}

/// The document's text in a proposed OS range, with the range actually used
/// (re-encoded to OS units). Absent when no lock can be had or when the OS
/// supplied its sentinel — this query has no fallback; the operation aborts.
pub fn attributed_substring_for_proposed_range<H: TextInputHandler>(
    session: &mut SessionCoordinator,
    token: TextInputToken,
    handler: &mut H,
    proposed_range: NSRange,
) -> (r: Option<(Vec<u8>, NSRange)>)
    requires
        text_wf(old(handler).model().text),
    ensures
        session_preserved(*old(session), *final(session)),
        view_preserved(*old(handler), *final(handler)),
        ({
            let m = old(handler).model();
            if old(session).spec_can_acquire(token.spec_raw(), false) {
                match spec_decode_nsrange(
                    m.text,
                    proposed_range.location as int,
                    proposed_range.length as int,
                    0,
                ) {
                    Some(d) => r matches Some(rr) && rr.0@ == m.text.subrange(d.0, d.1) && (
                    rr.1.location as int,
                    rr.1.length as int,
                    ) == spec_encode_nsrange(m.text, d.0, d.1),
                    None => r is None,
                }
            } else {
                r is None
            }
        }),
{
    let guard = match session.acquire(token, false) {
        Some(g) => g,
        None => {
            return None;
        },
    };
    proof {
        is_char_boundary_start_end_of_seq(old(handler).model().text);
    }
    let range = match decode_nsrange(handler, &proposed_range, 0) {
        Some(v) => v,
        None => {
            session.release(guard);
            return None;
        },
    };
    let start = range.start;
    let end = range.end;
    let range_utf16 = encode_nsrange(handler, start..end);
    let text = handler.slice(start..end);
    session.release(guard);
    Some((text, range_utf16))
}

/// The range `insert_text` replaces: the decoded OS range if one was given,
/// else the whole composition, else the selection — a null range from the OS
/// means "finalize the marked or selected text and replace it".
pub open spec fn insert_replacement(m: DocModel, replacement: NSRange) -> (int, int) {
    match spec_decode_nsrange(
        m.text,
        replacement.location as int,
        replacement.length as int,
        0,
    ) {
        Some(d) => d,
        None => match m.composition {
            Some(c) => c,
            None => (m.sel_start, m.sel_end),
        },
    }
}

/// With no explicit replacement range and no composition, an insertion
/// replaces the selection itself. In particular, inserting over a caret puts
/// the text at the caret, and `insert_text`'s contract then collapses the
/// selection to a caret moved past the inserted text: for a caret at `p` and
/// a one-code-unit insertion, to `(p + 1, p + 1)`.
pub proof fn lemma_insert_replaces_selection(m: DocModel, replacement: NSRange)
    requires
        ns_range_is_sentinel(replacement),
        m.composition is None,
    ensures
        insert_replacement(m, replacement) == (m.sel_start, m.sel_end),
{
}

/// Commit text: replace the resolved range with `text`, clear the
/// composition, and collapse the selection to a caret just past the inserted
/// text (`start + len(text)`). Returns whether a mutable lock was granted
/// and the edit happened.
pub fn insert_text<H: TextInputHandler>(
    session: &mut SessionCoordinator,
    token: TextInputToken,
    handler: &mut H,
    text: &str,
    replacement_range: NSRange,
) -> (r: bool)
    requires
        doc_wf(old(handler).model()),
        old(handler).model().text.len() + text.spec_bytes().len() <= MAX_DOC_LEN,
    ensures
        session_preserved(*old(session), *final(session)),
        r == old(session).spec_can_acquire(token.spec_raw(), true),
        !r ==> *final(handler) == *old(handler),
        r ==> ({
            let m = old(handler).model();
            let d = insert_replacement(m, replacement_range);
            let caret = d.0 + text.spec_bytes().len();
            &&& final(handler).model() == (DocModel {
                text: spliced(m.text, d.0, d.1, text.spec_bytes()),
                sel_start: caret,
                sel_end: caret,
                composition: None::<(int, int)>,
            })
            &&& doc_wf(final(handler).model())
        }),
{
    let guard = match session.acquire(token, true) {
        Some(g) => g,
        None => {
            return false;
        },
    };
    let ghost m = handler.model();
    proof {
        is_char_boundary_start_end_of_seq(m.text);
    }
    let converted = match decode_nsrange(handler, &replacement_range, 0) {
        Some(v) => v,
        None => match handler.composition_range() {
            Some(c) => c,
            None => handler.selected_range(),
        },
    };
    let start = converted.start;
    let end = converted.end;
    handler.replace_range(start..end, text);
    proof {
        vstd::utf8::encode_utf8_valid_utf8(text@);
        lemma_spliced_boundaries(m.text, start as int, end as int, text.spec_bytes());
    }
    handler.set_composition_range(None);
    // move the caret next to the inserted text
    let caret_index = start + text.len();
    handler.set_selected_range(caret_index..caret_index);
    session.release(guard);
    true
}

/// In the spliced text, both ends of the inserted span are character
/// boundaries, and the new length is the old one adjusted by the edit.
proof fn lemma_spliced_boundaries(text: Seq<u8>, start: int, end: int, ins: Seq<u8>)
    requires
        vstd::utf8::valid_utf8(text),
        range_wf(text, start, end),
        vstd::utf8::valid_utf8(ins),
    ensures
        ({
            let new_text = spliced(text, start, end, ins);
            &&& new_text.len() == text.len() - (end - start) + ins.len()
            &&& vstd::utf8::valid_utf8(new_text)
            &&& is_char_boundary(new_text, start)
            &&& is_char_boundary(new_text, start + ins.len())
        }),
{
    let new_text = spliced(text, start, end, ins);
    vstd::utf8::valid_utf8_split(text, start);
    vstd::utf8::valid_utf8_split(text, end);
    let prefix = text.take(start);
    let suffix = text.skip(end);
    assert(prefix == text.subrange(0, start));
    assert(suffix == text.subrange(end, text.len() as int));
    vstd::utf8::valid_utf8_concat(ins, suffix);
    crate::encoding::lemma_boundary_at_concat(prefix, ins + suffix);
    assert(new_text =~= prefix + (ins + suffix));
    vstd::utf8::valid_utf8_concat(prefix, ins);
    crate::encoding::lemma_boundary_at_concat(prefix + ins, suffix);
    assert(new_text =~= (prefix + ins) + suffix);
}

/// The composition span `set_marked_text` works on: the existing composition
/// if there is one, else the replacement range decoded as an absolute range,
/// else the selection.
pub open spec fn marked_fallback_composition(m: DocModel, replacement: NSRange) -> (int, int) {
    match m.composition {
        Some(c) => c,
        None => match spec_decode_nsrange(
            m.text,
            replacement.location as int,
            replacement.length as int,
            0,
        ) {
            Some(d) => d,
            None => (m.sel_start, m.sel_end),
        },
    }
}

/// The range `set_marked_text` replaces: the replacement range decoded
/// relative to the existing composition's start (absolute when there is
/// none), falling back to the whole composition span resolved above.
pub open spec fn marked_replace_range(m: DocModel, replacement: NSRange) -> (int, int) {
    let offset: int = match m.composition {
        Some(c) => c.0,
        None => 0,
    };
    match spec_decode_nsrange(
        m.text,
        replacement.location as int,
        replacement.length as int,
        offset,
    ) {
        Some(d) => d,
        None => marked_fallback_composition(m, replacement),
    }
}

/// The composition's new end after the replacement: shifted by
/// `-len(old_range) + len(new_text)`, clamped at zero.
pub open spec fn marked_new_end(comp: (int, int), d: (int, int), ins_len: int) -> int {
    if comp.1 + ins_len >= d.1 - d.0 {
        comp.1 + ins_len - (d.1 - d.0)
    } else {
        0
    }
}

/// Set the input method's marked (composition) text: replace the resolved
/// range with `text`, shift the composition's end by the length difference
/// (a composition that becomes empty — or whose shifted span no longer names
/// a boundary-aligned range of the new text — is cleared), then re-set the
/// selection from `selected_range`, decoded relative to the replaced range's
/// start; a sentinel selection leaves the stored selection alone. Returns
/// whether a mutable lock was granted and the edit happened.
pub fn set_marked_text<H: TextInputHandler>(
    session: &mut SessionCoordinator,
    token: TextInputToken,
    handler: &mut H,
    text: &str,
    selected_range: NSRange,
    replacement_range: NSRange,
) -> (r: bool)
    requires
        doc_wf(old(handler).model()),
        old(handler).model().text.len() + text.spec_bytes().len() <= MAX_DOC_LEN,
    ensures
        session_preserved(*old(session), *final(session)),
        r == old(session).spec_can_acquire(token.spec_raw(), true),
        !r ==> *final(handler) == *old(handler),
        r ==> ({
            let m = old(handler).model();
            let comp = marked_fallback_composition(m, replacement_range);
            let d = marked_replace_range(m, replacement_range);
            let ins = text.spec_bytes();
            let new_text = spliced(m.text, d.0, d.1, ins);
            let new_end = marked_new_end(comp, d, ins.len() as int);
            &&& final(handler).model().text == new_text
            &&& final(handler).model().composition == (if comp.0 < new_end && is_char_boundary(
                new_text,
                comp.0,
            ) && is_char_boundary(new_text, new_end) {
                Some((comp.0, new_end))
            } else {
                None::<(int, int)>
            })
            &&& (match spec_decode_nsrange(
                new_text,
                selected_range.location as int,
                selected_range.length as int,
                d.0,
            ) {
                Some(s) => final(handler).model().sel_start == s.0
                    && final(handler).model().sel_end == s.1,
                None => if range_wf(new_text, m.sel_start, m.sel_end) {
                    final(handler).model().sel_start == m.sel_start
                        && final(handler).model().sel_end == m.sel_end
                } else {
                    final(handler).model().sel_start == d.0 + ins.len()
                        && final(handler).model().sel_end == d.0 + ins.len()
                },
            })
            &&& doc_wf(final(handler).model())
        }),
{
    let guard = match session.acquire(token, true) {
        Some(g) => g,
        None => {
            return false;
        },
    };
    let ghost m = handler.model();
    proof {
        is_char_boundary_start_end_of_seq(m.text);
    }
    // no existing composition? default to the replacement range, interpreted
    // in absolute coordinates; no replacement range either? default to the
    // selection
    let composition = match handler.composition_range() {
        Some(c) => c,
        None => match decode_nsrange(handler, &replacement_range, 0) {
            Some(d) => d,
            None => handler.selected_range(),
        },
    };
    let replace_range_offset = match handler.composition_range() {
        Some(c) => c.start,
        None => 0,
    };
    // the default replacement range is the already-resolved composition span
    let replace = match decode_nsrange(handler, &replacement_range, replace_range_offset) {
        Some(d) => d,
        None => composition.start..composition.end,
    };
    let start = replace.start;
    let end = replace.end;
    handler.replace_range(start..end, text);
    proof {
        vstd::utf8::encode_utf8_valid_utf8(text@);
        lemma_spliced_boundaries(m.text, start as int, end as int, text.spec_bytes());
    }
    // update the composition range: its end moves by the length difference,
    // and a span that ends up empty or torn off the new text's boundaries is
    // normalized to "no composition"
    let ins_len = text.len();
    let removed = end - start;
    let comp_start = composition.start;
    let new_end: usize = if composition.end + ins_len >= removed {
        composition.end + ins_len - removed
    } else {
        0
    };
    let start_ok = handler.is_char_boundary(comp_start);
    let end_ok = handler.is_char_boundary(new_end);
    if comp_start < new_end && start_ok && end_ok {
        handler.set_composition_range(Some(comp_start..new_end));
    } else {
        handler.set_composition_range(None);
    }
    // update the selection, relative to the start of the replaced range;
    // with no explicit selection from the OS the stored one stays — unless
    // the edit left it outside the new text, in which case it collapses to
    // the caret just past the inserted text, so the document never leaves
    // its invariant
    match decode_nsrange(handler, &selected_range, start) {
        Some(selection) => handler.set_selected_range(selection),
        None => {
            let sel = handler.selected_range();
            let keep = sel.start <= sel.end && handler.is_char_boundary(sel.start)
                && handler.is_char_boundary(sel.end);
            if !keep {
                let caret = start + ins_len;
                handler.set_selected_range(caret..caret);
            }
        },
    }
    session.release(guard);
    true
}

/// Map a window-space point to a document index. Returns 0 when no lock can
/// be had; otherwise exactly the index the layout's hit-testing oracle names
/// for the point — a boundary-aligned position, never a failure.
pub fn character_index_for_point<H: TextInputHandler>(
    session: &mut SessionCoordinator,
    token: TextInputToken,
    handler: &mut H,
    point: Point,
) -> (r: usize)
    requires
        text_wf(old(handler).model().text),
        -MAX_COORD <= point.x <= MAX_COORD,
        -MAX_COORD <= point.y <= MAX_COORD,
    ensures
        session_preserved(*old(session), *final(session)),
        view_preserved(*old(handler), *final(handler)),
        old(session).spec_can_acquire(token.spec_raw(), false) ==> r as int == old(
            handler,
        ).hit_of(point).0 && r <= old(handler).model().text.len() && is_char_boundary(
            old(handler).model().text,
            r as int,
        ),
        !old(session).spec_can_acquire(token.spec_raw(), false) ==> r == 0,
{
    let guard = match session.acquire(token, false) {
        Some(g) => g,
        None => {
            return 0;
        },
    };
    proof {
        handler.hit_of_wf(point);
    }
    let hit = handler.hit_test_point(point);
    session.release(guard);
    hit.idx
}

/// Window-space rectangle of the first line's worth of an OS range, with the
/// range actually measured (the decoded range, cut at the end of the line
/// containing its start), re-encoded to OS units. A sentinel range falls
/// back to the empty range at 0. Absent when no lock can be had or the text
/// is offscreen.
pub fn first_rect_for_character_range<H: TextInputHandler>(
    session: &mut SessionCoordinator,
    token: TextInputToken,
    handler: &mut H,
    character_range: NSRange,
) -> (r: Option<(Rect, NSRange)>)
    requires
        text_wf(old(handler).model().text),
    ensures
        session_preserved(*old(session), *final(session)),
        view_preserved(*old(handler), *final(handler)),
        !old(session).spec_can_acquire(token.spec_raw(), false) ==> r is None,
        ({
            let m = old(handler).model();
            let d = match spec_decode_nsrange(
                m.text,
                character_range.location as int,
                character_range.length as int,
                0,
            ) {
                Some(d) => d,
                None => (0int, 0int),
            };
            let line = old(handler).line_of(d.0);
            let cut = if line.1 < d.1 {
                line.1
            } else {
                d.1
            };
            r matches Some(rr) ==> (rr.1.location as int, rr.1.length as int)
                == spec_encode_nsrange(m.text, d.0, cut)
        }),
{
    let guard = match session.acquire(token, false) {
        Some(g) => g,
        None => {
            return None;
        },
    };
    proof {
        is_char_boundary_start_end_of_seq(old(handler).model().text);
    }
    let range = match decode_nsrange(handler, &character_range, 0) {
        Some(v) => v,
        None => 0..0,
    };
    let start = range.start;
    let mut end = range.end;
    let line = handler.line_range(start);
    if line.end < end {
        end = line.end;
    }
    proof {
        handler.line_of_wf(start as int);
    }
    let rect = match handler.slice_bounding_box(start..end) {
        Some(v) => v,
        None => {
            session.release(guard);
            return None;
        },
    };
    let range_utf16 = encode_nsrange(handler, start..end);
    session.release(guard);
    Some((rect, range_utf16))
}

} // verus!
