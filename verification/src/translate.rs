//! OS-native ranges and their translation to document ranges.
//!
//! The OS names spans of text as `(location, length)` pairs of 16-bit code
//! units, with a reserved "not found" value for `location` that stands for
//! "no range given". Decoding turns such a pair, relative to a UTF-8 base
//! offset, into an absolute boundary-aligned UTF-8 range of the document;
//! encoding measures a UTF-8 range back into 16-bit units. The two are
//! mutually inverse on boundary-aligned ranges
//! ([`lemma_os_range_round_trip`]).

use core::ops::Range;
use vstd::prelude::*;
use vstd::utf8::is_char_boundary;
use vstd::utf8::is_char_boundary_start_end_of_seq;
use vstd::utf8::valid_utf8_split;

use crate::encoding::lemma_boundary_of_prefix;
use crate::encoding::lemma_offset_bounds;
use crate::encoding::lemma_offset_monotone;
use crate::encoding::lemma_offset_of_utf16_len;
use crate::encoding::lemma_offset_saturates;
use crate::encoding::lemma_utf16_len_le_len;
use crate::encoding::lemma_utf16_len_nonneg;
use crate::encoding::lemma_utf16_len_split;
use crate::encoding::utf16_len;
use crate::encoding::utf8_offset_of_utf16;
use crate::handler::TextInputHandler;
use crate::handler::range_wf;
use crate::handler::text_wf;

verus! {

broadcast use vstd::seq::group_seq_axioms;

/// The platform's reserved "not found" value: the largest signed 64-bit
/// integer, reinterpreted as an unsigned location. This single value — and
/// no other — stands for "no range given"; every other location decodes,
/// with offsets past the document saturating at its end.
pub const NS_NOT_FOUND: u64 = 0x7fff_ffff_ffff_ffff;

/// An OS-native text range: `location` and `length` in 16-bit code units.
#[derive(Clone, Copy, PartialEq, Eq, Structural, Debug)]
pub struct NSRange {
    pub location: u64,
    pub length: u64,
}

/// True when the range's location stands for "no range given".
pub open spec fn ns_range_is_sentinel(r: NSRange) -> bool {
    r.location == NS_NOT_FOUND
}

impl NSRange {
    pub fn new(location: u64, length: u64) -> (r: NSRange)
        ensures
            r == (NSRange { location, length }),
    {
        NSRange { location, length }
    }

    /// The range that stands for "no range given".
    pub fn none() -> (r: NSRange)
        ensures
            r.location == NS_NOT_FOUND,
            r.length == 0,
            ns_range_is_sentinel(r),
    {
        NSRange { location: NS_NOT_FOUND, length: 0 }
    }
}

/// Decoding an OS range relative to the UTF-8 base offset `start_offset`:
/// `None` for the sentinel, otherwise the boundary-aligned UTF-8 range whose
/// endpoints sit `location` and `location + length` UTF-16 units past the
/// base. Offsets beyond the document saturate at its end.
pub open spec fn spec_decode_nsrange(
    text: Seq<u8>,
    location: int,
    length: int,
    start_offset: int,
) -> Option<(int, int)> {
    if location == NS_NOT_FOUND {
        None
    } else {
        let base = utf16_len(text.take(start_offset));
        Some(
            (
                utf8_offset_of_utf16(text, base + location),
                utf8_offset_of_utf16(text, base + location + length),
            ),
        )
    }
}

/// Encoding a UTF-8 range: the UTF-16 measure of the text before it and of
/// the text inside it.
pub open spec fn spec_encode_nsrange(text: Seq<u8>, start: int, end: int) -> (int, int) {
    (utf16_len(text.take(start)), utf16_len(text.subrange(start, end)))
}

/// Parses the UTF-16 OS range into a UTF-8 document range.
///
/// `start_offset` is the UTF-8 offset into the document that `range` values
/// are relative to; 0 decodes an absolute range. Returns `None` when the OS
/// supplied its "no range" sentinel — an expected absence, not an error;
/// each caller falls back as its callback documents.
pub fn decode_nsrange<H: TextInputHandler>(
    handler: &mut H,
    range: &NSRange,
    start_offset: usize,
) -> (r: Option<Range<usize>>)
    requires
        text_wf(old(handler).model().text),
        is_char_boundary(old(handler).model().text, start_offset as int),
        start_offset as int <= old(handler).model().text.len(),
    ensures
        final(handler).model() == old(handler).model(),
        forall|j: int| #![trigger final(handler).line_of(j)] final(handler).line_of(j) == old(
            handler,
        ).line_of(j),
        match spec_decode_nsrange(
            old(handler).model().text,
            range.location as int,
            range.length as int,
            start_offset as int,
        ) {
            Some(d) => r matches Some(rr) && rr.start as int == d.0 && rr.end as int == d.1
                && range_wf(old(handler).model().text, rr.start as int, rr.end as int),
            None => r is None,
        },
{
    let ghost text = handler.model().text;
    if range.location == NS_NOT_FOUND {
        return None;
    }
    let len = handler.len();
    proof {
        is_char_boundary_start_end_of_seq(text);
    }
    let total16 = handler.utf8_to_utf16(0..len);
    let base16 = handler.utf8_to_utf16(0..start_offset);
    proof {
        assert(text.subrange(0, len as int) =~= text);
        assert(text.subrange(0, start_offset as int) =~= text.take(start_offset as int));
        valid_utf8_split(text, start_offset as int);
        lemma_utf16_len_nonneg(text.take(start_offset as int));
        lemma_utf16_len_le_len(text.take(start_offset as int));
        lemma_utf16_len_le_len(text);
    }
    // absolute UTF-16 offsets; anything past the document's own UTF-16
    // length maps to the document's end, so clamping there keeps every sum
    // within the machine's integers without changing the result
    let clamped_location: u64 = if range.location > 0xffff_ffff {
        0xffff_ffff
    } else {
        range.location
    };
    let clamped_length: u64 = if range.length > 0xffff_ffff {
        0xffff_ffff
    } else {
        range.length
    };
    let loc16: u64 = {
        let absolute = base16 as u64 + clamped_location;
        if absolute > total16 as u64 {
            total16 as u64
        } else {
            absolute
        }
    };
    let end16: u64 = {
        let absolute = loc16 + clamped_length;
        if absolute > total16 as u64 {
            total16 as u64
        } else {
            absolute
        }
    };
    proof {
        let base = base16 as int;
        let loc = range.location as int;
        let length = range.length as int;
        lemma_offset_clamp_equal(text, base + loc, loc16 as int);
        lemma_offset_clamp_equal(text, base + loc + length, end16 as int);
    }
    let start_utf8 = handler.utf16_to_utf8(0..loc16 as usize);
    let seg_utf8 = handler.utf16_to_utf8(loc16 as usize..end16 as usize);
    proof {
        lemma_offset_bounds(text, 0);
        lemma_offset_bounds(text, loc16 as int);
        lemma_offset_bounds(text, end16 as int);
        lemma_offset_monotone(text, loc16 as int, end16 as int);
    }
    Some(start_utf8..(start_utf8 + seg_utf8))
}

/// Two UTF-16 offsets that are equal, or both at or past the document's
/// UTF-16 length, map to the same byte offset.
proof fn lemma_offset_clamp_equal(text: Seq<u8>, a: int, b: int)
    requires
        vstd::utf8::valid_utf8(text),
        a == b || (a >= utf16_len(text) && b >= utf16_len(text)),
    ensures
        utf8_offset_of_utf16(text, a) == utf8_offset_of_utf16(text, b),
{
    if a != b {
        lemma_offset_saturates(text, a);
        lemma_offset_saturates(text, b);
    }
}

/// Encodes the UTF-8 document range into a UTF-16 OS range.
pub fn encode_nsrange<H: TextInputHandler>(handler: &mut H, range: Range<usize>) -> (r: NSRange)
    requires
        text_wf(old(handler).model().text),
        range_wf(old(handler).model().text, range.start as int, range.end as int),
    ensures
        final(handler).model() == old(handler).model(),
        forall|j: int| #![trigger final(handler).line_of(j)] final(handler).line_of(j) == old(
            handler,
        ).line_of(j),
        (r.location as int, r.length as int) == spec_encode_nsrange(
            old(handler).model().text,
            range.start as int,
            range.end as int,
        ),
        !ns_range_is_sentinel(r),
{
    let ghost text = handler.model().text;
    proof {
        is_char_boundary_start_end_of_seq(text);
        assert(text.subrange(0, range.start as int) =~= text.take(range.start as int));
        valid_utf8_split(text, range.start as int);
        lemma_utf16_len_le_len(text.take(range.start as int));
        lemma_utf16_len_nonneg(text.take(range.start as int));
        valid_utf8_split(text, range.end as int);
        lemma_boundary_of_prefix(text, range.end as int, range.start as int);
        lemma_utf16_len_split(text.take(range.end as int), range.start as int);
        assert(text.take(range.end as int).subrange(range.start as int, range.end as int)
            =~= text.subrange(range.start as int, range.end as int));
        lemma_utf16_len_nonneg(text.subrange(range.start as int, range.end as int));
    }
    let start = handler.utf8_to_utf16(0..range.start);
    let len = handler.utf8_to_utf16(range);
    NSRange::new(start as u64, len as u64)
}

/// Round trip: encoding a boundary-aligned document range and decoding the
/// result (as an absolute range) yields the same document range back.
pub proof fn lemma_os_range_round_trip(text: Seq<u8>, start: int, end: int)
    requires
        text_wf(text),
        range_wf(text, start, end),
    ensures
        ({
            let (location, length) = spec_encode_nsrange(text, start, end);
            spec_decode_nsrange(text, location, length, 0) == Some((start, end))
        }),
{
    let location = utf16_len(text.take(start));
    let length = utf16_len(text.subrange(start, end));
    // the encoded location stays below the sentinel: it is at most the
    // document's byte length, which the protocol bounds
    valid_utf8_split(text, start);
    assert(text.take(start) == text.subrange(0, start));
    lemma_utf16_len_le_len(text.take(start));
    lemma_utf16_len_nonneg(text.take(start));
    // decoding is relative to base offset 0, whose UTF-16 measure is 0
    assert(text.take(0) =~= Seq::<u8>::empty());
    // the start comes back: the byte offset of the prefix's UTF-16 measure
    lemma_offset_of_utf16_len(text, start);
    // the end comes back: the measure up to `end` is the measure up to
    // `start` plus the measure of the range, by additivity at the boundary
    valid_utf8_split(text, end);
    lemma_boundary_of_prefix(text, end, start);
    lemma_utf16_len_split(text.take(end), start);
    assert(text.take(end).take(start) =~= text.take(start));
    assert(text.take(end).subrange(start, end) =~= text.subrange(start, end));
    lemma_offset_of_utf16_len(text, end);
}

} // verus!
