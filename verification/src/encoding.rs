//! Translation between the document's UTF-8 code-unit indexing and the OS
//! input method's UTF-16 code-unit indexing.
//!
//! The document is modelled as a sequence of UTF-8 code units (bytes), using
//! `vstd::utf8` for well-formedness and character boundaries. On top of that
//! this module defines the UTF-16 measure of a byte sequence (`utf16_len`) and
//! the byte offset reached after a given number of UTF-16 units
//! (`utf8_offset_of_utf16`), together with the executable counting routines
//! and the lemmas that make the two directions inverse to each other.
//!
//! A Unicode scalar needs two UTF-16 code units (a surrogate pair) exactly
//! when it is at least U+10000, which is exactly when its UTF-8 encoding is
//! four bytes long; every other scalar takes one UTF-16 unit.

use vstd::prelude::*;
use vstd::utf8::*;

verus! {

broadcast use vstd::seq::group_seq_axioms;

/// Number of UTF-16 code units in the encoding of the Unicode scalar `v`.
pub open spec fn scalar_utf16_units(v: u32) -> int {
    if v >= 0x10000 {
        2
    } else {
        1
    }
}

/// Length, in UTF-16 code units, of the text whose UTF-8 encoding is `bytes`.
pub open spec fn utf16_len(bytes: Seq<u8>) -> int
    recommends
        valid_utf8(bytes),
    decreases bytes.len(),
    when valid_utf8(bytes)
{
    if bytes.len() == 0 {
        0
    } else {
        scalar_utf16_units(decode_first_scalar(bytes)) + utf16_len(pop_first_scalar(bytes))
    }
}

/// Byte offset of the character boundary reached after consuming `units`
/// UTF-16 code units from the front of `bytes`. An offset that falls inside
/// a surrogate pair rounds up past the whole scalar, and an offset beyond the
/// end of the text saturates at `bytes.len()`.
pub open spec fn utf8_offset_of_utf16(bytes: Seq<u8>, units: int) -> int
    recommends
        valid_utf8(bytes),
    decreases bytes.len(),
    when valid_utf8(bytes)
{
    if units <= 0 || bytes.len() == 0 {
        0
    } else {
        length_of_first_scalar(bytes) + utf8_offset_of_utf16(
            pop_first_scalar(bytes),
            units - scalar_utf16_units(decode_first_scalar(bytes)),
        )
    }
}

/// The UTF-16 measure of a valid byte sequence is never negative.
pub proof fn lemma_utf16_len_nonneg(bytes: Seq<u8>)
    requires
        valid_utf8(bytes),
    ensures
        utf16_len(bytes) >= 0,
    decreases bytes.len(),
{
    if bytes.len() != 0 {
        lemma_utf16_len_nonneg(pop_first_scalar(bytes));
    }
}

/// The number of bytes in the first scalar's encoding, its decoded value and
/// its UTF-16 unit count, all read off the leading byte alone.
pub proof fn lemma_first_scalar_shape(bytes: Seq<u8>)
    requires
        valid_first_scalar(bytes),
    ensures
        1 <= length_of_first_scalar(bytes) <= 4,
        length_of_first_scalar(bytes) <= bytes.len(),
        scalar_utf16_units(decode_first_scalar(bytes)) == if bytes[0] >= 0xf0 {
            2int
        } else {
            1int
        },
        scalar_utf16_units(decode_first_scalar(bytes)) <= length_of_first_scalar(bytes),
        bytes[0] < 0x80 <==> length_of_first_scalar(bytes) == 1,
        0xc0 <= bytes[0] < 0xe0 <==> length_of_first_scalar(bytes) == 2,
        0xe0 <= bytes[0] < 0xf0 <==> length_of_first_scalar(bytes) == 3,
        0xf0 <= bytes[0] <==> length_of_first_scalar(bytes) == 4,
{
    let b0 = bytes[0];
    if is_leading_byte_width_4(b0) {
        // a four-byte encoding is never overlong, so its scalar is at least
        // U+10000 and needs a surrogate pair
        assert(decode_first_codepoint(bytes) >= 0x10000);
    } else if is_leading_byte_width_3(b0) {
        let b1 = bytes[1];
        let b2 = bytes[2];
        assert(codepoint_width_3(b0, b1, b2) < 0x10000) by {
            assert((((b0 & 0x0f) as u32) << 12) | (((b1 & 0x3f) as u32) << 6) | ((b2
                & 0x3f) as u32) < 0x10000) by (bit_vector);
        }
    } else if is_leading_byte_width_2(b0) {
        let b1 = bytes[1];
        assert(codepoint_width_2(b0, b1) < 0x10000) by {
            assert((((b0 & 0x1f) as u32) << 6) | ((b1 & 0x3f) as u32) < 0x10000) by (bit_vector);
        }
    } else {
        assert(codepoint_width_1(b0) < 0x10000) by {
            assert(((b0 & 0x7f) as u32) < 0x10000) by (bit_vector);
        }
    }
}

/// A valid byte sequence needs no more UTF-16 units than it has bytes.
pub proof fn lemma_utf16_len_le_len(bytes: Seq<u8>)
    requires
        valid_utf8(bytes),
    ensures
        utf16_len(bytes) <= bytes.len(),
    decreases bytes.len(),
{
    if bytes.len() != 0 {
        lemma_first_scalar_shape(bytes);
        lemma_utf16_len_le_len(pop_first_scalar(bytes));
    }
}

/// A character boundary other than 0 lies at or past the end of the first
/// scalar, and is a boundary of the remainder once that scalar is removed.
pub proof fn lemma_boundary_unfold(bytes: Seq<u8>, i: int)
    requires
        valid_utf8(bytes),
        is_char_boundary(bytes, i),
        0 < i <= bytes.len(),
    ensures
        length_of_first_scalar(bytes) <= i,
        is_char_boundary(pop_first_scalar(bytes), i - length_of_first_scalar(bytes)),
{
    reveal_with_fuel(is_char_boundary, 2);
}

/// A boundary of the remainder after the first scalar is a boundary of the
/// whole sequence, shifted by that scalar's length.
pub proof fn lemma_boundary_fold(bytes: Seq<u8>, j: int)
    requires
        valid_utf8(bytes),
        bytes.len() > 0,
        0 <= j <= pop_first_scalar(bytes).len(),
        is_char_boundary(pop_first_scalar(bytes), j),
    ensures
        is_char_boundary(bytes, j + length_of_first_scalar(bytes)),
{
    reveal_with_fuel(is_char_boundary, 2);
}

/// A prefix of a valid sequence that contains the whole first scalar starts
/// with that same scalar.
pub proof fn lemma_first_scalar_of_prefix(bytes: Seq<u8>, i: int)
    requires
        valid_utf8(bytes),
        bytes.len() > 0,
        length_of_first_scalar(bytes) <= i <= bytes.len(),
    ensures
        bytes.take(i).len() == i,
        valid_first_scalar(bytes.take(i)),
        length_of_first_scalar(bytes.take(i)) == length_of_first_scalar(bytes),
        decode_first_scalar(bytes.take(i)) == decode_first_scalar(bytes),
        pop_first_scalar(bytes.take(i)) =~= pop_first_scalar(bytes).take(
            i - length_of_first_scalar(bytes),
        ),
{
    let p = bytes.take(i);
    let k = length_of_first_scalar(bytes);
    assert(valid_first_scalar(bytes));
    lemma_first_scalar_shape(bytes);
    assert(p[0] == bytes[0]);
    if k >= 2 {
        assert(p[1] == bytes[1]);
    }
    if k >= 3 {
        assert(p[2] == bytes[2]);
    }
    if k >= 4 {
        assert(p[3] == bytes[3]);
    }
    assert(valid_leading_and_continuation_bytes_first_codepoint(p));
    assert(length_of_first_codepoint(p) == k);
    assert(decode_first_codepoint(p) == decode_first_codepoint(bytes));
}

/// The UTF-16 measure is additive across any split at a character boundary.
pub proof fn lemma_utf16_len_split(bytes: Seq<u8>, i: int)
    requires
        valid_utf8(bytes),
        is_char_boundary(bytes, i),
        0 <= i <= bytes.len(),
    ensures
        valid_utf8(bytes.take(i)),
        valid_utf8(bytes.subrange(i, bytes.len() as int)),
        utf16_len(bytes) == utf16_len(bytes.take(i)) + utf16_len(
            bytes.subrange(i, bytes.len() as int),
        ),
    decreases bytes.len(),
{
    valid_utf8_split(bytes, i);
    assert(bytes.take(i) == bytes.subrange(0, i));
    if i == 0 {
        assert(bytes.subrange(0, bytes.len() as int) =~= bytes);
    } else {
        let k = length_of_first_scalar(bytes);
        let pop = pop_first_scalar(bytes);
        lemma_boundary_unfold(bytes, i);
        lemma_first_scalar_of_prefix(bytes, i);
        lemma_utf16_len_split(pop, i - k);
        assert(pop.subrange(i - k, pop.len() as int) =~= bytes.subrange(i, bytes.len() as int));
        assert(pop.take(i - k) == pop.subrange(0, i - k));
    }
}

/// The byte offset for a UTF-16 offset is a character boundary inside the
/// sequence.
pub proof fn lemma_offset_bounds(bytes: Seq<u8>, units: int)
    requires
        valid_utf8(bytes),
    ensures
        0 <= utf8_offset_of_utf16(bytes, units) <= bytes.len(),
        is_char_boundary(bytes, utf8_offset_of_utf16(bytes, units)),
    decreases bytes.len(),
{
    is_char_boundary_start_end_of_seq(bytes);
    if units <= 0 || bytes.len() == 0 {
    } else {
        let k = length_of_first_scalar(bytes);
        let pop = pop_first_scalar(bytes);
        let u = scalar_utf16_units(decode_first_scalar(bytes));
        lemma_first_scalar_shape(bytes);
        lemma_offset_bounds(pop, units - u);
        lemma_boundary_fold(bytes, utf8_offset_of_utf16(pop, units - u));
    }
}

/// The byte offset grows with the UTF-16 offset.
pub proof fn lemma_offset_monotone(bytes: Seq<u8>, u1: int, u2: int)
    requires
        valid_utf8(bytes),
        u1 <= u2,
    ensures
        utf8_offset_of_utf16(bytes, u1) <= utf8_offset_of_utf16(bytes, u2),
    decreases bytes.len(),
{
    if u1 <= 0 || bytes.len() == 0 {
        lemma_offset_bounds(bytes, u1);
        lemma_offset_bounds(bytes, u2);
    } else {
        let u = scalar_utf16_units(decode_first_scalar(bytes));
        lemma_offset_monotone(pop_first_scalar(bytes), u1 - u, u2 - u);
    }
}

/// Past the end of the text, every UTF-16 offset maps to the text's length.
pub proof fn lemma_offset_saturates(bytes: Seq<u8>, units: int)
    requires
        valid_utf8(bytes),
        units >= utf16_len(bytes),
    ensures
        utf8_offset_of_utf16(bytes, units) == bytes.len(),
    decreases bytes.len(),
{
    if bytes.len() == 0 {
    } else {
        let k = length_of_first_scalar(bytes);
        let pop = pop_first_scalar(bytes);
        let u = scalar_utf16_units(decode_first_scalar(bytes));
        lemma_first_scalar_shape(bytes);
        lemma_utf16_len_nonneg(pop);
        assert(units > 0);
        lemma_offset_saturates(pop, units - u);
    }
}

/// Measuring a boundary-aligned prefix in UTF-16 units and mapping that count
/// back to bytes returns to the same boundary: the two conversions are
/// mutually inverse on boundary-aligned offsets.
pub proof fn lemma_offset_of_utf16_len(bytes: Seq<u8>, i: int)
    requires
        valid_utf8(bytes),
        is_char_boundary(bytes, i),
        0 <= i <= bytes.len(),
    ensures
        utf8_offset_of_utf16(bytes, utf16_len(bytes.take(i))) == i,
    decreases bytes.len(),
{
    valid_utf8_split(bytes, i);
    assert(bytes.take(i) == bytes.subrange(0, i));
    if i == 0 {
        assert(bytes.take(0) =~= Seq::<u8>::empty());
    } else {
        let k = length_of_first_scalar(bytes);
        let pop = pop_first_scalar(bytes);
        let u = scalar_utf16_units(decode_first_scalar(bytes));
        lemma_boundary_unfold(bytes, i);
        lemma_first_scalar_of_prefix(bytes, i);
        lemma_first_scalar_shape(bytes);
        valid_utf8_split(pop, i - k);
        assert(pop.take(i - k) == pop.subrange(0, i - k));
        lemma_utf16_len_nonneg(pop.take(i - k));
        assert(utf16_len(bytes.take(i)) == u + utf16_len(pop.take(i - k)));
        lemma_offset_of_utf16_len(pop, i - k);
    }
}

/// Both ends of any well-formed document are character boundaries: index 0
/// and the document's length always answer true to a boundary query.
pub proof fn lemma_document_ends_are_boundaries(text: Seq<u8>)
    requires
        valid_utf8(text),
    ensures
        is_char_boundary(text, 0),
        is_char_boundary(text, text.len() as int),
{
    is_char_boundary_start_end_of_seq(text);
}

/// The junction of two valid sequences is a character boundary of their
/// concatenation.
pub proof fn lemma_boundary_at_concat(a: Seq<u8>, b: Seq<u8>)
    requires
        valid_utf8(a),
        valid_utf8(b),
    ensures
        valid_utf8(a + b),
        is_char_boundary(a + b, a.len() as int),
{
    valid_utf8_concat(a, b);
    is_char_boundary_start_end_of_seq(a + b);
    if b.len() > 0 {
        assert(valid_first_scalar(b));
        lemma_first_scalar_shape(b);
        assert((a + b)[a.len() as int] == b[0]);
        is_char_boundary_iff_not_is_continuation_byte(a + b, a.len() as int);
    }
}

/// Exact UTF-16 unit count of the boundary-aligned byte range
/// `[start, end)` of `text`.
pub fn count_utf16_units(text: &[u8], start: usize, end: usize) -> (count: usize)
    requires
        valid_utf8(text@),
        start <= end <= text@.len(),
        is_char_boundary(text@, start as int),
        is_char_boundary(text@, end as int),
    ensures
        count == utf16_len(text@.subrange(start as int, end as int)),
{
    proof {
        lemma_utf16_len_split(text@, end as int);
        lemma_boundary_of_prefix(text@, end as int, start as int);
        lemma_utf16_len_split(text@.take(end as int), start as int);
        assert(text@.take(end as int).take(start as int) =~= text@.take(start as int));
        assert(text@.take(end as int).subrange(start as int, end as int) =~= text@.subrange(
            start as int,
            end as int,
        ));
        lemma_utf16_len_le_len(text@.subrange(start as int, end as int));
    }
    let ghost whole = text@.subrange(start as int, end as int);
    let mut i: usize = start;
    let mut count: usize = 0;
    while i < end
        invariant
            valid_utf8(text@),
            start <= i <= end <= text@.len(),
            is_char_boundary(text@, i as int),
            is_char_boundary(text@, end as int),
            valid_utf8(text@.subrange(i as int, end as int)),
            utf16_len(whole) == count + utf16_len(text@.subrange(i as int, end as int)),
            count <= i - start,
            whole == text@.subrange(start as int, end as int),
            valid_utf8(whole),
            utf16_len(whole) <= whole.len(),
        decreases end - i,
    {
        let ghost rest = text@.subrange(i as int, end as int);
        proof {
            assert(rest.len() > 0);
            assert(valid_first_scalar(rest));
            lemma_first_scalar_shape(rest);
            assert(rest[0] == text@[i as int]);
        }
        let b = text[i];
        let step: usize = if b < 0x80 {
            1
        } else if b < 0xe0 {
            2
        } else if b < 0xf0 {
            3
        } else {
            4
        };
        let units: usize = if b >= 0xf0 {
            2
        } else {
            1
        };
        proof {
            let k = length_of_first_scalar(rest);
            assert(step == k);
            assert(units == scalar_utf16_units(decode_first_scalar(rest)));
            assert(pop_first_scalar(rest) =~= text@.subrange(i as int + k, end as int));
            lemma_utf16_len_nonneg(pop_first_scalar(rest));
            lemma_utf16_len_le_len(pop_first_scalar(rest));
            lemma_boundary_within(text@, end as int, i as int, k);
        }
        count = count + units;
        i = i + step;
    }
    proof {
        assert(text@.subrange(i as int, end as int) =~= Seq::<u8>::empty());
    }
    count
}

/// A character boundary of a valid sequence below a boundary-aligned cutoff
/// is also a boundary of the prefix up to that cutoff.
pub proof fn lemma_boundary_of_prefix(bytes: Seq<u8>, cut: int, i: int)
    requires
        valid_utf8(bytes),
        is_char_boundary(bytes, cut),
        is_char_boundary(bytes, i),
        0 <= i <= cut <= bytes.len(),
    ensures
        valid_utf8(bytes.take(cut)),
        is_char_boundary(bytes.take(cut), i),
{
    valid_utf8_split(bytes, cut);
    assert(bytes.take(cut) == bytes.subrange(0, cut));
    is_char_boundary_start_end_of_seq(bytes.take(cut));
    if i < cut {
        is_char_boundary_iff_not_is_continuation_byte(bytes, i);
        is_char_boundary_iff_not_is_continuation_byte(bytes.take(cut), i);
        assert(bytes.take(cut)[i] == bytes[i]);
    }
}

/// Stepping one whole scalar forward from a boundary inside a
/// boundary-delimited window lands on a boundary again.
pub(crate) proof fn lemma_boundary_within(bytes: Seq<u8>, end: int, i: int, k: int)
    requires
        valid_utf8(bytes),
        is_char_boundary(bytes, i),
        is_char_boundary(bytes, end),
        0 <= i < end <= bytes.len(),
        valid_first_scalar(bytes.subrange(i, end)),
        k == length_of_first_scalar(bytes.subrange(i, end)),
        valid_utf8(bytes.subrange(i, end)),
    ensures
        i + k <= end,
        is_char_boundary(bytes, i + k),
        valid_utf8(bytes.subrange(i + k, end)),
{
    let rest = bytes.subrange(i, end);
    lemma_first_scalar_shape(rest);
    assert(pop_first_scalar(rest) =~= bytes.subrange(i + k, end));
    is_char_boundary_start_end_of_seq(rest);
    lemma_boundary_fold(rest, 0);
    if i + k < end {
        is_char_boundary_iff_not_is_continuation_byte(rest, k);
        is_char_boundary_iff_not_is_continuation_byte(bytes, i + k);
        assert(rest[k] == bytes[i + k]);
    } else {
        assert(i + k == end);
    }
}

/// Byte offset of the character boundary reached after `units` UTF-16 code
/// units, computed by walking the text scalar by scalar.
pub fn utf16_offset_to_utf8(text: &[u8], units: u64) -> (offset: usize)
    requires
        valid_utf8(text@),
    ensures
        offset == utf8_offset_of_utf16(text@, units as int),
        is_char_boundary(text@, offset as int),
        offset <= text@.len(),
{
    let len = text.len();
    let mut i: usize = 0;
    let mut rem: u64 = units;
    proof {
        assert(text@.subrange(0, len as int) =~= text@);
        is_char_boundary_start_end_of_seq(text@);
        lemma_offset_bounds(text@, units as int);
    }
    while rem > 0 && i < len
        invariant
            valid_utf8(text@),
            len == text@.len(),
            0 <= i <= len,
            is_char_boundary(text@, i as int),
            valid_utf8(text@.subrange(i as int, len as int)),
            rem <= units,
            utf8_offset_of_utf16(text@, units as int) == i + utf8_offset_of_utf16(
                text@.subrange(i as int, len as int),
                rem as int,
            ),
        decreases len - i,
    {
        let ghost rest = text@.subrange(i as int, len as int);
        proof {
            assert(rest.len() > 0);
            assert(valid_first_scalar(rest));
            lemma_first_scalar_shape(rest);
            assert(rest[0] == text@[i as int]);
        }
        let b = text[i];
        let step: usize = if b < 0x80 {
            1
        } else if b < 0xe0 {
            2
        } else if b < 0xf0 {
            3
        } else {
            4
        };
        let units_here: u64 = if b >= 0xf0 {
            2
        } else {
            1
        };
        proof {
            let k = length_of_first_scalar(rest);
            let u = scalar_utf16_units(decode_first_scalar(rest));
            assert(step == k);
            assert(units_here == u);
            assert(pop_first_scalar(rest) =~= text@.subrange(i as int + k, len as int));
            // consuming the scalar: the spec recursion subtracts u even when
            // fewer units remain, but any non-positive remainder maps to
            // offset 0, so clamping the counter at zero is equivalent
            assert(utf8_offset_of_utf16(rest, rem as int) == k + utf8_offset_of_utf16(
                pop_first_scalar(rest),
                rem - u,
            ));
            if rem < u {
                assert(utf8_offset_of_utf16(pop_first_scalar(rest), rem - u)
                    == utf8_offset_of_utf16(pop_first_scalar(rest), 0));
            }
            is_char_boundary_start_end_of_seq(rest);
            lemma_boundary_within2(text@, i as int, k);
        }
        i = i + step;
        rem = if rem >= units_here {
            rem - units_here
        } else {
            0
        };
    }
    proof {
        if rem == 0 {
            assert(utf8_offset_of_utf16(text@.subrange(i as int, len as int), 0) == 0);
        } else {
            assert(i == len);
            assert(text@.subrange(i as int, len as int) =~= Seq::<u8>::empty());
        }
    }
    i
}

/// Stepping one whole scalar forward from a boundary lands on a boundary.
pub(crate) proof fn lemma_boundary_within2(bytes: Seq<u8>, i: int, k: int)
    requires
        valid_utf8(bytes),
        is_char_boundary(bytes, i),
        0 <= i < bytes.len(),
        valid_first_scalar(bytes.subrange(i, bytes.len() as int)),
        k == length_of_first_scalar(bytes.subrange(i, bytes.len() as int)),
        valid_utf8(bytes.subrange(i, bytes.len() as int)),
    ensures
        i + k <= bytes.len(),
        is_char_boundary(bytes, i + k),
        valid_utf8(bytes.subrange(i + k, bytes.len() as int)),
{
    is_char_boundary_start_end_of_seq(bytes);
    lemma_boundary_within(bytes, bytes.len() as int, i, k);
}

} // verus!
