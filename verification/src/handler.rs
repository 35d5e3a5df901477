//! The edit-lock contract: the capability surface a window exposes for a
//! single input field.
//!
//! A handler is a transient view over an application-owned document. Its
//! abstract state is a [`DocModel`]: the text as UTF-8 code units, the
//! selection, and the input method's composition span. All indices are UTF-8
//! code-unit offsets into the document unless a method says otherwise.

use core::ops::Range;
use vstd::prelude::*;
use vstd::string::StringSliceAdditionalSpecFns;
use vstd::utf8::valid_utf8;
use vstd::utf8::is_char_boundary;

use crate::encoding::utf16_len;
use crate::encoding::utf8_offset_of_utf16;
use crate::geometry::HitTestPoint;
use crate::geometry::Point;
use crate::geometry::Rect;

verus! {

/// Largest document length, in UTF-8 code units, that the OS protocol can
/// address: every valid UTF-16 offset must stay strictly below the reserved
/// not-found sentinel.
pub const MAX_DOC_LEN: usize = 0x7fff_fffe;

/// Coordinate bound for window-space points handed to the hit-testing query;
/// window coordinates are tiny compared to this, and the bound keeps the
/// layout arithmetic inside the machine's integers.
pub const MAX_COORD: i64 = 0x3fff_ffff_ffff;

/// Abstract state of a document under edit: the text, the selection
/// (`sel_start == sel_end` denotes a caret), and the composition span.
pub ghost struct DocModel {
    pub text: Seq<u8>,
    pub sel_start: int,
    pub sel_end: int,
    pub composition: Option<(int, int)>,
}

/// The text is well-formed UTF-8 and short enough for the OS protocol to
/// address all of it.
pub open spec fn text_wf(text: Seq<u8>) -> bool {
    valid_utf8(text) && text.len() <= MAX_DOC_LEN
}

/// A half-open, boundary-aligned range within `text`.
pub open spec fn range_wf(text: Seq<u8>, start: int, end: int) -> bool {
    &&& 0 <= start <= end <= text.len()
    &&& is_char_boundary(text, start)
    &&& is_char_boundary(text, end)
}

/// Document-level invariant: well-formed text, a valid selection, and a
/// composition that, when present, is a nonempty valid range. It holds
/// between protocol callbacks; `replace_range` alone may leave the stored
/// selection and composition stale, and its callers re-establish them.
pub open spec fn doc_wf(m: DocModel) -> bool {
    &&& text_wf(m.text)
    &&& range_wf(m.text, m.sel_start, m.sel_end)
    &&& match m.composition {
        Some(c) => range_wf(m.text, c.0, c.1) && c.0 < c.1,
        None => true,
    }
}

/// The text of `m` after replacing the code units `[start, end)` with `ins`.
pub open spec fn spliced(text: Seq<u8>, start: int, end: int, ins: Seq<u8>) -> Seq<u8> {
    text.take(start) + ins + text.skip(end)
}

/// The composition value actually stored for a requested span: a zero-length
/// span is equivalent to no composition at all.
pub open spec fn normalized_composition(range: Option<(int, int)>) -> Option<(int, int)> {
    match range {
        Some(r) => if r.0 < r.1 {
            Some(r)
        } else {
            None
        },
        None => None,
    }
}

/// The composition round trip: setting a nonempty span stores exactly that
/// span, so reading it back returns it unchanged; setting `None` clears it;
/// and setting a zero-length span stores the same thing as `None`.
pub proof fn lemma_composition_set_get(range: Option<(int, int)>)
    ensures
        (match range {
            Some(r) => (r.0 < r.1 ==> normalized_composition(Some(r)) == Some(r)) && (r.0 >= r.1
                ==> normalized_composition(Some(r)) == normalized_composition(
                None::<(int, int)>,
            )),
            None => normalized_composition(range) is None,
        }),
{
}

/// The handler contract for one input field. All reads and writes of the
/// document during an input-method interaction go through this surface while
/// an edit lock is held.
pub trait TextInputHandler: Sized {
    /// The document state this handler is a view of.
    spec fn model(&self) -> DocModel;

    /// The layout's line structure: the half-open range of the soft- or
    /// hard-wrapped line containing the code unit at `i`.
    spec fn line_of(&self, i: int) -> (int, int);

    /// The layout's hit-testing oracle: the document position nearest the
    /// window-space point, and whether the point lies inside the rendered
    /// text bounds.
    spec fn hit_of(&self, p: Point) -> (int, bool);

    /// Hit testing is total and sane: whatever the point, the oracle names a
    /// boundary-aligned position of the document.
    proof fn hit_of_wf(&self, p: Point)
        requires
            text_wf(self.model().text),
        ensures
            0 <= self.hit_of(p).0 <= self.model().text.len(),
            is_char_boundary(self.model().text, self.hit_of(p).0),
    ;

    /// Lines are sane: the line containing `i` is a boundary-aligned range
    /// of the document around `i`.
    proof fn line_of_wf(&self, i: int)
        requires
            text_wf(self.model().text),
            0 <= i <= self.model().text.len(),
        ensures
            0 <= self.line_of(i).0 <= i <= self.line_of(i).1 <= self.model().text.len(),
            is_char_boundary(self.model().text, self.line_of(i).0),
            is_char_boundary(self.model().text, self.line_of(i).1),
    ;

    /// The stored state fits the machine's word size, whatever else holds of
    /// it: `replace_range` may leave the selection or composition out of the
    /// document's bounds, but never out of `usize`.
    proof fn model_in_range(&self)
        ensures
            0 <= self.model().sel_start <= usize::MAX,
            0 <= self.model().sel_end <= usize::MAX,
            self.model().text.len() <= usize::MAX,
            match self.model().composition {
                Some(c) => 0 <= c.0 <= usize::MAX && 0 <= c.1 <= usize::MAX,
                None => true,
            },
    ;

    /// The current selection; `r.start == r.end` denotes a caret.
    fn selected_range(&mut self) -> (r: Range<usize>)
        ensures
            final(self).model() == old(self).model(),
            forall|j: int| #![trigger final(self).line_of(j)] final(self).line_of(j) == old(
                self,
            ).line_of(j),
            r.start as int == old(self).model().sel_start,
            r.end as int == old(self).model().sel_end,
    ;

    /// Set the selection. The caller guarantees a boundary-aligned range
    /// within the document; handing anything else to the document is a
    /// contract error, not a recoverable condition.
    fn set_selected_range(&mut self, range: Range<usize>)
        requires
            text_wf(old(self).model().text),
            range_wf(old(self).model().text, range.start as int, range.end as int),
        ensures
            final(self).model() == (DocModel {
                sel_start: range.start as int,
                sel_end: range.end as int,
                ..old(self).model()
            }),
            forall|j: int| #![trigger final(self).line_of(j)] final(self).line_of(j) == old(
                self,
            ).line_of(j),
    ;

    /// The composition span currently owned by the input method, if any.
    fn composition_range(&mut self) -> (r: Option<Range<usize>>)
        ensures
            final(self).model() == old(self).model(),
            forall|j: int| #![trigger final(self).line_of(j)] final(self).line_of(j) == old(
                self,
            ).line_of(j),
            match old(self).model().composition {
                Some(c) => r matches Some(rr) && rr.start as int == c.0 && rr.end as int == c.1,
                None => r is None,
            },
    ;

    /// Set or clear the composition span. Setting a zero-length range is
    /// equivalent to clearing it.
    fn set_composition_range(&mut self, range: Option<Range<usize>>)
        requires
            text_wf(old(self).model().text),
            match range {
                Some(r) => range_wf(old(self).model().text, r.start as int, r.end as int),
                None => true,
            },
        ensures
            final(self).model() == (DocModel {
                composition: normalized_composition(
                    match range {
                        Some(r) => Some((r.start as int, r.end as int)),
                        None => None,
                    },
                ),
                ..old(self).model()
            }),
            forall|j: int| #![trigger final(self).line_of(j)] final(self).line_of(j) == old(
                self,
            ).line_of(j),
    ;

    /// True for `i == 0`, `i == len()`, or any valid code-point start; false
    /// otherwise, including for `i > len()`.
    fn is_char_boundary(&mut self, i: usize) -> (r: bool)
        requires
            text_wf(old(self).model().text),
        ensures
            final(self).model() == old(self).model(),
            forall|j: int| #![trigger final(self).line_of(j)] final(self).line_of(j) == old(
                self,
            ).line_of(j),
            r == is_char_boundary(old(self).model().text, i as int),
    ;

    /// Document length in UTF-8 code units.
    fn len(&mut self) -> (r: usize)
        ensures
            final(self).model() == old(self).model(),
            forall|j: int| #![trigger final(self).line_of(j)] final(self).line_of(j) == old(
                self,
            ).line_of(j),
            r as int == old(self).model().text.len(),
    ;

    /// The document's code units in `[range.start, range.end)`; both
    /// endpoints must be character boundaries.
    fn slice(&mut self, range: Range<usize>) -> (r: Vec<u8>)
        requires
            text_wf(old(self).model().text),
            range_wf(old(self).model().text, range.start as int, range.end as int),
        ensures
            final(self).model() == old(self).model(),
            forall|j: int| #![trigger final(self).line_of(j)] final(self).line_of(j) == old(
                self,
            ).line_of(j),
            r@ == old(self).model().text.subrange(range.start as int, range.end as int),
    ;

    /// Number of UTF-16 code units in the text at the boundary-aligned UTF-8
    /// range `utf8_range`.
    fn utf8_to_utf16(&mut self, utf8_range: Range<usize>) -> (r: usize)
        requires
            text_wf(old(self).model().text),
            range_wf(old(self).model().text, utf8_range.start as int, utf8_range.end as int),
        ensures
            final(self).model() == old(self).model(),
            forall|j: int| #![trigger final(self).line_of(j)] final(self).line_of(j) == old(
                self,
            ).line_of(j),
            r == utf16_len(
                old(self).model().text.subrange(utf8_range.start as int, utf8_range.end as int),
            ),
    ;

    /// Number of UTF-8 code units covered by the UTF-16 range `utf16_range`
    /// of the document. Offsets inside a surrogate pair round up past the
    /// pair, and offsets past the end of the document saturate at its end.
    fn utf16_to_utf8(&mut self, utf16_range: Range<usize>) -> (r: usize)
        requires
            text_wf(old(self).model().text),
            utf16_range.start <= utf16_range.end,
        ensures
            final(self).model() == old(self).model(),
            forall|j: int| #![trigger final(self).line_of(j)] final(self).line_of(j) == old(
                self,
            ).line_of(j),
            r == utf8_offset_of_utf16(old(self).model().text, utf16_range.end as int)
                - utf8_offset_of_utf16(old(self).model().text, utf16_range.start as int),
    ;

    /// Replace the code units `[range.start, range.end)` with `text`. The
    /// stored selection and composition are NOT adjusted: the caller
    /// recomputes and re-sets them afterwards.
    fn replace_range(&mut self, range: Range<usize>, text: &str)
        requires
            text_wf(old(self).model().text),
            range_wf(old(self).model().text, range.start as int, range.end as int),
            old(self).model().text.len() - (range.end - range.start) + text.spec_bytes().len()
                <= MAX_DOC_LEN,
        ensures
            final(self).model().text == spliced(
                old(self).model().text,
                range.start as int,
                range.end as int,
                text.spec_bytes(),
            ),
            text_wf(final(self).model().text),
            final(self).model().sel_start == old(self).model().sel_start,
            final(self).model().sel_end == old(self).model().sel_end,
            final(self).model().composition == old(self).model().composition,
    ;

    /// Map a window-space point to the nearest document position, as the
    /// layout's hit-testing oracle defines it. Never fails: a point outside
    /// the text still yields the nearest index, with `is_inside` false.
    fn hit_test_point(&mut self, point: Point) -> (r: HitTestPoint)
        requires
            text_wf(old(self).model().text),
            -MAX_COORD <= point.x <= MAX_COORD,
            -MAX_COORD <= point.y <= MAX_COORD,
        ensures
            final(self).model() == old(self).model(),
            forall|j: int| #![trigger final(self).line_of(j)] final(self).line_of(j) == old(
                self,
            ).line_of(j),
            r.idx as int == old(self).hit_of(point).0,
            r.is_inside == old(self).hit_of(point).1,
    ;

    /// The line (soft- or hard-wrapped) containing the code unit at
    /// `char_index`.
    fn line_range(&mut self, char_index: usize) -> (r: Range<usize>)
        requires
            text_wf(old(self).model().text),
            char_index as int <= old(self).model().text.len(),
        ensures
            final(self).model() == old(self).model(),
            forall|j: int| #![trigger final(self).line_of(j)] final(self).line_of(j) == old(
                self,
            ).line_of(j),
            (r.start as int, r.end as int) == old(self).line_of(char_index as int),
    ;

    /// Window-space bounds of the whole editable region, `None` if it is
    /// entirely offscreen.
    fn bounding_box(&mut self) -> (r: Option<Rect>)
        ensures
            final(self).model() == old(self).model(),
            forall|j: int| #![trigger final(self).line_of(j)] final(self).line_of(j) == old(
                self,
            ).line_of(j),
    ;

    /// Window-space bounds of a sub-range of the text. The range must lie
    /// within a single line of the layout; that is a precondition, not a
    /// recoverable case.
    fn slice_bounding_box(&mut self, range: Range<usize>) -> (r: Option<Rect>)
        requires
            text_wf(old(self).model().text),
            range_wf(old(self).model().text, range.start as int, range.end as int),
            old(self).line_of(range.start as int).0 <= range.start as int,
            range.end as int <= old(self).line_of(range.start as int).1,
        ensures
            final(self).model() == old(self).model(),
            forall|j: int| #![trigger final(self).line_of(j)] final(self).line_of(j) == old(
                self,
            ).line_of(j),
    ;
}

/// Two handler states that agree on the whole abstract view: same document
/// model and same line structure. Queries leave the view unchanged.
pub open spec fn same_view<H: TextInputHandler>(a: H, b: H) -> bool {
    a.model() == b.model() && same_lines(a, b)
}

/// Two handler states with the same line structure.
pub open spec fn same_lines<H: TextInputHandler>(a: H, b: H) -> bool {
    forall|j: int| #![trigger b.line_of(j)] a.line_of(j) == b.line_of(j)
}

} // verus!
