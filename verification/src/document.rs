//! A concrete document buffer implementing the edit-lock contract.
//!
//! The buffer owns the text (UTF-8 code units), the selection and the
//! composition span, and a simple layout model: hard-wrapped lines split
//! after every newline, glyphs on a fixed grid of `char_width` by
//! `line_height` window units starting at `origin`, inside a widget box of
//! `width` by `height`. That is enough to give the hit-test and bounding-box
//! oracles exact, verified semantics.

use core::ops::Range;
use vstd::prelude::*;
use vstd::string::StringSliceAdditionalSpecFns;
use vstd::utf8::valid_utf8;
use vstd::utf8::is_char_boundary;
use vstd::utf8::is_char_boundary_start_end_of_seq;
use vstd::utf8::is_char_boundary_iff_not_is_continuation_byte;
use vstd::utf8::valid_utf8_split;
use vstd::utf8::valid_utf8_concat;
use vstd::utf8::valid_first_scalar;
use vstd::utf8::length_of_first_scalar;
use vstd::utf8::encode_utf8_valid_utf8;

use crate::encoding::count_utf16_units;
use crate::encoding::lemma_boundary_within2;
use crate::encoding::lemma_first_scalar_shape;
use crate::encoding::lemma_offset_monotone;
use crate::encoding::utf16_offset_to_utf8;
use crate::geometry::HitTestPoint;
use crate::geometry::Point;
use crate::geometry::Rect;
use crate::handler::DocModel;
use crate::handler::MAX_DOC_LEN;
use crate::handler::TextInputHandler;
use crate::handler::range_wf;
use crate::handler::spliced;
use crate::handler::text_wf;

verus! {

broadcast use vstd::seq::group_seq_axioms;

/// Start of the line containing position `i`: the position after the last
/// newline at or before `i`, or 0.
pub open spec fn line_start_at(text: Seq<u8>, i: int) -> int
    decreases i,
{
    if i <= 0 {
        0
    } else if text[i - 1] == 10 {
        i
    } else {
        line_start_at(text, i - 1)
    }
}

/// End of the line containing position `i`: one past the next newline at or
/// after `i`, or the end of the text. A line owns its trailing newline.
pub open spec fn line_end_at(text: Seq<u8>, i: int) -> int
    decreases text.len() - i,
{
    if i >= text.len() {
        text.len() as int
    } else if text[i] == 10 {
        i + 1
    } else {
        line_end_at(text, i + 1)
    }
}

/// The position just after a newline (or any other one-byte scalar) in valid
/// UTF-8 is a character boundary.
proof fn lemma_boundary_after_ascii(text: Seq<u8>, i: int)
    requires
        valid_utf8(text),
        0 <= i < text.len(),
        text[i] < 0x80,
        is_char_boundary(text, i),
    ensures
        is_char_boundary(text, i + 1),
{
    valid_utf8_split(text, i);
    let rest = text.subrange(i, text.len() as int);
    assert(rest[0] == text[i]);
    assert(valid_first_scalar(rest));
    lemma_first_scalar_shape(rest);
    lemma_boundary_within2(text, i, 1);
}

/// `line_start_at` lands at 0 or just after a newline, on a character
/// boundary at or before `i`.
pub proof fn lemma_line_start_props(text: Seq<u8>, i: int)
    requires
        valid_utf8(text),
        0 <= i <= text.len(),
    ensures
        0 <= line_start_at(text, i) <= i,
        is_char_boundary(text, line_start_at(text, i)),
        line_start_at(text, i) == 0 || text[line_start_at(text, i) - 1] == 10,
    decreases i,
{
    is_char_boundary_start_end_of_seq(text);
    if i <= 0 {
    } else if text[i - 1] == 10 {
        if i < text.len() {
            is_char_boundary_iff_not_is_continuation_byte(text, i - 1);
            lemma_boundary_after_ascii(text, i - 1);
        }
    } else {
        lemma_line_start_props(text, i - 1);
    }
}

/// `line_end_at` lands at the end of the text or just after a newline, on a
/// character boundary at or past `i`, and strictly past `i` when `i` is not
/// already the end.
pub proof fn lemma_line_end_props(text: Seq<u8>, i: int)
    requires
        valid_utf8(text),
        0 <= i <= text.len(),
    ensures
        i <= line_end_at(text, i) <= text.len(),
        i < text.len() ==> i + 1 <= line_end_at(text, i),
        is_char_boundary(text, line_end_at(text, i)),
        line_end_at(text, i) == text.len() || text[line_end_at(text, i) - 1] == 10,
    decreases text.len() - i,
{
    is_char_boundary_start_end_of_seq(text);
    if i >= text.len() {
    } else if text[i] == 10 {
        is_char_boundary_iff_not_is_continuation_byte(text, i);
        lemma_boundary_after_ascii(text, i);
    } else {
        lemma_line_end_props(text, i + 1);
    }
}

/// Start of the line reached after descending `rows` lines from the line
/// starting at `start`; the descent stops at the line containing the end of
/// the text.
pub open spec fn walk_lines(text: Seq<u8>, start: int, rows: int) -> int
    decreases rows,
{
    if rows <= 0 {
        start
    } else {
        let le = line_end_at(text, start);
        if le >= text.len() {
            start
        } else {
            walk_lines(text, le, rows - 1)
        }
    }
}

/// Byte offset after advancing `cols` whole scalars into `s`, stopping at
/// the end.
pub open spec fn walk_scalars(s: Seq<u8>, cols: int) -> int
    recommends
        valid_utf8(s),
    decreases s.len(),
    when valid_utf8(s)
{
    if cols <= 0 || s.len() == 0 {
        0
    } else {
        length_of_first_scalar(s) + walk_scalars(vstd::utf8::pop_first_scalar(s), cols - 1)
    }
}

/// The code-unit index the fixed-grid layout maps a window-space point to:
/// the row under the point selects a line (a point above the text selects
/// the first line and one below it the last), the column under the point
/// selects the glyph cell containing it within that line (clamped to the
/// line's glyphs; a trailing newline owns no cell), and the result is that
/// cell's starting code unit.
pub open spec fn grid_hit_index(
    text: Seq<u8>,
    frame: (int, int, int, int),
    grid: (int, int),
    p: Point,
) -> int
    recommends
        grid.0 >= 1,
        grid.1 >= 1,
{
    let rows: int = if p.y < frame.1 {
        0
    } else {
        (p.y - frame.1) / grid.1
    };
    let ls = walk_lines(text, 0, rows);
    let le = line_end_at(text, ls);
    let ce: int = if le > ls && text[le - 1] == 10 {
        le - 1
    } else {
        le
    };
    let cols: int = if p.x < frame.0 {
        0
    } else {
        (p.x - frame.0) / grid.0
    };
    ls + walk_scalars(text.subrange(ls, ce), cols)
}

/// `b * c <= a` forces the quotient `a / c` to reach `b`.
proof fn lemma_div_at_least(a: int, b: int, c: int)
    requires
        1 <= c,
        b * c <= a,
    ensures
        b <= a / c,
{
    vstd::arithmetic::div_mod::lemma_div_multiples_vanish(b, c);
    assert(c * b == b * c) by (nonlinear_arith);
    vstd::arithmetic::div_mod::lemma_div_is_ordered(c * b, a, c);
}

/// `a < (b + 1) * c` keeps the quotient `a / c` at or below `b`.
proof fn lemma_div_at_most(a: int, b: int, c: int)
    requires
        1 <= c,
        a < (b + 1) * c,
    ensures
        a / c <= b,
{
    assert(c * (b + 1) == (b + 1) * c) by (nonlinear_arith);
    vstd::arithmetic::div_mod::lemma_multiply_divide_lt(a, c, b + 1);
}

/// Descending lines lands on a boundary-aligned position of the text.
proof fn lemma_walk_lines_props(text: Seq<u8>, start: int, rows: int)
    requires
        valid_utf8(text),
        0 <= start <= text.len(),
        is_char_boundary(text, start),
    ensures
        start <= walk_lines(text, start, rows) <= text.len(),
        is_char_boundary(text, walk_lines(text, start, rows)),
    decreases rows,
{
    if rows <= 0 {
    } else {
        lemma_line_end_props(text, start);
        let le = line_end_at(text, start);
        if le >= text.len() {
        } else {
            lemma_walk_lines_props(text, le, rows - 1);
        }
    }
}

/// Advancing whole scalars lands on a character boundary of the text.
proof fn lemma_walk_scalars_props(s: Seq<u8>, cols: int)
    requires
        valid_utf8(s),
    ensures
        0 <= walk_scalars(s, cols) <= s.len(),
        is_char_boundary(s, walk_scalars(s, cols)),
    decreases s.len(),
{
    is_char_boundary_start_end_of_seq(s);
    if cols <= 0 || s.len() == 0 {
    } else {
        lemma_first_scalar_shape(s);
        let pop = vstd::utf8::pop_first_scalar(s);
        lemma_walk_scalars_props(pop, cols - 1);
        crate::encoding::lemma_boundary_fold(s, walk_scalars(pop, cols - 1));
    }
}

/// Position of the start of the line containing `i`.
fn scan_line_start(text: &[u8], i: usize) -> (r: usize)
    requires
        i <= text@.len(),
    ensures
        r as int == line_start_at(text@, i as int),
        r <= i,
{
    let mut j: usize = i;
    while j > 0 && text[j - 1] != 10
        invariant
            j <= i <= text@.len(),
            line_start_at(text@, i as int) == line_start_at(text@, j as int),
        decreases j,
    {
        j = j - 1;
    }
    j
}

/// Position one past the end of the line containing `i`.
fn scan_line_end(text: &[u8], i: usize) -> (r: usize)
    requires
        i <= text@.len(),
    ensures
        r as int == line_end_at(text@, i as int),
        i <= r <= text@.len(),
{
    let len = text.len();
    let mut j: usize = i;
    while j < len && text[j] != 10
        invariant
            i <= j <= len,
            len == text@.len(),
            line_end_at(text@, i as int) == line_end_at(text@, j as int),
        decreases len - j,
    {
        j = j + 1;
    }
    if j < len {
        j + 1
    } else {
        j
    }
}

/// Number of newlines in the first `i` code units.
pub open spec fn newline_count(text: Seq<u8>, i: int) -> int
    decreases i,
{
    if i <= 0 {
        0
    } else {
        newline_count(text, i - 1) + if text[i - 1] == 10 {
            1int
        } else {
            0int
        }
    }
}

/// Number of Unicode scalars encoded in `bytes`.
pub open spec fn scalar_count(bytes: Seq<u8>) -> int
    recommends
        valid_utf8(bytes),
    decreases bytes.len(),
    when valid_utf8(bytes)
{
    if bytes.len() == 0 {
        0
    } else {
        1 + scalar_count(vstd::utf8::pop_first_scalar(bytes))
    }
}

proof fn lemma_scalar_count_bounds(bytes: Seq<u8>)
    requires
        valid_utf8(bytes),
    ensures
        0 <= scalar_count(bytes) <= bytes.len(),
    decreases bytes.len(),
{
    if bytes.len() != 0 {
        lemma_first_scalar_shape(bytes);
        lemma_scalar_count_bounds(vstd::utf8::pop_first_scalar(bytes));
    }
}

/// Newlines in the text before position `upto`.
fn count_newlines(text: &[u8], upto: usize) -> (r: usize)
    requires
        upto <= text@.len(),
    ensures
        r as int == newline_count(text@, upto as int),
        r <= upto,
{
    let mut j: usize = 0;
    let mut acc: usize = 0;
    while j < upto
        invariant
            0 <= j <= upto <= text@.len(),
            acc as int == newline_count(text@, j as int),
            acc <= j,
        decreases upto - j,
    {
        if text[j] == 10 {
            acc = acc + 1;
        }
        j = j + 1;
    }
    acc
}

/// Number of scalars in the boundary-aligned range `[start, end)`.
fn count_scalars(text: &[u8], start: usize, end: usize) -> (r: usize)
    requires
        valid_utf8(text@),
        start <= end <= text@.len(),
        is_char_boundary(text@, start as int),
        is_char_boundary(text@, end as int),
    ensures
        r as int == scalar_count(text@.subrange(start as int, end as int)),
        r <= end - start,
{
    let ghost whole = text@.subrange(start as int, end as int);
    proof {
        crate::encoding::lemma_boundary_of_prefix(text@, end as int, start as int);
        valid_utf8_split(text@.take(end as int), start as int);
        assert(text@.take(end as int).subrange(start as int, end as int) =~= whole);
        lemma_scalar_count_bounds(whole);
    }
    let mut i: usize = start;
    let mut acc: usize = 0;
    while i < end
        invariant
            valid_utf8(text@),
            start <= i <= end <= text@.len(),
            is_char_boundary(text@, i as int),
            is_char_boundary(text@, end as int),
            valid_utf8(text@.subrange(i as int, end as int)),
            scalar_count(whole) == acc + scalar_count(text@.subrange(i as int, end as int)),
            acc <= i - start,
            whole == text@.subrange(start as int, end as int),
            scalar_count(whole) <= whole.len(),
        decreases end - i,
    {
        let ghost rest = text@.subrange(i as int, end as int);
        proof {
            assert(rest.len() > 0);
            assert(valid_first_scalar(rest));
            lemma_first_scalar_shape(rest);
            assert(rest[0] == text@[i as int]);
        }
        let b = text[i];
        let step: usize = if b < 0x80 {
            1
        } else if b < 0xe0 {
            2
        } else if b < 0xf0 {
            3
        } else {
            4
        };
        proof {
            let k = length_of_first_scalar(rest);
            assert(step == k);
            assert(vstd::utf8::pop_first_scalar(rest) =~= text@.subrange(i as int + k, end as int));
            lemma_scalar_count_bounds(vstd::utf8::pop_first_scalar(rest));
            crate::encoding::lemma_boundary_within(text@, end as int, i as int, k);
        }
        acc = acc + 1;
        i = i + step;
    }
    proof {
        assert(text@.subrange(i as int, end as int) =~= Seq::<u8>::empty());
    }
    acc
}

/// `cells * unit` in window units, for a cell count bounded by the document
/// length and a grid unit in the geometry invariant's range.
fn grid_extent(cells: usize, unit: i64) -> (r: i64)
    requires
        cells <= 0x7fff_fffe,
        1 <= unit <= 0xffff,
    ensures
        r == cells as int * unit,
        0 <= r <= 0x7fff_fffe * 0xffff,
{
    proof {
        assert(0 <= cells as int * unit <= 0x7fff_fffe * 0xffff) by (nonlinear_arith)
            requires
                0 <= cells <= 0x7fff_fffe,
                1 <= unit <= 0xffff,
        ;
    }
    (cells as i64) * unit
}

/// An application-owned document with a fixed-grid layout.
pub struct DocumentBuffer {
    text: Vec<u8>,
    sel_start: usize,
    sel_end: usize,
    composition: Option<(usize, usize)>,
    origin_x: i64,
    origin_y: i64,
    width: i64,
    height: i64,
    char_width: i64,
    line_height: i64,
    visible: bool,
}

impl DocumentBuffer {
    /// Geometry stays in small, fixed ranges so that all layout arithmetic
    /// fits comfortably in 64-bit integers, and the text is always
    /// well-formed UTF-8 that the OS protocol can address.
    #[verifier::type_invariant]
    pub closed spec fn geometry_wf(self) -> bool {
        &&& text_wf(self.text@)
        &&& 1 <= self.char_width <= 0xffff
        &&& 1 <= self.line_height <= 0xffff
        &&& -0xffff_ffff <= self.origin_x <= 0xffff_ffff
        &&& -0xffff_ffff <= self.origin_y <= 0xffff_ffff
        &&& 0 <= self.width <= 0xffff_ffff
        &&& 0 <= self.height <= 0xffff_ffff
    }

    /// The widget box in window space: origin and size.
    pub closed spec fn spec_frame(&self) -> (int, int, int, int) {
        (self.origin_x as int, self.origin_y as int, self.width as int, self.height as int)
    }

    /// The glyph grid: the width of one glyph cell and the height of one
    /// line.
    pub closed spec fn spec_grid(&self) -> (int, int) {
        (self.char_width as int, self.line_height as int)
    }

    /// Whether any part of the widget is on screen.
    pub closed spec fn spec_visible(&self) -> bool {
        self.visible
    }

    /// An empty, visible document with a default glyph grid: an 8 by 16 cell
    /// at the window origin, in a 640 by 64 box.
    pub fn new() -> (d: DocumentBuffer)
        ensures
            d.model() == (DocModel {
                text: Seq::<u8>::empty(),
                sel_start: 0,
                sel_end: 0,
                composition: None::<(int, int)>,
            }),
            d.spec_frame() == (0int, 0int, 640int, 64int),
            d.spec_grid() == (8int, 16int),
            d.spec_visible(),
    {
        let d = DocumentBuffer {
            text: Vec::new(),
            sel_start: 0,
            sel_end: 0,
            composition: None,
            origin_x: 0,
            origin_y: 0,
            width: 640,
            height: 64,
            char_width: 8,
            line_height: 16,
            visible: true,
        };
        proof {
            assert(d.model().text =~= Seq::<u8>::empty());
        }
        d
    }

    /// Place the widget box in window space.
    pub fn set_frame(&mut self, origin_x: i64, origin_y: i64, width: i64, height: i64)
        requires
            -0xffff_ffff <= origin_x <= 0xffff_ffff,
            -0xffff_ffff <= origin_y <= 0xffff_ffff,
            0 <= width <= 0xffff_ffff,
            0 <= height <= 0xffff_ffff,
        ensures
            final(self).model() == old(self).model(),
            forall|j: int| #![trigger final(self).line_of(j)] final(self).line_of(j) == old(
                self,
            ).line_of(j),
            final(self).spec_frame() == (origin_x as int, origin_y as int, width as int, height as int),
            final(self).spec_grid() == old(self).spec_grid(),
            final(self).spec_visible() == old(self).spec_visible(),
    {
        proof {
            use_type_invariant(&*self);
        }
        self.origin_x = origin_x;
        self.origin_y = origin_y;
        self.width = width;
        self.height = height;
    }

    /// Set the glyph grid: the window-space width of one glyph cell and the
    /// height of one line.
    pub fn set_glyph_grid(&mut self, char_width: i64, line_height: i64)
        requires
            1 <= char_width <= 0xffff,
            1 <= line_height <= 0xffff,
        ensures
            final(self).model() == old(self).model(),
            forall|j: int| #![trigger final(self).line_of(j)] final(self).line_of(j) == old(
                self,
            ).line_of(j),
            final(self).spec_grid() == (char_width as int, line_height as int),
            final(self).spec_frame() == old(self).spec_frame(),
            final(self).spec_visible() == old(self).spec_visible(),
    {
        proof {
            use_type_invariant(&*self);
        }
        self.char_width = char_width;
        self.line_height = line_height;
    }

    /// Mark the widget visible or fully offscreen.
    pub fn set_visible(&mut self, visible: bool)
        ensures
            final(self).model() == old(self).model(),
            forall|j: int| #![trigger final(self).line_of(j)] final(self).line_of(j) == old(
                self,
            ).line_of(j),
            final(self).spec_visible() == visible,
            final(self).spec_frame() == old(self).spec_frame(),
            final(self).spec_grid() == old(self).spec_grid(),
    {
        proof {
            use_type_invariant(&*self);
        }
        self.visible = visible;
    }
}

impl TextInputHandler for DocumentBuffer {
    closed spec fn model(&self) -> DocModel {
        DocModel {
            text: self.text@,
            sel_start: self.sel_start as int,
            sel_end: self.sel_end as int,
            composition: match self.composition {
                Some(c) => Some((c.0 as int, c.1 as int)),
                None => None,
            },
        }
    }

    closed spec fn line_of(&self, i: int) -> (int, int) {
        (line_start_at(self.text@, i), line_end_at(self.text@, i))
    }

    closed spec fn hit_of(&self, p: Point) -> (int, bool) {
        (
            grid_hit_index(self.text@, self.spec_frame(), self.spec_grid(), p),
            self.visible && self.origin_x <= p.x < self.origin_x + self.width && self.origin_y
                <= p.y < self.origin_y + self.height,
        )
    }

    proof fn hit_of_wf(&self, p: Point) {
        let text = self.text@;
        let frame = self.spec_frame();
        let grid = self.spec_grid();
        is_char_boundary_start_end_of_seq(text);
        let rows: int = if (p.y as int) < frame.1 {
            0int
        } else {
            (p.y as int - frame.1) / grid.1
        };
        lemma_walk_lines_props(text, 0, rows);
        let ls = walk_lines(text, 0, rows);
        lemma_line_end_props(text, ls);
        let le = line_end_at(text, ls);
        let ce: int = if le > ls && text[le - 1] == 10 {
            le - 1
        } else {
            le
        };
        if le > ls && text[le - 1] == 10 {
            is_char_boundary_iff_not_is_continuation_byte(text, le - 1);
        }
        crate::encoding::lemma_boundary_of_prefix(text, ce, ls);
        valid_utf8_split(text.take(ce), ls);
        assert(text.take(ce).subrange(ls, ce) =~= text.subrange(ls, ce));
        let window = text.subrange(ls, ce);
        let cols: int = if (p.x as int) < frame.0 {
            0int
        } else {
            (p.x as int - frame.0) / grid.0
        };
        lemma_walk_scalars_props(window, cols);
        let w = walk_scalars(window, cols);
        if w == window.len() {
            assert(ls + w == ce);
        } else {
            is_char_boundary_iff_not_is_continuation_byte(window, w);
            is_char_boundary_iff_not_is_continuation_byte(text, ls + w);
            assert(window[w] == text[ls + w]);
        }
    }

    proof fn line_of_wf(&self, i: int) {
        lemma_line_start_props(self.text@, i);
        lemma_line_end_props(self.text@, i);
    }

    proof fn model_in_range(&self) {
        vstd::std_specs::vec::axiom_spec_len(&self.text);
    }

    fn selected_range(&mut self) -> (r: Range<usize>) {
        self.sel_start..self.sel_end
    }

    fn set_selected_range(&mut self, range: Range<usize>) {
        proof {
            use_type_invariant(&*self);
        }
        self.sel_start = range.start;
        self.sel_end = range.end;
    }

    fn composition_range(&mut self) -> (r: Option<Range<usize>>) {
        match self.composition {
            Some(c) => Some(c.0..c.1),
            None => None,
        }
    }

    fn set_composition_range(&mut self, range: Option<Range<usize>>) {
        proof {
            use_type_invariant(&*self);
        }
        match range {
            Some(r) => {
                if r.start < r.end {
                    self.composition = Some((r.start, r.end));
                } else {
                    self.composition = None;
                }
            },
            None => {
                self.composition = None;
            },
        }
    }

    fn is_char_boundary(&mut self, i: usize) -> (r: bool) {
        proof {
            is_char_boundary_start_end_of_seq(self.text@);
        }
        if i == 0 {
            true
        } else if i >= self.text.len() {
            i == self.text.len()
        } else {
            proof {
                is_char_boundary_iff_not_is_continuation_byte(self.text@, i as int);
            }
            let b = self.text[i];
            !(0x80 <= b && b <= 0xbf)
        }
    }

    fn len(&mut self) -> (r: usize) {
        self.text.len()
    }

    fn slice(&mut self, range: Range<usize>) -> (r: Vec<u8>) {
        let s = vstd::slice::slice_subrange(self.text.as_slice(), range.start, range.end);
        vstd::slice::slice_to_vec(s)
    }

    fn utf8_to_utf16(&mut self, utf8_range: Range<usize>) -> (r: usize) {
        count_utf16_units(self.text.as_slice(), utf8_range.start, utf8_range.end)
    }

    fn utf16_to_utf8(&mut self, utf16_range: Range<usize>) -> (r: usize) {
        let a = utf16_offset_to_utf8(self.text.as_slice(), utf16_range.start as u64);
        let b = utf16_offset_to_utf8(self.text.as_slice(), utf16_range.end as u64);
        proof {
            lemma_offset_monotone(self.text@, utf16_range.start as int, utf16_range.end as int);
        }
        b - a
    }

    fn replace_range(&mut self, range: Range<usize>, text: &str) {
        proof {
            use_type_invariant(&*self);
        }
        let ins = text.as_bytes();
        let prefix = vstd::slice::slice_subrange(self.text.as_slice(), 0, range.start);
        let suffix = vstd::slice::slice_subrange(self.text.as_slice(), range.end, self.text.len());
        let mut out: Vec<u8> = Vec::new();
        out.extend_from_slice(prefix);
        out.extend_from_slice(ins);
        out.extend_from_slice(suffix);
        proof {
            let old_text = self.text@;
            valid_utf8_split(old_text, range.start as int);
            valid_utf8_split(old_text, range.end as int);
            encode_utf8_valid_utf8(text@);
            valid_utf8_concat(old_text.subrange(0, range.start as int), text.spec_bytes());
            valid_utf8_concat(
                old_text.subrange(0, range.start as int) + text.spec_bytes(),
                old_text.subrange(range.end as int, old_text.len() as int),
            );
            assert(out@ =~= spliced(
                old_text,
                range.start as int,
                range.end as int,
                text.spec_bytes(),
            ));
            assert(old_text.take(range.start as int) == old_text.subrange(0, range.start as int));
            assert(old_text.skip(range.end as int) == old_text.subrange(
                range.end as int,
                old_text.len() as int,
            ));
        }
        self.text = out;
    }

    fn hit_test_point(&mut self, point: Point) -> (r: HitTestPoint)
        ensures
            ({
                let (x, y, w, h) = old(self).spec_frame();
                r.is_inside == (old(self).spec_visible() && x <= point.x < x + w && y <= point.y
                    < y + h)
            }),
            r.idx as int == grid_hit_index(
                old(self).model().text,
                old(self).spec_frame(),
                old(self).spec_grid(),
                point,
            ),
    {
        proof {
            use_type_invariant(&*self);
            is_char_boundary_start_end_of_seq(self.text@);
            lemma_line_end_props(self.text@, 0);
        }
        let ghost text = self.text@;
        let ghost ox = self.origin_x as int;
        let ghost oy = self.origin_y as int;
        let ghost cw = self.char_width as int;
        let ghost lh = self.line_height as int;
        let ghost target_rows: int = if (point.y as int) < oy {
            0int
        } else {
            (point.y as int - oy) / lh
        };
        let ghost target_cols: int = if (point.x as int) < ox {
            0int
        } else {
            (point.x as int - ox) / cw
        };
        proof {
            if oy <= point.y as int {
                vstd::arithmetic::div_mod::lemma_div_pos_is_pos(point.y as int - oy, lh);
            }
            if ox <= point.x as int {
                vstd::arithmetic::div_mod::lemma_div_pos_is_pos(point.x as int - ox, cw);
            }
        }
        let len = self.text.len();
        let inside = self.visible && point.x >= self.origin_x && point.x < self.origin_x
            + self.width && point.y >= self.origin_y && point.y < self.origin_y + self.height;
        // find the line under the point, clamped to the first and last line
        let mut line_start: usize = 0;
        let mut row_top: i64 = self.origin_y;
        let ghost mut row: int = 0;
        let mut le = scan_line_end(self.text.as_slice(), 0);
        while le < len && point.y >= row_top + self.line_height
            invariant
                valid_utf8(text),
                text == self.text@,
                len == text.len(),
                len <= 0x7fff_fffe,
                1 <= self.line_height <= 0xffff,
                -0xffff_ffff <= self.origin_y <= 0xffff_ffff,
                oy == self.origin_y as int,
                lh == self.line_height as int,
                target_rows == (if (point.y as int) < oy {
                    0int
                } else {
                    (point.y as int - oy) / lh
                }),
                line_start <= len,
                is_char_boundary(text, line_start as int),
                le as int == line_end_at(text, line_start as int),
                line_start <= le <= len,
                0 <= row <= target_rows,
                row <= line_start as int,
                row_top as int == oy + row * lh,
                row_top >= -0xffff_ffff,
                row_top <= 0xffff_ffff + 0x7fff_fffe * 0xffff,
                walk_lines(text, 0, target_rows) == walk_lines(
                    text,
                    line_start as int,
                    target_rows - row,
                ),
            decreases len - line_start,
        {
            let prev = line_start;
            let ghost prev_row = row;
            proof {
                lemma_line_end_props(text, prev as int);
                // the point sits at or below this row's bottom edge, so the
                // target row lies further down
                assert(0 <= prev_row * lh) by (nonlinear_arith)
                    requires
                        0 <= prev_row,
                        0 <= lh,
                ;
                assert((prev_row + 1) * lh == prev_row * lh + lh) by (nonlinear_arith);
                lemma_div_at_least(point.y as int - oy, prev_row + 1, lh);
                assert(target_rows >= prev_row + 1);
                assert(walk_lines(text, prev as int, target_rows - prev_row) == walk_lines(
                    text,
                    le as int,
                    target_rows - prev_row - 1,
                ));
                row = row + 1;
                assert((prev_row + 1) * lh <= 0x7fff_fffe * 0xffff) by (nonlinear_arith)
                    requires
                        0 <= prev_row + 1 <= 0x7fff_fffe,
                        1 <= lh <= 0xffff,
                ;
            }
            line_start = le;
            row_top = row_top + self.line_height;
            le = scan_line_end(self.text.as_slice(), line_start);
            proof {
                lemma_line_end_props(text, line_start as int);
            }
        }
        proof {
            lemma_line_end_props(text, line_start as int);
            // on exit the descent has arrived: this line reaches the end of
            // the text, or the point is above this row's bottom edge
            if le < len {
                if (point.y as int) < oy {
                    assert(target_rows == 0);
                } else {
                    assert(point.y as int - oy < (row + 1) * lh) by (nonlinear_arith)
                        requires
                            (point.y as int) < oy + row * lh + lh,
                    ;
                    lemma_div_at_most(point.y as int - oy, row, lh);
                }
                assert(row == target_rows);
            }
            assert(walk_lines(text, line_start as int, target_rows - row) == line_start as int);
        }
        // a line's trailing newline is not a glyph to hit
        let content_end: usize = if le > line_start && self.text[le - 1] == 10 {
            le - 1
        } else {
            le
        };
        proof {
            if le > line_start && self.text@[le as int - 1] == 10 {
                is_char_boundary_iff_not_is_continuation_byte(self.text@, le as int - 1);
            }
            crate::encoding::lemma_boundary_of_prefix(
                self.text@,
                content_end as int,
                line_start as int,
            );
            valid_utf8_split(self.text@.take(content_end as int), line_start as int);
            assert(self.text@.take(content_end as int).subrange(
                line_start as int,
                content_end as int,
            ) =~= self.text@.subrange(line_start as int, content_end as int));
            assert((1int) * self.char_width == self.char_width) by (nonlinear_arith);
        }
        let ghost window = text.subrange(line_start as int, content_end as int);
        // find the glyph cell under the point within the line
        let mut idx: usize = line_start;
        let mut cell_right: i64 = self.origin_x + self.char_width;
        let ghost mut col: int = 0;
        while idx < content_end && point.x >= cell_right
            invariant
                valid_utf8(text),
                text == self.text@,
                len == text.len(),
                len <= 0x7fff_fffe,
                1 <= self.char_width <= 0xffff,
                -0xffff_ffff <= self.origin_x <= 0xffff_ffff,
                ox == self.origin_x as int,
                cw == self.char_width as int,
                target_cols == (if (point.x as int) < ox {
                    0int
                } else {
                    (point.x as int - ox) / cw
                }),
                line_start <= idx <= content_end <= len,
                is_char_boundary(text, idx as int),
                is_char_boundary(text, content_end as int),
                valid_utf8(text.subrange(idx as int, content_end as int)),
                0 <= col <= target_cols,
                col <= idx - line_start,
                cell_right as int == ox + (col + 1) * cw,
                cell_right >= self.origin_x + self.char_width,
                cell_right <= 0xffff_ffff + 0x7fff_ffff * 0xffff,
                window == text.subrange(line_start as int, content_end as int),
                walk_scalars(window, target_cols) == idx - line_start + walk_scalars(
                    text.subrange(idx as int, content_end as int),
                    target_cols - col,
                ),
            decreases content_end - idx,
        {
            let ghost rest = text.subrange(idx as int, content_end as int);
            proof {
                assert(rest.len() > 0);
                assert(valid_first_scalar(rest));
                lemma_first_scalar_shape(rest);
                assert(rest[0] == text[idx as int]);
                // the point sits at or right of this cell's right edge, so
                // the target column lies further right
                assert(0 <= col * cw) by (nonlinear_arith)
                    requires
                        0 <= col,
                        0 <= cw,
                ;
                lemma_div_at_least(point.x as int - ox, col + 1, cw);
                assert(target_cols >= col + 1);
            }
            let b = self.text[idx];
            let step: usize = if b < 0x80 {
                1
            } else if b < 0xe0 {
                2
            } else if b < 0xf0 {
                3
            } else {
                4
            };
            let prev = idx;
            let ghost prev_col = col;
            idx = idx + step;
            cell_right = cell_right + self.char_width;
            proof {
                col = col + 1;
                let k = length_of_first_scalar(rest);
                assert(step == k);
                crate::encoding::lemma_boundary_within(text, content_end as int, prev as int, k);
                assert(vstd::utf8::pop_first_scalar(rest) =~= text.subrange(
                    idx as int,
                    content_end as int,
                ));
                assert(walk_scalars(rest, target_cols - prev_col) == k + walk_scalars(
                    vstd::utf8::pop_first_scalar(rest),
                    target_cols - col,
                ));
                assert((prev_col + 2) * cw == (prev_col + 1) * cw + cw) by (nonlinear_arith);
                assert((col + 1) * cw <= 0x7fff_ffff * 0xffff) by (nonlinear_arith)
                    requires
                        0 <= col + 1 <= 0x7fff_ffff,
                        1 <= cw <= 0xffff,
                ;
            }
        }
        proof {
            if idx < content_end {
                // exited because the point is left of this cell's right edge
                if (point.x as int) < ox {
                    assert(target_cols == 0);
                } else {
                    assert(point.x as int - ox < (col + 1) * cw);
                    lemma_div_at_most(point.x as int - ox, col, cw);
                }
                assert(col == target_cols);
            } else {
                assert(text.subrange(idx as int, content_end as int) =~= Seq::<u8>::empty());
            }
            assert(walk_scalars(text.subrange(idx as int, content_end as int), target_cols - col)
                == 0);
            assert(idx as int == line_start as int + walk_scalars(window, target_cols));
        }
        HitTestPoint { idx, is_inside: inside }
    }

    fn line_range(&mut self, char_index: usize) -> (r: Range<usize>) {
        let start = scan_line_start(self.text.as_slice(), char_index);
        let end = scan_line_end(self.text.as_slice(), char_index);
        start..end
    }

    fn bounding_box(&mut self) -> (r: Option<Rect>)
        ensures
            ({
                let (x, y, w, h) = old(self).spec_frame();
                if old(self).spec_visible() {
                    r matches Some(rect) && rect.x0 as int == x && rect.y0 as int == y
                        && rect.x1 as int == x + w && rect.y1 as int == y + h
                } else {
                    r is None
                }
            }),
    {
        proof {
            use_type_invariant(&*self);
        }
        if self.visible {
            Some(
                Rect::new(
                    self.origin_x,
                    self.origin_y,
                    self.origin_x + self.width,
                    self.origin_y + self.height,
                ),
            )
        } else {
            None
        }
    }

    fn slice_bounding_box(&mut self, range: Range<usize>) -> (r: Option<Rect>)
        ensures
            r is Some <==> old(self).spec_visible(),
            ({
                let text = old(self).model().text;
                let (x, y, _, _) = old(self).spec_frame();
                let (cw, lh) = old(self).spec_grid();
                let ls = line_start_at(text, range.start as int);
                let row = newline_count(text, ls);
                let c0 = scalar_count(text.subrange(ls, range.start as int));
                let c1 = scalar_count(text.subrange(ls, range.end as int));
                r matches Some(rect) ==> rect.x0 as int == x + c0 * cw && rect.x1 as int == x + c1
                    * cw && rect.y0 as int == y + row * lh && rect.y1 as int == y + row * lh + lh
            }),
    {
        proof {
            use_type_invariant(&*self);
        }
        if !self.visible {
            return None;
        }
        let ls = scan_line_start(self.text.as_slice(), range.start);
        proof {
            lemma_line_start_props(self.text@, range.start as int);
        }
        let row = count_newlines(self.text.as_slice(), ls);
        let col_start = count_scalars(self.text.as_slice(), ls, range.start);
        let col_end = count_scalars(self.text.as_slice(), ls, range.end);
        let y0 = self.origin_y + grid_extent(row, self.line_height);
        let y1 = y0 + self.line_height;
        let x0 = self.origin_x + grid_extent(col_start, self.char_width);
        let x1 = self.origin_x + grid_extent(col_end, self.char_width);
        Some(Rect::new(x0, y0, x1, y1))
    }
}

} // verus!
