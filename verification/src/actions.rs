//! Abstract editing actions that OS command selectors map to.
//!
//! The OS sends symbolic editing commands ("move left and modify selection",
//! "delete to end of paragraph"); the adapter translates each into one of
//! these platform-neutral actions for the application to perform.

use vstd::prelude::*;

verus! {

/// A text-relative or visual direction for a movement or deletion.
#[derive(Clone, Copy, PartialEq, Eq, Structural, Debug)]
pub enum Direction {
    /// Towards the start of the document.
    Upstream,
    /// Towards the end of the document.
    Downstream,
    /// Visually leftward, whatever the writing direction.
    Left,
    /// Visually rightward, whatever the writing direction.
    Right,
}

/// Vertical caret travel.
#[derive(Clone, Copy, PartialEq, Eq, Structural, Debug)]
pub enum VerticalMovement {
    LineUp,
    LineDown,
    PageUp,
    PageDown,
    DocumentStart,
    DocumentEnd,
}

/// A unit of caret movement.
#[derive(Clone, Copy, PartialEq, Eq, Structural, Debug)]
pub enum Movement {
    Grapheme(Direction),
    Word(Direction),
    Line(Direction),
    ParagraphStart,
    ParagraphEnd,
    ParagraphPrev,
    ParagraphNext,
    Vertical(VerticalMovement),
}

/// Base or selection writing direction.
#[derive(Clone, Copy, PartialEq, Eq, Structural, Debug)]
pub enum WritingDirection {
    LeftToRight,
    RightToLeft,
    /// Deduce the direction from the text's content.
    Natural,
}

/// An editing action requested by the OS input system.
#[derive(Clone, Copy, PartialEq, Eq, Structural, Debug)]
pub enum Action {
    /// Move the caret.
    Move(Movement),
    /// Move the active edge of the selection, extending or shrinking it.
    MoveSelecting(Movement),
    SelectAll,
    SelectLine,
    SelectParagraph,
    SelectWord,
    /// Delete the span the movement would cross.
    Delete(Movement),
    /// Delete backward, decomposing the previous character first.
    DecomposingBackspace,
    UppercaseWord,
    LowercaseWord,
    CapitalizeWord,
    SwapLetterCase,
    Transpose,
    TransposeWord,
    InsertNewLine { ignore_autocomplete: bool },
    InsertTab { ignore_autocomplete: bool },
    InsertBacktab,
    InsertLineBreak,
    InsertParagraphBreak,
    Indent,
    /// Scroll so the selection is visible.
    ScrollToSelection,
    Scroll(VerticalMovement),
    SetSelectionWritingDirection(WritingDirection),
    SetParagraphWritingDirection(WritingDirection),
}

/// What a command selector resolved to: an action to perform, a recognized
/// command this integration deliberately leaves unhandled, or a selector it
/// does not know. Unknown selectors are for the caller to log and ignore —
/// command dispatch never fails towards the OS.
#[derive(Clone, Copy, PartialEq, Eq, Structural, Debug)]
pub enum CommandOutcome {
    Perform(Action),
    Ignore,
    Unknown,
}

} // verus!
