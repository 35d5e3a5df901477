//! Dispatch of OS "do command by selector" events.
//!
//! Each OS-defined symbolic command name maps to an abstract [`Action`], to a
//! recognized-but-unhandled outcome, or to [`CommandOutcome::Unknown`] for a
//! selector this integration has never heard of. Unknown commands are for the
//! caller to log and ignore: the OS expects no failure signal from command
//! dispatch, so resolution is total.

use vstd::prelude::*;
use vstd::string::StringSliceAdditionalSpecFns;

use crate::actions::Action;
use crate::actions::CommandOutcome;
use crate::actions::Direction;
use crate::actions::Movement;
use crate::actions::VerticalMovement;
use crate::actions::WritingDirection;

verus! {

/// Exact byte equality of two slices.
pub fn bytes_eq(a: &[u8], b: &[u8]) -> (r: bool)
    ensures
        r == (a@ == b@),
{
    if a.len() != b.len() {
        return false;
    }
    let n = a.len();
    let mut i: usize = 0;
    while i < n
        invariant
            n == a@.len() == b@.len(),
            0 <= i <= n,
            forall|j: int| 0 <= j < i ==> a@[j] == b@[j],
        decreases n - i,
    {
        if a[i] != b[i] {
            return false;
        }
        i = i + 1;
    }
    proof {
        assert(a@ =~= b@);
    }
    true
}

/// The command, if any, that an OS selector name resolves to.
pub open spec fn command_for_selector(name: Seq<u8>) -> CommandOutcome {
    if name == "cancelOperation:".spec_bytes() {
        CommandOutcome::Ignore
    } else if name == "capitalizeWord:".spec_bytes() {
        CommandOutcome::Perform(Action::CapitalizeWord)
    } else if name == "centerSelectionInVisibleArea:".spec_bytes() {
        CommandOutcome::Perform(Action::ScrollToSelection)
    } else if name == "changeCaseOfLetter:".spec_bytes() {
        CommandOutcome::Perform(Action::SwapLetterCase)
    } else if name == "complete:".spec_bytes() {
        CommandOutcome::Ignore
    } else if name == "deleteBackward:".spec_bytes() {
        CommandOutcome::Perform(Action::Delete(Movement::Grapheme(Direction::Upstream)))
    } else if name == "deleteBackwardByDecomposingPreviousCharacter:".spec_bytes() {
        CommandOutcome::Perform(Action::DecomposingBackspace)
    } else if name == "deleteForward:".spec_bytes() {
        CommandOutcome::Perform(Action::Delete(Movement::Grapheme(Direction::Downstream)))
    } else if name == "deleteToBeginningOfLine:".spec_bytes() {
        CommandOutcome::Perform(Action::Delete(Movement::Line(Direction::Upstream)))
    } else if name == "deleteToBeginningOfParagraph:".spec_bytes() {
        CommandOutcome::Perform(Action::Delete(Movement::ParagraphStart))
    } else if name == "deleteToEndOfLine:".spec_bytes() {
        CommandOutcome::Perform(Action::Delete(Movement::Line(Direction::Downstream)))
    } else if name == "deleteToEndOfParagraph:".spec_bytes() {
        CommandOutcome::Perform(Action::Delete(Movement::ParagraphEnd))
    } else if name == "deleteToMark:".spec_bytes() {
        CommandOutcome::Ignore
    } else if name == "deleteWordBackward:".spec_bytes() {
        CommandOutcome::Perform(Action::Delete(Movement::Word(Direction::Upstream)))
    } else if name == "deleteWordForward:".spec_bytes() {
        CommandOutcome::Perform(Action::Delete(Movement::Word(Direction::Downstream)))
    } else if name == "indent:".spec_bytes() {
        CommandOutcome::Perform(Action::Indent)
    } else if name == "insertBacktab:".spec_bytes() {
        CommandOutcome::Perform(Action::InsertBacktab)
    } else if name == "insertContainerBreak:".spec_bytes() {
        CommandOutcome::Ignore
    } else if name == "insertDoubleQuoteIgnoringSubstitution:".spec_bytes() {
        CommandOutcome::Ignore
    } else if name == "insertLineBreak:".spec_bytes() {
        CommandOutcome::Perform(Action::InsertLineBreak)
    } else if name == "insertNewline:".spec_bytes() {
        CommandOutcome::Perform(Action::InsertNewLine { ignore_autocomplete: false })
    } else if name == "insertNewlineIgnoringFieldEditor:".spec_bytes() {
        CommandOutcome::Perform(Action::InsertNewLine { ignore_autocomplete: true })
    } else if name == "insertParagraphSeparator:".spec_bytes() {
        CommandOutcome::Perform(Action::InsertParagraphBreak)
    } else if name == "insertSingleQuoteIgnoringSubstitution:".spec_bytes() {
        CommandOutcome::Ignore
    } else if name == "insertTab:".spec_bytes() {
        CommandOutcome::Perform(Action::InsertTab { ignore_autocomplete: false })
    } else if name == "insertTabIgnoringFieldEditor:".spec_bytes() {
        CommandOutcome::Perform(Action::InsertTab { ignore_autocomplete: true })
    } else if name == "lowercaseWord:".spec_bytes() {
        CommandOutcome::Perform(Action::LowercaseWord)
    } else if name == "makeBaseWritingDirectionLeftToRight:".spec_bytes() {
        CommandOutcome::Perform(Action::SetParagraphWritingDirection(WritingDirection::LeftToRight))
    } else if name == "makeBaseWritingDirectionNatural:".spec_bytes() {
        CommandOutcome::Perform(Action::SetParagraphWritingDirection(WritingDirection::Natural))
    } else if name == "makeBaseWritingDirectionRightToLeft:".spec_bytes() {
        CommandOutcome::Perform(Action::SetParagraphWritingDirection(WritingDirection::RightToLeft))
    } else if name == "makeTextWritingDirectionLeftToRight:".spec_bytes() {
        CommandOutcome::Perform(Action::SetSelectionWritingDirection(WritingDirection::LeftToRight))
    } else if name == "makeTextWritingDirectionNatural:".spec_bytes() {
        CommandOutcome::Perform(Action::SetSelectionWritingDirection(WritingDirection::Natural))
    } else if name == "makeTextWritingDirectionRightToLeft:".spec_bytes() {
        CommandOutcome::Perform(Action::SetSelectionWritingDirection(WritingDirection::RightToLeft))
    } else if name == "moveBackward:".spec_bytes() {
        CommandOutcome::Perform(Action::Move(Movement::Grapheme(Direction::Upstream)))
    } else if name == "moveBackwardAndModifySelection:".spec_bytes() {
        CommandOutcome::Perform(Action::MoveSelecting(Movement::Grapheme(Direction::Upstream)))
    } else if name == "moveDown:".spec_bytes() {
        CommandOutcome::Perform(Action::Move(Movement::Vertical(VerticalMovement::LineDown)))
    } else if name == "moveDownAndModifySelection:".spec_bytes() {
        CommandOutcome::Perform(Action::MoveSelecting(Movement::Vertical(VerticalMovement::LineDown)))
    } else if name == "moveForward:".spec_bytes() {
        CommandOutcome::Perform(Action::Move(Movement::Grapheme(Direction::Downstream)))
    } else if name == "moveForwardAndModifySelection:".spec_bytes() {
        CommandOutcome::Perform(Action::MoveSelecting(Movement::Grapheme(Direction::Downstream)))
    } else if name == "moveLeft:".spec_bytes() {
        CommandOutcome::Perform(Action::Move(Movement::Grapheme(Direction::Left)))
    } else if name == "moveLeftAndModifySelection:".spec_bytes() {
        CommandOutcome::Perform(Action::MoveSelecting(Movement::Grapheme(Direction::Left)))
    } else if name == "moveParagraphBackwardAndModifySelection:".spec_bytes() {
        CommandOutcome::Perform(Action::MoveSelecting(Movement::ParagraphPrev))
    } else if name == "moveParagraphForwardAndModifySelection:".spec_bytes() {
        CommandOutcome::Perform(Action::MoveSelecting(Movement::ParagraphNext))
    } else if name == "moveRight:".spec_bytes() {
        CommandOutcome::Perform(Action::Move(Movement::Grapheme(Direction::Right)))
    } else if name == "moveRightAndModifySelection:".spec_bytes() {
        CommandOutcome::Perform(Action::MoveSelecting(Movement::Grapheme(Direction::Right)))
    } else if name == "moveToBeginningOfDocument:".spec_bytes() {
        CommandOutcome::Perform(Action::Move(Movement::Vertical(VerticalMovement::DocumentStart)))
    } else if name == "moveToBeginningOfDocumentAndModifySelection:".spec_bytes() {
        CommandOutcome::Perform(Action::MoveSelecting(Movement::Vertical(VerticalMovement::DocumentStart)))
    } else if name == "moveToBeginningOfLine:".spec_bytes() {
        CommandOutcome::Perform(Action::Move(Movement::Line(Direction::Upstream)))
    } else if name == "moveToBeginningOfLineAndModifySelection:".spec_bytes() {
        CommandOutcome::Perform(Action::MoveSelecting(Movement::Line(Direction::Upstream)))
    } else if name == "moveToBeginningOfParagraph:".spec_bytes() {
        CommandOutcome::Perform(Action::Move(Movement::ParagraphStart))
    } else if name == "moveToBeginningOfParagraphAndModifySelection:".spec_bytes() {
        CommandOutcome::Perform(Action::MoveSelecting(Movement::ParagraphStart))
    } else if name == "moveToEndOfDocument:".spec_bytes() {
        CommandOutcome::Perform(Action::Move(Movement::Vertical(VerticalMovement::DocumentEnd)))
    } else if name == "moveToEndOfDocumentAndModifySelection:".spec_bytes() {
        CommandOutcome::Perform(Action::MoveSelecting(Movement::Vertical(VerticalMovement::DocumentEnd)))
    } else if name == "moveToEndOfLine:".spec_bytes() {
        CommandOutcome::Perform(Action::Move(Movement::Line(Direction::Downstream)))
    } else if name == "moveToEndOfLineAndModifySelection:".spec_bytes() {
        CommandOutcome::Perform(Action::MoveSelecting(Movement::Line(Direction::Downstream)))
    } else if name == "moveToEndOfParagraph:".spec_bytes() {
        CommandOutcome::Perform(Action::Move(Movement::ParagraphEnd))
    } else if name == "moveToEndOfParagraphAndModifySelection:".spec_bytes() {
        CommandOutcome::Perform(Action::MoveSelecting(Movement::ParagraphEnd))
    } else if name == "moveToLeftEndOfLine:".spec_bytes() {
        CommandOutcome::Perform(Action::Move(Movement::Line(Direction::Left)))
    } else if name == "moveToLeftEndOfLineAndModifySelection:".spec_bytes() {
        CommandOutcome::Perform(Action::MoveSelecting(Movement::Line(Direction::Left)))
    } else if name == "moveToRightEndOfLine:".spec_bytes() {
        CommandOutcome::Perform(Action::Move(Movement::Line(Direction::Right)))
    } else if name == "moveToRightEndOfLineAndModifySelection:".spec_bytes() {
        CommandOutcome::Perform(Action::MoveSelecting(Movement::Line(Direction::Right)))
    } else if name == "moveUp:".spec_bytes() {
        CommandOutcome::Perform(Action::Move(Movement::Vertical(VerticalMovement::LineUp)))
    } else if name == "moveUpAndModifySelection:".spec_bytes() {
        CommandOutcome::Perform(Action::MoveSelecting(Movement::Vertical(VerticalMovement::LineUp)))
    } else if name == "moveWordBackward:".spec_bytes() {
        CommandOutcome::Perform(Action::Move(Movement::Word(Direction::Upstream)))
    } else if name == "moveWordBackwardAndModifySelection:".spec_bytes() {
        CommandOutcome::Perform(Action::MoveSelecting(Movement::Word(Direction::Upstream)))
    } else if name == "moveWordForward:".spec_bytes() {
        CommandOutcome::Perform(Action::Move(Movement::Word(Direction::Downstream)))
    } else if name == "moveWordForwardAndModifySelection:".spec_bytes() {
        CommandOutcome::Perform(Action::MoveSelecting(Movement::Word(Direction::Downstream)))
    } else if name == "moveWordLeft:".spec_bytes() {
        CommandOutcome::Perform(Action::Move(Movement::Word(Direction::Left)))
    } else if name == "moveWordLeftAndModifySelection:".spec_bytes() {
        CommandOutcome::Perform(Action::MoveSelecting(Movement::Word(Direction::Left)))
    } else if name == "moveWordRight:".spec_bytes() {
        CommandOutcome::Perform(Action::Move(Movement::Word(Direction::Right)))
    } else if name == "moveWordRightAndModifySelection:".spec_bytes() {
        CommandOutcome::Perform(Action::MoveSelecting(Movement::Word(Direction::Right)))
    } else if name == "pageDown:".spec_bytes() {
        CommandOutcome::Perform(Action::Move(Movement::Vertical(VerticalMovement::PageDown)))
    } else if name == "pageDownAndModifySelection:".spec_bytes() {
        CommandOutcome::Perform(Action::MoveSelecting(Movement::Vertical(VerticalMovement::PageDown)))
    } else if name == "pageUp:".spec_bytes() {
        CommandOutcome::Perform(Action::Move(Movement::Vertical(VerticalMovement::PageUp)))
    } else if name == "pageUpAndModifySelection:".spec_bytes() {
        CommandOutcome::Perform(Action::MoveSelecting(Movement::Vertical(VerticalMovement::PageUp)))
    } else if name == "quickLookPreviewItems:".spec_bytes() {
        CommandOutcome::Ignore
    } else if name == "scrollLineDown:".spec_bytes() {
        CommandOutcome::Perform(Action::Scroll(VerticalMovement::LineDown))
    } else if name == "scrollLineUp:".spec_bytes() {
        CommandOutcome::Perform(Action::Scroll(VerticalMovement::LineUp))
    } else if name == "scrollPageDown:".spec_bytes() {
        CommandOutcome::Perform(Action::Scroll(VerticalMovement::PageDown))
    } else if name == "scrollPageUp:".spec_bytes() {
        CommandOutcome::Perform(Action::Scroll(VerticalMovement::PageUp))
    } else if name == "scrollToBeginningOfDocument:".spec_bytes() {
        CommandOutcome::Perform(Action::Scroll(VerticalMovement::DocumentStart))
    } else if name == "scrollToEndOfDocument:".spec_bytes() {
        CommandOutcome::Perform(Action::Scroll(VerticalMovement::DocumentEnd))
    } else if name == "selectAll:".spec_bytes() {
        CommandOutcome::Perform(Action::SelectAll)
    } else if name == "selectLine:".spec_bytes() {
        CommandOutcome::Perform(Action::SelectLine)
    } else if name == "selectParagraph:".spec_bytes() {
        CommandOutcome::Perform(Action::SelectParagraph)
    } else if name == "selectToMark:".spec_bytes() {
        CommandOutcome::Ignore
    } else if name == "selectWord:".spec_bytes() {
        CommandOutcome::Perform(Action::SelectWord)
    } else if name == "setMark:".spec_bytes() {
        CommandOutcome::Ignore
    } else if name == "swapWithMark:".spec_bytes() {
        CommandOutcome::Ignore
    } else if name == "transpose:".spec_bytes() {
        CommandOutcome::Perform(Action::Transpose)
    } else if name == "transposeWords:".spec_bytes() {
        CommandOutcome::Perform(Action::TransposeWord)
    } else if name == "uppercaseWord:".spec_bytes() {
        CommandOutcome::Perform(Action::UppercaseWord)
    } else if name == "yank:".spec_bytes() {
        CommandOutcome::Ignore
    } else {
        CommandOutcome::Unknown
    }
}

/// Resolve an OS "do command by selector" event. Returns the action to
/// perform, or says that the selector is recognized but unhandled, or unknown
/// altogether; never fails.
#[verifier::rlimit(100)]
pub fn do_command_by_selector(cmd: &str) -> (r: CommandOutcome)
    ensures
        r == command_for_selector(cmd.spec_bytes()),
{
    let name = cmd.as_bytes();
    if bytes_eq(name, "cancelOperation:".as_bytes()) {
        CommandOutcome::Ignore
    } else if bytes_eq(name, "capitalizeWord:".as_bytes()) {
        CommandOutcome::Perform(Action::CapitalizeWord)
    } else if bytes_eq(name, "centerSelectionInVisibleArea:".as_bytes()) {
        CommandOutcome::Perform(Action::ScrollToSelection)
    } else if bytes_eq(name, "changeCaseOfLetter:".as_bytes()) {
        CommandOutcome::Perform(Action::SwapLetterCase)
    } else if bytes_eq(name, "complete:".as_bytes()) {
        CommandOutcome::Ignore
    } else if bytes_eq(name, "deleteBackward:".as_bytes()) {
        CommandOutcome::Perform(Action::Delete(Movement::Grapheme(Direction::Upstream)))
    } else if bytes_eq(name, "deleteBackwardByDecomposingPreviousCharacter:".as_bytes()) {
        CommandOutcome::Perform(Action::DecomposingBackspace)
    } else if bytes_eq(name, "deleteForward:".as_bytes()) {
        CommandOutcome::Perform(Action::Delete(Movement::Grapheme(Direction::Downstream)))
    } else if bytes_eq(name, "deleteToBeginningOfLine:".as_bytes()) {
        CommandOutcome::Perform(Action::Delete(Movement::Line(Direction::Upstream)))
    } else if bytes_eq(name, "deleteToBeginningOfParagraph:".as_bytes()) {
        CommandOutcome::Perform(Action::Delete(Movement::ParagraphStart))
    } else if bytes_eq(name, "deleteToEndOfLine:".as_bytes()) {
        CommandOutcome::Perform(Action::Delete(Movement::Line(Direction::Downstream)))
    } else if bytes_eq(name, "deleteToEndOfParagraph:".as_bytes()) {
        CommandOutcome::Perform(Action::Delete(Movement::ParagraphEnd))
    } else if bytes_eq(name, "deleteToMark:".as_bytes()) {
        CommandOutcome::Ignore
    } else if bytes_eq(name, "deleteWordBackward:".as_bytes()) {
        CommandOutcome::Perform(Action::Delete(Movement::Word(Direction::Upstream)))
    } else if bytes_eq(name, "deleteWordForward:".as_bytes()) {
        CommandOutcome::Perform(Action::Delete(Movement::Word(Direction::Downstream)))
    } else if bytes_eq(name, "indent:".as_bytes()) {
        CommandOutcome::Perform(Action::Indent)
    } else if bytes_eq(name, "insertBacktab:".as_bytes()) {
        CommandOutcome::Perform(Action::InsertBacktab)
    } else if bytes_eq(name, "insertContainerBreak:".as_bytes()) {
        CommandOutcome::Ignore
    } else if bytes_eq(name, "insertDoubleQuoteIgnoringSubstitution:".as_bytes()) {
        CommandOutcome::Ignore
    } else if bytes_eq(name, "insertLineBreak:".as_bytes()) {
        CommandOutcome::Perform(Action::InsertLineBreak)
    } else if bytes_eq(name, "insertNewline:".as_bytes()) {
        CommandOutcome::Perform(Action::InsertNewLine { ignore_autocomplete: false })
    } else if bytes_eq(name, "insertNewlineIgnoringFieldEditor:".as_bytes()) {
        CommandOutcome::Perform(Action::InsertNewLine { ignore_autocomplete: true })
    } else if bytes_eq(name, "insertParagraphSeparator:".as_bytes()) {
        CommandOutcome::Perform(Action::InsertParagraphBreak)
    } else if bytes_eq(name, "insertSingleQuoteIgnoringSubstitution:".as_bytes()) {
        CommandOutcome::Ignore
    } else if bytes_eq(name, "insertTab:".as_bytes()) {
        CommandOutcome::Perform(Action::InsertTab { ignore_autocomplete: false })
    } else if bytes_eq(name, "insertTabIgnoringFieldEditor:".as_bytes()) {
        CommandOutcome::Perform(Action::InsertTab { ignore_autocomplete: true })
    } else if bytes_eq(name, "lowercaseWord:".as_bytes()) {
        CommandOutcome::Perform(Action::LowercaseWord)
    } else if bytes_eq(name, "makeBaseWritingDirectionLeftToRight:".as_bytes()) {
        CommandOutcome::Perform(Action::SetParagraphWritingDirection(WritingDirection::LeftToRight))
    } else if bytes_eq(name, "makeBaseWritingDirectionNatural:".as_bytes()) {
        CommandOutcome::Perform(Action::SetParagraphWritingDirection(WritingDirection::Natural))
    } else if bytes_eq(name, "makeBaseWritingDirectionRightToLeft:".as_bytes()) {
        CommandOutcome::Perform(Action::SetParagraphWritingDirection(WritingDirection::RightToLeft))
    } else if bytes_eq(name, "makeTextWritingDirectionLeftToRight:".as_bytes()) {
        CommandOutcome::Perform(Action::SetSelectionWritingDirection(WritingDirection::LeftToRight))
    } else if bytes_eq(name, "makeTextWritingDirectionNatural:".as_bytes()) {
        CommandOutcome::Perform(Action::SetSelectionWritingDirection(WritingDirection::Natural))
    } else if bytes_eq(name, "makeTextWritingDirectionRightToLeft:".as_bytes()) {
        CommandOutcome::Perform(Action::SetSelectionWritingDirection(WritingDirection::RightToLeft))
    } else if bytes_eq(name, "moveBackward:".as_bytes()) {
        CommandOutcome::Perform(Action::Move(Movement::Grapheme(Direction::Upstream)))
    } else if bytes_eq(name, "moveBackwardAndModifySelection:".as_bytes()) {
        CommandOutcome::Perform(Action::MoveSelecting(Movement::Grapheme(Direction::Upstream)))
    } else if bytes_eq(name, "moveDown:".as_bytes()) {
        CommandOutcome::Perform(Action::Move(Movement::Vertical(VerticalMovement::LineDown)))
    } else if bytes_eq(name, "moveDownAndModifySelection:".as_bytes()) {
        CommandOutcome::Perform(Action::MoveSelecting(Movement::Vertical(VerticalMovement::LineDown)))
    } else if bytes_eq(name, "moveForward:".as_bytes()) {
        CommandOutcome::Perform(Action::Move(Movement::Grapheme(Direction::Downstream)))
    } else if bytes_eq(name, "moveForwardAndModifySelection:".as_bytes()) {
        CommandOutcome::Perform(Action::MoveSelecting(Movement::Grapheme(Direction::Downstream)))
    } else if bytes_eq(name, "moveLeft:".as_bytes()) {
        CommandOutcome::Perform(Action::Move(Movement::Grapheme(Direction::Left)))
    } else if bytes_eq(name, "moveLeftAndModifySelection:".as_bytes()) {
        CommandOutcome::Perform(Action::MoveSelecting(Movement::Grapheme(Direction::Left)))
    } else if bytes_eq(name, "moveParagraphBackwardAndModifySelection:".as_bytes()) {
        CommandOutcome::Perform(Action::MoveSelecting(Movement::ParagraphPrev))
    } else if bytes_eq(name, "moveParagraphForwardAndModifySelection:".as_bytes()) {
        CommandOutcome::Perform(Action::MoveSelecting(Movement::ParagraphNext))
    } else if bytes_eq(name, "moveRight:".as_bytes()) {
        CommandOutcome::Perform(Action::Move(Movement::Grapheme(Direction::Right)))
    } else if bytes_eq(name, "moveRightAndModifySelection:".as_bytes()) {
        CommandOutcome::Perform(Action::MoveSelecting(Movement::Grapheme(Direction::Right)))
    } else if bytes_eq(name, "moveToBeginningOfDocument:".as_bytes()) {
        CommandOutcome::Perform(Action::Move(Movement::Vertical(VerticalMovement::DocumentStart)))
    } else if bytes_eq(name, "moveToBeginningOfDocumentAndModifySelection:".as_bytes()) {
        CommandOutcome::Perform(Action::MoveSelecting(Movement::Vertical(VerticalMovement::DocumentStart)))
    } else if bytes_eq(name, "moveToBeginningOfLine:".as_bytes()) {
        CommandOutcome::Perform(Action::Move(Movement::Line(Direction::Upstream)))
    } else if bytes_eq(name, "moveToBeginningOfLineAndModifySelection:".as_bytes()) {
        CommandOutcome::Perform(Action::MoveSelecting(Movement::Line(Direction::Upstream)))
    } else if bytes_eq(name, "moveToBeginningOfParagraph:".as_bytes()) {
        CommandOutcome::Perform(Action::Move(Movement::ParagraphStart))
    } else if bytes_eq(name, "moveToBeginningOfParagraphAndModifySelection:".as_bytes()) {
        CommandOutcome::Perform(Action::MoveSelecting(Movement::ParagraphStart))
    } else if bytes_eq(name, "moveToEndOfDocument:".as_bytes()) {
        CommandOutcome::Perform(Action::Move(Movement::Vertical(VerticalMovement::DocumentEnd)))
    } else if bytes_eq(name, "moveToEndOfDocumentAndModifySelection:".as_bytes()) {
        CommandOutcome::Perform(Action::MoveSelecting(Movement::Vertical(VerticalMovement::DocumentEnd)))
    } else if bytes_eq(name, "moveToEndOfLine:".as_bytes()) {
        CommandOutcome::Perform(Action::Move(Movement::Line(Direction::Downstream)))
    } else if bytes_eq(name, "moveToEndOfLineAndModifySelection:".as_bytes()) {
        CommandOutcome::Perform(Action::MoveSelecting(Movement::Line(Direction::Downstream)))
    } else if bytes_eq(name, "moveToEndOfParagraph:".as_bytes()) {
        CommandOutcome::Perform(Action::Move(Movement::ParagraphEnd))
    } else if bytes_eq(name, "moveToEndOfParagraphAndModifySelection:".as_bytes()) {
        CommandOutcome::Perform(Action::MoveSelecting(Movement::ParagraphEnd))
    } else if bytes_eq(name, "moveToLeftEndOfLine:".as_bytes()) {
        CommandOutcome::Perform(Action::Move(Movement::Line(Direction::Left)))
    } else if bytes_eq(name, "moveToLeftEndOfLineAndModifySelection:".as_bytes()) {
        CommandOutcome::Perform(Action::MoveSelecting(Movement::Line(Direction::Left)))
    } else if bytes_eq(name, "moveToRightEndOfLine:".as_bytes()) {
        CommandOutcome::Perform(Action::Move(Movement::Line(Direction::Right)))
    } else if bytes_eq(name, "moveToRightEndOfLineAndModifySelection:".as_bytes()) {
        CommandOutcome::Perform(Action::MoveSelecting(Movement::Line(Direction::Right)))
    } else if bytes_eq(name, "moveUp:".as_bytes()) {
        CommandOutcome::Perform(Action::Move(Movement::Vertical(VerticalMovement::LineUp)))
    } else if bytes_eq(name, "moveUpAndModifySelection:".as_bytes()) {
        CommandOutcome::Perform(Action::MoveSelecting(Movement::Vertical(VerticalMovement::LineUp)))
    } else if bytes_eq(name, "moveWordBackward:".as_bytes()) {
        CommandOutcome::Perform(Action::Move(Movement::Word(Direction::Upstream)))
    } else if bytes_eq(name, "moveWordBackwardAndModifySelection:".as_bytes()) {
        CommandOutcome::Perform(Action::MoveSelecting(Movement::Word(Direction::Upstream)))
    } else if bytes_eq(name, "moveWordForward:".as_bytes()) {
        CommandOutcome::Perform(Action::Move(Movement::Word(Direction::Downstream)))
    } else if bytes_eq(name, "moveWordForwardAndModifySelection:".as_bytes()) {
        CommandOutcome::Perform(Action::MoveSelecting(Movement::Word(Direction::Downstream)))
    } else if bytes_eq(name, "moveWordLeft:".as_bytes()) {
        CommandOutcome::Perform(Action::Move(Movement::Word(Direction::Left)))
    } else if bytes_eq(name, "moveWordLeftAndModifySelection:".as_bytes()) {
        CommandOutcome::Perform(Action::MoveSelecting(Movement::Word(Direction::Left)))
    } else if bytes_eq(name, "moveWordRight:".as_bytes()) {
        CommandOutcome::Perform(Action::Move(Movement::Word(Direction::Right)))
    } else if bytes_eq(name, "moveWordRightAndModifySelection:".as_bytes()) {
        CommandOutcome::Perform(Action::MoveSelecting(Movement::Word(Direction::Right)))
    } else if bytes_eq(name, "pageDown:".as_bytes()) {
        CommandOutcome::Perform(Action::Move(Movement::Vertical(VerticalMovement::PageDown)))
    } else if bytes_eq(name, "pageDownAndModifySelection:".as_bytes()) {
        CommandOutcome::Perform(Action::MoveSelecting(Movement::Vertical(VerticalMovement::PageDown)))
    } else if bytes_eq(name, "pageUp:".as_bytes()) {
        CommandOutcome::Perform(Action::Move(Movement::Vertical(VerticalMovement::PageUp)))
    } else if bytes_eq(name, "pageUpAndModifySelection:".as_bytes()) {
        CommandOutcome::Perform(Action::MoveSelecting(Movement::Vertical(VerticalMovement::PageUp)))
    } else if bytes_eq(name, "quickLookPreviewItems:".as_bytes()) {
        CommandOutcome::Ignore
    } else if bytes_eq(name, "scrollLineDown:".as_bytes()) {
        CommandOutcome::Perform(Action::Scroll(VerticalMovement::LineDown))
    } else if bytes_eq(name, "scrollLineUp:".as_bytes()) {
        CommandOutcome::Perform(Action::Scroll(VerticalMovement::LineUp))
    } else if bytes_eq(name, "scrollPageDown:".as_bytes()) {
        CommandOutcome::Perform(Action::Scroll(VerticalMovement::PageDown))
    } else if bytes_eq(name, "scrollPageUp:".as_bytes()) {
        CommandOutcome::Perform(Action::Scroll(VerticalMovement::PageUp))
    } else if bytes_eq(name, "scrollToBeginningOfDocument:".as_bytes()) {
        CommandOutcome::Perform(Action::Scroll(VerticalMovement::DocumentStart))
    } else if bytes_eq(name, "scrollToEndOfDocument:".as_bytes()) {
        CommandOutcome::Perform(Action::Scroll(VerticalMovement::DocumentEnd))
    } else if bytes_eq(name, "selectAll:".as_bytes()) {
        CommandOutcome::Perform(Action::SelectAll)
    } else if bytes_eq(name, "selectLine:".as_bytes()) {
        CommandOutcome::Perform(Action::SelectLine)
    } else if bytes_eq(name, "selectParagraph:".as_bytes()) {
        CommandOutcome::Perform(Action::SelectParagraph)
    } else if bytes_eq(name, "selectToMark:".as_bytes()) {
        CommandOutcome::Ignore
    } else if bytes_eq(name, "selectWord:".as_bytes()) {
        CommandOutcome::Perform(Action::SelectWord)
    } else if bytes_eq(name, "setMark:".as_bytes()) {
        CommandOutcome::Ignore
    } else if bytes_eq(name, "swapWithMark:".as_bytes()) {
        CommandOutcome::Ignore
    } else if bytes_eq(name, "transpose:".as_bytes()) {
        CommandOutcome::Perform(Action::Transpose)
    } else if bytes_eq(name, "transposeWords:".as_bytes()) {
        CommandOutcome::Perform(Action::TransposeWord)
    } else if bytes_eq(name, "uppercaseWord:".as_bytes()) {
        CommandOutcome::Perform(Action::UppercaseWord)
    } else if bytes_eq(name, "yank:".as_bytes()) {
        CommandOutcome::Ignore
    } else {
        CommandOutcome::Unknown
    }
}

} // verus!
