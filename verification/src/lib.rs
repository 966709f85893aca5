//! The editing core of a terminal text editor: a mutable text store that
//! stays synchronized with an incrementally updated syntax tree, the
//! conversions among byte, character and (row, column) coordinates that
//! every mutation needs, and the tree walk that turns a syntax tree into
//! styled spans for display.
//!
//! The text lives in a rope; the syntax tree comes from an incremental
//! parser.  Both sit behind small trusted bindings whose contracts state
//! what those libraries document; everything built on top — coordinate
//! translation, the edit descriptor, the synchronizer's invariant, the
//! highlighter's tiling of a range — is verified against those contracts.
pub mod textmodel;

mod ropewrap;

pub mod textstore;

mod syntax;

pub mod highlight;

pub mod document;

use vstd::prelude::*;

verus! {

/// A (row, column) position in the text.  Rows are zero-indexed lines; the
/// column counts characters from the start of the row.
#[derive(Clone, Copy, Debug, PartialEq, Eq, Structural)]
pub struct Point {
    pub row: usize,
    pub column: usize,
}

/// What one edit changes, in byte offsets and (row, byte-column) positions:
/// the lowest changed position, the old end of the changed range and its new
/// end.  Consumed by the syntax synchronizer so the parser can reuse
/// unaffected subtrees.
#[derive(Clone, Copy, Debug, PartialEq, Eq, Structural)]
pub struct EditDescriptor {
    pub start_byte: usize,
    pub old_end_byte: usize,
    pub new_end_byte: usize,
    pub start_row: usize,
    pub start_col: usize,
    pub old_end_row: usize,
    pub old_end_col: usize,
    pub new_end_row: usize,
    pub new_end_col: usize,
}

/// The error taxonomy of the editing core.
#[derive(Clone, Copy, Debug, PartialEq, Eq, Structural)]
pub enum EditError {
    /// An offset, range or position lies outside the current content.
    OutOfRange,
    /// A grammar could not be used to initialise a parser.
    GrammarError,
    /// The parser itself failed to produce a tree.
    ParseFailure,
}

/// Whether an error leaves the operation safely rejectable: an out-of-range
/// request is recoverable (the state is unchanged), while grammar and parser
/// failures are fatal to the attachment they concern.
pub fn error_is_recoverable(e: EditError) -> (r: bool)
    ensures
        r == (e == EditError::OutOfRange),
{
    match e {
        EditError::OutOfRange => true,
        _ => false,
    }
}

} // verus!
