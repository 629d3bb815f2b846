//! Scanning errors. Both kinds abort the current scan; there is no
//! recovery or resynchronization.

use vstd::prelude::*;

verus! {

/// A fatal scanning error.
#[derive(Clone, Copy, PartialEq, Eq, Structural, Debug)]
pub enum LexerError {
    /// The current character belongs to no recognized dispatch category.
    /// Carries the offending character and its source position.
    UnmatchedSymbol { symbol: char, position: usize },
    /// A scan routine required at least one more character, but the input
    /// was exhausted. Carries the last successfully consumed character and
    /// its position, or a space at position zero if nothing was consumed.
    UnexpectedEof { symbol: char, position: usize },
}

pub type LexerResult<T> = Result<T, LexerError>;

} // verus!
