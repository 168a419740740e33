//! The ways in which an operation on the paste store can fail.

use vstd::prelude::*;

verus! {

/// Why an operation on the paste store did not go through.
#[derive(Debug, Clone, Copy, PartialEq, Eq, Structural)]
pub enum PasteError {
    /// Every probe of the key search hit a key that is in use.
    NoFreeKey,
    /// The clock reads an instant before 1970, or one too late for an `i64`.
    ClockOutOfRange,
    /// A record with the same id is already stored.
    DuplicateId,
    /// The view counter of the record cannot grow any further.
    ViewsOverflow,
    /// The stored content is not the text of a sequence of string pairs.
    MalformedContent,
}

} // verus!
