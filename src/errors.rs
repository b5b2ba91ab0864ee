use vstd::prelude::*;

verus! {

/// A buffer that is not a transducer this library can read.
#[derive(Debug, Clone, Copy, PartialEq, Eq, Structural)]
pub enum FormatError {
    /// The leading version word is not one this library reads.
    Version,
    /// Too short, or the footer does not hold together.
    Corrupt,
}

/// Why a builder refused an insertion or a finish.
#[derive(Debug, Clone, Copy, PartialEq, Eq, Structural)]
pub enum BuildError {
    /// The key equals the key inserted just before it.
    DuplicateKey,
    /// The key comes before the key inserted just before it.
    OutOfOrder,
    /// The builder was already finished.
    Finished,
}

/// Why a search could not start.
#[derive(Debug, Clone, Copy, PartialEq, Eq, Structural)]
pub enum SearchError {
    /// The regular expression does not compile.
    InvalidPattern,
    /// The edit-distance automaton would be too large.
    TooManyStates,
}

impl BuildError {
    pub fn message(&self) -> (r: String)
        ensures
            r@ == (match self {
                BuildError::DuplicateKey => "duplicate key"@,
                BuildError::OutOfOrder => "key out of order"@,
                BuildError::Finished => "Builder already finished"@,
            }),
    {
        match self {
            BuildError::DuplicateKey => "duplicate key".to_string(),
            BuildError::OutOfOrder => "key out of order".to_string(),
            BuildError::Finished => "Builder already finished".to_string(),
        }
    }
}

} // verus!
