//! The two error families: structural errors, found before a program runs,
//! and runtime errors, which end a run.

use vstd::prelude::*;

verus! {

/// A defect in the loop structure of a program. Positions count instructions
/// only: comment characters do not advance them.
#[derive(Debug, Clone, Copy, PartialEq, Eq, Structural)]
pub enum StructuralError {
    /// A `[` that no later `]` closes; `position` is the earliest such one.
    UnmatchedOpenBracket { position: usize },
    /// A `]` with no open `[` before it; `position` is the first such one.
    UnmatchedCloseBracket { position: usize },
}

/// The coarse form of a structural error: only which bracket is missing.
#[derive(Debug, Clone, Copy, PartialEq, Eq, Structural)]
pub enum BrainfuckError {
    /// `true` if a closing bracket is missing, `false` if an opening one is.
    MissingBracketError(bool),
}

/// The resource whose limit a run went over.
#[derive(Debug, Clone, Copy, PartialEq, Eq, Structural)]
pub enum Resource {
    /// The number of executed instructions.
    Steps,
    /// The number of tape cells.
    Tape,
}

/// A fatal condition during execution.
#[derive(Debug, Clone, Copy, PartialEq, Eq, Structural)]
pub enum RuntimeError {
    /// The data pointer was moved left of cell 0.
    PointerUnderflow,
    /// A configured limit, or a limit of the machine's counters, was reached.
    ResourceExhausted { steps_or_tape: Resource },
    /// The input source reported a failure.
    InputSourceError,
}

impl StructuralError {
    /// The instruction index that the error points at.
    pub open spec fn position_spec(self) -> usize {
        match self {
            StructuralError::UnmatchedOpenBracket { position } => position,
            StructuralError::UnmatchedCloseBracket { position } => position,
        }
    }

    /// The coarse form of this error.
    pub open spec fn coarse_spec(self) -> BrainfuckError {
        BrainfuckError::MissingBracketError(self is UnmatchedOpenBracket)
    }

    /// The instruction index that the error points at.
    pub fn position(&self) -> (r: usize)
        ensures
            r == self.position_spec(),
    {
        match self {
            StructuralError::UnmatchedOpenBracket { position } => *position,
            StructuralError::UnmatchedCloseBracket { position } => *position,
        }
    }

    /// Forgets the position: an unmatched `[` lacks its closing bracket, an
    /// unmatched `]` its opening one.
    pub fn coarse(&self) -> (r: BrainfuckError)
        ensures
            r == self.coarse_spec(),
    {
        match self {
            StructuralError::UnmatchedOpenBracket { .. } => BrainfuckError::MissingBracketError(
                true,
            ),
            StructuralError::UnmatchedCloseBracket { .. } => BrainfuckError::MissingBracketError(
                false,
            ),
        }
    }
}

impl BrainfuckError {
    /// The text shown to a user for this error.
    pub open spec fn message_spec(self) -> Seq<char> {
        match self {
            BrainfuckError::MissingBracketError(closing) => if closing {
                "Missing closing bracket"@
            } else {
                "Missing opening bracket"@
            },
        }
    }

    /// The text shown to a user for this error.
    pub fn message(&self) -> (r: &'static str)
        ensures
            r@ == self.message_spec(),
    {
        match self {
            BrainfuckError::MissingBracketError(closing) => if *closing {
                "Missing closing bracket"
            } else {
                "Missing opening bracket"
            },
        }
    }
}

} // verus!
