//! Why a request was not understood.

use vstd::prelude::*;

verus! {

/// The ways in which a request can be malformed. A request with several
/// faults reports the one that comes first in this list.
#[derive(Debug, Clone, Copy, PartialEq, Eq)]
pub enum ParseError {
    /// No carriage return and line feed close the command line.
    UnterminatedLine,
    /// The command line is empty or starts with a name that is no command.
    UnknownCommand,
    /// The command line has too few words or too many, or its last word
    /// stands where only `noreply` may.
    WrongArity,
    /// One of the numbers of the command line is no decimal number, or does
    /// not fit its field.
    InvalidNumber,
    /// Fewer bytes follow the command line than it announces.
    TruncatedData,
}

} // verus!
