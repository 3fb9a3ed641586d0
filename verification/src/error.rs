//! The error taxonomy of the parser. Every failure of the whole-file parse
//! is reported through exactly one of these variants; the first error
//! encountered aborts the call.

use vstd::prelude::*;

verus! {

/// Why parsing an exercise log failed.
///
/// `ParseError` covers every input that does not match the line grammar and
/// names the first offending line (1-based). The remaining variants are
/// semantic: the line's shape was right but a value in it was not. Several
/// variants (`FileContentParseError`, `ExerciseNameParseError`,
/// `MissingDateError`, `SetGroupParseError`, and the structural reading of
/// `TargetParseError`) are defensive: the grammar cannot produce a tree in
/// which they would arise, and they are kept only so that callers can match
/// the full taxonomy.
#[derive(Clone, Copy, Debug, PartialEq, Eq, Structural)]
pub enum GymDataParserError {
    /// The input does not match the grammar; `line` is the first bad line.
    ParseError { line: usize },
    /// A date field does not denote a valid calendar date.
    DateParseError,
    /// The parse produced no usable file tree (defensive; not producible).
    FileContentParseError,
    /// An exercise name was absent (defensive; not producible).
    ExerciseNameParseError,
    /// A target lacked one of its three numbers (defensive; not producible).
    TargetParseError,
    /// A set was missing a weight or repetition count (defensive; not
    /// producible).
    SetGroupParseError,
    /// A record carried no date (defensive; not producible).
    MissingDateError,
    /// A numeric token does not fit an unsigned 32-bit integer.
    InvalidNumberFormat,
}

} // verus!
