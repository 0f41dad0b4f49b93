//! Errors reported by the source-level parsers.

use vstd::prelude::*;

verus! {

/// An error raised while parsing source text.
///
/// `NoMatch` reports input that does not fit the grammar at all; the other
/// variants report input that matched the shape of a construct but carried an
/// invalid value or name.
#[derive(Debug, Clone, Copy, PartialEq, Eq, Structural)]
pub enum ParseError {
    /// A program name that is not recognised.
    InvalidProgramName,
    /// A program name declared twice.
    DuplicateProgramName,
    /// A schema name that is not recognised.
    InvalidSchemaName,
    /// A schema name declared twice.
    DuplicateSchemaName,
    /// A conditional expression with no arms.
    EmptyCondExpression,
    /// A qualified identifier that is not recognised.
    UnknownQualifiedIdentifier,
    /// A byte literal outside `0..=255`.
    InvalidByteValue,
    /// A numeric literal that does not fit an unsigned 64-bit integer.
    InvalidNumValue,
    /// A type name that is not one of the defined primitives.
    InvalidTypeName,
    /// Input that does not match the grammar.
    NoMatch,
}

} // verus!
