//! The ways in which reading or querying a table can fail.
use vstd::prelude::*;

verus! {

/// A failure of the reader or of a query. Every kind is a variant of its
/// own, so that a caller can tell them apart.
#[derive(Debug, Clone, Copy, PartialEq, Eq, Structural)]
pub enum TfsError {
    /// The text could not be had at all.
    IoError,
    /// The text ended before both the line of column names and the line of
    /// column types were seen.
    MalformedHeader,
    /// A token that should be a number is none. `line` counts the lines of
    /// the text from zero; `column` is the position of the column for a data
    /// row, and zero for a property.
    ParseError { line: usize, column: usize },
    /// A data row holds tokens, but fewer than there are columns. `line`
    /// counts the lines of the text from zero.
    ShortRow { line: usize },
    /// No column has the name asked for.
    UnknownColumn,
    /// No property has the name asked for.
    UnknownProperty,
    /// The row index holds no such key.
    UnknownKey,
    /// A cell, a column or a property holds the other kind of value.
    WrongVariant,
    /// An operation on columns met a column of the wrong kind.
    TypeMismatch,
    /// Two columns differ in length.
    LengthMismatch,
    /// A position lies beyond the end of a column.
    IndexOutOfRange,
    /// A row was asked for by key before any row index was built.
    IndexNotSet,
    /// Two columns have one name, where distinct names are asked for.
    DuplicateColumn,
    /// The table has more rows than a data frame can hold.
    TooManyRows,
    /// A text cell is longer than a data frame can hold.
    TextTooLong,
}

} // verus!
