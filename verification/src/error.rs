//! The failures of a generation run.

use vstd::prelude::*;
use vstd::string::*;

verus! {

/// Why a generation run produced nothing.
#[derive(Debug, PartialEq, Eq)]
pub enum GenerationError {
    /// The row at `row` holds no string under the primary-key column
    /// `column`.
    UnrecognizedValue { row: usize, column: String },
    /// The replacement of the column `column` is a function without a type.
    MissingParameterType { column: String },
}

/// The mathematical model of a [`GenerationError`].
pub enum GenerationErrorSpec {
    UnrecognizedValue { row: usize, column: Seq<char> },
    MissingParameterType { column: Seq<char> },
}

impl View for GenerationError {
    type V = GenerationErrorSpec;

    open spec fn view(&self) -> GenerationErrorSpec {
        match self {
            GenerationError::UnrecognizedValue { row, column } => {
                GenerationErrorSpec::UnrecognizedValue { row: *row, column: column@ }
            },
            GenerationError::MissingParameterType { column } => {
                GenerationErrorSpec::MissingParameterType { column: column@ }
            },
        }
    }
}

impl GenerationErrorSpec {
    /// The message of the failure; it names the column.
    pub open spec fn message(self) -> Seq<char> {
        match self {
            GenerationErrorSpec::UnrecognizedValue { row, column } => {
                "Unrecognized value type for field "@ + column
            },
            GenerationErrorSpec::MissingParameterType { column } => {
                "Missing parameter type for field "@ + column
            },
        }
    }
}

impl GenerationError {
    /// The message of the failure.
    pub fn message(&self) -> (r: String)
        ensures
            r@ == self@.message(),
    {
        match self {
            GenerationError::UnrecognizedValue { row, column } => {
                String::from_str("Unrecognized value type for field ").concat(column.as_str())
            },
            GenerationError::MissingParameterType { column } => {
                String::from_str("Missing parameter type for field ").concat(column.as_str())
            },
        }
    }
}

} // verus!
