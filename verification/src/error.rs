//! The errors of the library.

use vstd::prelude::*;

verus! {

/// Why a schema was rejected. A schema is only ever rejected when it is
/// defined; reading and writing fields of a packed value cannot fail.
#[derive(Debug, PartialEq, Eq)]
pub enum SchemaError {
    /// The declared type `ty` of `field` is not an unsigned type name: the
    /// letter `u` followed by a decimal number that an 8-bit integer holds.
    InvalidType { field: String, ty: String },
    /// The width of `field` is not between 1 and 128.
    InvalidFieldWidth { field: String, width: u8 },
    /// The widths of all fields add up to `total`, which is more than 128.
    TotalWidthExceeded { total: u128 },
}

/// A schema error with its texts as sequences of characters and its numbers
/// as natural numbers.
pub enum SchemaErrorView {
    InvalidType { field: Seq<char>, ty: Seq<char> },
    InvalidFieldWidth { field: Seq<char>, width: nat },
    TotalWidthExceeded { total: nat },
}

impl View for SchemaError {
    type V = SchemaErrorView;

    open spec fn view(&self) -> SchemaErrorView {
        match *self {
            SchemaError::InvalidType { field, ty } => SchemaErrorView::InvalidType {
                field: field@,
                ty: ty@,
            },
            SchemaError::InvalidFieldWidth { field, width } => SchemaErrorView::InvalidFieldWidth {
                field: field@,
                width: width as nat,
            },
            SchemaError::TotalWidthExceeded { total } => SchemaErrorView::TotalWidthExceeded {
                total: total as nat,
            },
        }
    }
}

/// A result seen through the views of what it holds.
pub open spec fn result_view<T: View, E: View>(result: Result<T, E>) -> Result<T::V, E::V> {
    match result {
        Ok(value) => Ok(value@),
        Err(error) => Err(error@),
    }
}

/// Why a type name does not give a field width.
#[derive(Debug, Clone, Copy, PartialEq, Eq, Structural)]
pub enum WidthError {
    /// The name does not start with the letter `u`.
    NotUnsigned,
    /// What follows the `u` is not a decimal number that an 8-bit integer
    /// holds.
    NotANumber,
    /// The number is 0 or more than 128.
    OutOfRange { size: u8 },
}

/// Why a bit index or a bit range cannot be used on an integer.
#[derive(Debug, Clone, Copy, PartialEq, Eq, Structural)]
pub enum RangeError {
    /// The integer has `bits` bits, so none at place `index`.
    IndexOutOfBounds { index: u8, bits: u8 },
    /// The range holds no bit: its start is not below its end.
    Empty { start: u8, end: u8 },
    /// The range ends above the last of the integer's `bits` bits.
    OutOfBounds { end: u8, bits: u8 },
}

} // verus!
