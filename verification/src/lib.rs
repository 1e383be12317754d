//! Bit fields packed into one unsigned integer.
//!
//! A schema is an ordered list of named fields, each 1 to 128 bits wide and
//! together no more than 128 bits. Its layout gives the storage width, the
//! smallest of 8, 16, 32, 64 and 128 bits that holds all fields, and for
//! each field an offset and a mask. Fields are packed from the most
//! significant bit down: the field declared first lies highest, the field
//! declared last begins at bit 0.
//!
//! ```text
//! let layout = bitstruct("Player", &[("imposter", "u1"), ("tasks", "u3"), ("kills", "u3")])?;
//! let mut player = PackedValue::new(&layout, 0).unwrap();
//! player.set(0, 1).set(1, 5).set(2, 3);
//! assert_eq!(*player, 0b0110_1011);
//! ```
//!
//! Apart from the packed fields, the trait `BitMap` reads and writes single
//! bits and bit ranges of the unsigned integers themselves.

use vstd::prelude::*;

pub mod error;
pub mod laws;
pub mod layout;
pub mod model;
pub mod packed;
pub mod parser;
pub mod plan;
pub mod storage;
pub mod traits;
pub mod word;

pub use crate::error::{RangeError, SchemaError, WidthError};
pub use crate::layout::{expand_bitmap, BitmapLayout, FieldLayout};
pub use crate::packed::PackedValue;
pub use crate::parser::{parse_bit_width, BitmapInput, FieldDef};
pub use crate::storage::{get_storage_ty, StorageWidth, MAX_WIDTH};
pub use crate::traits::{check_index, check_range, BitMap, CheckedBitMap};
pub use crate::word::low_mask;

verus! {

/// What becomes of a name and a list of declarations: the layout of the
/// schema they give, or the error that rejects them.
pub open spec fn definition(name: Seq<char>, decls: Seq<(&str, &str)>) -> Result<
    crate::plan::LayoutPlan,
    crate::error::SchemaErrorView,
> {
    match crate::parser::declaration(name, decls) {
        Ok(schema) => crate::plan::expansion(schema),
        Err(error) => Err(error),
    }
}

/// The layout of the schema `name` with one field for each declaration, a
/// name and a type `u1` to `u128`, in their order. The declarations are
/// read, the schema is validated and laid out; the first step that fails
/// gives the error, and no layout is made.
pub fn bitstruct(name: &str, decls: &[(&str, &str)]) -> (defined: Result<BitmapLayout, SchemaError>)
    ensures
        crate::error::result_view(defined) == definition(name@, decls@),
{
    match BitmapInput::parse(name, decls) {
        Ok(input) => expand_bitmap(input),
        Err(error) => Err(error),
    }
}

} // verus!
