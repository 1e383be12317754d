//! Single bits and bit ranges of the unsigned integers.

use vstd::prelude::*;
use core::ops::Range;
use crate::error::RangeError;
use crate::model::{field_value, with_field};
use crate::storage::StorageWidth;
use crate::word::{get_range, set_range};

verus! {

/// Reading and writing single bits and ranges of bits of an integer. Bit 0
/// is the least significant bit. `T` is the type that bits are handed over
/// in.
///
/// A bit index must lie below the integer's width, and a range must hold a
/// bit and end no higher than the width. `CheckedBitMap` offers the same
/// four operations for callers that cannot promise this.
pub trait BitMap<T> {
    /// The number of bits of the integer.
    spec fn bit_width() -> nat;

    /// The integer as a natural number.
    spec fn number(&self) -> nat;

    /// The natural number that a value handed over stands for.
    spec fn value_of(value: T) -> nat;

    /// Gets the bit at position `index` from `&self`.
    fn get_bit(&self, index: u8) -> (bit: T)
        requires
            index < Self::bit_width(),
        ensures
            Self::value_of(bit) == field_value(self.number(), index as nat, 1),
    ;

    /// Sets the bit at position `index` in `&self` to the lowest bit of
    /// `value`.
    fn set_bit(&mut self, index: u8, value: T)
        requires
            index < Self::bit_width(),
        ensures
            final(self).number() == with_field(
                old(self).number(),
                index as nat,
                1,
                Self::value_of(value),
            ),
    ;

    /// Gets the bits at positions `indices.start..indices.end` from `&self`.
    fn get_bits(&self, indices: Range<u8>) -> (bits: T)
        requires
            indices.start < indices.end <= Self::bit_width(),
        ensures
            Self::value_of(bits) == field_value(
                self.number(),
                indices.start as nat,
                (indices.end - indices.start) as nat,
            ),
    ;

    /// Sets the bits at positions `indices.start..indices.end` in `&self`
    /// to the low bits of `value`, as many as the range is wide.
    fn set_bits(&mut self, indices: Range<u8>, value: T)
        requires
            indices.start < indices.end <= Self::bit_width(),
        ensures
            final(self).number() == with_field(
                old(self).number(),
                indices.start as nat,
                (indices.end - indices.start) as nat,
                Self::value_of(value),
            ),
    ;
}

/// What is wrong with the bit index `index` on an integer of `bits` bits,
/// if anything.
pub open spec fn index_check(index: u8, bits: nat) -> Result<(), RangeError> {
    if index >= bits {
        Err(RangeError::IndexOutOfBounds { index, bits: bits as u8 })
    } else {
        Ok(())
    }
}

/// What is wrong with the bit range from `start` to `end` on an integer of
/// `bits` bits, if anything. A range that holds no bit is reported first.
pub open spec fn range_check(start: u8, end: u8, bits: nat) -> Result<(), RangeError> {
    if start >= end {
        Err(RangeError::Empty { start, end })
    } else if end > bits {
        Err(RangeError::OutOfBounds { end, bits: bits as u8 })
    } else {
        Ok(())
    }
}

/// Tells whether the bit index `index` can be used on an integer of the
/// width `bits`.
pub fn check_index(index: u8, bits: StorageWidth) -> (checked: Result<(), RangeError>)
    ensures
        checked == index_check(index, bits.bits() as nat),
{
    if index >= bits.bits() {
        Err(RangeError::IndexOutOfBounds { index, bits: bits.bits() })
    } else {
        Ok(())
    }
}

/// Tells whether the bit range `indices` can be used on an integer of the
/// width `bits`.
pub fn check_range(indices: &Range<u8>, bits: StorageWidth) -> (checked: Result<(), RangeError>)
    ensures
        checked == range_check(indices.start, indices.end, bits.bits() as nat),
{
    if indices.start >= indices.end {
        Err(RangeError::Empty { start: indices.start, end: indices.end })
    } else if indices.end > bits.bits() {
        Err(RangeError::OutOfBounds { end: indices.end, bits: bits.bits() })
    } else {
        Ok(())
    }
}

/// The four operations of `BitMap` for every index and every range: where
/// `BitMap` asks the caller for a valid index or range, these test it and
/// hand back an error, and the integer stays as it was.
pub trait CheckedBitMap<T>: BitMap<T> {
    /// Gets the bit at position `index`, if the integer has such a bit.
    fn try_get_bit(&self, index: u8) -> (bit: Result<T, RangeError>)
        ensures
            match index_check(index, Self::bit_width()) {
                Ok(_) => bit matches Ok(value) && Self::value_of(value) == field_value(
                    self.number(),
                    index as nat,
                    1,
                ),
                Err(error) => bit matches Err(found) && found == error,
            },
    ;

    /// Sets the bit at position `index` to the lowest bit of `value`, if
    /// the integer has such a bit.
    fn try_set_bit(&mut self, index: u8, value: T) -> (done: Result<(), RangeError>)
        ensures
            match index_check(index, Self::bit_width()) {
                Ok(_) => done is Ok && final(self).number() == with_field(
                    old(self).number(),
                    index as nat,
                    1,
                    Self::value_of(value),
                ),
                Err(error) => done == Err::<(), RangeError>(error) && final(self).number()
                    == old(self).number(),
            },
    ;

    /// Gets the bits at positions `indices.start..indices.end`, if the
    /// range holds a bit and the integer has all its bits.
    fn try_get_bits(&self, indices: Range<u8>) -> (bits: Result<T, RangeError>)
        ensures
            match range_check(indices.start, indices.end, Self::bit_width()) {
                Ok(_) => bits matches Ok(value) && Self::value_of(value) == field_value(
                    self.number(),
                    indices.start as nat,
                    (indices.end - indices.start) as nat,
                ),
                Err(error) => bits matches Err(found) && found == error,
            },
    ;

    /// Sets the bits at positions `indices.start..indices.end` to the low
    /// bits of `value`, if the range holds a bit and the integer has all
    /// its bits.
    fn try_set_bits(&mut self, indices: Range<u8>, value: T) -> (done: Result<(), RangeError>)
        ensures
            match range_check(indices.start, indices.end, Self::bit_width()) {
                Ok(_) => done is Ok && final(self).number() == with_field(
                    old(self).number(),
                    indices.start as nat,
                    (indices.end - indices.start) as nat,
                    Self::value_of(value),
                ),
                Err(error) => done == Err::<(), RangeError>(error) && final(self).number()
                    == old(self).number(),
            },
    ;
}

impl BitMap<u8> for u8 {
    open spec fn bit_width() -> nat {
        8
    }

    open spec fn number(&self) -> nat {
        *self as nat
    }

    open spec fn value_of(value: u8) -> nat {
        value as nat
    }

    fn get_bit(&self, index: u8) -> (bit: u8) {
        get_range(*self as u128, index, index + 1, StorageWidth::U8) as u8
    }

    fn set_bit(&mut self, index: u8, value: u8) {
        *self = set_range(*self as u128, index, index + 1, StorageWidth::U8, value as u128)
            as u8;
    }

    fn get_bits(&self, indices: Range<u8>) -> (bits: u8) {
        get_range(*self as u128, indices.start, indices.end, StorageWidth::U8) as u8
    }

    fn set_bits(&mut self, indices: Range<u8>, value: u8) {
        *self = set_range(
            *self as u128,
            indices.start,
            indices.end,
            StorageWidth::U8,
            value as u128,
        ) as u8;
    }
}

impl CheckedBitMap<u8> for u8 {
    fn try_get_bit(&self, index: u8) -> (bit: Result<u8, RangeError>) {
        match check_index(index, StorageWidth::U8) {
            Ok(_) => Ok(self.get_bit(index)),
            Err(error) => Err(error),
        }
    }

    fn try_set_bit(&mut self, index: u8, value: u8) -> (done: Result<(), RangeError>) {
        match check_index(index, StorageWidth::U8) {
            Ok(_) => {
                self.set_bit(index, value);
                Ok(())
            },
            Err(error) => Err(error),
        }
    }

    fn try_get_bits(&self, indices: Range<u8>) -> (bits: Result<u8, RangeError>) {
        match check_range(&indices, StorageWidth::U8) {
            Ok(_) => Ok(self.get_bits(indices)),
            Err(error) => Err(error),
        }
    }

    fn try_set_bits(&mut self, indices: Range<u8>, value: u8) -> (done: Result<(), RangeError>) {
        match check_range(&indices, StorageWidth::U8) {
            Ok(_) => {
                self.set_bits(indices, value);
                Ok(())
            },
            Err(error) => Err(error),
        }
    }
}

impl BitMap<u16> for u16 {
    open spec fn bit_width() -> nat {
        16
    }

    open spec fn number(&self) -> nat {
        *self as nat
    }

    open spec fn value_of(value: u16) -> nat {
        value as nat
    }

    fn get_bit(&self, index: u8) -> (bit: u16) {
        get_range(*self as u128, index, index + 1, StorageWidth::U16) as u16
    }

    fn set_bit(&mut self, index: u8, value: u16) {
        *self = set_range(*self as u128, index, index + 1, StorageWidth::U16, value as u128)
            as u16;
    }

    fn get_bits(&self, indices: Range<u8>) -> (bits: u16) {
        get_range(*self as u128, indices.start, indices.end, StorageWidth::U16) as u16
    }

    fn set_bits(&mut self, indices: Range<u8>, value: u16) {
        *self = set_range(
            *self as u128,
            indices.start,
            indices.end,
            StorageWidth::U16,
            value as u128,
        ) as u16;
    }
}

impl CheckedBitMap<u16> for u16 {
    fn try_get_bit(&self, index: u8) -> (bit: Result<u16, RangeError>) {
        match check_index(index, StorageWidth::U16) {
            Ok(_) => Ok(self.get_bit(index)),
            Err(error) => Err(error),
        }
    }

    fn try_set_bit(&mut self, index: u8, value: u16) -> (done: Result<(), RangeError>) {
        match check_index(index, StorageWidth::U16) {
            Ok(_) => {
                self.set_bit(index, value);
                Ok(())
            },
            Err(error) => Err(error),
        }
    }

    fn try_get_bits(&self, indices: Range<u8>) -> (bits: Result<u16, RangeError>) {
        match check_range(&indices, StorageWidth::U16) {
            Ok(_) => Ok(self.get_bits(indices)),
            Err(error) => Err(error),
        }
    }

    fn try_set_bits(&mut self, indices: Range<u8>, value: u16) -> (done: Result<(), RangeError>) {
        match check_range(&indices, StorageWidth::U16) {
            Ok(_) => {
                self.set_bits(indices, value);
                Ok(())
            },
            Err(error) => Err(error),
        }
    }
}

impl BitMap<u32> for u32 {
    open spec fn bit_width() -> nat {
        32
    }

    open spec fn number(&self) -> nat {
        *self as nat
    }

    open spec fn value_of(value: u32) -> nat {
        value as nat
    }

    fn get_bit(&self, index: u8) -> (bit: u32) {
        get_range(*self as u128, index, index + 1, StorageWidth::U32) as u32
    }

    fn set_bit(&mut self, index: u8, value: u32) {
        *self = set_range(*self as u128, index, index + 1, StorageWidth::U32, value as u128)
            as u32;
    }

    fn get_bits(&self, indices: Range<u8>) -> (bits: u32) {
        get_range(*self as u128, indices.start, indices.end, StorageWidth::U32) as u32
    }

    fn set_bits(&mut self, indices: Range<u8>, value: u32) {
        *self = set_range(
            *self as u128,
            indices.start,
            indices.end,
            StorageWidth::U32,
            value as u128,
        ) as u32;
    }
}

impl CheckedBitMap<u32> for u32 {
    fn try_get_bit(&self, index: u8) -> (bit: Result<u32, RangeError>) {
        match check_index(index, StorageWidth::U32) {
            Ok(_) => Ok(self.get_bit(index)),
            Err(error) => Err(error),
        }
    }

    fn try_set_bit(&mut self, index: u8, value: u32) -> (done: Result<(), RangeError>) {
        match check_index(index, StorageWidth::U32) {
            Ok(_) => {
                self.set_bit(index, value);
                Ok(())
            },
            Err(error) => Err(error),
        }
    }

    fn try_get_bits(&self, indices: Range<u8>) -> (bits: Result<u32, RangeError>) {
        match check_range(&indices, StorageWidth::U32) {
            Ok(_) => Ok(self.get_bits(indices)),
            Err(error) => Err(error),
        }
    }

    fn try_set_bits(&mut self, indices: Range<u8>, value: u32) -> (done: Result<(), RangeError>) {
        match check_range(&indices, StorageWidth::U32) {
            Ok(_) => {
                self.set_bits(indices, value);
                Ok(())
            },
            Err(error) => Err(error),
        }
    }
}

impl BitMap<u64> for u64 {
    open spec fn bit_width() -> nat {
        64
    }

    open spec fn number(&self) -> nat {
        *self as nat
    }

    open spec fn value_of(value: u64) -> nat {
        value as nat
    }

    fn get_bit(&self, index: u8) -> (bit: u64) {
        get_range(*self as u128, index, index + 1, StorageWidth::U64) as u64
    }

    fn set_bit(&mut self, index: u8, value: u64) {
        *self = set_range(*self as u128, index, index + 1, StorageWidth::U64, value as u128)
            as u64;
    }

    fn get_bits(&self, indices: Range<u8>) -> (bits: u64) {
        get_range(*self as u128, indices.start, indices.end, StorageWidth::U64) as u64
    }

    fn set_bits(&mut self, indices: Range<u8>, value: u64) {
        *self = set_range(
            *self as u128,
            indices.start,
            indices.end,
            StorageWidth::U64,
            value as u128,
        ) as u64;
    }
}

impl CheckedBitMap<u64> for u64 {
    fn try_get_bit(&self, index: u8) -> (bit: Result<u64, RangeError>) {
        match check_index(index, StorageWidth::U64) {
            Ok(_) => Ok(self.get_bit(index)),
            Err(error) => Err(error),
        }
    }

    fn try_set_bit(&mut self, index: u8, value: u64) -> (done: Result<(), RangeError>) {
        match check_index(index, StorageWidth::U64) {
            Ok(_) => {
                self.set_bit(index, value);
                Ok(())
            },
            Err(error) => Err(error),
        }
    }

    fn try_get_bits(&self, indices: Range<u8>) -> (bits: Result<u64, RangeError>) {
        match check_range(&indices, StorageWidth::U64) {
            Ok(_) => Ok(self.get_bits(indices)),
            Err(error) => Err(error),
        }
    }

    fn try_set_bits(&mut self, indices: Range<u8>, value: u64) -> (done: Result<(), RangeError>) {
        match check_range(&indices, StorageWidth::U64) {
            Ok(_) => {
                self.set_bits(indices, value);
                Ok(())
            },
            Err(error) => Err(error),
        }
    }
}

impl BitMap<u128> for u128 {
    open spec fn bit_width() -> nat {
        128
    }

    open spec fn number(&self) -> nat {
        *self as nat
    }

    open spec fn value_of(value: u128) -> nat {
        value as nat
    }

    fn get_bit(&self, index: u8) -> (bit: u128) {
        get_range(*self, index, index + 1, StorageWidth::U128)
    }

    fn set_bit(&mut self, index: u8, value: u128) {
        *self = set_range(*self, index, index + 1, StorageWidth::U128, value);
    }

    fn get_bits(&self, indices: Range<u8>) -> (bits: u128) {
        get_range(*self, indices.start, indices.end, StorageWidth::U128)
    }

    fn set_bits(&mut self, indices: Range<u8>, value: u128) {
        *self = set_range(
            *self,
            indices.start,
            indices.end,
            StorageWidth::U128,
            value,
        );
    }
}

impl CheckedBitMap<u128> for u128 {
    fn try_get_bit(&self, index: u8) -> (bit: Result<u128, RangeError>) {
        match check_index(index, StorageWidth::U128) {
            Ok(_) => Ok(self.get_bit(index)),
            Err(error) => Err(error),
        }
    }

    fn try_set_bit(&mut self, index: u8, value: u128) -> (done: Result<(), RangeError>) {
        match check_index(index, StorageWidth::U128) {
            Ok(_) => {
                self.set_bit(index, value);
                Ok(())
            },
            Err(error) => Err(error),
        }
    }

    fn try_get_bits(&self, indices: Range<u8>) -> (bits: Result<u128, RangeError>) {
        match check_range(&indices, StorageWidth::U128) {
            Ok(_) => Ok(self.get_bits(indices)),
            Err(error) => Err(error),
        }
    }

    fn try_set_bits(&mut self, indices: Range<u8>, value: u128) -> (done: Result<(), RangeError>) {
        match check_range(&indices, StorageWidth::U128) {
            Ok(_) => {
                self.set_bits(indices, value);
                Ok(())
            },
            Err(error) => Err(error),
        }
    }
}

} // verus!
