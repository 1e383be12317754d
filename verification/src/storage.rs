//! The unsigned integer widths that can hold a packed value.

use vstd::prelude::*;
use vstd::arithmetic::power2::{pow2, lemma_pow2_adds, lemma2_to64};
use crate::error::SchemaError;

verus! {

/// The width of a storage integer. The same five widths size the result of
/// a getter.
#[derive(Debug, Clone, Copy, PartialEq, Eq, Structural)]
pub enum StorageWidth {
    U8,
    U16,
    U32,
    U64,
    U128,
}

/// The largest total width a schema may have, and the largest width of a
/// single field.
pub const MAX_WIDTH: u8 = 128;

impl StorageWidth {
    /// The number of bits.
    pub open spec fn spec_bits(self) -> u8 {
        match self {
            StorageWidth::U8 => 8,
            StorageWidth::U16 => 16,
            StorageWidth::U32 => 32,
            StorageWidth::U64 => 64,
            StorageWidth::U128 => 128,
        }
    }

    /// The number of bits.
    #[verifier::when_used_as_spec(spec_bits)]
    pub fn bits(self) -> (bits: u8)
        ensures
            bits == self.spec_bits(),
    {
        match self {
            StorageWidth::U8 => 8,
            StorageWidth::U16 => 16,
            StorageWidth::U32 => 32,
            StorageWidth::U64 => 64,
            StorageWidth::U128 => 128,
        }
    }

    /// The largest number an integer of this width holds: all bits set.
    pub open spec fn spec_max_value(self) -> u128 {
        match self {
            StorageWidth::U8 => 0xff,
            StorageWidth::U16 => 0xffff,
            StorageWidth::U32 => 0xffff_ffff,
            StorageWidth::U64 => 0xffff_ffff_ffff_ffff,
            StorageWidth::U128 => 0xffff_ffff_ffff_ffff_ffff_ffff_ffff_ffff,
        }
    }

    /// The largest number an integer of this width holds: all bits set.
    #[verifier::when_used_as_spec(spec_max_value)]
    pub fn max_value(self) -> (max: u128)
        ensures
            max == self.spec_max_value(),
            max == pow2(self.bits() as nat) - 1,
    {
        proof {
            lemma_pow2_128();
        }
        match self {
            StorageWidth::U8 => 0xff,
            StorageWidth::U16 => 0xffff,
            StorageWidth::U32 => 0xffff_ffff,
            StorageWidth::U64 => 0xffff_ffff_ffff_ffff,
            StorageWidth::U128 => u128::MAX,
        }
    }

    /// The storage width for a schema whose widths add up to `total`: the
    /// smallest that holds `total` bits, and an error where not even 128
    /// bits hold them.
    pub fn select(total: u128) -> (selected: Result<StorageWidth, SchemaError>)
        ensures
            total <= MAX_WIDTH ==> selected == Ok::<StorageWidth, SchemaError>(
                smallest_width(total as nat),
            ),
            total > MAX_WIDTH ==> selected == Err::<StorageWidth, SchemaError>(
                SchemaError::TotalWidthExceeded { total },
            ),
    {
        if total > 128 {
            Err(SchemaError::TotalWidthExceeded { total })
        } else {
            Ok(get_storage_ty(total as u8))
        }
    }
}

/// The smallest of the five widths that holds `size` bits (the widest for a
/// `size` that none of them holds).
pub open spec fn smallest_width(size: nat) -> StorageWidth {
    if size <= 8 {
        StorageWidth::U8
    } else if size <= 16 {
        StorageWidth::U16
    } else if size <= 32 {
        StorageWidth::U32
    } else if size <= 64 {
        StorageWidth::U64
    } else {
        StorageWidth::U128
    }
}

/// The smallest storage width that holds `size` bits.
pub fn get_storage_ty(size: u8) -> (ty: StorageWidth)
    requires
        size <= MAX_WIDTH,
    ensures
        ty == smallest_width(size as nat),
        ty.bits() >= size,
        forall|other: StorageWidth| #[trigger] other.bits() >= size ==> ty.bits() <= other.bits(),
{
    if size <= 8 {
        StorageWidth::U8
    } else if size <= 16 {
        StorageWidth::U16
    } else if size <= 32 {
        StorageWidth::U32
    } else if size <= 64 {
        StorageWidth::U64
    } else {
        StorageWidth::U128
    }
}

/// `smallest_width` holds the bits it is asked for, no narrower width does,
/// and it never shrinks when more bits are asked for.
pub proof fn lemma_smallest_width(size: nat, larger: nat)
    requires
        size <= larger <= MAX_WIDTH,
    ensures
        smallest_width(size).bits() >= size,
        forall|other: StorageWidth| #[trigger] other.bits() >= size ==> smallest_width(size).bits()
            <= other.bits(),
        smallest_width(size).bits() <= smallest_width(larger).bits(),
{
}

/// The values of two to the power of each of the five widths.
pub proof fn lemma_pow2_128()
    ensures
        pow2(8) == 0x100,
        pow2(16) == 0x1_0000,
        pow2(32) == 0x1_0000_0000,
        pow2(64) == 0x1_0000_0000_0000_0000,
        pow2(128) == 0x1_0000_0000_0000_0000_0000_0000_0000_0000,
{
    lemma2_to64();
    lemma_pow2_adds(64, 64);
}

} // verus!
