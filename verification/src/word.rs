//! Fields of a 128-bit word, read and written with shifts and masks.
//!
//! Every other integer width is served by widening to 128 bits first, so
//! the step from bit operations to the arithmetic model is made once, here.

use vstd::prelude::*;
use vstd::arithmetic::power2::{
    pow2,
    lemma_pow2_adds,
    lemma_pow2_pos,
    lemma_pow2_strictly_increases,
    lemma_pow2_unfold,
    lemma2_to64,
};
use vstd::arithmetic::div_mod::{lemma_fundamental_div_mod, lemma_mod_bound, lemma_small_mod};
use vstd::bits::lemma_u128_shr_is_div;
use crate::model::{
    field_value,
    with_field,
    lemma_field_value_bound,
    lemma_field_value_le,
    lemma_with_field_delta,
    lemma_write_fits,
};
use crate::storage::{StorageWidth, lemma_pow2_128, MAX_WIDTH};

verus! {

/// The number whose low `width` bits are set and no other.
pub open spec fn all_ones(width: nat) -> nat {
    (pow2(width) - 1) as nat
}

/// Shifting left by one more bit doubles, while no bit is pushed out.
proof fn lemma_shl_step(y: u128, n: u8)
    requires
        1 <= n < 128,
        (y << ((n - 1) as u8)) < 0x8000_0000_0000_0000_0000_0000_0000_0000u128,
    ensures
        (y << n) == 2 * (y << ((n - 1) as u8)),
{
    let z = y << ((n - 1) as u8);
    assert((y << n) == ((y << ((n - 1) as u8)) << 1u8)) by (bit_vector)
        requires
            1 <= n < 128,
    ;
    assert((z << 1u8) == 2 * z) by (bit_vector)
        requires
            z < 0x8000_0000_0000_0000_0000_0000_0000_0000u128,
    ;
}

/// Shifting left by `n` multiplies by two to the `n`, while the product
/// fits the word.
proof fn lemma_shl_is_mul(y: u128, n: u8)
    requires
        n < 128,
        y * pow2(n as nat) <= u128::MAX,
    ensures
        (y << n) == y * pow2(n as nat),
    decreases n,
{
    if n == 0 {
        lemma2_to64();
        assert((y << 0u8) == y) by (bit_vector);
    } else {
        let m = (n - 1) as u8;
        lemma_pow2_unfold(n as nat);
        lemma_pow2_pos(m as nat);
        assert(y * pow2(n as nat) == 2 * (y * pow2(m as nat))) by (nonlinear_arith)
            requires
                pow2(n as nat) == 2 * pow2(m as nat),
        ;
        lemma_shl_is_mul(y, m);
        lemma_shl_step(y, n);
    }
}

/// Keeping the low `width` bits of a word is taking it modulo two to the
/// `width`.
proof fn lemma_and_mask_is_mod(x: u128, width: u8, mask: u128)
    requires
        width <= MAX_WIDTH,
        mask == all_ones(width as nat),
    ensures
        (x & mask) == (x as nat) % pow2(width as nat),
{
    lemma_pow2_128();
    if width == 128 {
        assert((x & 0xffff_ffff_ffff_ffff_ffff_ffff_ffff_ffffu128) == x) by (bit_vector);
        lemma_small_mod(x as nat, pow2(128));
    } else {
        let p = pow2(width as nat);
        lemma_pow2_pos(width as nat);
        lemma_pow2_strictly_increases(width as nat, 128);
        lemma_shl_is_mul(1, width);
        assert(mask == ((1u128 << width) - 1) as u128);
        let q = x >> width;
        assert((x & (((1u128 << width) - 1) as u128)) == x - ((x >> width) << width))
            by (bit_vector)
            requires
                width < 128,
        ;
        lemma_u128_shr_is_div(x, width as u128);
        assert(x >> width == x >> (width as u128)) by (bit_vector);
        assert(q == (x as nat) / p);
        lemma_fundamental_div_mod(x as int, p as int);
        assert(q * p <= x) by (nonlinear_arith)
            requires
                x == p * q + (x as int) % (p as int),
                (x as int) % (p as int) >= 0,
        ;
        lemma_shl_is_mul(q, width);
        assert(p * q == q * p) by (nonlinear_arith);
    }
}

/// Cutting a word to a mask that was moved up is cutting the word moved
/// down to the mask, and moving the result up again.
#[verifier::rlimit(60)]
proof fn lemma_masked_in_place(word: u128, mask: u128, offset: u8)
    by (bit_vector)
    requires
        offset < 128,
    ensures
        word & (mask << offset) == ((word >> offset) & mask) << offset,
{
}

/// The mask of a field: the low `width` bits set. Where the field is as
/// wide as the integer, the mask is the integer's largest value; a shift by
/// the full width is never made.
pub fn low_mask(width: u8, bits: StorageWidth) -> (mask: u128)
    requires
        width <= bits.bits(),
    ensures
        mask == all_ones(width as nat),
{
    if width >= bits.bits() {
        bits.max_value()
    } else {
        proof {
            lemma_pow2_128();
            lemma_pow2_pos(width as nat);
            lemma_pow2_strictly_increases(width as nat, 128);
            lemma_shl_is_mul(1, width);
        }
        (1u128 << width) - 1
    }
}

/// The field of `width` bits at `offset`: the word moved down by `offset`
/// and cut to the mask.
pub(crate) fn read_field(word: u128, offset: u8, width: u8, mask: u128) -> (value: u128)
    requires
        1 <= width,
        offset + width <= MAX_WIDTH,
        mask == all_ones(width as nat),
    ensures
        value == field_value(word as nat, offset as nat, width as nat),
        value <= mask,
{
    let moved = word >> offset;
    proof {
        lemma_u128_shr_is_div(word, offset as u128);
        assert(word >> offset == word >> (offset as u128)) by (bit_vector);
        lemma_and_mask_is_mod(moved, width, mask);
        lemma_field_value_bound(word as nat, offset as nat, width as nat);
    }
    moved & mask
}

/// The word with the field of `width` bits at `offset` replaced by the low
/// `width` bits of `value`: the field is cleared, then the cut value is
/// moved up into it.
pub(crate) fn write_field(word: u128, offset: u8, width: u8, mask: u128, value: u128) -> (written: u128)
    requires
        1 <= width,
        offset + width <= MAX_WIDTH,
        mask == all_ones(width as nat),
    ensures
        written == with_field(word as nat, offset as nat, width as nat, value as nat),
{
    let placed_mask = mask << offset;
    let cut = value & mask;
    let placed = cut << offset;
    let cleared = word & !placed_mask;
    proof {
        let po = pow2(offset as nat);
        let pw = pow2(width as nat);
        let old_field = (word >> offset) & mask;
        lemma_pow2_128();
        lemma_pow2_pos(offset as nat);
        lemma_pow2_pos(width as nat);
        lemma_pow2_adds(offset as nat, width as nat);
        assert(pow2((offset + width) as nat) <= pow2(128)) by {
            if offset + width < 128 {
                lemma_pow2_strictly_increases((offset + width) as nat, 128);
            }
        }
        // What the field held and what it will hold, as numbers.
        lemma_u128_shr_is_div(word, offset as u128);
        assert(word >> offset == word >> (offset as u128)) by (bit_vector);
        lemma_and_mask_is_mod(word >> offset, width, mask);
        assert(old_field == field_value(word as nat, offset as nat, width as nat));
        lemma_and_mask_is_mod(value, width, mask);
        assert(cut == (value as nat) % pw);
        lemma_field_value_bound(word as nat, offset as nat, width as nat);
        lemma_mod_bound(value as int, pw as int);
        // Moving a number below two to the `width` up by `offset` keeps
        // every bit.
        assert(old_field * po < po * pw && cut * po < po * pw) by (nonlinear_arith)
            requires
                old_field < pw,
                cut < pw,
                po > 0,
        ;
        lemma_shl_is_mul(old_field, offset);
        lemma_shl_is_mul(cut, offset);
        // Clearing the field takes away what the field held.
        lemma_masked_in_place(word, mask, offset);
        assert(word & !placed_mask == word - (word & placed_mask)) by (bit_vector);
        assert(cleared == word - old_field * po);
        // The value lands on cleared bits only, so joining is adding.
        assert((word & !(mask << offset)) & ((value & mask) << offset) == 0) by (bit_vector)
            requires
                offset < 128,
        ;
        assert(cleared | placed == cleared + placed) by (bit_vector)
            requires
                cleared & placed == 0,
        ;
        lemma_with_field_delta(word as nat, offset as nat, width as nat, value as nat);
    }
    cleared | placed
}

/// The bits `start` to `end`, `end` not included, of an integer of the
/// width `bits` that was widened to a word.
pub(crate) fn get_range(word: u128, start: u8, end: u8, bits: StorageWidth) -> (value: u128)
    requires
        start < end <= bits.bits(),
    ensures
        value == field_value(word as nat, start as nat, (end - start) as nat),
        value <= word,
{
    let width = end - start;
    let mask = low_mask(width, bits);
    proof {
        lemma_field_value_le(word as nat, start as nat, width as nat);
    }
    read_field(word, start, width, mask)
}

/// An integer of the width `bits`, widened to a word, with the bits `start`
/// to `end`, `end` not included, replaced by the low bits of `value`. What
/// comes back still fits the width.
pub(crate) fn set_range(word: u128, start: u8, end: u8, bits: StorageWidth, value: u128) -> (written:
    u128)
    requires
        start < end <= bits.bits(),
        word <= bits.max_value(),
    ensures
        written == with_field(word as nat, start as nat, (end - start) as nat, value as nat),
        written <= bits.max_value(),
{
    let width = end - start;
    let mask = low_mask(width, bits);
    proof {
        lemma_pow2_128();
        lemma_write_fits(
            word as nat,
            start as nat,
            width as nat,
            value as nat,
            bits.bits() as nat,
        );
    }
    write_field(word, start, width, mask, value)
}

} // verus!
