//! The arithmetic model of a bit field.
//!
//! A storage integer is read as a natural number. The field of `width` bits
//! that starts `offset` bits above the least significant bit splits the
//! number in three: the part above the field, the field itself and the part
//! below it. Reading a field picks the middle part, writing a field swaps it.
//! Everything the crate states about bits is stated over these functions.

use vstd::prelude::*;
use vstd::arithmetic::power2::{
    pow2,
    lemma_pow2_adds,
    lemma_pow2_pos,
    lemma_pow2_strictly_increases,
};
use vstd::arithmetic::div_mod::{
    lemma_div_denominator,
    lemma_fundamental_div_mod,
    lemma_fundamental_div_mod_converse,
    lemma_mod_bound,
    lemma_small_mod,
};

verus! {

/// The number held by the `width` bits of `x` that start at bit `offset`.
pub open spec fn field_value(x: nat, offset: nat, width: nat) -> nat {
    (x / pow2(offset)) % pow2(width)
}

/// The number whose bits above the field are those of `high`, whose field
/// holds `field` and whose bits below the field are those of `low`.
pub open spec fn compose(high: nat, field: nat, low: nat, offset: nat, width: nat) -> nat {
    high * pow2(offset + width) + field * pow2(offset) + low
}

/// `x` with the field replaced by the low `width` bits of `value`; every bit
/// outside the field is kept.
pub open spec fn with_field(x: nat, offset: nat, width: nat, value: nat) -> nat {
    compose(x / pow2(offset + width), value % pow2(width), x % pow2(offset), offset, width)
}

/// `x` can be stored in an unsigned integer of `bits` bits.
pub open spec fn fits(x: nat, bits: nat) -> bool {
    x < pow2(bits)
}

/// Two bit ranges share no bit.
pub open spec fn disjoint(offset_a: nat, width_a: nat, offset_b: nat, width_b: nat) -> bool {
    offset_a + width_a <= offset_b || offset_b + width_b <= offset_a
}

/// What fits a number of bits fits every larger number of bits.
pub proof fn lemma_fits_wider(x: nat, bits: nat, wider: nat)
    requires
        fits(x, bits),
        bits <= wider,
    ensures
        fits(x, wider),
{
    if bits < wider {
        lemma_pow2_strictly_increases(bits, wider);
    }
}

/// A field value never needs more bits than the field has.
pub proof fn lemma_field_value_bound(x: nat, offset: nat, width: nat)
    ensures
        field_value(x, offset, width) < pow2(width),
{
    lemma_pow2_pos(width);
    lemma_mod_bound((x / pow2(offset)) as int, pow2(width) as int);
}

/// A number that fits the field is its own low `width` bits.
pub proof fn lemma_small_value_kept(value: nat, width: nat)
    requires
        value < pow2(width),
    ensures
        value % pow2(width) == value,
{
    lemma_small_mod(value, pow2(width));
}

/// Every number is composed of its part above the field, the field and its
/// part below the field.
pub proof fn lemma_split(x: nat, offset: nat, width: nat)
    ensures
        x == compose(
            x / pow2(offset + width),
            field_value(x, offset, width),
            x % pow2(offset),
            offset,
            width,
        ),
{
    let po = pow2(offset);
    let pw = pow2(width);
    let q = x / po;
    lemma_pow2_pos(offset);
    lemma_pow2_pos(width);
    lemma_pow2_adds(offset, width);
    lemma_fundamental_div_mod(x as int, po as int);
    lemma_fundamental_div_mod(q as int, pw as int);
    lemma_div_denominator(x as int, po as int, pw as int);
    let h = q / pw;
    let f = q % pw;
    assert(h == x / pow2(offset + width));
    assert(po * (pw * h + f) == h * (po * pw) + f * po) by (nonlinear_arith);
}

/// The three parts of a composed number are the parts it was composed of.
pub proof fn lemma_compose_parts(high: nat, field: nat, low: nat, offset: nat, width: nat)
    requires
        field < pow2(width),
        low < pow2(offset),
    ensures
        compose(high, field, low, offset, width) / pow2(offset + width) == high,
        field_value(compose(high, field, low, offset, width), offset, width) == field,
        compose(high, field, low, offset, width) % pow2(offset) == low,
{
    let po = pow2(offset);
    let pw = pow2(width);
    let y = compose(high, field, low, offset, width);
    let q = high * pw + field;
    lemma_pow2_pos(offset);
    lemma_pow2_pos(width);
    lemma_pow2_adds(offset, width);
    assert(high * (po * pw) + field * po == (high * pw + field) * po) by (nonlinear_arith);
    assert(y == q * po + low);
    lemma_fundamental_div_mod_converse(y as int, po as int, q as int, low as int);
    lemma_fundamental_div_mod_converse(q as int, pw as int, high as int, field as int);
    lemma_div_denominator(y as int, po as int, pw as int);
}

/// The parts of a composed number stay below the powers of two that bound
/// them, so the number fits wherever its high part leaves room.
pub proof fn lemma_compose_bound(
    high: nat,
    field: nat,
    low: nat,
    offset: nat,
    width: nat,
    room: nat,
)
    requires
        field < pow2(width),
        low < pow2(offset),
        high < pow2(room),
    ensures
        compose(high, field, low, offset, width) < pow2(offset + width + room),
{
    let po = pow2(offset);
    let pw = pow2(width);
    let pr = pow2(room);
    lemma_pow2_adds(offset, width);
    lemma_pow2_adds(offset + width, room);
    assert(high * (po * pw) + field * po + low < (po * pw) * pr) by (nonlinear_arith)
        requires
            field < pw,
            low < po,
            high < pr,
    ;
}

/// Writing a field changes the number by the difference of the new and the
/// old field value, moved up to the field's offset.
pub proof fn lemma_with_field_delta(x: nat, offset: nat, width: nat, value: nat)
    ensures
        with_field(x, offset, width, value) + field_value(x, offset, width) * pow2(offset) == x
            + (value % pow2(width)) * pow2(offset),
{
    lemma_split(x, offset, width);
}

/// A field reads back the low `width` bits of what was written to it.
pub proof fn lemma_read_after_write(x: nat, offset: nat, width: nat, value: nat)
    ensures
        field_value(with_field(x, offset, width, value), offset, width) == value % pow2(width),
        value < pow2(width) ==> field_value(with_field(x, offset, width, value), offset, width)
            == value,
{
    lemma_pow2_pos(width);
    lemma_pow2_pos(offset);
    lemma_mod_bound(value as int, pow2(width) as int);
    lemma_mod_bound(x as int, pow2(offset) as int);
    lemma_compose_parts(
        x / pow2(offset + width),
        value % pow2(width),
        x % pow2(offset),
        offset,
        width,
    );
    if value < pow2(width) {
        lemma_small_value_kept(value, width);
    }
}

/// Writing a field keeps the bits above it and the bits below it.
pub proof fn lemma_write_keeps_outside(x: nat, offset: nat, width: nat, value: nat)
    ensures
        with_field(x, offset, width, value) / pow2(offset + width) == x / pow2(offset + width),
        with_field(x, offset, width, value) % pow2(offset) == x % pow2(offset),
{
    lemma_pow2_pos(width);
    lemma_pow2_pos(offset);
    lemma_mod_bound(value as int, pow2(width) as int);
    lemma_mod_bound(x as int, pow2(offset) as int);
    lemma_compose_parts(
        x / pow2(offset + width),
        value % pow2(width),
        x % pow2(offset),
        offset,
        width,
    );
}

/// Writing to a field the value it holds changes nothing.
pub proof fn lemma_write_current_value(x: nat, offset: nat, width: nat)
    ensures
        with_field(x, offset, width, field_value(x, offset, width)) == x,
{
    lemma_field_value_bound(x, offset, width);
    lemma_small_value_kept(field_value(x, offset, width), width);
    lemma_split(x, offset, width);
}

/// Of two writes to one field the second decides.
pub proof fn lemma_last_write_wins(x: nat, offset: nat, width: nat, first: nat, second: nat)
    ensures
        with_field(with_field(x, offset, width, first), offset, width, second) == with_field(
            x,
            offset,
            width,
            second,
        ),
{
    lemma_write_keeps_outside(x, offset, width, first);
}

/// Writing the same value a second time changes nothing.
pub proof fn lemma_write_idempotent(x: nat, offset: nat, width: nat, value: nat)
    ensures
        with_field(with_field(x, offset, width, value), offset, width, value) == with_field(
            x,
            offset,
            width,
            value,
        ),
{
    lemma_last_write_wins(x, offset, width, value, value);
}

/// A field that lies wholly below bit `cut` is decided by the bits below
/// `cut` alone.
pub proof fn lemma_field_below_cut(x: nat, cut: nat, offset: nat, width: nat)
    requires
        offset + width <= cut,
    ensures
        field_value(x, offset, width) == field_value(x % pow2(cut), offset, width),
{
    let pc = pow2(cut);
    let rest = (cut - offset - width) as nat;
    let pe = pow2(rest);
    let pf = pow2(offset + width);
    let k = x / pc;
    let l = x % pc;
    lemma_pow2_pos(cut);
    lemma_pow2_pos(offset);
    lemma_pow2_pos(width);
    lemma_pow2_adds(offset + width, rest);
    assert(pc == pf * pe);
    lemma_fundamental_div_mod(x as int, pc as int);
    lemma_split(l, offset, width);
    let hl = l / pf;
    let fl = field_value(l, offset, width);
    let ll = l % pow2(offset);
    lemma_field_value_bound(l, offset, width);
    lemma_mod_bound(l as int, pow2(offset) as int);
    assert((pf * pe) * k + hl * pf == (k * pe + hl) * pf) by (nonlinear_arith);
    assert(x == compose(k * pe + hl, fl, ll, offset, width));
    lemma_compose_parts(k * pe + hl, fl, ll, offset, width);
}

/// A field that lies wholly above bit `cut` is decided by the bits from
/// `cut` upwards alone.
pub proof fn lemma_field_above_cut(x: nat, cut: nat, offset: nat, width: nat)
    requires
        cut <= offset,
    ensures
        field_value(x, offset, width) == field_value(
            x / pow2(cut),
            (offset - cut) as nat,
            width,
        ),
{
    let rest = (offset - cut) as nat;
    lemma_pow2_pos(cut);
    lemma_pow2_pos(rest);
    lemma_pow2_adds(cut, rest);
    lemma_div_denominator(x as int, pow2(cut) as int, pow2(rest) as int);
}

/// Writing one field leaves every field that shares no bit with it as it was.
pub proof fn lemma_write_keeps_other_field(
    x: nat,
    offset: nat,
    width: nat,
    value: nat,
    other_offset: nat,
    other_width: nat,
)
    requires
        disjoint(offset, width, other_offset, other_width),
    ensures
        field_value(with_field(x, offset, width, value), other_offset, other_width) == field_value(
            x,
            other_offset,
            other_width,
        ),
{
    let y = with_field(x, offset, width, value);
    lemma_write_keeps_outside(x, offset, width, value);
    if offset + width <= other_offset {
        lemma_field_above_cut(x, offset + width, other_offset, other_width);
        lemma_field_above_cut(y, offset + width, other_offset, other_width);
    } else {
        lemma_field_below_cut(x, offset, other_offset, other_width);
        lemma_field_below_cut(y, offset, other_offset, other_width);
    }
}

/// Writes to two fields that share no bit can be made in either order.
pub proof fn lemma_writes_commute(
    x: nat,
    offset_a: nat,
    width_a: nat,
    value_a: nat,
    offset_b: nat,
    width_b: nat,
    value_b: nat,
)
    requires
        disjoint(offset_a, width_a, offset_b, width_b),
    ensures
        with_field(with_field(x, offset_a, width_a, value_a), offset_b, width_b, value_b)
            == with_field(with_field(x, offset_b, width_b, value_b), offset_a, width_a, value_a),
{
    let xa = with_field(x, offset_a, width_a, value_a);
    let xb = with_field(x, offset_b, width_b, value_b);
    lemma_with_field_delta(x, offset_a, width_a, value_a);
    lemma_with_field_delta(x, offset_b, width_b, value_b);
    lemma_with_field_delta(xa, offset_b, width_b, value_b);
    lemma_with_field_delta(xb, offset_a, width_a, value_a);
    lemma_write_keeps_other_field(x, offset_a, width_a, value_a, offset_b, width_b);
    lemma_write_keeps_other_field(x, offset_b, width_b, value_b, offset_a, width_a);
}

/// A write to a field inside the low `bits` bits keeps the number within
/// `bits` bits.
pub proof fn lemma_write_fits(x: nat, offset: nat, width: nat, value: nat, bits: nat)
    requires
        fits(x, bits),
        offset + width <= bits,
    ensures
        fits(with_field(x, offset, width, value), bits),
{
    let room = (bits - offset - width) as nat;
    let pf = pow2(offset + width);
    let pr = pow2(room);
    let h = x / pf;
    lemma_pow2_pos(offset + width);
    lemma_pow2_pos(width);
    lemma_pow2_pos(offset);
    lemma_pow2_adds(offset + width, room);
    lemma_fundamental_div_mod(x as int, pf as int);
    lemma_mod_bound(x as int, pf as int);
    assert(h < pr) by (nonlinear_arith)
        requires
            x == pf * h + x % pf,
            0 <= x % pf,
            x < pf * pr,
            pf > 0,
    ;
    lemma_mod_bound(value as int, pow2(width) as int);
    lemma_mod_bound(x as int, pow2(offset) as int);
    lemma_compose_bound(h, value % pow2(width), x % pow2(offset), offset, width, room);
}

/// A field is never larger than the number it is read from.
pub proof fn lemma_field_value_le(x: nat, offset: nat, width: nat)
    ensures
        field_value(x, offset, width) <= x,
{
    lemma_pow2_pos(offset);
    lemma_pow2_pos(width);
    let q = x / pow2(offset);
    lemma_fundamental_div_mod(x as int, pow2(offset) as int);
    lemma_mod_bound(x as int, pow2(offset) as int);
    lemma_fundamental_div_mod(q as int, pow2(width) as int);
    lemma_mod_bound(q as int, pow2(width) as int);
    assert(q <= x) by (nonlinear_arith)
        requires
            x == pow2(offset) * q + x % pow2(offset),
            x % pow2(offset) >= 0,
            pow2(offset) >= 1,
            q >= 0,
    ;
    assert(q % pow2(width) <= q) by (nonlinear_arith)
        requires
            q == pow2(width) * (q / pow2(width)) + q % pow2(width),
            pow2(width) >= 1,
            q / pow2(width) >= 0,
    ;
}

} // verus!
