//! What holds of every layout and of every packed value, stated over the
//! model that the contracts of the library speak of.

use vstd::prelude::*;
use vstd::arithmetic::power2::{pow2, lemma_pow2_adds, lemma_pow2_pos};
use vstd::arithmetic::div_mod::lemma_div_denominator;
use crate::plan::{
    is_layout,
    lemma_layout_field,
    lemma_offset_step,
    offset_of,
    planned_field,
    total_width,
    LayoutPlan,
};
use crate::model::{
    disjoint,
    field_value,
    fits,
    with_field,
    lemma_last_write_wins,
    lemma_read_after_write,
    lemma_write_fits,
    lemma_write_idempotent,
    lemma_write_keeps_other_field,
    lemma_write_keeps_outside,
    lemma_writes_commute,
};
use crate::parser::FieldSpec;

verus! {

/// In a layout a field declared earlier lies wholly above a field declared
/// later.
pub proof fn lemma_earlier_field_is_higher(fields: Seq<FieldSpec>, i: int, j: int)
    requires
        0 <= i < j < fields.len(),
    ensures
        offset_of(fields, j) + fields[j].width <= offset_of(fields, i),
    decreases j - i,
{
    lemma_offset_step(fields, i);
    if i + 1 < j {
        lemma_earlier_field_is_higher(fields, i + 1, j);
    }
}

/// No two fields of a layout share a bit.
pub proof fn lemma_fields_disjoint(layout: LayoutPlan, i: int, j: int)
    requires
        is_layout(layout),
        0 <= i < layout.fields.len(),
        0 <= j < layout.fields.len(),
        i != j,
    ensures
        disjoint(
            layout.fields[i].offset,
            layout.fields[i].width,
            layout.fields[j].offset,
            layout.fields[j].width,
        ),
{
    let fields = layout.schema().fields;
    assert(layout.fields[i] == planned_field(fields, i));
    assert(layout.fields[j] == planned_field(fields, j));
    if i < j {
        lemma_earlier_field_is_higher(fields, i, j);
    } else {
        lemma_earlier_field_is_higher(fields, j, i);
    }
}

/// A bit below the end of field `from` belongs to that field or to a field
/// declared after it.
proof fn lemma_bit_owner(fields: Seq<FieldSpec>, from: int, bit: nat) -> (owner: int)
    requires
        0 <= from < fields.len(),
        bit < offset_of(fields, from) + fields[from].width,
    ensures
        from <= owner < fields.len(),
        offset_of(fields, owner) <= bit < offset_of(fields, owner) + fields[owner].width,
    decreases fields.len() - from,
{
    lemma_offset_step(fields, from);
    if offset_of(fields, from) <= bit {
        from
    } else {
        lemma_bit_owner(fields, from + 1, bit)
    }
}

/// The fields of a layout cover the bits below the total width, each bit
/// once, and no other bit.
pub proof fn lemma_fields_cover(layout: LayoutPlan, bit: nat)
    requires
        is_layout(layout),
    ensures
        bit < layout.total <==> exists|i: int|
            0 <= i < layout.fields.len() && (#[trigger] layout.fields[i]).covers(bit),
        forall|i: int, j: int|
            0 <= i < layout.fields.len() && 0 <= j < layout.fields.len() && (
            #[trigger] layout.fields[i]).covers(bit) && (#[trigger] layout.fields[j]).covers(bit)
                ==> i == j,
{
    let fields = layout.schema().fields;
    if bit < layout.total {
        assert(fields.len() > 0) by {
            if fields.len() == 0 {
                assert(total_width(fields) == 0);
            }
        }
        lemma_offset_step(fields, 0);
        let owner = lemma_bit_owner(fields, 0, bit);
        assert(layout.fields[owner] == planned_field(fields, owner));
        assert(layout.fields[owner].covers(bit));
    }
    assert forall|i: int| 0 <= i < layout.fields.len() && (#[trigger] layout.fields[i]).covers(
        bit,
    ) implies bit < layout.total by {
        lemma_layout_field(layout, i);
    }
    assert forall|i: int, j: int|
        0 <= i < layout.fields.len() && 0 <= j < layout.fields.len() && (
        #[trigger] layout.fields[i]).covers(bit) && (#[trigger] layout.fields[j]).covers(
            bit,
        ) implies i == j by {
        if i != j {
            lemma_fields_disjoint(layout, i, j);
        }
    }
}

/// A value that fits a field is read back as it was written.
pub proof fn lemma_round_trip(layout: LayoutPlan, raw: nat, i: int, value: nat)
    requires
        is_layout(layout),
        0 <= i < layout.fields.len(),
        value < pow2(layout.fields[i].width),
    ensures
        layout.read(layout.write(raw, i, value), i) == value,
{
    lemma_read_after_write(raw, layout.fields[i].offset, layout.fields[i].width, value);
}

/// A value too wide for a field is stored without its high bits: what is
/// read back is the value modulo two to the width of the field.
pub proof fn lemma_truncation(layout: LayoutPlan, raw: nat, i: int, value: nat)
    requires
        is_layout(layout),
        0 <= i < layout.fields.len(),
    ensures
        layout.read(layout.write(raw, i, value), i) == value % pow2(layout.fields[i].width),
        layout.write(raw, i, value) == layout.write(raw, i, value % pow2(layout.fields[i].width)),
{
    lemma_read_after_write(raw, layout.fields[i].offset, layout.fields[i].width, value);
    lemma_pow2_pos(layout.fields[i].width);
    vstd::arithmetic::div_mod::lemma_mod_twice(value as int, pow2(layout.fields[i].width) as int);
}

/// Setting a field to the same value a second time leaves the storage
/// integer as the first set left it.
pub proof fn lemma_set_idempotent(layout: LayoutPlan, raw: nat, i: int, value: nat)
    requires
        is_layout(layout),
        0 <= i < layout.fields.len(),
    ensures
        layout.write(layout.write(raw, i, value), i, value) == layout.write(raw, i, value),
{
    lemma_write_idempotent(raw, layout.fields[i].offset, layout.fields[i].width, value);
}

/// Of two sets of one field the later decides.
pub proof fn lemma_set_last_wins(layout: LayoutPlan, raw: nat, i: int, first: nat, second: nat)
    requires
        is_layout(layout),
        0 <= i < layout.fields.len(),
    ensures
        layout.write(layout.write(raw, i, first), i, second) == layout.write(raw, i, second),
{
    lemma_last_write_wins(raw, layout.fields[i].offset, layout.fields[i].width, first, second);
}

/// Setting a field leaves every other field as it was.
pub proof fn lemma_set_keeps_other_fields(layout: LayoutPlan, raw: nat, i: int, value: nat, j: int)
    requires
        is_layout(layout),
        0 <= i < layout.fields.len(),
        0 <= j < layout.fields.len(),
        i != j,
    ensures
        layout.read(layout.write(raw, i, value), j) == layout.read(raw, j),
{
    lemma_fields_disjoint(layout, i, j);
    lemma_write_keeps_other_field(
        raw,
        layout.fields[i].offset,
        layout.fields[i].width,
        value,
        layout.fields[j].offset,
        layout.fields[j].width,
    );
}

/// Sets of two different fields give the same storage integer in either
/// order.
pub proof fn lemma_sets_commute(
    layout: LayoutPlan,
    raw: nat,
    i: int,
    value_i: nat,
    j: int,
    value_j: nat,
)
    requires
        is_layout(layout),
        0 <= i < layout.fields.len(),
        0 <= j < layout.fields.len(),
        i != j,
    ensures
        layout.write(layout.write(raw, i, value_i), j, value_j) == layout.write(
            layout.write(raw, j, value_j),
            i,
            value_i,
        ),
{
    lemma_fields_disjoint(layout, i, j);
    lemma_writes_commute(
        raw,
        layout.fields[i].offset,
        layout.fields[i].width,
        value_i,
        layout.fields[j].offset,
        layout.fields[j].width,
        value_j,
    );
}

/// Setting a field keeps the storage integer within the storage width, and
/// keeps the bits from the total width on, which belong to no field.
pub proof fn lemma_set_keeps_unused_bits(layout: LayoutPlan, raw: nat, i: int, value: nat)
    requires
        is_layout(layout),
        0 <= i < layout.fields.len(),
    ensures
        fits(raw, layout.storage.bits() as nat) ==> fits(
            layout.write(raw, i, value),
            layout.storage.bits() as nat,
        ),
        layout.write(raw, i, value) / pow2(layout.total) == raw / pow2(layout.total),
{
    let offset = layout.fields[i].offset;
    let width = layout.fields[i].width;
    let written = layout.write(raw, i, value);
    lemma_layout_field(layout, i);
    if fits(raw, layout.storage.bits() as nat) {
        lemma_write_fits(raw, offset, width, value, layout.storage.bits() as nat);
    }
    let above = (layout.total - offset - width) as nat;
    lemma_write_keeps_outside(raw, offset, width, value);
    lemma_pow2_adds(offset + width, above);
    lemma_pow2_pos(offset + width);
    lemma_pow2_pos(above);
    lemma_div_denominator(raw as int, pow2(offset + width) as int, pow2(above) as int);
    lemma_div_denominator(written as int, pow2(offset + width) as int, pow2(above) as int);
}

/// The bits `start` to `end` of an integer, read after `value` was written
/// to them, are `value` cut to the width of the range.
pub proof fn lemma_bit_range_round_trip(x: nat, start: nat, end: nat, value: nat)
    requires
        start < end,
    ensures
        field_value(with_field(x, start, (end - start) as nat, value), start, (end - start) as nat)
            == value % pow2((end - start) as nat),
{
    lemma_read_after_write(x, start, (end - start) as nat, value);
}

} // verus!
