//! The layout of a schema as the model sees it: which schemas are valid,
//! and where each field of a valid schema lies.

use vstd::prelude::*;
use crate::error::SchemaErrorView;
use crate::model::{field_value, with_field};
use crate::parser::{FieldSpec, Schema};
use crate::storage::{smallest_width, StorageWidth, MAX_WIDTH};
use crate::word::all_ones;

verus! {

/// Where a field lies in the storage integer, and how it is read.
pub struct FieldPlan {
    pub name: Seq<char>,
    /// The number of bits of the field.
    pub width: nat,
    /// The place of the field's lowest bit, counted from the lowest bit of
    /// the storage integer.
    pub offset: nat,
    /// The field's low `width` bits set: what a value is cut to.
    pub mask: nat,
    /// The smallest integer width that holds a value of the field.
    pub return_width: StorageWidth,
}

/// The layout of a schema.
pub struct LayoutPlan {
    pub name: Seq<char>,
    /// The width of the storage integer.
    pub storage: StorageWidth,
    /// The number of bits that the fields take together.
    pub total: nat,
    /// The fields in the order of their declaration.
    pub fields: Seq<FieldPlan>,
}

/// A field may be 1 to 128 bits wide.
pub open spec fn width_ok(width: nat) -> bool {
    1 <= width <= MAX_WIDTH
}

/// Every field before place `end` has a width that a field may have.
pub open spec fn widths_ok_before(fields: Seq<FieldSpec>, end: int) -> bool {
    forall|i: int| 0 <= i < end ==> width_ok((#[trigger] fields[i]).width)
}

/// The widths of all fields added up.
pub open spec fn total_width(fields: Seq<FieldSpec>) -> nat
    decreases fields.len(),
{
    if fields.len() == 0 {
        0
    } else {
        total_width(fields.drop_last()) + fields.last().width
    }
}

/// A schema is valid when each field has a width that a field may have and
/// all fields together take no more than 128 bits. A schema without fields
/// is valid and takes no bits.
pub open spec fn schema_ok(schema: Schema) -> bool {
    &&& widths_ok_before(schema.fields, schema.fields.len() as int)
    &&& total_width(schema.fields) <= MAX_WIDTH
}

/// The offset of field `i`: the fields are packed from the highest bit
/// down in the order of their declaration, so below a field lie exactly
/// the fields declared after it.
pub open spec fn offset_of(fields: Seq<FieldSpec>, i: int) -> nat {
    total_width(fields.skip(i + 1))
}

/// The plan of field `i` of a schema.
pub open spec fn planned_field(fields: Seq<FieldSpec>, i: int) -> FieldPlan {
    FieldPlan {
        name: fields[i].name,
        width: fields[i].width,
        offset: offset_of(fields, i),
        mask: all_ones(fields[i].width),
        return_width: smallest_width(fields[i].width),
    }
}

/// The plans of all fields of a schema.
pub open spec fn planned_fields(fields: Seq<FieldSpec>) -> Seq<FieldPlan> {
    Seq::new(fields.len(), |i: int| planned_field(fields, i))
}

/// The layout of a schema.
pub open spec fn plan(schema: Schema) -> LayoutPlan {
    LayoutPlan {
        name: schema.name,
        storage: smallest_width(total_width(schema.fields)),
        total: total_width(schema.fields),
        fields: planned_fields(schema.fields),
    }
}

/// Field `i` is the first whose width no field may have.
pub open spec fn first_bad_width(fields: Seq<FieldSpec>, i: int) -> bool {
    &&& 0 <= i < fields.len()
    &&& widths_ok_before(fields, i)
    &&& !width_ok(fields[i].width)
}

impl FieldPlan {
    /// The declaration that the plan was made for.
    pub open spec fn declared(self) -> FieldSpec {
        FieldSpec { name: self.name, width: self.width }
    }

    /// The field holds bit `bit` of the storage integer.
    pub open spec fn covers(self, bit: nat) -> bool {
        self.offset <= bit < self.offset + self.width
    }
}

impl LayoutPlan {
    /// The schema that the layout was made for.
    pub open spec fn schema(self) -> Schema {
        Schema { name: self.name, fields: self.fields.map_values(|field: FieldPlan| field.declared()) }
    }

    /// The value of field `i` in the storage integer `raw`.
    pub open spec fn read(self, raw: nat, i: int) -> nat {
        field_value(raw, self.fields[i].offset, self.fields[i].width)
    }

    /// The storage integer `raw` after `value` was written to field `i`.
    pub open spec fn write(self, raw: nat, i: int, value: nat) -> nat {
        with_field(raw, self.fields[i].offset, self.fields[i].width, value)
    }
}

/// `layout` is the layout of a valid schema.
pub open spec fn is_layout(layout: LayoutPlan) -> bool {
    schema_ok(layout.schema()) && layout == plan(layout.schema())
}

/// The widths before place `k` and the widths from place `k` on add up to
/// the total.
pub proof fn lemma_total_split(fields: Seq<FieldSpec>, k: int)
    requires
        0 <= k <= fields.len(),
    ensures
        total_width(fields) == total_width(fields.take(k)) + total_width(fields.skip(k)),
    decreases fields.len(),
{
    if k == fields.len() {
        assert(fields.take(k) =~= fields);
        assert(fields.skip(k) =~= Seq::<FieldSpec>::empty());
    } else {
        lemma_total_split(fields.drop_last(), k);
        assert(fields.drop_last().take(k) =~= fields.take(k));
        assert(fields.drop_last().skip(k) =~= fields.skip(k).drop_last());
        assert(fields.skip(k).last() == fields.last());
    }
}

/// A field begins where the field declared after it ends, the first field
/// ends at the total width and the last field begins at bit 0.
pub proof fn lemma_offset_step(fields: Seq<FieldSpec>, i: int)
    requires
        0 <= i < fields.len(),
    ensures
        total_width(fields.take(i + 1)) == total_width(fields.take(i)) + fields[i].width,
        offset_of(fields, i) + total_width(fields.take(i + 1)) == total_width(fields),
        offset_of(fields, i) + fields[i].width + total_width(fields.take(i)) == total_width(fields),
        i + 1 < fields.len() ==> offset_of(fields, i) == offset_of(fields, i + 1) + fields[i
            + 1].width,
        i == 0 ==> offset_of(fields, i) + fields[i].width == total_width(fields),
        i + 1 == fields.len() ==> offset_of(fields, i) == 0,
{
    assert(fields.take(i + 1).drop_last() =~= fields.take(i));
    assert(fields.take(i + 1).last() == fields[i]);
    lemma_total_split(fields, i + 1);
    if i + 1 < fields.len() {
        lemma_total_split(fields, i + 2);
        assert(fields.take(i + 2).drop_last() =~= fields.take(i + 1));
        assert(fields.take(i + 2).last() == fields[i + 1]);
    }
    if i == 0 {
        assert(fields.take(0) =~= Seq::<FieldSpec>::empty());
        assert(total_width(fields.take(0)) == 0);
    }
    if i + 1 == fields.len() {
        assert(fields.skip(i + 1) =~= Seq::<FieldSpec>::empty());
    }
}

/// The widths of a valid schema leave every field inside the low `total`
/// bits, and the total inside the storage integer.
pub proof fn lemma_field_in_storage(schema: Schema, i: int)
    requires
        schema_ok(schema),
        0 <= i < schema.fields.len(),
    ensures
        schema.fields[i].width <= total_width(schema.fields),
        offset_of(schema.fields, i) + schema.fields[i].width <= total_width(schema.fields),
        total_width(schema.fields) <= smallest_width(total_width(schema.fields)).bits(),
{
    lemma_offset_step(schema.fields, i);
}

/// What validation makes of a schema: the total width of a valid one, the
/// first field with a width that no field may have, or else the total width
/// that is too large.
pub open spec fn validation(schema: Schema) -> Result<nat, SchemaErrorView> {
    if exists|i: int| first_bad_width(schema.fields, i) {
        let i = choose|i: int| first_bad_width(schema.fields, i);
        Err(
            SchemaErrorView::InvalidFieldWidth {
                field: schema.fields[i].name,
                width: schema.fields[i].width,
            },
        )
    } else if total_width(schema.fields) > MAX_WIDTH {
        Err(SchemaErrorView::TotalWidthExceeded { total: total_width(schema.fields) })
    } else {
        Ok(total_width(schema.fields))
    }
}

/// What becomes of a schema: its layout, or the error that rejects it.
pub open spec fn expansion(schema: Schema) -> Result<LayoutPlan, SchemaErrorView> {
    match validation(schema) {
        Ok(_) => Ok(plan(schema)),
        Err(error) => Err(error),
    }
}

/// Only one field is the first with a bad width.
pub proof fn lemma_first_bad_width_unique(fields: Seq<FieldSpec>, i: int, j: int)
    requires
        first_bad_width(fields, i),
        first_bad_width(fields, j),
    ensures
        i == j,
{
    if i < j {
        assert(width_ok(fields[i].width));
    } else if j < i {
        assert(width_ok(fields[j].width));
    }
}

/// Validation accepts the valid schemas and no others.
pub proof fn lemma_validation_accepts(schema: Schema)
    ensures
        validation(schema) is Ok <==> schema_ok(schema),
        schema_ok(schema) ==> validation(schema) == Ok::<nat, SchemaErrorView>(
            total_width(schema.fields),
        ),
{
    let fields = schema.fields;
    if exists|i: int| first_bad_width(fields, i) {
        let i = choose|i: int| first_bad_width(fields, i);
        assert(!width_ok(fields[i].width));
    } else if !widths_ok_before(fields, fields.len() as int) {
        let bad = lemma_find_first_bad(fields, fields.len() as int);
        assert(first_bad_width(fields, bad));
    }
}

/// Where a field before place `end` has a bad width, one of them is the
/// first.
proof fn lemma_find_first_bad(fields: Seq<FieldSpec>, end: int) -> (first: int)
    requires
        0 <= end <= fields.len(),
        !widths_ok_before(fields, end),
    ensures
        first_bad_width(fields, first),
        first < end,
    decreases end,
{
    if end == 0 {
        0
    } else if widths_ok_before(fields, end - 1) {
        assert(!width_ok(fields[end - 1].width));
        end - 1
    } else {
        lemma_find_first_bad(fields, end - 1)
    }
}

/// A field plan as every layout has them: the field lies inside 128 bits,
/// its mask has its low `width` bits set and its values fit its return
/// width.
pub open spec fn field_plan_ok(field: FieldPlan) -> bool {
    &&& width_ok(field.width)
    &&& field.offset + field.width <= MAX_WIDTH
    &&& field.mask == all_ones(field.width)
    &&& field.return_width == smallest_width(field.width)
}

/// The plan of a valid schema is a layout, and the schema can be read off
/// it again.
pub proof fn lemma_plan_is_layout(schema: Schema)
    requires
        schema_ok(schema),
    ensures
        plan(schema).schema() == schema,
        is_layout(plan(schema)),
{
    assert(plan(schema).schema().fields =~= schema.fields);
}

/// Every field of a layout has a plan as every layout has them, and lies
/// below the total width, which the storage integer holds.
pub proof fn lemma_layout_field(layout: LayoutPlan, i: int)
    requires
        is_layout(layout),
        0 <= i < layout.fields.len(),
    ensures
        field_plan_ok(layout.fields[i]),
        layout.fields[i].offset + layout.fields[i].width <= layout.total,
        layout.total <= layout.storage.bits(),
        layout.total <= MAX_WIDTH,
{
    let schema = layout.schema();
    lemma_field_in_storage(schema, i);
    assert(layout.fields[i] == planned_field(schema.fields, i));
    assert(width_ok(schema.fields[i].width));
}

} // verus!
