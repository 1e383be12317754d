//! From a declared schema to its layout: validation, the storage width,
//! the offset of each field and its mask.

use vstd::prelude::*;
use crate::error::{SchemaError, SchemaErrorView, result_view};
use crate::model::{field_value, fits, with_field, lemma_field_value_bound, lemma_fits_wider};
use crate::parser::{BitmapInput, FieldDef, FieldSpec};
use crate::plan::{
    expansion,
    field_plan_ok,
    first_bad_width,
    is_layout,
    plan,
    planned_field,
    planned_fields,
    total_width,
    validation,
    width_ok,
    widths_ok_before,
    lemma_first_bad_width_unique,
    lemma_offset_step,
    lemma_plan_is_layout,
    lemma_validation_accepts,
    FieldPlan,
    LayoutPlan,
};
use crate::storage::{get_storage_ty, StorageWidth, MAX_WIDTH};
use crate::word::{low_mask, read_field, write_field};

verus! {

/// A field of a layout: where it lies in the storage integer, and the mask
/// that its getter and setter cut values to.
#[derive(Debug)]
pub struct FieldLayout {
    name: String,
    width: u8,
    offset: u8,
    mask: u128,
    return_width: StorageWidth,
}

impl View for FieldLayout {
    type V = FieldPlan;

    closed spec fn view(&self) -> FieldPlan {
        FieldPlan {
            name: self.name@,
            width: self.width as nat,
            offset: self.offset as nat,
            mask: self.mask as nat,
            return_width: self.return_width,
        }
    }
}

impl FieldLayout {
    #[verifier::type_invariant]
    spec fn well_formed(self) -> bool {
        field_plan_ok(self@)
    }

    /// The field's name.
    pub fn name(&self) -> (name: &str)
        ensures
            name@ == self@.name,
    {
        self.name.as_str()
    }

    /// The field's width in bits, 1 to 128.
    pub fn width(&self) -> (width: u8)
        ensures
            width == self@.width,
            field_plan_ok(self@),
    {
        proof {
            use_type_invariant(self);
        }
        self.width
    }

    /// The place of the field's lowest bit in the storage integer.
    pub fn offset(&self) -> (offset: u8)
        ensures
            offset == self@.offset,
            field_plan_ok(self@),
    {
        proof {
            use_type_invariant(self);
        }
        self.offset
    }

    /// The field's mask: its low `width` bits set, not yet moved to the
    /// field's offset.
    pub fn mask(&self) -> (mask: u128)
        ensures
            mask == self@.mask,
            field_plan_ok(self@),
    {
        proof {
            use_type_invariant(self);
        }
        self.mask
    }

    /// The smallest integer width that holds every value of the field.
    pub fn return_width(&self) -> (return_width: StorageWidth)
        ensures
            return_width == self@.return_width,
            field_plan_ok(self@),
    {
        proof {
            use_type_invariant(self);
        }
        self.return_width
    }

    /// The value of the field in the storage integer `storage`. It fits
    /// the field's return width.
    pub fn get(&self, storage: u128) -> (value: u128)
        ensures
            value == field_value(storage as nat, self@.offset, self@.width),
            value <= self@.mask,
            fits(value as nat, self@.return_width.bits() as nat),
            field_plan_ok(self@),
    {
        proof {
            use_type_invariant(self);
            lemma_field_value_bound(storage as nat, self@.offset, self@.width);
            lemma_fits_wider(
                field_value(storage as nat, self@.offset, self@.width),
                self@.width,
                self@.return_width.bits() as nat,
            );
        }
        read_field(storage, self.offset, self.width, self.mask)
    }

    /// The storage integer `storage` with the field set to the low `width`
    /// bits of `value`. A value too wide for the field is cut, not
    /// rejected.
    pub fn set(&self, storage: u128, value: u128) -> (written: u128)
        ensures
            written == with_field(storage as nat, self@.offset, self@.width, value as nat),
            field_plan_ok(self@),
    {
        proof {
            use_type_invariant(self);
        }
        write_field(storage, self.offset, self.width, self.mask, value)
    }
}

/// The layout of a validated schema: the storage width and, for each field
/// in the order of declaration, where it lies. It is computed once and
/// shared by every packed value of the schema.
#[derive(Debug)]
pub struct BitmapLayout {
    name: String,
    storage: StorageWidth,
    total: u8,
    fields: Vec<FieldLayout>,
}

impl View for BitmapLayout {
    type V = LayoutPlan;

    closed spec fn view(&self) -> LayoutPlan {
        LayoutPlan {
            name: self.name@,
            storage: self.storage,
            total: self.total as nat,
            fields: self.fields@.map_values(|field: FieldLayout| field@),
        }
    }
}

/// The fields of a declared schema as the model sees them.
pub open spec fn specs_of(fields: Seq<FieldDef>) -> Seq<FieldSpec> {
    fields.map_values(|field: FieldDef| field@)
}

/// The layout planner: each field is given its offset, its mask and its
/// return width. A cursor starts at the total width and goes down by the
/// width of each field in turn; where it stops is that field's offset.
fn plan_fields(fields: &Vec<FieldDef>, total: u8, storage: StorageWidth) -> (planned: Vec<
    FieldLayout,
>)
    requires
        widths_ok_before(specs_of(fields@), fields@.len() as int),
        total == total_width(specs_of(fields@)),
        total <= storage.bits(),
        total <= MAX_WIDTH,
    ensures
        planned@.map_values(|field: FieldLayout| field@) == planned_fields(specs_of(fields@)),
{
    let ghost specs = specs_of(fields@);
    let mut planned: Vec<FieldLayout> = Vec::new();
    let mut cursor: u8 = total;
    let mut i: usize = 0;
    proof {
        assert(specs.take(0) =~= Seq::<FieldSpec>::empty());
    }
    while i < fields.len()
        invariant
            i <= fields@.len(),
            specs == specs_of(fields@),
            widths_ok_before(specs, specs.len() as int),
            total == total_width(specs),
            total <= storage.bits(),
            total <= MAX_WIDTH,
            planned@.len() == i,
            cursor + total_width(specs.take(i as int)) == total,
            forall|j: int| 0 <= j < i ==> (#[trigger] planned@[j])@ == planned_field(specs, j),
        decreases fields@.len() - i,
    {
        let field = &fields[i];
        let size = field.size;
        proof {
            lemma_offset_step(specs, i as int);
            assert(specs[i as int] == field@);
            assert(width_ok(specs[i as int].width));
        }
        cursor = cursor - size;
        let mask = low_mask(size, storage);
        planned.push(
            FieldLayout {
                name: field.name.clone(),
                width: size,
                offset: cursor,
                mask,
                return_width: get_storage_ty(size),
            },
        );
        i += 1;
    }
    assert(planned@.map_values(|field: FieldLayout| field@) =~= planned_fields(specs));
    planned
}

impl BitmapInput {
    /// The schema validator. It checks that every field is 1 to 128 bits
    /// wide, then that all fields together take no more than 128 bits, and
    /// gives the total width.
    pub fn validate(&self) -> (checked: Result<u8, SchemaError>)
        ensures
            checked matches Ok(total) ==> validation(self@) == Ok::<nat, SchemaErrorView>(
                total as nat,
            ),
            checked matches Err(error) ==> validation(self@) == Err::<nat, SchemaErrorView>(
                error@,
            ),
    {
        let ghost specs = self@.fields;
        let mut total: u128 = 0;
        let mut i: usize = 0;
        proof {
            assert(specs.take(0) =~= Seq::<FieldSpec>::empty());
        }
        while i < self.fields.len()
            invariant
                i <= self.fields@.len(),
                specs == self@.fields,
                specs == specs_of(self.fields@),
                widths_ok_before(specs, i as int),
                total == total_width(specs.take(i as int)),
                total <= MAX_WIDTH * i,
            decreases self.fields@.len() - i,
        {
            let field = &self.fields[i];
            let size = field.size;
            proof {
                lemma_offset_step(specs, i as int);
                assert(specs[i as int] == field@);
            }
            if size == 0 || size > MAX_WIDTH {
                proof {
                    assert(first_bad_width(specs, i as int));
                    let chosen = choose|k: int| first_bad_width(specs, k);
                    lemma_first_bad_width_unique(specs, i as int, chosen);
                }
                return Err(
                    SchemaError::InvalidFieldWidth { field: field.name.clone(), width: size },
                );
            }
            total = total + size as u128;
            i += 1;
        }
        proof {
            assert(specs.take(specs.len() as int) =~= specs);
            lemma_validation_accepts(self@);
            if exists|k: int| first_bad_width(specs, k) {
                let k = choose|k: int| first_bad_width(specs, k);
                assert(width_ok(specs[k].width));
            }
        }
        if total > MAX_WIDTH as u128 {
            Err(SchemaError::TotalWidthExceeded { total })
        } else {
            Ok(total as u8)
        }
    }
}

impl BitmapLayout {
    #[verifier::type_invariant]
    spec fn well_formed(self) -> bool {
        is_layout(self@)
    }

    /// The name of the schema.
    pub fn name(&self) -> (name: &str)
        ensures
            name@ == self@.name,
            is_layout(self@),
    {
        proof {
            use_type_invariant(self);
        }
        self.name.as_str()
    }

    /// The width of the storage integer: the smallest that holds all
    /// fields.
    pub fn storage(&self) -> (storage: StorageWidth)
        ensures
            storage == self@.storage,
            is_layout(self@),
    {
        proof {
            use_type_invariant(self);
        }
        self.storage
    }

    /// The number of bits that the fields take together. The bits of the
    /// storage integer from this place on belong to no field.
    pub fn total_width(&self) -> (total: u8)
        ensures
            total == self@.total,
            is_layout(self@),
    {
        proof {
            use_type_invariant(self);
        }
        self.total
    }

    /// The number of fields.
    pub fn len(&self) -> (len: usize)
        ensures
            len == self@.fields.len(),
            is_layout(self@),
    {
        proof {
            use_type_invariant(self);
        }
        self.fields.len()
    }

    /// The field at place `index` in the order of declaration, if there is
    /// one.
    pub fn field(&self, index: usize) -> (field: Option<&FieldLayout>)
        ensures
            is_layout(self@),
            index < self@.fields.len() ==> (field matches Some(found) && found@
                == self@.fields[index as int]),
            index >= self@.fields.len() ==> field is None,
    {
        proof {
            use_type_invariant(self);
        }
        if index < self.fields.len() {
            Some(&self.fields[index])
        } else {
            None
        }
    }

    /// The place of the first field with the name `name`, if there is one.
    pub fn index_of(&self, name: &str) -> (found: Option<usize>)
        ensures
            is_layout(self@),
            match found {
                Some(index) => {
                    &&& index < self@.fields.len()
                    &&& self@.fields[index as int].name == name@
                    &&& forall|j: int| 0 <= j < index ==> (#[trigger] self@.fields[j]).name != name@
                },
                None => forall|j: int|
                    0 <= j < self@.fields.len() ==> (#[trigger] self@.fields[j]).name != name@,
            },
    {
        proof {
            use_type_invariant(self);
        }
        let wanted = name.to_owned();
        let mut i: usize = 0;
        while i < self.fields.len()
            invariant
                i <= self.fields@.len(),
                is_layout(self@),
                wanted@ == name@,
                forall|j: int| 0 <= j < i ==> (#[trigger] self@.fields[j]).name != name@,
            decreases self.fields@.len() - i,
        {
            if self.fields[i].name == wanted {
                return Some(i);
            }
            i += 1;
        }
        None
    }
}

/// The layout of a declared schema: the schema is validated, the storage
/// width selected and every field planned. A schema that is rejected gives
/// its error and no layout.
pub fn expand_bitmap(input: BitmapInput) -> (expanded: Result<BitmapLayout, SchemaError>)
    ensures
        result_view(expanded) == expansion(input@),
{
    let total = match input.validate() {
        Ok(total) => total,
        Err(error) => {
            return Err(error);
        },
    };
    proof {
        lemma_validation_accepts(input@);
        assert(input@.fields == specs_of(input.fields@));
    }
    let storage = get_storage_ty(total);
    let fields = plan_fields(&input.fields, total, storage);
    proof {
        let planned = LayoutPlan {
            name: input.name@,
            storage,
            total: total as nat,
            fields: fields@.map_values(|field: FieldLayout| field@),
        };
        assert(planned == plan(input@));
        lemma_plan_is_layout(input@);
    }
    Ok(BitmapLayout { name: input.name, storage, total, fields })
}

} // verus!
