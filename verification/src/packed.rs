//! Packed values: a storage integer read and written through the layout of
//! its schema.

use vstd::prelude::*;
use crate::layout::BitmapLayout;
use crate::plan::{is_layout, lemma_layout_field, LayoutPlan};
use crate::model::{fits, lemma_write_fits};

verus! {

/// A packed value as the model sees it.
pub struct PackedView {
    /// The storage integer.
    pub storage: nat,
    /// The layout that the fields are read and written by.
    pub layout: LayoutPlan,
}

/// A storage integer together with the layout of its schema. The layout is
/// shared; the integer is the value's own, so a copy is independent of the
/// value it was copied from.
#[derive(Debug, Clone, Copy)]
pub struct PackedValue<'a> {
    raw: u128,
    layout: &'a BitmapLayout,
}

impl<'a> View for PackedValue<'a> {
    type V = PackedView;

    closed spec fn view(&self) -> PackedView {
        PackedView { storage: self.raw as nat, layout: self.layout@ }
    }
}

/// A packed value as every packed value is: its layout is the layout of a
/// valid schema, and its storage integer has the layout's storage width.
pub open spec fn packed_ok(packed: PackedView) -> bool {
    is_layout(packed.layout) && fits(packed.storage, packed.layout.storage.bits() as nat)
}

impl<'a> PackedValue<'a> {
    #[verifier::type_invariant]
    spec fn well_formed(self) -> bool {
        packed_ok(self@)
    }

    /// The packed value with the storage integer `raw`, where `raw` has no
    /// bit above the layout's storage width.
    pub fn new(layout: &'a BitmapLayout, raw: u128) -> (packed: Option<PackedValue<'a>>)
        ensures
            is_layout(layout@),
            fits(raw as nat, layout@.storage.bits() as nat) ==> (packed matches Some(value)
                && value@ == (PackedView { storage: raw as nat, layout: layout@ })),
            !fits(raw as nat, layout@.storage.bits() as nat) ==> packed is None,
    {
        let storage = layout.storage();
        if raw <= storage.max_value() {
            Some(PackedValue { raw, layout })
        } else {
            None
        }
    }

    /// The storage integer.
    pub fn raw(&self) -> (raw: u128)
        ensures
            raw == self@.storage,
            packed_ok(self@),
    {
        proof {
            use_type_invariant(self);
        }
        self.raw
    }

    /// The layout.
    pub fn layout(&self) -> (layout: &'a BitmapLayout)
        ensures
            layout@ == self@.layout,
            packed_ok(self@),
    {
        proof {
            use_type_invariant(self);
        }
        self.layout
    }

    /// The value of the field at place `index`. It never needs more bits
    /// than the field's return width has.
    pub fn get(&self, index: usize) -> (value: u128)
        requires
            index < self@.layout.fields.len(),
        ensures
            value == self@.layout.read(self@.storage, index as int),
            value <= self@.layout.fields[index as int].mask,
            fits(value as nat, self@.layout.fields[index as int].return_width.bits() as nat),
    {
        proof {
            use_type_invariant(self);
        }
        match self.layout.field(index) {
            Some(field) => field.get(self.raw),
            None => 0,
        }
    }

    /// Sets the field at place `index` to the low bits of `value`, as many
    /// as the field is wide, and hands the packed value back so that
    /// further fields can be set in the same expression. No other bit of
    /// the storage integer changes.
    pub fn set(&mut self, index: usize, value: u128) -> (packed: &mut Self)
        requires
            index < old(self)@.layout.fields.len(),
        ensures
            packed@ == (PackedView {
                storage: old(self)@.layout.write(old(self)@.storage, index as int, value as nat),
                layout: old(self)@.layout,
            }),
            *final(self) == *final(packed),
    {
        proof {
            use_type_invariant(&*self);
            lemma_layout_field(self@.layout, index as int);
        }
        match self.layout.field(index) {
            Some(field) => {
                proof {
                    lemma_write_fits(
                        self.raw as nat,
                        field@.offset,
                        field@.width,
                        value as nat,
                        self@.layout.storage.bits() as nat,
                    );
                }
                self.raw = field.set(self.raw, value);
            },
            None => {},
        }
        self
    }
}

/// The storage integer of a packed value.
impl<'a> From<PackedValue<'a>> for u128 {
    fn from(packed: PackedValue<'a>) -> (raw: u128) {
        packed.raw
    }
}

impl<'a> vstd::std_specs::convert::FromSpecImpl<PackedValue<'a>> for u128 {
    open spec fn obeys_from_spec() -> bool {
        true
    }

    open spec fn from_spec(packed: PackedValue<'a>) -> u128 {
        packed@.storage as u128
    }
}

/// A packed value can be read as its storage integer, not written.
impl<'a> core::ops::Deref for PackedValue<'a> {
    type Target = u128;

    fn deref(&self) -> (raw: &u128)
        ensures
            *raw == self@.storage,
    {
        &self.raw
    }
}

} // verus!
