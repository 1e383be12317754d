//! Schemas as they are declared: a name and an ordered list of fields, each
//! with a name and an unsigned type `u1` to `u128` that gives its width.

use vstd::prelude::*;
use vstd::string::*;
use crate::error::{SchemaError, SchemaErrorView, WidthError, result_view};

verus! {

/// A field of a schema: its name and its width in bits.
pub struct FieldSpec {
    pub name: Seq<char>,
    pub width: nat,
}

/// A schema: its name and its fields in the order of their declaration.
pub struct Schema {
    pub name: Seq<char>,
    pub fields: Seq<FieldSpec>,
}

/// A declared field: its name and its width in bits.
#[derive(Debug, Clone)]
pub struct FieldDef {
    pub name: String,
    pub size: u8,
}

impl View for FieldDef {
    type V = FieldSpec;

    open spec fn view(&self) -> FieldSpec {
        FieldSpec { name: self.name@, width: self.size as nat }
    }
}

/// A declared schema, not yet validated.
#[derive(Debug, Clone)]
pub struct BitmapInput {
    pub name: String,
    pub fields: Vec<FieldDef>,
}

impl View for BitmapInput {
    type V = Schema;

    open spec fn view(&self) -> Schema {
        Schema { name: self.name@, fields: self.fields@.map_values(|field: FieldDef| field@) }
    }
}

/// `c` is one of the ten decimal digits.
pub open spec fn is_digit(c: char) -> bool {
    '0' <= c && c <= '9'
}

/// The number a decimal digit stands for.
pub open spec fn digit_value(c: char) -> nat {
    if is_digit(c) {
        (c as nat - '0' as nat) as nat
    } else {
        0
    }
}

/// `text` is one decimal digit or more, and nothing else.
pub open spec fn is_decimal(text: Seq<char>) -> bool {
    text.len() > 0 && forall|i: int| 0 <= i < text.len() ==> is_digit(#[trigger] text[i])
}

/// The number that a sequence of decimal digits stands for.
pub open spec fn decimal_value(digits: Seq<char>) -> nat
    decreases digits.len(),
{
    if digits.len() == 0 {
        0
    } else {
        10 * decimal_value(digits.drop_last()) + digit_value(digits.last())
    }
}

/// `text` without the plus sign that may stand before a number.
pub open spec fn without_sign(text: Seq<char>) -> Seq<char> {
    if text.len() > 0 && text[0] == '+' {
        text.skip(1)
    } else {
        text
    }
}

/// The width that a type name gives. The name is the letter `u` and a
/// decimal number, before which a plus sign may stand. A number above 255
/// is no width at all; one that is 0 or above 128 is a width out of range.
pub open spec fn type_width(ty: Seq<char>) -> Result<u8, WidthError> {
    if ty.len() == 0 || ty[0] != 'u' {
        Err(WidthError::NotUnsigned)
    } else {
        let digits = without_sign(ty.skip(1));
        if !is_decimal(digits) || decimal_value(digits) > u8::MAX {
            Err(WidthError::NotANumber)
        } else if decimal_value(digits) == 0 || decimal_value(digits) > 128 {
            Err(WidthError::OutOfRange { size: decimal_value(digits) as u8 })
        } else {
            Ok(decimal_value(digits) as u8)
        }
    }
}

/// The field that a declaration of `name` with the type `ty` gives, or the
/// error that rejects it.
pub open spec fn declared_field(name: Seq<char>, ty: Seq<char>) -> Result<
    FieldSpec,
    SchemaErrorView,
> {
    match type_width(ty) {
        Ok(size) => Ok(FieldSpec { name, width: size as nat }),
        Err(WidthError::OutOfRange { size }) => Err(
            SchemaErrorView::InvalidFieldWidth { field: name, width: size as nat },
        ),
        Err(_) => Err(SchemaErrorView::InvalidType { field: name, ty }),
    }
}

/// What the declaration at place `i` of a list of names and types gives.
pub open spec fn declared_at(decls: Seq<(&str, &str)>, i: int) -> Result<
    FieldSpec,
    SchemaErrorView,
> {
    declared_field(decls[i].0@, decls[i].1@)
}

/// Every declaration before place `end` gives a field.
pub open spec fn declared_before(decls: Seq<(&str, &str)>, end: int) -> bool {
    forall|i: int| 0 <= i < end ==> (#[trigger] declared_at(decls, i)) is Ok
}

/// The declaration at place `i` is the first that gives no field.
pub open spec fn first_rejected(decls: Seq<(&str, &str)>, i: int) -> bool {
    &&& 0 <= i < decls.len()
    &&& declared_before(decls, i)
    &&& declared_at(decls, i) is Err
}

/// The fields that a list of declarations gives, in their order.
pub open spec fn declared_fields(decls: Seq<(&str, &str)>) -> Seq<FieldSpec> {
    Seq::new(
        decls.len(),
        |i: int|
            match declared_at(decls, i) {
                Ok(field) => field,
                Err(_) => arbitrary(),
            },
    )
}

/// The schema that a name and a list of declarations give, or the error of
/// the first declaration that gives no field.
pub open spec fn declaration(name: Seq<char>, decls: Seq<(&str, &str)>) -> Result<
    Schema,
    SchemaErrorView,
> {
    if exists|i: int| first_rejected(decls, i) {
        let i = choose|i: int| first_rejected(decls, i);
        match declared_at(decls, i) {
            Ok(_) => arbitrary(),
            Err(error) => Err(error),
        }
    } else {
        Ok(Schema { name, fields: declared_fields(decls) })
    }
}

/// Only one declaration is the first that gives no field.
pub proof fn lemma_first_rejected_unique(decls: Seq<(&str, &str)>, i: int, j: int)
    requires
        first_rejected(decls, i),
        first_rejected(decls, j),
    ensures
        i == j,
{
    if i < j {
        assert(declared_at(decls, i) is Ok);
    } else if j < i {
        assert(declared_at(decls, j) is Ok);
    }
}

/// A list of declarations gives a schema where each of them gives a field,
/// and only there.
pub proof fn lemma_declaration_accepts(name: Seq<char>, decls: Seq<(&str, &str)>)
    ensures
        declaration(name, decls) is Ok <==> declared_before(decls, decls.len() as int),
{
    if exists|i: int| first_rejected(decls, i) {
        let i = choose|i: int| first_rejected(decls, i);
        assert(declared_at(decls, i) is Err);
    } else if !declared_before(decls, decls.len() as int) {
        let first = lemma_find_first_rejected(decls, decls.len() as int);
        assert(first_rejected(decls, first));
    }
}

/// Where a declaration before place `end` gives no field, one of them is
/// the first.
proof fn lemma_find_first_rejected(decls: Seq<(&str, &str)>, end: int) -> (first: int)
    requires
        0 <= end <= decls.len(),
        !declared_before(decls, end),
    ensures
        first_rejected(decls, first),
        first < end,
    decreases end,
{
    if end == 0 {
        0
    } else if declared_before(decls, end - 1) {
        assert(declared_at(decls, end - 1) is Err);
        end - 1
    } else {
        lemma_find_first_rejected(decls, end - 1)
    }
}

/// More digits never make a number smaller.
proof fn lemma_decimal_prefix(digits: Seq<char>, k: int)
    requires
        0 <= k <= digits.len(),
    ensures
        decimal_value(digits.take(k)) <= decimal_value(digits),
    decreases digits.len(),
{
    if k == digits.len() {
        assert(digits.take(k) =~= digits);
    } else {
        lemma_decimal_prefix(digits.drop_last(), k);
        assert(digits.drop_last().take(k) =~= digits.take(k));
    }
}

/// The width in bits that the type name `ty` gives.
pub fn parse_bit_width(ty: &str) -> (parsed: Result<u8, WidthError>)
    ensures
        parsed == type_width(ty@),
{
    let len = ty.unicode_len();
    if len == 0 || ty.get_char(0) != 'u' {
        return Err(WidthError::NotUnsigned);
    }
    let start: usize = if len > 1 && ty.get_char(1) == '+' {
        2
    } else {
        1
    };
    let ghost digits = without_sign(ty@.skip(1));
    assert(digits =~= ty@.subrange(start as int, len as int));
    if start == len {
        return Err(WidthError::NotANumber);
    }
    let mut value: u16 = 0;
    let mut i: usize = start;
    while i < len
        invariant
            start <= i <= len,
            len == ty@.len(),
            ty@[0] == 'u',
            digits == without_sign(ty@.skip(1)),
            digits == ty@.subrange(start as int, len as int),
            value == decimal_value(digits.take(i - start)),
            value <= u8::MAX,
            forall|j: int| 0 <= j < i - start ==> is_digit(#[trigger] digits[j]),
        decreases len - i,
    {
        let c = ty.get_char(i);
        assert(c == digits[i - start]);
        if !(c >= '0' && c <= '9') {
            return Err(WidthError::NotANumber);
        }
        let digit: u16 = (c as u32 - '0' as u32) as u16;
        proof {
            assert(digits.take(i + 1 - start).drop_last() =~= digits.take(i - start));
            assert(digits.take(i + 1 - start).last() == c);
        }
        value = value * 10 + digit;
        if value > 255 {
            proof {
                lemma_decimal_prefix(digits, i + 1 - start);
            }
            return Err(WidthError::NotANumber);
        }
        i += 1;
    }
    assert(digits.take(len - start) =~= digits);
    if value == 0 || value > 128 {
        Err(WidthError::OutOfRange { size: value as u8 })
    } else {
        Ok(value as u8)
    }
}

impl FieldDef {
    /// The field that a declaration of `name` with the type `ty` gives.
    pub fn parse(name: &str, ty: &str) -> (parsed: Result<FieldDef, SchemaError>)
        ensures
            result_view(parsed) == declared_field(name@, ty@),
    {
        match parse_bit_width(ty) {
            Ok(size) => Ok(FieldDef { name: name.to_owned(), size }),
            Err(WidthError::OutOfRange { size }) => Err(
                SchemaError::InvalidFieldWidth { field: name.to_owned(), width: size },
            ),
            Err(_) => Err(SchemaError::InvalidType { field: name.to_owned(), ty: ty.to_owned() }),
        }
    }
}

impl BitmapInput {
    /// The schema `name` with one field for each declaration, a name and a
    /// type, in their order. The first declaration that gives no field
    /// rejects the schema.
    pub fn parse(name: &str, decls: &[(&str, &str)]) -> (parsed: Result<BitmapInput, SchemaError>)
        ensures
            result_view(parsed) == declaration(name@, decls@),
    {
        let mut fields: Vec<FieldDef> = Vec::new();
        let mut i: usize = 0;
        while i < decls.len()
            invariant
                i <= decls@.len(),
                fields@.len() == i,
                declared_before(decls@, i as int),
                forall|j: int|
                    0 <= j < i ==> Ok::<FieldSpec, SchemaErrorView>(fields@[j]@)
                        == #[trigger] declared_at(decls@, j),
            decreases decls@.len() - i,
        {
            let (field_name, ty) = decls[i];
            match FieldDef::parse(field_name, ty) {
                Ok(field) => fields.push(field),
                Err(error) => {
                    proof {
                        assert(first_rejected(decls@, i as int));
                        let chosen = choose|k: int| first_rejected(decls@, k);
                        lemma_first_rejected_unique(decls@, i as int, chosen);
                    }
                    return Err(error);
                },
            }
            i += 1;
        }
        let input = BitmapInput { name: name.to_owned(), fields };
        proof {
            lemma_declaration_accepts(name@, decls@);
            assert(input@.fields =~= declared_fields(decls@)) by {
                assert forall|j: int| 0 <= j < decls@.len() implies input@.fields[j]
                    == declared_fields(decls@)[j] by {
                    assert(input@.fields[j] == input.fields@[j]@);
                    assert(Ok::<FieldSpec, SchemaErrorView>(input.fields@[j]@) == declared_at(
                        decls@,
                        j,
                    ));
                }
            }
        }
        Ok(input)
    }
}

} // verus!
