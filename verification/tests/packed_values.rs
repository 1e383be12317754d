use bitmap::{bitstruct, expand_bitmap, BitmapInput, BitmapLayout, FieldDef, PackedValue};

fn place(layout: &BitmapLayout, name: &str) -> usize {
    layout.index_of(name).unwrap()
}

#[test]
fn one_bit() {
    let layout = bitstruct("Bits", &[("a", "u1")]).unwrap();
    let a: usize = place(&layout, "a");
    let mut bits = PackedValue::new(&layout, 0b0).unwrap();
    bits.set(a, 0b1);
    assert_eq!(bits.get(a), 0b1);
}

#[test]
fn two_bits() {
    let layout = bitstruct("Bits", &[("a", "u1"), ("b", "u1")]).unwrap();
    let a: usize = place(&layout, "a");
    let b: usize = place(&layout, "b");
    let mut bits = PackedValue::new(&layout, 0b10).unwrap();
    bits.set(a, 0b1);
    bits.set(b, 0b0);
    assert_eq!(*bits, 0b10);
}

#[test]
fn sixty_four_bits_funky_layout() {
    let layout = bitstruct(
        "Bits",
        &[
            ("a", "u1"),
            ("b", "u7"),
            ("c", "u7"),
            ("d", "u7"),
            ("e", "u7"),
            ("f", "u7"),
            ("g", "u7"),
            ("h", "u7"),
            ("i", "u7"),
            ("j", "u7"),
        ],
    )
    .unwrap();
    let a: usize = place(&layout, "a");
    let i: usize = place(&layout, "i");
    let j: usize = place(&layout, "j");
    let mut bits = PackedValue::new(&layout, 0xFF00FF00FF00FF00).unwrap();
    bits.set(j, 0b0000000).set(i, 0b1111111).set(a, 0b1);
    assert_eq!(*bits, 0xFF00FF00FF00FF80);
}

#[test]
fn sixty_four_bits_aligned() {
    let layout = bitstruct("Bits", &[("a", "u32"), ("b", "u32")]).unwrap();
    let a: usize = place(&layout, "a");
    let b: usize = place(&layout, "b");
    let mut bits = PackedValue::new(&layout, 0xFF00FF00FF00FF00).unwrap();
    bits.set(a, 0xFFFFFFFF).set(b, 0b00000000);
    assert_eq!(*bits, 0xFFFFFFFF00000000);
}

#[test]
fn hundred_and_twenty_eight_bits_funky_layout() {
    let layout = bitstruct(
        "Bits",
        &[("a", "u40"), ("b", "u25"), ("c", "u31"), ("d", "u16"), ("e", "u9"), ("f", "u7")],
    )
    .unwrap();
    let a: usize = place(&layout, "a");
    let b: usize = place(&layout, "b");
    let c: usize = place(&layout, "c");
    let d: usize = place(&layout, "d");
    let e: usize = place(&layout, "e");
    let f: usize = place(&layout, "f");

    let mut bits = PackedValue::new(&layout, 0xFF00FF00FF00FF00FF00FF00FF00FF00).unwrap();
    bits.set(a, 0xAAAAAAAAAA)
        .set(b, 0b1111111111111111111111111)
        .set(c, 0b0000000000000000000000000000000)
        .set(d, 0x6666)
        .set(e, 0b111111111)
        .set(f, 0b0000000);

    assert_eq!(*bits, 0xaaaaaaaaaaffffff800000006666ff80);
}

#[test]
fn hundred_and_twenty_eight_bits_aligned() {
    let layout =
        bitstruct("Bits", &[("a", "u32"), ("b", "u32"), ("c", "u32"), ("d", "u32")]).unwrap();
    let a: usize = place(&layout, "a");
    let b: usize = place(&layout, "b");
    let c: usize = place(&layout, "c");
    let d: usize = place(&layout, "d");
    let mut bits = PackedValue::new(&layout, 0xFF00FF00FF00FF00FF00FF00FF00FF00).unwrap();
    bits.set(a, 0xFFFFFFFF).set(b, 0x00000000).set(c, 0x42424242).set(d, 0x66666666);
    assert_eq!(*bits, 0xFFFFFFFF000000004242424266666666);
}

#[test]
fn test_both_macros_produce_same_api() {
    let old_layout = bitstruct("OldWay", &[("flag", "u1"), ("counter", "u7")]).unwrap();
    let new_layout = expand_bitmap(BitmapInput {
        name: String::from("NewWay"),
        fields: vec![
            FieldDef { name: String::from("flag"), size: 1 },
            FieldDef { name: String::from("counter"), size: 7 },
        ],
    })
    .unwrap();
    let mut old = PackedValue::new(&old_layout, 0).unwrap();
    let mut new = PackedValue::new(&new_layout, 0).unwrap();

    old.set(place(&old_layout, "flag"), 1).set(place(&old_layout, "counter"), 42);
    new.set(place(&new_layout, "flag"), 1).set(place(&new_layout, "counter"), 42);

    assert_eq!(
        old.get(place(&old_layout, "flag")),
        new.get(place(&new_layout, "flag"))
    );
    assert_eq!(
        old.get(place(&old_layout, "counter")),
        new.get(place(&new_layout, "counter"))
    );
    assert_eq!(*old, *new);

    println!("Both macros produce identical results!");
}

#[test]
fn test_attribute_macro_creates_correct_api() {
    let layout = expand_bitmap(BitmapInput {
        name: String::from("TestBits"),
        fields: vec![
            FieldDef { name: String::from("flag"), size: 1 },
            FieldDef { name: String::from("counter"), size: 7 },
        ],
    })
    .unwrap();
    let flag: usize = place(&layout, "flag");
    let counter: usize = place(&layout, "counter");
    let mut bits = PackedValue::new(&layout, 0).unwrap();

    bits.set(flag, 1);
    bits.set(counter, 42);

    assert_eq!(bits.get(flag), 1);
    assert_eq!(bits.get(counter), 42);

    assert_eq!(*bits, 0b10101010);

    println!("Attribute macro creates correct bitmap API!");
}

#[test]
fn test_attribute_macro_deref_and_into() {
    let layout = expand_bitmap(BitmapInput {
        name: String::from("TestBits"),
        fields: vec![
            FieldDef { name: String::from("flag"), size: 1 },
            FieldDef { name: String::from("counter"), size: 7 },
        ],
    })
    .unwrap();
    let bits = PackedValue::new(&layout, 0xFF).unwrap();
    let raw_value: u128 = bits.into();
    assert_eq!(raw_value, 0xFF);
    assert_eq!(*bits, 0xFF);
}

#[test]
fn set_order_does_not_matter() {
    let layout = bitstruct("Bits", &[("flag", "u1"), ("counter", "u7")]).unwrap();
    let flag: usize = place(&layout, "flag");
    let counter: usize = place(&layout, "counter");
    let mut first = PackedValue::new(&layout, 0).unwrap();
    first.set(flag, 1).set(counter, 42);
    let mut second = PackedValue::new(&layout, 0).unwrap();
    second.set(counter, 42).set(flag, 1);
    assert_eq!(first.raw(), 0xAA);
    assert_eq!(second.raw(), 0xAA);
    assert_eq!(first.raw(), 170);
}

#[test]
fn first_field_is_highest() {
    let layout = bitstruct("Bits", &[("a", "u8"), ("b", "u8")]).unwrap();
    let mut bits = PackedValue::new(&layout, 0).unwrap();
    bits.set(0, 0xaa).set(1, 0xbb);
    assert_eq!(*bits, 0xaabb);
}

#[test]
fn player_example() {
    let layout =
        bitstruct("Player", &[("imposter", "u1"), ("finished_tasks", "u3"), ("kills", "u3")])
            .unwrap();
    assert_eq!(layout.storage().bits(), 8);
    let mut player = PackedValue::new(&layout, 0).unwrap();
    player.set(0, 1);
    player.set(1, 5);
    player.set(2, 3);
    assert_eq!(player.get(0), 1);
    assert_eq!(player.get(1), 5);
    assert_eq!(player.get(2), 3);
    assert_eq!(*player, 0b01101011);
}

#[test]
fn value_too_wide_is_cut() {
    let layout = bitstruct("Bits", &[("a", "u3"), ("b", "u5")]).unwrap();
    let mut bits = PackedValue::new(&layout, 0).unwrap();
    bits.set(0, 0b1111_1101);
    assert_eq!(bits.get(0), 0b101);
    assert_eq!(bits.get(1), 0);
    assert_eq!(bits.raw(), 0b1010_0000);
    bits.set(1, 0xFFFF_FFFF);
    assert_eq!(bits.get(1), 0b11111);
    assert_eq!(bits.get(0), 0b101);
    assert_eq!(bits.raw(), 0b1011_1111);
}

#[test]
fn same_set_twice_changes_nothing() {
    let layout = bitstruct("Bits", &[("a", "u5"), ("b", "u9"), ("c", "u2")]).unwrap();
    let mut bits = PackedValue::new(&layout, 0xBEEF).unwrap();
    bits.set(1, 0x155);
    let once: u128 = bits.raw();
    bits.set(1, 0x155);
    assert_eq!(bits.raw(), once);
    assert_eq!(once, 0xBD57);
}

#[test]
fn later_set_of_same_field_wins() {
    let layout = bitstruct("Bits", &[("a", "u4"), ("b", "u4")]).unwrap();
    let mut bits = PackedValue::new(&layout, 0).unwrap();
    bits.set(0, 0x3).set(0, 0xC);
    assert_eq!(bits.raw(), 0xC0);
}

#[test]
fn copy_is_independent() {
    let layout = bitstruct("Bits", &[("a", "u4"), ("b", "u4")]).unwrap();
    let mut bits = PackedValue::new(&layout, 0x12).unwrap();
    let copy = bits;
    bits.set(0, 0xF);
    assert_eq!(bits.raw(), 0xF2);
    assert_eq!(copy.raw(), 0x12);
}

#[test]
fn unused_high_bits_are_kept() {
    let layout = bitstruct("Bits", &[("a", "u3"), ("b", "u7")]).unwrap();
    assert_eq!(layout.total_width(), 10);
    assert_eq!(layout.storage().bits(), 16);
    let mut bits = PackedValue::new(&layout, 0xFC00).unwrap();
    bits.set(0, 0b101).set(1, 0b0110011);
    assert_eq!(bits.raw(), 0xFC00 | (0b101 << 7) | 0b0110011);
    assert_eq!(bits.raw() >> 10, 0x3F);
}

#[test]
fn raw_must_fit_storage_width() {
    let layout = bitstruct("Bits", &[("a", "u3"), ("b", "u5")]).unwrap();
    assert!(PackedValue::new(&layout, 0xFF).is_some());
    assert!(PackedValue::new(&layout, 0x100).is_none());
    let wide = bitstruct("Bits", &[("a", "u128")]).unwrap();
    assert!(PackedValue::new(&wide, u128::MAX).is_some());
}

#[test]
fn full_width_field_holds_all_ones() {
    let cases: [(&str, u128); 5] = [
        ("u8", 0xFF),
        ("u16", 0xFFFF),
        ("u32", 0xFFFF_FFFF),
        ("u64", 0xFFFF_FFFF_FFFF_FFFF),
        ("u128", u128::MAX),
    ];
    for (ty, all_ones) in cases {
        let layout = bitstruct("Bits", &[("field", ty)]).unwrap();
        let field = layout.field(0).unwrap();
        assert_eq!(field.mask(), all_ones);
        assert_eq!(field.offset(), 0);
        assert_eq!(field.width(), layout.storage().bits());
        let mut bits = PackedValue::new(&layout, 0).unwrap();
        bits.set(0, all_ones);
        assert_eq!(bits.get(0), all_ones);
        assert_eq!(bits.raw(), all_ones);
    }
}

#[test]
fn every_width_holds_its_largest_value() {
    for n in 1u32..=128 {
        let max_val: u128 = if n != 128 {
            (1u128 << n) - 1
        } else {
            340282366920938463463374607431768211455
        };
        let ty: String = format!("u{n}");
        let layout = bitstruct("Bits", &[("field", ty.as_str())]).unwrap();
        let mut bits = PackedValue::new(&layout, 0).unwrap();
        bits.set(0, max_val);
        assert_eq!(bits.get(0), max_val);
        assert_eq!(layout.field(0).unwrap().mask(), max_val);
    }
}

#[test]
fn field_functions_on_plain_integers() {
    let layout = bitstruct("Bits", &[("a", "u4"), ("b", "u8"), ("c", "u4")]).unwrap();
    let b = layout.field(1).unwrap();
    assert_eq!(b.name(), "b");
    assert_eq!(b.offset(), 4);
    assert_eq!(b.width(), 8);
    assert_eq!(b.mask(), 0xFF);
    assert_eq!(b.get(0xABCD), 0xBC);
    assert_eq!(b.set(0xABCD, 0x12), 0xA12D);
    assert_eq!(b.set(0xABCD, 0xF12), 0xA12D);
    assert_ne!(b.set(0xABCD, 0x12), 0xABCD);
}
