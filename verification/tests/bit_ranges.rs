use bitmap::{check_index, check_range, BitMap, CheckedBitMap, RangeError, StorageWidth};

#[test]
fn test_u8_single_bit() {
    let mut x: u8 = 0;
    let bit_width: usize = ::core::mem::size_of::<u8>() * 8;

    for bit in 0..bit_width {
        x.set_bit(bit as u8, 1);
        assert_eq!(x.get_bit(bit as u8), 1);
        assert_eq!(x, 1 << bit);

        x.set_bit(bit as u8, 0);
        assert_eq!(x.get_bit(bit as u8), 0);
        assert_eq!(x, 0);
    }
}

#[test]
fn test_u8_bit_range() {
    let mut x: u8 = 0;
    let bit_width: usize = ::core::mem::size_of::<u8>() * 8;

    for start in (0..bit_width).step_by(8) {
        for width in 1..=8.min(bit_width - start) {
            let end: usize = start + width;
            if end > bit_width {
                break;
            }
            let max_val: u8 = if width >= bit_width { u8::MAX } else { (1 << width) - 1 };

            x.set_bits(start as u8..end as u8, max_val);
            assert_eq!(
                x.get_bits(start as u8..end as u8),
                max_val,
                "Failed range test: {start}..{end} with value {max_val}"
            );

            x = 0;
        }
    }
}

#[test]
fn test_u16_single_bit() {
    let mut x: u16 = 0;
    let bit_width: usize = ::core::mem::size_of::<u16>() * 8;

    for bit in 0..bit_width {
        x.set_bit(bit as u8, 1);
        assert_eq!(x.get_bit(bit as u8), 1);
        assert_eq!(x, 1 << bit);

        x.set_bit(bit as u8, 0);
        assert_eq!(x.get_bit(bit as u8), 0);
        assert_eq!(x, 0);
    }
}

#[test]
fn test_u16_bit_range() {
    let mut x: u16 = 0;
    let bit_width: usize = ::core::mem::size_of::<u16>() * 8;

    for start in (0..bit_width).step_by(8) {
        for width in 1..=8.min(bit_width - start) {
            let end: usize = start + width;
            if end > bit_width {
                break;
            }
            let max_val: u16 = if width >= bit_width { u16::MAX } else { (1 << width) - 1 };

            x.set_bits(start as u8..end as u8, max_val);
            assert_eq!(
                x.get_bits(start as u8..end as u8),
                max_val,
                "Failed range test: {start}..{end} with value {max_val}"
            );

            x = 0;
        }
    }
}

#[test]
fn test_u32_single_bit() {
    let mut x: u32 = 0;
    let bit_width: usize = ::core::mem::size_of::<u32>() * 8;

    for bit in 0..bit_width {
        x.set_bit(bit as u8, 1);
        assert_eq!(x.get_bit(bit as u8), 1);
        assert_eq!(x, 1 << bit);

        x.set_bit(bit as u8, 0);
        assert_eq!(x.get_bit(bit as u8), 0);
        assert_eq!(x, 0);
    }
}

#[test]
fn test_u32_bit_range() {
    let mut x: u32 = 0;
    let bit_width: usize = ::core::mem::size_of::<u32>() * 8;

    for start in (0..bit_width).step_by(8) {
        for width in 1..=8.min(bit_width - start) {
            let end: usize = start + width;
            if end > bit_width {
                break;
            }
            let max_val: u32 = if width >= bit_width { u32::MAX } else { (1 << width) - 1 };

            x.set_bits(start as u8..end as u8, max_val);
            assert_eq!(
                x.get_bits(start as u8..end as u8),
                max_val,
                "Failed range test: {start}..{end} with value {max_val}"
            );

            x = 0;
        }
    }
}

#[test]
fn test_u64_single_bit() {
    let mut x: u64 = 0;
    let bit_width: usize = ::core::mem::size_of::<u64>() * 8;

    for bit in 0..bit_width {
        x.set_bit(bit as u8, 1);
        assert_eq!(x.get_bit(bit as u8), 1);
        assert_eq!(x, 1 << bit);

        x.set_bit(bit as u8, 0);
        assert_eq!(x.get_bit(bit as u8), 0);
        assert_eq!(x, 0);
    }
}

#[test]
fn test_u64_bit_range() {
    let mut x: u64 = 0;
    let bit_width: usize = ::core::mem::size_of::<u64>() * 8;

    for start in (0..bit_width).step_by(8) {
        for width in 1..=8.min(bit_width - start) {
            let end: usize = start + width;
            if end > bit_width {
                break;
            }
            let max_val: u64 = if width >= bit_width { u64::MAX } else { (1 << width) - 1 };

            x.set_bits(start as u8..end as u8, max_val);
            assert_eq!(
                x.get_bits(start as u8..end as u8),
                max_val,
                "Failed range test: {start}..{end} with value {max_val}"
            );

            x = 0;
        }
    }
}

#[test]
fn test_u128_single_bit() {
    let mut x: u128 = 0;
    let bit_width: usize = ::core::mem::size_of::<u128>() * 8;

    for bit in 0..bit_width {
        x.set_bit(bit as u8, 1);
        assert_eq!(x.get_bit(bit as u8), 1);
        assert_eq!(x, 1 << bit);

        x.set_bit(bit as u8, 0);
        assert_eq!(x.get_bit(bit as u8), 0);
        assert_eq!(x, 0);
    }
}

#[test]
fn test_u128_bit_range() {
    let mut x: u128 = 0;
    let bit_width: usize = ::core::mem::size_of::<u128>() * 8;

    for start in (0..bit_width).step_by(8) {
        for width in 1..=8.min(bit_width - start) {
            let end: usize = start + width;
            if end > bit_width {
                break;
            }
            let max_val: u128 = if width >= bit_width { u128::MAX } else { (1 << width) - 1 };

            x.set_bits(start as u8..end as u8, max_val);
            assert_eq!(
                x.get_bits(start as u8..end as u8),
                max_val,
                "Failed range test: {start}..{end} with value {max_val}"
            );

            x = 0;
        }
    }
}

#[test]
fn whole_integer_as_one_range() {
    let mut a: u8 = 0x5A;
    a.set_bits(0..8, 0xC3);
    assert_eq!(a, 0xC3);
    assert_eq!(a.get_bits(0..8), 0xC3);
    let mut b: u16 = 0;
    b.set_bits(0..16, u16::MAX);
    assert_eq!(b, u16::MAX);
    let mut c: u32 = 0;
    c.set_bits(0..32, u32::MAX);
    assert_eq!(c.get_bits(0..32), u32::MAX);
    let mut d: u64 = 0;
    d.set_bits(0..64, u64::MAX);
    assert_eq!(d.get_bits(0..64), u64::MAX);
    let mut e: u128 = 0;
    e.set_bits(0..128, u128::MAX);
    assert_eq!(e, u128::MAX);
    assert_eq!(e.get_bits(0..128), u128::MAX);
}

#[test]
fn range_read_back_is_value_cut_to_range() {
    let mut x: u32 = 0xDEAD_BEEF;
    x.set_bits(4..12, 0xFFFF_F5A7);
    assert_eq!(x, 0xDEAD_BA7F);
    assert_eq!(x.get_bits(4..12), 0xA7);
    assert_eq!(x.get_bits(4..12), 0xFFFF_F5A7 & 0xFF);
    assert_eq!(x.get_bits(12..32), 0xDEADB);
    assert_eq!(x.get_bits(0..4), 0xF);
}

#[test]
fn bits_outside_a_range_are_kept() {
    let mut x: u64 = u64::MAX;
    x.set_bits(20..44, 0);
    assert_eq!(x, 0xFFFF_F000_000F_FFFF);
    let mut y: u16 = 0;
    y.set_bits(5..9, 0xFFFF);
    assert_eq!(y, 0b0000_0001_1110_0000);
}

#[test]
fn set_bit_takes_lowest_bit_of_value() {
    let mut x: u8 = 0;
    x.set_bit(3, 0xFF);
    assert_eq!(x, 0b0000_1000);
    x.set_bit(3, 0xFE);
    assert_eq!(x, 0);
    let mut y: u128 = 0;
    y.set_bit(127, 3);
    assert_eq!(y, 1u128 << 127);
    assert_eq!(y.get_bit(127), 1);
    assert_eq!(y.get_bit(126), 0);
}

#[test]
fn get_bit_reads_each_bit() {
    let x: u16 = 0b1010_0000_0000_0101;
    let expected: [u16; 16] = [1, 0, 1, 0, 0, 0, 0, 0, 0, 0, 0, 0, 0, 1, 0, 1];
    for (index, bit) in expected.into_iter().enumerate() {
        assert_eq!(x.get_bit(index as u8), bit);
    }
}

#[test]
fn checked_operations_agree_with_unchecked() {
    let mut x: u16 = 0b1010_0000_0000_0101;
    assert_eq!(x.try_get_bit(0), Ok(1));
    assert_eq!(x.try_get_bit(15), Ok(1));
    assert_eq!(x.try_get_bits(13..16), Ok(0b101));
    assert_eq!(x.try_set_bit(1, 1), Ok(()));
    assert_eq!(x, 0b1010_0000_0000_0111);
    assert_eq!(x.try_set_bits(4..8, 0xAB), Ok(()));
    assert_eq!(x, 0b1010_0000_1011_0111);
    assert_eq!(x.try_get_bits(0..16), Ok(0b1010_0000_1011_0111));
}

#[test]
fn index_beyond_width_is_an_error() {
    let mut x: u8 = 0x5A;
    assert_eq!(x.try_get_bit(8), Err(RangeError::IndexOutOfBounds { index: 8, bits: 8 }));
    assert_eq!(x.try_set_bit(255, 1), Err(RangeError::IndexOutOfBounds { index: 255, bits: 8 }));
    assert_eq!(x, 0x5A);
    let y: u128 = 0;
    assert_eq!(y.try_get_bit(127), Ok(0));
    assert_eq!(y.try_get_bit(128), Err(RangeError::IndexOutOfBounds { index: 128, bits: 128 }));
    assert_eq!(check_index(31, StorageWidth::U32), Ok(()));
    assert_eq!(
        check_index(32, StorageWidth::U32),
        Err(RangeError::IndexOutOfBounds { index: 32, bits: 32 })
    );
}

#[test]
fn bad_range_is_an_error() {
    let mut x: u32 = 0xDEAD_BEEF;
    assert_eq!(x.try_get_bits(4..4), Err(RangeError::Empty { start: 4, end: 4 }));
    assert_eq!(x.try_get_bits(9..3), Err(RangeError::Empty { start: 9, end: 3 }));
    assert_eq!(x.try_get_bits(40..33), Err(RangeError::Empty { start: 40, end: 33 }));
    assert_eq!(x.try_get_bits(0..33), Err(RangeError::OutOfBounds { end: 33, bits: 32 }));
    assert_eq!(x.try_set_bits(30..34, 0), Err(RangeError::OutOfBounds { end: 34, bits: 32 }));
    assert_eq!(x.try_set_bits(7..7, 0), Err(RangeError::Empty { start: 7, end: 7 }));
    assert_eq!(x, 0xDEAD_BEEF);
    assert_eq!(check_range(&(0..64), StorageWidth::U64), Ok(()));
    assert_eq!(
        check_range(&(0..65), StorageWidth::U64),
        Err(RangeError::OutOfBounds { end: 65, bits: 64 })
    );
    let mut z: u64 = 0;
    assert_eq!(z.try_set_bits(60..64, 0xF), Ok(()));
    assert_eq!(z, 0xF000_0000_0000_0000);
}
