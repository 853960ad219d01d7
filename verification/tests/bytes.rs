//! Byte order and the layout of integers.

use script_ffi::{load, store, BigInt, ByteOrder};

#[test]
fn store_lays_out_in_both_orders() {
    assert_eq!(store(0x0102_0304, 4, ByteOrder::LittleEndian), vec![4, 3, 2, 1]);
    assert_eq!(store(0x0102_0304, 4, ByteOrder::BigEndian), vec![1, 2, 3, 4]);
    assert_eq!(store(0x0102_0304, 2, ByteOrder::LittleEndian), vec![4, 3]);
    assert_eq!(store(0x0102_0304, 2, ByteOrder::BigEndian), vec![3, 4]);
    assert_eq!(store(0xff, 1, ByteOrder::BigEndian), vec![0xff]);
    assert_eq!(store(0x1234, 0, ByteOrder::LittleEndian), Vec::<u8>::new());
    assert_eq!(
        store(0x0102_0304_0506_0708, 8, ByteOrder::LittleEndian),
        vec![8, 7, 6, 5, 4, 3, 2, 1]
    );
    assert_eq!(
        store(0x0102_0304_0506_0708, 8, ByteOrder::BigEndian),
        vec![1, 2, 3, 4, 5, 6, 7, 8]
    );
    // Digits beyond the value are zero.
    assert_eq!(store(0x0102, 10, ByteOrder::LittleEndian), vec![2, 1, 0, 0, 0, 0, 0, 0, 0, 0]);
    assert_eq!(store(0x0102, 10, ByteOrder::BigEndian), vec![0, 0, 0, 0, 0, 0, 0, 0, 1, 2]);
}

#[test]
fn store_agrees_with_the_machine() {
    let value: u64 = 0x1122_3344_5566_7788;
    assert_eq!(store(value, 8, ByteOrder::LittleEndian), value.to_le_bytes().to_vec());
    assert_eq!(store(value, 8, ByteOrder::BigEndian), value.to_be_bytes().to_vec());
    assert_eq!(store(value, 8, ByteOrder::native()), value.to_ne_bytes().to_vec());
    assert_eq!(store(value, 4, ByteOrder::native()), (value as u32).to_ne_bytes().to_vec());
    assert_eq!(store(value, 2, ByteOrder::native()), (value as u16).to_ne_bytes().to_vec());
}

#[test]
fn byte_order_is_told_from_the_layout_of_one() {
    assert_eq!(ByteOrder::of_probe(&[1, 0]), ByteOrder::LittleEndian);
    assert_eq!(ByteOrder::of_probe(&[0, 1]), ByteOrder::BigEndian);
    assert_eq!(ByteOrder::of_probe(&1u16.to_le_bytes()), ByteOrder::LittleEndian);
    assert_eq!(ByteOrder::of_probe(&1u16.to_be_bytes()), ByteOrder::BigEndian);
}

#[test]
fn native_order_is_the_order_of_the_machine() {
    let little: bool = u16::from_ne_bytes([1, 0]) == 1;
    let expected: ByteOrder = if little { ByteOrder::LittleEndian } else { ByteOrder::BigEndian };
    assert_eq!(ByteOrder::native(), expected);
}

#[test]
fn load_reads_the_leading_bytes() {
    let bytes: Vec<u8> = vec![1, 2, 3, 4, 5, 6, 7, 8, 9];
    assert_eq!(load(&bytes, 0, ByteOrder::LittleEndian), Some(0));
    assert_eq!(load(&bytes, 1, ByteOrder::LittleEndian), Some(1));
    assert_eq!(load(&bytes, 2, ByteOrder::LittleEndian), Some(0x0201));
    assert_eq!(load(&bytes, 2, ByteOrder::BigEndian), Some(0x0102));
    assert_eq!(load(&bytes, 4, ByteOrder::LittleEndian), Some(0x0403_0201));
    assert_eq!(load(&bytes, 4, ByteOrder::BigEndian), Some(0x0102_0304));
    assert_eq!(load(&bytes, 8, ByteOrder::LittleEndian), Some(0x0807_0605_0403_0201));
    assert_eq!(load(&bytes, 8, ByteOrder::BigEndian), Some(0x0102_0304_0506_0708));
    let full: Vec<u8> = vec![0xff; 8];
    assert_eq!(load(&full, 8, ByteOrder::BigEndian), Some(u64::MAX));
}

#[test]
fn load_refuses_what_it_cannot_read() {
    let bytes: Vec<u8> = vec![1, 2, 3, 4, 5, 6, 7, 8, 9];
    assert_eq!(load(&bytes, 9, ByteOrder::LittleEndian), None);
    assert_eq!(load(&bytes, 10, ByteOrder::BigEndian), None);
    let short: Vec<u8> = vec![1, 2, 3];
    assert_eq!(load(&short, 4, ByteOrder::LittleEndian), None);
    assert_eq!(load(&short, 3, ByteOrder::LittleEndian), Some(0x03_0201));
    assert_eq!(load(&Vec::new(), 0, ByteOrder::BigEndian), Some(0));
    assert_eq!(load(&Vec::new(), 1, ByteOrder::BigEndian), None);
}

#[test]
fn load_undoes_store() {
    for order in [ByteOrder::LittleEndian, ByteOrder::BigEndian] {
        for width in [1usize, 2, 4, 8] {
            for value in [0u64, 1, 0x7f, 0x80, 0xff, 0x1234, 0xffff_ffff, 0x8000_0000_0000_0001, u64::MAX] {
                let bytes: Vec<u8> = store(value, width, order);
                assert_eq!(bytes.len(), width);
                let kept: u64 = if width == 8 { value } else { value % (1u64 << (8 * width)) };
                assert_eq!(load(&bytes, width, order), Some(kept));
            }
        }
    }
}

#[test]
fn big_integers_from_machine_integers() {
    assert_eq!(BigInt::from_u64(0), BigInt { negative: false, words: vec![] });
    assert_eq!(BigInt::from_u64(5), BigInt { negative: false, words: vec![5] });
    assert_eq!(BigInt::from_u64(u64::MAX), BigInt { negative: false, words: vec![u64::MAX] });
    assert_eq!(BigInt::from_i64(0), BigInt { negative: false, words: vec![] });
    assert_eq!(BigInt::from_i64(7), BigInt { negative: false, words: vec![7] });
    assert_eq!(BigInt::from_i64(-7), BigInt { negative: true, words: vec![7] });
    assert_eq!(BigInt::from_i64(i64::MIN), BigInt { negative: true, words: vec![1u64 << 63] });
    assert_eq!(BigInt::from_i64(i64::MAX), BigInt { negative: false, words: vec![i64::MAX as u64] });
}

#[test]
fn big_integers_wrap_to_64_bits() {
    assert_eq!(BigInt { negative: false, words: vec![] }.low_u64(), 0);
    assert_eq!(BigInt { negative: true, words: vec![] }.low_u64(), 0);
    assert_eq!(BigInt { negative: true, words: vec![0] }.low_u64(), 0);
    assert_eq!(BigInt { negative: false, words: vec![9] }.low_u64(), 9);
    assert_eq!(BigInt { negative: true, words: vec![1] }.low_u64(), u64::MAX);
    assert_eq!(BigInt { negative: true, words: vec![1] }.low_i64(), -1);
    // 2^64 + 3 wraps to 3; its negation wraps to 2^64 - 3.
    assert_eq!(BigInt { negative: false, words: vec![3, 1] }.low_u64(), 3);
    assert_eq!(BigInt { negative: true, words: vec![3, 1] }.low_u64(), u64::MAX - 2);
    assert_eq!(BigInt { negative: true, words: vec![3, 1] }.low_i64(), -3);
    // 2^64 exactly wraps to 0, whatever its sign.
    assert_eq!(BigInt { negative: false, words: vec![0, 1] }.low_u64(), 0);
    assert_eq!(BigInt { negative: true, words: vec![0, 1] }.low_u64(), 0);
    assert_eq!(BigInt { negative: false, words: vec![1u64 << 63] }.low_i64(), i64::MIN);
    assert_eq!(BigInt { negative: false, words: vec![u64::MAX] }.low_i64(), -1);
    for n in [0i64, 1, -1, 42, -42, i64::MIN, i64::MAX] {
        assert_eq!(BigInt::from_i64(n).low_i64(), n);
        assert_eq!(BigInt::from_i64(n).low_u64(), n as u64);
    }
}
