use numkernel::errors::Error;
use numkernel::text::decimal;
use numkernel::unit::BinaryUnit;
use numkernel::utility::take_from_vec;

#[test]
fn test_into_binary_unit() {
    let x = 43;
    let x_binary = BinaryUnit::from(x);
    let dx: Result<i32, _> = x_binary.try_into();
    assert_eq!(dx.unwrap(), x);
}

#[test]
fn test_take_from_vec() {
    let vec: Vec<u32> = vec![1, 2, 3, 4];
    assert_eq!(take_from_vec(3, &vec), [1, 2, 3])
}

#[test]
fn take_nothing_from_vec() {
    let vec: Vec<u32> = vec![1, 2];
    assert!(take_from_vec(0, &vec).is_empty());
}

#[test]
fn three_bytes_are_not_a_64_bit_value() {
    let unit = BinaryUnit::from_bytes(vec![1, 2, 3]);
    match unit.to_u64() {
        Err(Error::ConversionError(reason)) => assert_eq!(reason, "expected 8 bytes, got 3"),
        other => panic!("unexpected {:?}", other),
    }
    assert!(matches!(unit.to_i64(), Err(Error::ConversionError(_))));
    assert!(matches!(unit.to_usize(), Err(Error::ConversionError(_))));
}

#[test]
fn one_byte_width_is_named_in_the_singular() {
    let unit = BinaryUnit::from_bytes(vec![1, 2]);
    match unit.to_u8() {
        Err(Error::ConversionError(reason)) => assert_eq!(reason, "expected 1 byte, got 2"),
        other => panic!("unexpected {:?}", other),
    }
    assert!(unit.to_bool().is_err());
}

#[test]
fn bytes_are_written_least_significant_first() {
    assert_eq!(BinaryUnit::from_u32(0x0102_0304).expose(), &[4, 3, 2, 1]);
    assert_eq!(BinaryUnit::from_i16(-2).expose(), &[0xfe, 0xff]);
    assert_eq!(BinaryUnit::from_u64(1).len(), 8);
    assert_eq!(BinaryUnit::from_u8(7).expose(), &[7]);
}

#[test]
fn unsigned_values_round_trip() {
    assert_eq!(BinaryUnit::from_u8(255).to_u8().unwrap(), 255);
    assert_eq!(BinaryUnit::from_u16(0xbeef).to_u16().unwrap(), 0xbeef);
    assert_eq!(BinaryUnit::from_u32(u32::MAX).to_u32().unwrap(), u32::MAX);
    assert_eq!(BinaryUnit::from_u64(0x1234_5678_9abc_def0).to_u64().unwrap(), 0x1234_5678_9abc_def0);
    assert_eq!(BinaryUnit::from_u128(u128::MAX).to_u128().unwrap(), u128::MAX);
    assert_eq!(BinaryUnit::from_usize(12345).to_usize().unwrap(), 12345);
}

#[test]
fn signed_values_round_trip() {
    assert_eq!(BinaryUnit::from_i8(-128).to_i8().unwrap(), -128);
    assert_eq!(BinaryUnit::from_i8(127).to_i8().unwrap(), 127);
    assert_eq!(BinaryUnit::from_i16(-2).to_i16().unwrap(), -2);
    assert_eq!(BinaryUnit::from_i32(i32::MIN).to_i32().unwrap(), i32::MIN);
    assert_eq!(BinaryUnit::from_i64(-1).to_i64().unwrap(), -1);
    assert_eq!(BinaryUnit::from_i128(i128::MIN).to_i128().unwrap(), i128::MIN);
    assert_eq!(BinaryUnit::from_i128(i128::MAX).to_i128().unwrap(), i128::MAX);
    assert_eq!(BinaryUnit::from_isize(-77).to_isize().unwrap(), -77);
}

#[test]
fn booleans_round_trip() {
    assert!(BinaryUnit::from_bool(true).to_bool().unwrap());
    assert!(!BinaryUnit::from_bool(false).to_bool().unwrap());
    assert!(BinaryUnit::from_bytes(vec![9]).to_bool().unwrap());
}

#[test]
fn empty_unit() {
    let unit = BinaryUnit::from_bytes(vec![]);
    assert!(unit.is_empty());
    assert_eq!(unit.len(), 0);
    assert!(unit.to_u8().is_err());
}

#[test]
fn decimal_text() {
    assert_eq!(decimal(0), "0");
    assert_eq!(decimal(7), "7");
    assert_eq!(decimal(1005), "1005");
    assert_eq!(decimal(u64::MAX), "18446744073709551615");
}

#[test]
fn std_conversions_match_the_named_ones() {
    let unit = BinaryUnit::from(vec![1u8, 0, 0, 0]);
    assert_eq!(u32::try_from(unit.clone()).unwrap(), 1);
    assert_eq!(i32::try_from(unit.clone()).unwrap(), 1);
    assert!(u64::try_from(unit).is_err());
    assert_eq!(BinaryUnit::from(-5i64), BinaryUnit::from_i64(-5));
    assert_eq!(bool::try_from(BinaryUnit::from(true)).unwrap(), true);
    assert_eq!(usize::try_from(BinaryUnit::from(9usize)).unwrap(), 9);
}
