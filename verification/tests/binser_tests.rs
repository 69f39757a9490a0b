//! Integer encoding tests: little-endian byte order, round trips,
//! value-level conversions.
use tansiv_client::binser::{
    u32_from_le, u32_to_le, u64_from_le, u64_to_le, Endianness, Error, FromBytes, FromLe, IntoLe,
    SizedAsBytes, ToBytes, Validate,
};

#[test]
fn u32_le_bytes_exact() {
    let mut out: Vec<u8> = Vec::new();
    u32_to_le(0x01020304, &mut out);
    assert_eq!(out, vec![0x04, 0x03, 0x02, 0x01]);
}

#[test]
fn u64_le_bytes_exact() {
    let mut out: Vec<u8> = Vec::new();
    u64_to_le(0x0102030405060708, &mut out);
    assert_eq!(out, vec![0x08, 0x07, 0x06, 0x05, 0x04, 0x03, 0x02, 0x01]);
}

#[test]
fn u32_roundtrip() {
    let values: [u32; 5] = [0, 1, 0xFF, 0xDEADBEEF, u32::MAX];
    for v in values {
        let mut out: Vec<u8> = Vec::new();
        u32_to_le(v, &mut out);
        assert_eq!(u32_from_le(&out, 0), v);
    }
}

#[test]
fn u64_roundtrip() {
    let values: [u64; 5] = [0, 1, 0xFF, 0xDEADBEEFCAFEF00D, u64::MAX];
    for v in values {
        let mut out: Vec<u8> = Vec::new();
        u64_to_le(v, &mut out);
        assert_eq!(u64_from_le(&out, 0), v);
    }
}

#[test]
fn trait_roundtrip_u32() {
    let mut out: Vec<u8> = Vec::new();
    0xCAFEBABEu32.to_bytes(&mut out, Endianness::Little);
    assert_eq!(<u32 as SizedAsBytes>::num_bytes(), 4);
    let (v, next) = u32::from_bytes(&out, 0, Endianness::Little).expect("four bytes present");
    assert_eq!(v, 0xCAFEBABE);
    assert_eq!(next, 4);
    assert!(u32::validate(&v, Endianness::Little));
}

#[test]
fn trait_roundtrip_u64() {
    let mut out: Vec<u8> = Vec::new();
    0x1122334455667788u64.to_bytes(&mut out, Endianness::Native);
    assert_eq!(<u64 as SizedAsBytes>::num_bytes(), 8);
    let (v, next) = u64::from_bytes(&out, 0, Endianness::Native).expect("eight bytes present");
    assert_eq!(v, 0x1122334455667788);
    assert_eq!(next, 8);
}

#[test]
fn from_bytes_missing_data() {
    let out: Vec<u8> = vec![1, 2, 3];
    assert!(matches!(
        u32::from_bytes(&out, 0, Endianness::Little),
        Err(Error::MissingData)
    ));
    assert!(matches!(
        u64::from_bytes(&out, 0, Endianness::Little),
        Err(Error::MissingData)
    ));
    assert!(matches!(
        u32::from_bytes(&out, 1, Endianness::Little),
        Err(Error::MissingData)
    ));
}

#[test]
fn value_level_conversions_are_identity() {
    assert_eq!(u8::from_le(0xAB), 0xAB);
    assert_eq!(u16::from_le(0xABCD), 0xABCD);
    assert_eq!(u32::from_le(0xDEADBEEF), 0xDEADBEEF);
    assert_eq!(u64::from_le(0x0102030405060708), 0x0102030405060708);
    assert_eq!(0xABu8.into_le(), 0xAB);
    assert_eq!(0xABCDu16.into_le(), 0xABCD);
    assert_eq!(0xDEADBEEFu32.into_le(), 0xDEADBEEF);
    assert_eq!(0x0102030405060708u64.into_le(), 0x0102030405060708);
}
