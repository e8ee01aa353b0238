//! The contract registry, addresses and argument lists.

use hmemu::types::{bytes_equal, decode_address, default_address};
use hmemu::{Address, ArgsBuilder, Registry, ADDRESS_LEN};

const A: Address = *b"00000000000000000010";
const B: Address = *b"00000000000000000011";

#[test]
fn lookup_finds_what_was_registered() {
    let mut registry: Registry<u32> = Registry::new();
    registry.register(A, "f".to_string(), 1);
    registry.register(B, "f".to_string(), 2);
    registry.register(A, "g".to_string(), 3);
    assert_eq!(registry.lookup(&A, "f"), Some(&1));
    assert_eq!(registry.lookup(&B, "f"), Some(&2));
    assert_eq!(registry.lookup(&A, "g"), Some(&3));
}

#[test]
fn lookup_misses_what_was_not_registered() {
    let mut registry: Registry<u32> = Registry::new();
    assert_eq!(registry.lookup(&A, "f"), None);
    registry.register(A, "f".to_string(), 1);
    assert_eq!(registry.lookup(&B, "f"), None);
    assert_eq!(registry.lookup(&A, "g"), None);
    assert_eq!(registry.lookup(&A, ""), None);
    assert_eq!(registry.lookup(&A, "ff"), None);
}

#[test]
fn last_registration_wins() {
    let mut registry: Registry<u32> = Registry::new();
    registry.register(A, "f".to_string(), 1);
    registry.register(B, "f".to_string(), 2);
    registry.register(A, "f".to_string(), 9);
    assert_eq!(registry.lookup(&A, "f"), Some(&9));
    assert_eq!(registry.lookup(&B, "f"), Some(&2));
}

#[test]
fn resolve_takes_raw_bytes() {
    let mut registry: Registry<u32> = Registry::new();
    registry.register(A, "func_b".to_string(), 5);
    assert_eq!(registry.resolve(&A, b"func_b"), Some(&5));
    assert_eq!(registry.resolve(&A, b"func_c"), None);
    assert_eq!(registry.resolve(&B, b"func_b"), None);
    // bytes that are no UTF-8 name no entry
    assert_eq!(registry.resolve(&A, &[0xff, 0xfe]), None);
}

#[test]
fn resolve_pads_and_cuts_the_address() {
    let mut registry: Registry<u32> = Registry::new();
    let mut short: Address = [0u8; 20];
    short[0] = 7;
    short[1] = 8;
    registry.register(short, "f".to_string(), 1);
    assert_eq!(registry.resolve(&[7, 8], b"f"), Some(&1));
    assert_eq!(registry.resolve(&[7], b"f"), None);

    registry.register(A, "f".to_string(), 2);
    let mut long = A.to_vec();
    long.extend_from_slice(b"tail");
    assert_eq!(registry.resolve(&long, b"f"), Some(&2));
}

#[test]
fn names_are_compared_by_their_utf8_bytes() {
    let mut registry: Registry<u32> = Registry::new();
    registry.register(A, "h\u{e9}llo".to_string(), 4);
    assert_eq!(registry.lookup(&A, "h\u{e9}llo"), Some(&4));
    assert_eq!(registry.resolve(&A, "h\u{e9}llo".as_bytes()), Some(&4));
    assert_eq!(registry.lookup(&A, "hello"), None);
}

#[test]
fn decode_address_examples() {
    assert_eq!(decode_address(&[]), [0u8; 20]);
    assert_eq!(decode_address(&A), A);
    let mut expected = [0u8; 20];
    expected[0] = 1;
    expected[1] = 2;
    expected[2] = 3;
    assert_eq!(decode_address(&[1, 2, 3]), expected);
    let long: Vec<u8> = (0..25u8).collect();
    let cut: Vec<u8> = (0..20u8).collect();
    assert_eq!(decode_address(&long).to_vec(), cut);
}

#[test]
fn default_address_is_all_zero() {
    assert_eq!(ADDRESS_LEN, 20);
    assert_eq!(default_address(), [0u8; 20]);
    let by_default: Address = Default::default();
    assert_eq!(default_address(), by_default);
}

#[test]
fn bytes_equal_examples() {
    assert!(bytes_equal(&[], &[]));
    assert!(bytes_equal(&[1, 2, 3], &[1, 2, 3]));
    assert!(!bytes_equal(&[1, 2, 3], &[1, 2, 4]));
    assert!(!bytes_equal(&[1, 2, 3], &[1, 2]));
    assert!(!bytes_equal(&[], &[0]));
}

#[test]
fn args_builder_keeps_order() {
    let mut builder = ArgsBuilder::new();
    builder.push(vec![1, 2]);
    builder.push_bytes(b"key");
    builder.push(Vec::new());
    assert_eq!(builder.convert_to_vec(), vec![vec![1, 2], b"key".to_vec(), Vec::new()]);
}

#[test]
fn args_builder_starts_empty() {
    assert_eq!(ArgsBuilder::new().convert_to_vec(), Vec::<Vec<u8>>::new());
    assert_eq!(ArgsBuilder::default().convert_to_vec(), Vec::<Vec<u8>>::new());
}
