//! The byte images this codec produces agree with an independent CBOR
//! implementation on the shapes the protocol uses.

use std::collections::BTreeMap;

fn enc_u64(value: &u64) -> Vec<u8> {
    let mut out = Vec::new();
    ciborium::ser::into_writer(value, &mut out).expect("serialization cannot fail");
    out
}

fn enc_i32(value: &i32) -> Vec<u8> {
    let mut out = Vec::new();
    ciborium::ser::into_writer(value, &mut out).expect("serialization cannot fail");
    out
}

fn enc_bool(value: &bool) -> Vec<u8> {
    let mut out = Vec::new();
    ciborium::ser::into_writer(value, &mut out).expect("serialization cannot fail");
    out
}

fn enc_str(value: &&str) -> Vec<u8> {
    let mut out = Vec::new();
    ciborium::ser::into_writer(value, &mut out).expect("serialization cannot fail");
    out
}

fn enc_bytes(value: &Vec<u8>) -> Vec<u8> {
    let mut out = Vec::new();
    ciborium::ser::into_writer(value, &mut out).expect("serialization cannot fail");
    out
}

fn enc_map(value: &BTreeMap<&str, u64>) -> Vec<u8> {
    let mut out = Vec::new();
    ciborium::ser::into_writer(value, &mut out).expect("serialization cannot fail");
    out
}

fn enc_strs(value: &Vec<&str>) -> Vec<u8> {
    let mut out = Vec::new();
    ciborium::ser::into_writer(value, &mut out).expect("serialization cannot fail");
    out
}

#[test]
fn unsigned_integers_agree() {
    for v in [
        0u64,
        1,
        23,
        24,
        255,
        256,
        65535,
        65536,
        0xffff_ffff,
        0x1_0000_0000,
        u64::MAX,
    ] {
        let mut ours = Vec::new();
        udi::cbor::push_uint(&mut ours, v);
        assert_eq!(ours, enc_u64(&v), "value {}", v);
    }
}

#[test]
fn signed_integers_agree() {
    for v in [0i32, 1, -1, 23, -24, -25, 255, -256, i32::MAX, i32::MIN] {
        let mut ours = Vec::new();
        udi::cbor::push_i32(&mut ours, v);
        assert_eq!(ours, enc_i32(&v), "value {}", v);
    }
}

#[test]
fn booleans_agree() {
    for v in [false, true] {
        let mut ours = Vec::new();
        udi::cbor::push_bool(&mut ours, v);
        assert_eq!(ours, enc_bool(&v));
    }
}

#[test]
fn text_strings_agree() {
    for v in ["", "a", "sig", "a somewhat longer text string payload"] {
        let mut ours = Vec::new();
        udi::cbor::push_tstr(&mut ours, v.as_bytes());
        assert_eq!(ours, enc_str(&v));
    }
}

#[test]
fn byte_buffers_agree() {
    // Byte buffers cross the wire as arrays of small integers.
    let data: Vec<u8> = (0u8..=255).collect();
    let mut ours = Vec::new();
    udi::cbor::push_bytes_arr(&mut ours, &data);
    assert_eq!(ours, enc_bytes(&data));
}

#[test]
fn single_entry_maps_agree() {
    let mut reference = BTreeMap::new();
    reference.insert("sig", 0u64);
    let mut ours = Vec::new();
    udi::cbor::push_map1_u64(&mut ours, b"sig", 0);
    assert_eq!(ours, enc_map(&reference));
}

#[test]
fn two_entry_maps_agree() {
    // BTreeMap orders its keys, so pick keys already in order.
    let mut reference = BTreeMap::new();
    reference.insert("addr", 0x400123u64);
    reference.insert("len", 4096u64);
    let mut ours = Vec::new();
    udi::cbor::push_map2_u64_u64(&mut ours, b"addr", 0x400123, b"len", 4096);
    assert_eq!(ours, enc_map(&reference));
}

#[test]
fn text_arrays_agree() {
    let items = vec![b"one".to_vec(), b"two".to_vec(), b"three".to_vec()];
    let reference: Vec<&str> = vec!["one", "two", "three"];
    let mut ours = Vec::new();
    udi::cbor::push_tstr_arr(&mut ours, &items);
    assert_eq!(ours, enc_strs(&reference));
}

#[test]
fn our_decoder_accepts_ciborium_output() {
    let bytes = enc_u64(&0xdeadbeefu64);
    let (v, used) = udi::cbor::parse_uint(&bytes, 0).unwrap();
    assert_eq!(v, 0xdeadbeef);
    assert_eq!(used, bytes.len());
}
