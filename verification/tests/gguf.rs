//! Behavioural tests of the GGUF metadata decoder, driven through byte
//! streams assembled by a small test-only encoder.

use opla::gguf::{GGUFError, GGUFMetadataValue, GGUfMetadataValueType, GGUF};

fn header(version: u32, tensor_count: u64, kv_count: u64) -> Vec<u8> {
    let mut b = vec![0x47u8, 0x47, 0x55, 0x46];
    b.extend_from_slice(&version.to_le_bytes());
    b.extend_from_slice(&tensor_count.to_le_bytes());
    b.extend_from_slice(&kv_count.to_le_bytes());
    b
}

fn push_key(b: &mut Vec<u8>, key: &str) {
    b.extend_from_slice(&(key.len() as u64).to_le_bytes());
    b.extend_from_slice(key.as_bytes());
}

fn push_tag(b: &mut Vec<u8>, tag: u32) {
    b.extend_from_slice(&tag.to_le_bytes());
}

#[test]
fn scenario_answer_int32() {
    let mut b = header(3, 0, 1);
    push_key(&mut b, "answer");
    push_tag(&mut b, 5);
    b.extend_from_slice(&42i32.to_le_bytes());
    let mut g = GGUF::new();
    assert!(g.read(&b).is_ok());
    assert_eq!(g.version, 3);
    assert_eq!(g.tensor_count, 0);
    assert_eq!(g.metadata_kv_count, 1);
    assert_eq!(g.metadata_kv.len(), 1);
    let e = &g.metadata_kv[0];
    assert_eq!(e.key, "answer");
    assert_eq!(e.value_type, GGUfMetadataValueType::Int32);
    assert!(matches!(e.value, GGUFMetadataValue::Int32(42)));
}

#[test]
fn scenario_array_of_three_uint8() {
    let mut b = header(3, 0, 1);
    push_key(&mut b, "bytes");
    push_tag(&mut b, 9);
    push_tag(&mut b, 0);
    b.extend_from_slice(&3u64.to_le_bytes());
    b.extend_from_slice(&[1u8, 2, 3]);
    let mut g = GGUF::new();
    assert!(g.read(&b).is_ok());
    assert_eq!(g.metadata_kv.len(), 1);
    let e = &g.metadata_kv[0];
    assert_eq!(e.value_type, GGUfMetadataValueType::Array);
    match &e.value {
        GGUFMetadataValue::Array(arr) => {
            assert_eq!(arr.value_type, GGUfMetadataValueType::UInt8);
            assert_eq!(arr.len, 3);
            assert_eq!(arr.value.len(), 3);
            for (i, expected) in [1u8, 2, 3].iter().enumerate() {
                assert!(matches!(&arr.value[i], GGUFMetadataValue::Uint8(x) if x == expected));
            }
        }
        _ => panic!("expected an array value"),
    }
}

#[test]
fn scenario_unknown_type_code_13() {
    let mut b = header(3, 0, 1);
    push_key(&mut b, "k");
    push_tag(&mut b, 13);
    let mut g = GGUF::new();
    assert_eq!(g.read(&b), Err(GGUFError::UnknownValueType(13)));
}

#[test]
fn scenario_key_length_overruns_stream() {
    let mut b = header(3, 0, 1);
    b.extend_from_slice(&100u64.to_le_bytes());
    b.extend_from_slice(&[b'a'; 10]);
    let mut g = GGUF::new();
    assert_eq!(g.read(&b), Err(GGUFError::Truncated));
}

#[test]
fn corrupting_any_magic_byte_is_not_this_format() {
    let mut b = header(3, 0, 1);
    push_key(&mut b, "answer");
    push_tag(&mut b, 5);
    b.extend_from_slice(&42i32.to_le_bytes());
    for i in 0..4 {
        let mut c = b.clone();
        c[i] ^= 0x01;
        let mut g = GGUF::new();
        assert_eq!(g.read(&c), Err(GGUFError::NotThisFormat));
    }
}

#[test]
fn bad_magic_reported_before_header_truncation() {
    let mut g = GGUF::new();
    assert_eq!(g.read(&[0x47, 0x47, 0x55, 0x00]), Err(GGUFError::NotThisFormat));
    assert_eq!(g.read(&[0x00, 0x47, 0x55, 0x46, 1, 2]), Err(GGUFError::NotThisFormat));
}

#[test]
fn fewer_than_four_bytes_is_truncated() {
    let mut g = GGUF::new();
    assert_eq!(g.read(&[]), Err(GGUFError::Truncated));
    assert_eq!(g.read(&[0x47, 0x47]), Err(GGUFError::Truncated));
}

#[test]
fn truncating_anywhere_before_the_end_is_truncated() {
    let mut b = header(2, 7, 3);
    push_key(&mut b, "name");
    push_tag(&mut b, 8);
    b.extend_from_slice(&5u64.to_le_bytes());
    b.extend_from_slice(b"hello");
    push_key(&mut b, "nested");
    push_tag(&mut b, 9);
    push_tag(&mut b, 9);
    b.extend_from_slice(&1u64.to_le_bytes());
    push_tag(&mut b, 2);
    b.extend_from_slice(&2u64.to_le_bytes());
    b.extend_from_slice(&7u16.to_le_bytes());
    b.extend_from_slice(&8u16.to_le_bytes());
    push_key(&mut b, "flag");
    push_tag(&mut b, 7);
    b.push(1);
    let mut g = GGUF::new();
    assert!(g.read(&b).is_ok());
    for i in 0..b.len() {
        let mut g2 = GGUF::new();
        assert_eq!(g2.read(&b[..i]), Err(GGUFError::Truncated), "prefix of {} bytes", i);
    }
}

#[test]
fn empty_array_consumes_exactly_twelve_bytes() {
    let mut b = header(3, 0, 2);
    push_key(&mut b, "empty");
    push_tag(&mut b, 9);
    push_tag(&mut b, 12);
    b.extend_from_slice(&0u64.to_le_bytes());
    push_key(&mut b, "after");
    push_tag(&mut b, 7);
    b.push(0);
    let mut g = GGUF::new();
    assert!(g.read(&b).is_ok());
    assert_eq!(g.metadata_kv.len(), 2);
    match &g.metadata_kv[0].value {
        GGUFMetadataValue::Array(arr) => {
            assert_eq!(arr.value_type, GGUfMetadataValueType::Float64);
            assert_eq!(arr.len, 0);
            assert!(arr.value.is_empty());
        }
        _ => panic!("expected an array value"),
    }
    assert_eq!(g.metadata_kv[1].key, "after");
    assert!(matches!(g.metadata_kv[1].value, GGUFMetadataValue::Bool(false)));
}

#[test]
fn arrays_nest_three_levels_deep() {
    let mut b = header(3, 0, 1);
    push_key(&mut b, "deep");
    push_tag(&mut b, 9);
    // level one: one element of type array
    push_tag(&mut b, 9);
    b.extend_from_slice(&1u64.to_le_bytes());
    // level two: two elements of type array
    push_tag(&mut b, 9);
    b.extend_from_slice(&2u64.to_le_bytes());
    // first inner: one u8
    push_tag(&mut b, 0);
    b.extend_from_slice(&1u64.to_le_bytes());
    b.push(9);
    // second inner: zero u16s
    push_tag(&mut b, 2);
    b.extend_from_slice(&0u64.to_le_bytes());
    let mut g = GGUF::new();
    assert!(g.read(&b).is_ok());
    let outer = match &g.metadata_kv[0].value {
        GGUFMetadataValue::Array(arr) => arr,
        _ => panic!("expected an array value"),
    };
    assert_eq!(outer.value_type, GGUfMetadataValueType::Array);
    assert_eq!(outer.len, 1);
    let mid = match &outer.value[0] {
        GGUFMetadataValue::Array(arr) => arr,
        _ => panic!("expected a nested array"),
    };
    assert_eq!(mid.value_type, GGUfMetadataValueType::Array);
    assert_eq!(mid.len, 2);
    let first = match &mid.value[0] {
        GGUFMetadataValue::Array(arr) => arr,
        _ => panic!("expected a doubly nested array"),
    };
    assert_eq!(first.value_type, GGUfMetadataValueType::UInt8);
    assert!(matches!(first.value[0], GGUFMetadataValue::Uint8(9)));
    let second = match &mid.value[1] {
        GGUFMetadataValue::Array(arr) => arr,
        _ => panic!("expected a doubly nested array"),
    };
    assert_eq!(second.value_type, GGUfMetadataValueType::UInt16);
    assert_eq!(second.len, 0);
}

#[test]
fn nested_array_element_type_is_validated() {
    let mut b = header(3, 0, 1);
    push_key(&mut b, "deep");
    push_tag(&mut b, 9);
    push_tag(&mut b, 9);
    b.extend_from_slice(&1u64.to_le_bytes());
    push_tag(&mut b, 99);
    b.extend_from_slice(&0u64.to_le_bytes());
    let mut g = GGUF::new();
    assert_eq!(g.read(&b), Err(GGUFError::UnknownValueType(99)));
}

#[test]
fn every_scalar_type_round_trips() {
    let mut b = header(1, 2, 13);
    push_key(&mut b, "u8");
    push_tag(&mut b, 0);
    b.push(200);
    push_key(&mut b, "i8");
    push_tag(&mut b, 1);
    b.extend_from_slice(&(-7i8).to_le_bytes());
    push_key(&mut b, "u16");
    push_tag(&mut b, 2);
    b.extend_from_slice(&60000u16.to_le_bytes());
    push_key(&mut b, "i16");
    push_tag(&mut b, 3);
    b.extend_from_slice(&(-12345i16).to_le_bytes());
    push_key(&mut b, "u32");
    push_tag(&mut b, 4);
    b.extend_from_slice(&4000000000u32.to_le_bytes());
    push_key(&mut b, "i32");
    push_tag(&mut b, 5);
    b.extend_from_slice(&(-2000000000i32).to_le_bytes());
    push_key(&mut b, "f32");
    push_tag(&mut b, 6);
    b.extend_from_slice(&1.5f32.to_le_bytes());
    push_key(&mut b, "bool");
    push_tag(&mut b, 7);
    b.push(1);
    push_key(&mut b, "str");
    push_tag(&mut b, 8);
    b.extend_from_slice(&2u64.to_le_bytes());
    b.extend_from_slice("hi".as_bytes());
    push_key(&mut b, "arr");
    push_tag(&mut b, 9);
    push_tag(&mut b, 11);
    b.extend_from_slice(&1u64.to_le_bytes());
    b.extend_from_slice(&(-5i64).to_le_bytes());
    push_key(&mut b, "u64");
    push_tag(&mut b, 10);
    b.extend_from_slice(&u64::MAX.to_le_bytes());
    push_key(&mut b, "i64");
    push_tag(&mut b, 11);
    b.extend_from_slice(&i64::MIN.to_le_bytes());
    push_key(&mut b, "f64");
    push_tag(&mut b, 12);
    b.extend_from_slice(&(-0.25f64).to_le_bytes());
    let mut g = GGUF::new();
    assert!(g.read(&b).is_ok());
    assert_eq!(g.metadata_kv.len(), 13);
    assert!(matches!(g.metadata_kv[0].value, GGUFMetadataValue::Uint8(200)));
    assert!(matches!(g.metadata_kv[1].value, GGUFMetadataValue::Int8(-7)));
    assert!(matches!(g.metadata_kv[2].value, GGUFMetadataValue::Uint16(60000)));
    assert!(matches!(g.metadata_kv[3].value, GGUFMetadataValue::Int16(-12345)));
    assert!(matches!(g.metadata_kv[4].value, GGUFMetadataValue::Uint32(4000000000)));
    assert!(matches!(g.metadata_kv[5].value, GGUFMetadataValue::Int32(-2000000000)));
    match g.metadata_kv[6].value {
        GGUFMetadataValue::Float32(bits) => assert_eq!(f32::from_bits(bits), 1.5),
        _ => panic!("expected a 32-bit float value"),
    }
    assert!(matches!(g.metadata_kv[7].value, GGUFMetadataValue::Bool(true)));
    assert!(matches!(&g.metadata_kv[8].value, GGUFMetadataValue::String(s) if s == "hi"));
    match &g.metadata_kv[9].value {
        GGUFMetadataValue::Array(arr) => {
            assert!(matches!(arr.value[0], GGUFMetadataValue::Int64(-5)));
        }
        _ => panic!("expected an array value"),
    }
    assert!(matches!(g.metadata_kv[10].value, GGUFMetadataValue::Uint64(u64::MAX)));
    assert!(matches!(g.metadata_kv[11].value, GGUFMetadataValue::Int64(i64::MIN)));
    match g.metadata_kv[12].value {
        GGUFMetadataValue::Float64(bits) => assert_eq!(f64::from_bits(bits), -0.25),
        _ => panic!("expected a 64-bit float value"),
    }
}

#[test]
fn bool_decodes_any_nonzero_byte_as_true() {
    for (byte, expected) in [(0u8, false), (1, true), (2, true), (255, true)] {
        let mut b = header(3, 0, 1);
        push_key(&mut b, "flag");
        push_tag(&mut b, 7);
        b.push(byte);
        let mut g = GGUF::new();
        assert!(g.read(&b).is_ok());
        assert!(matches!(g.metadata_kv[0].value, GGUFMetadataValue::Bool(x) if x == expected));
    }
}

#[test]
fn empty_key_and_empty_string_are_valid() {
    let mut b = header(3, 0, 1);
    push_key(&mut b, "");
    push_tag(&mut b, 8);
    b.extend_from_slice(&0u64.to_le_bytes());
    let mut g = GGUF::new();
    assert!(g.read(&b).is_ok());
    assert_eq!(g.metadata_kv[0].key, "");
    assert!(matches!(&g.metadata_kv[0].value, GGUFMetadataValue::String(s) if s.is_empty()));
}

#[test]
fn invalid_utf8_in_key_is_rejected() {
    let mut b = header(3, 0, 1);
    b.extend_from_slice(&2u64.to_le_bytes());
    b.extend_from_slice(&[0xff, 0xfe]);
    push_tag(&mut b, 0);
    b.push(1);
    let mut g = GGUF::new();
    assert_eq!(g.read(&b), Err(GGUFError::InvalidUtf8));
}

#[test]
fn invalid_utf8_in_string_value_is_rejected() {
    let mut b = header(3, 0, 1);
    push_key(&mut b, "s");
    push_tag(&mut b, 8);
    b.extend_from_slice(&2u64.to_le_bytes());
    b.extend_from_slice(&[0xc0, 0x00]);
    let mut g = GGUF::new();
    assert_eq!(g.read(&b), Err(GGUFError::InvalidUtf8));
}

#[test]
fn bytes_after_the_metadata_table_are_ignored() {
    let mut b = header(3, 5, 1);
    push_key(&mut b, "answer");
    push_tag(&mut b, 5);
    b.extend_from_slice(&42i32.to_le_bytes());
    b.extend_from_slice(&[0xde, 0xad, 0xbe, 0xef, 0x00]);
    let mut g = GGUF::new();
    assert!(g.read(&b).is_ok());
    assert_eq!(g.metadata_kv.len(), 1);
}

#[test]
fn decoding_is_deterministic() {
    let mut b = header(3, 0, 1);
    push_key(&mut b, "answer");
    push_tag(&mut b, 5);
    b.extend_from_slice(&42i32.to_le_bytes());
    let mut g1 = GGUF::new();
    let mut g2 = GGUF::new();
    assert!(g1.read(&b).is_ok());
    assert!(g2.read(&b).is_ok());
    assert_eq!(g1.version, g2.version);
    assert_eq!(g1.tensor_count, g2.tensor_count);
    assert_eq!(g1.metadata_kv_count, g2.metadata_kv_count);
    assert_eq!(g1.metadata_kv[0].key, g2.metadata_kv[0].key);
    assert_eq!(g1.metadata_kv[0].value_type, g2.metadata_kv[0].value_type);
    assert!(matches!(
        (&g1.metadata_kv[0].value, &g2.metadata_kv[0].value),
        (GGUFMetadataValue::Int32(a), GGUFMetadataValue::Int32(c)) if a == c
    ));
    let bad = header(3, 0, 1);
    let mut e1 = GGUF::new();
    let mut e2 = GGUF::new();
    assert_eq!(e1.read(&bad), e2.read(&bad));
}

#[test]
fn failed_read_leaves_the_container_unchanged() {
    let mut g = GGUF::new();
    assert!(g.read(&[0x47, 0x47, 0x55, 0x46, 1]).is_err());
    assert_eq!(g.version, 0);
    assert_eq!(g.tensor_count, 0);
    assert_eq!(g.metadata_kv_count, 0);
    assert!(g.metadata_kv.is_empty());
}

#[test]
fn type_registry_accepts_exactly_the_thirteen_codes() {
    for code in 0u32..=12 {
        assert!(GGUfMetadataValueType::try_from(code).is_ok());
    }
    for code in [13u32, 14, 100, u32::MAX] {
        assert_eq!(
            GGUfMetadataValueType::try_from(code),
            Err(GGUFError::UnknownValueType(code))
        );
    }
}

#[test]
fn zero_entries_decode_to_an_empty_table() {
    let b = header(9, 123, 0);
    let mut g = GGUF::new();
    assert!(g.read(&b).is_ok());
    assert_eq!(g.version, 9);
    assert_eq!(g.tensor_count, 123);
    assert_eq!(g.metadata_kv_count, 0);
    assert!(g.metadata_kv.is_empty());
}

#[test]
fn duplicate_keys_are_both_kept_in_order() {
    let mut b = header(3, 0, 2);
    push_key(&mut b, "k");
    push_tag(&mut b, 0);
    b.push(1);
    push_key(&mut b, "k");
    push_tag(&mut b, 0);
    b.push(2);
    let mut g = GGUF::new();
    assert!(g.read(&b).is_ok());
    assert_eq!(g.metadata_kv.len(), 2);
    assert_eq!(g.metadata_kv[0].key, "k");
    assert_eq!(g.metadata_kv[1].key, "k");
    assert!(matches!(g.metadata_kv[0].value, GGUFMetadataValue::Uint8(1)));
    assert!(matches!(g.metadata_kv[1].value, GGUFMetadataValue::Uint8(2)));
}
