use bukrs::bytebuf::{buf_new, buf_to_vec, buf_from_vec, put_u32, put_slice};
use bukrs::errors::BukrsError;
use bukrs::typecodec::{BukrsType, BukrsNativeType};
use bukrs::varint::{write_varint, read_varint};

#[test]
fn test_varint() {
    let mut buffer = buf_new();
    let num = 12589;

    write_varint(num, &mut buffer);
    let value = read_varint(&mut buffer).expect("Uh Oh...");
    assert_eq!(value, num);
}

#[test]
fn varint_round_trip_bounds() {
    for num in [0i32, 1, 127, 128, 255, 300, 16384, 1 << 21, i32::MAX] {
        let mut buffer = buf_new();
        write_varint(num, &mut buffer);
        assert_eq!(read_varint(&mut buffer).unwrap(), num);
    }
}

#[test]
fn varint_small_values_are_one_byte() {
    let mut buffer = buf_new();
    write_varint(8, &mut buffer);
    assert_eq!(buf_to_vec(&buffer), vec![8]);
}

#[test]
fn varint_overflow_on_five_continuation_bytes() {
    let mut buffer = buf_from_vec(vec![0x80, 0x80, 0x80, 0x80, 0x80]);
    assert_eq!(read_varint(&mut buffer), Err(BukrsError::VarintOverflow));
}

#[test]
fn varint_truncated_when_all_bytes_continue() {
    let mut buffer = buf_from_vec(vec![0x80, 0x80]);
    assert_eq!(read_varint(&mut buffer), Err(BukrsError::TruncatedInput));
}

#[test]
fn unsigned_round_trips_at_bounds() {
    for v in [0u8, 1, u8::MAX] {
        let mut b = buf_new();
        v.encode(&mut b).unwrap();
        assert_eq!(u8::decode(&mut b).unwrap(), v);
    }
    for v in [0u16, 1, u16::MAX] {
        let mut b = buf_new();
        v.encode(&mut b).unwrap();
        assert_eq!(u16::decode(&mut b).unwrap(), v);
    }
    for v in [0u32, 1, u32::MAX] {
        let mut b = buf_new();
        v.encode(&mut b).unwrap();
        assert_eq!(u32::decode(&mut b).unwrap(), v);
    }
    for v in [0u64, 1, u64::MAX] {
        let mut b = buf_new();
        v.encode(&mut b).unwrap();
        assert_eq!(u64::decode(&mut b).unwrap(), v);
    }
}

#[test]
fn signed_round_trips_at_bounds() {
    for v in [i8::MIN, -1, 0, 1, i8::MAX] {
        let mut b = buf_new();
        v.encode(&mut b).unwrap();
        assert_eq!(i8::decode(&mut b).unwrap(), v);
    }
    for v in [i16::MIN, -1, 0, i16::MAX] {
        let mut b = buf_new();
        v.encode(&mut b).unwrap();
        assert_eq!(i16::decode(&mut b).unwrap(), v);
    }
    for v in [i32::MIN, -1, 0, i32::MAX] {
        let mut b = buf_new();
        v.encode(&mut b).unwrap();
        assert_eq!(i32::decode(&mut b).unwrap(), v);
    }
    for v in [i64::MIN, -1, 0, i64::MAX] {
        let mut b = buf_new();
        v.encode(&mut b).unwrap();
        assert_eq!(i64::decode(&mut b).unwrap(), v);
    }
}

#[test]
fn numeric_encodings_are_big_endian() {
    let mut b = buf_new();
    0x0102u16.encode(&mut b).unwrap();
    assert_eq!(buf_to_vec(&b), vec![1, 2]);
    let mut b = buf_new();
    0x01020304u32.encode(&mut b).unwrap();
    assert_eq!(buf_to_vec(&b), vec![1, 2, 3, 4]);
    let mut b = buf_new();
    (-1i8).encode(&mut b).unwrap();
    assert_eq!(buf_to_vec(&b), vec![0xFF]);
}

#[test]
fn string_round_trip_including_empty_and_multibyte() {
    for s in ["", "abc", "h\u{e9}llo \u{1F600}"] {
        let mut b = buf_new();
        let v = s.to_string();
        v.encode(&mut b).unwrap();
        assert_eq!(String::decode(&mut b).unwrap(), v);
    }
}

#[test]
fn string_length_prefix_counts_bytes_not_chars() {
    let mut b = buf_new();
    "\u{e9}".to_string().encode(&mut b).unwrap();
    // one character, two UTF-8 bytes
    assert_eq!(buf_to_vec(&b), vec![0, 0, 0, 2, 0xC3, 0xA9]);
}

#[test]
fn string_decode_rejects_invalid_utf8() {
    let mut b = buf_new();
    put_u32(&mut b, 1);
    put_slice(&mut b, &[0xFF]);
    assert_eq!(String::decode(&mut b), Err(BukrsError::InvalidEncoding));
}

#[test]
fn string_decode_needs_all_its_bytes() {
    let mut b = buf_new();
    put_u32(&mut b, 5);
    put_slice(&mut b, &[b'a', b'b']);
    assert_eq!(String::decode(&mut b), Err(BukrsError::TruncatedInput));
}

#[test]
fn sequence_of_bytes_has_documented_encoding() {
    // the sequence [1, 2, 3] of unsigned 8-bit values
    let mut b = buf_new();
    vec![1u8, 2, 3].encode(&mut b).unwrap();
    assert_eq!(buf_to_vec(&b), vec![0, 0, 0, 3, 1, 2, 3]);
}

#[test]
fn sequence_round_trip_including_empty_and_nested() {
    let mut b = buf_new();
    let empty: Vec<u32> = vec![];
    empty.encode(&mut b).unwrap();
    assert_eq!(Vec::<u32>::decode(&mut b).unwrap(), empty);

    let mut b = buf_new();
    let nested: Vec<Vec<u8>> = vec![vec![], vec![1], vec![2, 3]];
    nested.encode(&mut b).unwrap();
    assert_eq!(Vec::<Vec<u8>>::decode(&mut b).unwrap(), nested);

    let mut b = buf_new();
    let strings: Vec<String> = vec!["".to_string(), "xy".to_string()];
    strings.encode(&mut b).unwrap();
    assert_eq!(Vec::<String>::decode(&mut b).unwrap(), strings);
}

#[test]
fn decode_leaves_trailing_bytes_for_the_next_value() {
    let mut b = buf_new();
    7u16.encode(&mut b).unwrap();
    9u32.encode(&mut b).unwrap();
    assert_eq!(u16::decode(&mut b).unwrap(), 7);
    assert_eq!(u32::decode(&mut b).unwrap(), 9);
}

#[test]
fn truncated_primitives_report_truncation() {
    let mut b = buf_from_vec(vec![1, 2]);
    assert_eq!(u32::decode(&mut b), Err(BukrsError::TruncatedInput));
    let mut b = buf_new();
    assert_eq!(u8::decode(&mut b), Err(BukrsError::TruncatedInput));
    let mut b = buf_from_vec(vec![0, 0]);
    assert_eq!(u64::decode(&mut b), Err(BukrsError::TruncatedInput));
}

#[test]
fn ty_reports_the_wire_kind() {
    assert_eq!(0u8.ty(), BukrsNativeType::U8);
    assert_eq!(0i64.ty(), BukrsNativeType::I64);
    assert_eq!(String::new().ty(), BukrsNativeType::STRING);
    assert_eq!(vec![1u8].ty(), BukrsNativeType::VECTOR);
}
