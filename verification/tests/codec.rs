use sysctl_mib::codec::TypedValue;
use sysctl_mib::codec::decode;
use sysctl_mib::codec::encode;
use sysctl_mib::error::CtlError;
use sysctl_mib::literal::from_literal;
use sysctl_mib::shape::ValueShape;

#[test]
fn int32_encodes_little_endian() {
    assert_eq!(encode(ValueShape::Int32, &TypedValue::Int32(1)).unwrap(), vec![1, 0, 0, 0]);
    assert_eq!(
        encode(ValueShape::Int32, &TypedValue::Int32(-1)).unwrap(),
        vec![255, 255, 255, 255]
    );
    assert_eq!(
        encode(ValueShape::Int32, &TypedValue::Int32(0x01020304)).unwrap(),
        vec![4, 3, 2, 1]
    );
}

#[test]
fn int32_round_trips() {
    for v in [0i32, 1, -1, 42, i32::MIN, i32::MAX] {
        let bytes = encode(ValueShape::Int32, &TypedValue::Int32(v)).unwrap();
        assert_eq!(bytes.len(), 4);
        assert_eq!(decode(ValueShape::Int32, &bytes), Ok(TypedValue::Int32(v)));
    }
}

#[test]
fn int64_and_long_round_trip() {
    for v in [0i64, -5, i64::MIN, i64::MAX] {
        let bytes = encode(ValueShape::Int64, &TypedValue::Int64(v)).unwrap();
        assert_eq!(bytes.len(), 8);
        assert_eq!(decode(ValueShape::Int64, &bytes), Ok(TypedValue::Int64(v)));
        let bytes = encode(ValueShape::Long, &TypedValue::Long(v)).unwrap();
        assert_eq!(decode(ValueShape::Long, &bytes), Ok(TypedValue::Long(v)));
    }
}

#[test]
fn device_id_round_trips() {
    let bytes = encode(ValueShape::DeviceId, &TypedValue::DeviceId(0x0500)).unwrap();
    assert_eq!(bytes, vec![0, 5, 0, 0]);
    assert_eq!(decode(ValueShape::DeviceId, &bytes), Ok(TypedValue::DeviceId(0x0500)));
}

#[test]
fn scalar_width_is_enforced() {
    assert_eq!(decode(ValueShape::Int32, &[1, 2, 3]), Err(CtlError::ShapeMismatch));
    assert_eq!(decode(ValueShape::Int32, &[1, 2, 3, 4, 5]), Err(CtlError::ShapeMismatch));
    assert_eq!(decode(ValueShape::Int64, &[0; 4]), Err(CtlError::ShapeMismatch));
}

#[test]
fn string_decode_truncates_at_first_terminator() {
    assert_eq!(
        decode(ValueShape::CString, b"OpenBSD\0"),
        Ok(TypedValue::Text(b"OpenBSD".to_vec()))
    );
    // A terminator followed by garbage from an over-reported length must not
    // leak the garbage.
    assert_eq!(
        decode(ValueShape::CString, b"abc\0def\0"),
        Ok(TypedValue::Text(b"abc".to_vec()))
    );
    assert_eq!(decode(ValueShape::CString, b"\0"), Ok(TypedValue::Text(Vec::new())));
    assert_eq!(decode(ValueShape::CString, b""), Ok(TypedValue::Text(Vec::new())));
    // No terminator at all: the whole buffer is the string.
    assert_eq!(decode(ValueShape::CString, b"abc"), Ok(TypedValue::Text(b"abc".to_vec())));
}

#[test]
fn string_decode_is_idempotent_on_trimmed_input() {
    let once = decode(ValueShape::CString, b"OpenBSD\0junk").unwrap();
    let TypedValue::Text(trimmed) = once.clone() else { panic!() };
    let mut with_terminator = trimmed.clone();
    with_terminator.push(0);
    assert_eq!(decode(ValueShape::CString, &trimmed), Ok(once.clone()));
    assert_eq!(decode(ValueShape::CString, &with_terminator), Ok(once));
}

#[test]
fn string_encode_appends_one_terminator() {
    assert_eq!(
        encode(ValueShape::CString, &TypedValue::Text(b"myhost".to_vec())).unwrap(),
        b"myhost\0".to_vec()
    );
}

#[test]
fn string_encode_rejects_embedded_terminator() {
    assert_eq!(
        encode(ValueShape::CString, &TypedValue::Text(b"my\0host".to_vec())),
        Err(CtlError::ShapeMismatch)
    );
}

#[test]
fn arrays_decode_elementwise() {
    assert_eq!(
        decode(ValueShape::U32Array, &[1, 0, 0, 0, 2, 0, 0, 0]),
        Ok(TypedValue::U32s(vec![1, 2]))
    );
    assert_eq!(
        decode(ValueShape::U16Array, &[0x34, 0x12, 0x78, 0x56]),
        Ok(TypedValue::U16s(vec![0x1234, 0x5678]))
    );
    assert_eq!(
        decode(ValueShape::U64Array, &[9, 0, 0, 0, 0, 0, 0, 0]),
        Ok(TypedValue::U64s(vec![9]))
    );
    assert_eq!(decode(ValueShape::U32Array, &[]), Ok(TypedValue::U32s(Vec::new())));
}

#[test]
fn array_remainder_bytes_fail() {
    assert_eq!(decode(ValueShape::U32Array, &[1, 2, 3, 4, 5]), Err(CtlError::ShapeMismatch));
    assert_eq!(decode(ValueShape::U16Array, &[1]), Err(CtlError::ShapeMismatch));
    assert_eq!(decode(ValueShape::U64Array, &[0; 12]), Err(CtlError::ShapeMismatch));
}

#[test]
fn arrays_round_trip() {
    let v = TypedValue::U32s(vec![7, 0x89abcdef, 3]);
    let bytes = encode(ValueShape::U32Array, &v).unwrap();
    assert_eq!(bytes.len(), 12);
    assert_eq!(decode(ValueShape::U32Array, &bytes), Ok(v));
}

#[test]
fn records_pass_bytes_through() {
    let raw = vec![1u8, 2, 3, 0, 5];
    assert_eq!(
        decode(ValueShape::OpaqueRecord, &raw),
        Ok(TypedValue::Record(raw.clone()))
    );
    assert_eq!(
        encode(ValueShape::OpaqueRecord, &TypedValue::Record(raw.clone())).unwrap(),
        raw
    );
    assert_eq!(decode(ValueShape::ByteArray, &raw), Ok(TypedValue::Bytes(raw)));
}

#[test]
fn encode_rejects_value_of_wrong_shape() {
    assert_eq!(
        encode(ValueShape::Int32, &TypedValue::Int64(1)),
        Err(CtlError::ShapeMismatch)
    );
    assert_eq!(
        encode(ValueShape::CString, &TypedValue::Int32(1)),
        Err(CtlError::ShapeMismatch)
    );
}

#[test]
fn literal_integers_parse_exactly() {
    assert_eq!(from_literal(ValueShape::Int32, b"123"), Ok(TypedValue::Int32(123)));
    assert_eq!(from_literal(ValueShape::Int32, b"-42"), Ok(TypedValue::Int32(-42)));
    assert_eq!(from_literal(ValueShape::Int32, b"007"), Ok(TypedValue::Int32(7)));
    assert_eq!(from_literal(ValueShape::Int32, b"0"), Ok(TypedValue::Int32(0)));
    assert_eq!(from_literal(ValueShape::Int32, b"-0"), Ok(TypedValue::Int32(0)));
    assert_eq!(
        from_literal(ValueShape::Int32, b"2147483647"),
        Ok(TypedValue::Int32(i32::MAX))
    );
    assert_eq!(
        from_literal(ValueShape::Int32, b"-2147483648"),
        Ok(TypedValue::Int32(i32::MIN))
    );
}

#[test]
fn literal_integers_out_of_range_fail() {
    assert_eq!(from_literal(ValueShape::Int32, b"2147483648"), Err(CtlError::MalformedPath));
    assert_eq!(from_literal(ValueShape::Int32, b"-2147483649"), Err(CtlError::MalformedPath));
    assert_eq!(
        from_literal(ValueShape::Int64, b"9223372036854775807"),
        Ok(TypedValue::Int64(i64::MAX))
    );
    assert_eq!(
        from_literal(ValueShape::Int64, b"-9223372036854775808"),
        Ok(TypedValue::Int64(i64::MIN))
    );
    assert_eq!(
        from_literal(ValueShape::Int64, b"9223372036854775808"),
        Err(CtlError::MalformedPath)
    );
    assert_eq!(
        from_literal(ValueShape::Long, b"99999999999999999999999999"),
        Err(CtlError::MalformedPath)
    );
}

#[test]
fn malformed_literals_fail() {
    assert_eq!(from_literal(ValueShape::Int32, b""), Err(CtlError::MalformedPath));
    assert_eq!(from_literal(ValueShape::Int32, b"-"), Err(CtlError::MalformedPath));
    assert_eq!(from_literal(ValueShape::Int32, b"12a"), Err(CtlError::MalformedPath));
    assert_eq!(from_literal(ValueShape::Int32, b" 1"), Err(CtlError::MalformedPath));
}

#[test]
fn string_literals_pass_through() {
    assert_eq!(
        from_literal(ValueShape::CString, b"myhost"),
        Ok(TypedValue::Text(b"myhost".to_vec()))
    );
}

#[test]
fn literals_for_record_shapes_are_unsupported() {
    assert_eq!(from_literal(ValueShape::OpaqueRecord, b"x"), Err(CtlError::ShapeMismatch));
    assert_eq!(from_literal(ValueShape::U32Array, b"1"), Err(CtlError::ShapeMismatch));
}
