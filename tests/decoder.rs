use basileia_proxy::decoder::{rest, var_int, var_long};
use basileia_proxy::error::DecodeError;
use basileia_proxy::fields::{read_bool, read_string, read_uuid_text};
use basileia_proxy::varint::{write_var_i32, write_var_i64};

#[test]
fn test_read_variable_i32_2_bytes_value() {
    let bytes = vec![0b10101100, 0b00000010];
    let (value, _) = var_int::decode(&bytes, 0).unwrap();

    assert_eq!(value, 300);
}

#[test]
fn test_read_variable_i32_5_bytes_value() {
    let bytes = vec![0xff, 0xff, 0xff, 0xff, 0x07];
    let (value, _) = var_int::decode(&bytes, 0).unwrap();

    assert_eq!(value, 2147483647);
}

#[test]
fn var_int_round_trip_over_edge_values() {
    for n in [0, 1, 127, 128, 255, 300, 25565, -1, i32::MIN, i32::MAX] {
        let mut out = Vec::new();
        write_var_i32(n, &mut out);
        assert!(!out.is_empty() && out.len() <= 5);
        let (back, end) = var_int::decode(&out, 0).unwrap();
        assert_eq!(back, n);
        assert_eq!(end, out.len());
    }
}

#[test]
fn var_int_negative_takes_five_bytes() {
    let mut out = Vec::new();
    write_var_i32(-1, &mut out);
    assert_eq!(out, vec![0xff, 0xff, 0xff, 0xff, 0x0f]);
}

#[test]
fn var_int_encodes_300_in_two_bytes() {
    let mut out = Vec::new();
    write_var_i32(300, &mut out);
    assert_eq!(out, vec![0xac, 0x02]);
}

#[test]
fn var_int_five_continuation_bytes_are_too_long() {
    let bytes = vec![0x80, 0x80, 0x80, 0x80, 0x80, 0x01];
    assert_eq!(var_int::decode(&bytes, 0), Err(DecodeError::VarIntTooLong { max_bytes: 5 }));
    let exactly_five = vec![0xff; 5];
    assert_eq!(var_int::decode(&exactly_five, 0), Err(DecodeError::VarIntTooLong { max_bytes: 5 }));
}

#[test]
fn var_int_truncated_is_a_short_read() {
    let bytes = vec![0x80, 0x80];
    let err = var_int::decode(&bytes, 0).unwrap_err();
    assert_eq!(err, DecodeError::UnexpectedEof);
    assert!(err.is_eof_error());
    assert!(!DecodeError::NonBoolValue.is_eof_error());
}

#[test]
fn var_long_round_trip_and_limit() {
    for n in [0i64, 1, -1, i64::MIN, i64::MAX, 1577735845610] {
        let mut out = Vec::new();
        write_var_i64(n, &mut out);
        assert!(out.len() <= 10);
        assert_eq!(var_long::decode(&out, 0), Ok((n, out.len())));
    }
    let bytes = vec![0xff; 10];
    assert_eq!(var_long::decode(&bytes, 0), Err(DecodeError::VarIntTooLong { max_bytes: 10 }));
}

#[test]
fn rest_reads_to_the_end() {
    let bytes = vec![1, 2, 3, 4];
    assert_eq!(rest::decode(&bytes, 1), vec![2, 3, 4]);
    assert_eq!(rest::decode(&bytes, 4), Vec::<u8>::new());
}

#[test]
fn string_longer_than_its_field_is_refused_before_reading() {
    // Declares 40000 bytes but carries none of them.
    let bytes = vec![0xc0, 0xb8, 0x02];
    assert_eq!(
        read_string(&bytes, 0, 36),
        Err(DecodeError::StringTooLong { length: 40000, max_length: 36 })
    );
    let mut short = vec![37];
    short.extend_from_slice(&[b'a'; 37]);
    assert_eq!(
        read_string(&short, 0, 36),
        Err(DecodeError::StringTooLong { length: 37, max_length: 36 })
    );
}

#[test]
fn string_with_invalid_utf8_is_refused() {
    let bytes = vec![2, 0xc3, 0x28];
    assert_eq!(read_string(&bytes, 0, 10), Err(DecodeError::Utf8Error));
    let ok = vec![2, 0xc3, 0xa9];
    assert_eq!(read_string(&ok, 0, 10), Ok(("é".to_string(), 3)));
}

#[test]
fn bool_accepts_only_zero_and_one() {
    assert_eq!(read_bool(&[0], 0), Ok((false, 1)));
    assert_eq!(read_bool(&[1], 0), Ok((true, 1)));
    assert_eq!(read_bool(&[2], 0), Err(DecodeError::NonBoolValue));
    assert_eq!(read_bool(&[], 0), Err(DecodeError::UnexpectedEof));
}

#[test]
fn uuid_text_is_parsed() {
    let text = "c676f0db-9695-4fcd-a3cc-d75f129fde7f";
    let mut bytes = vec![36];
    bytes.extend_from_slice(text.as_bytes());
    assert_eq!(
        read_uuid_text(&bytes, 0),
        Ok((0xc676f0db96954fcda3ccd75f129fde7f, 37))
    );
    let mut bad = vec![36];
    bad.extend_from_slice(b"zzzzzzzz-9695-4fcd-a3cc-d75f129fde7f");
    assert_eq!(read_uuid_text(&bad, 0), Err(DecodeError::UuidParseError));
}
