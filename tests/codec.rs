use mc_receptionist::codec::{
    read_prefixed_bytes, read_string, read_u128, read_u16, read_u64, read_var_int,
    write_prefixed_bytes, write_string, write_u128, write_u16, write_u64, write_var_int,
};
use mc_receptionist::error::{ErrorKind, ProtocolError};

struct TestCase {
    sample: Vec<u8>,
    value: i32,
}

#[test]
fn var_int() {
    let test_cases = [
        TestCase { sample: vec![0x00], value: 0 },
        TestCase { sample: vec![0x01], value: 1 },
        TestCase { sample: vec![0x02], value: 2 },
        TestCase { sample: vec![0x7f], value: 127 },
        TestCase { sample: vec![0x80, 0x01], value: 128 },
        TestCase { sample: vec![0xff, 0x01], value: 255 },
        TestCase { sample: vec![0xdd, 0xc7, 0x01], value: 25565 },
        TestCase { sample: vec![0xff, 0xff, 0x7f], value: 2097151 },
        TestCase { sample: vec![0xff, 0xff, 0xff, 0xff, 0x07], value: 2147483647 },
        TestCase { sample: vec![0xff, 0xff, 0xff, 0xff, 0x0f], value: -1 },
        TestCase { sample: vec![0x80, 0x80, 0x80, 0x80, 0x08], value: -2147483648 },
    ];

    for test_case in test_cases.iter() {
        let (value, end) = read_var_int(&test_case.sample, 0).unwrap();
        assert_eq!(value, test_case.value);
        assert_eq!(end, test_case.sample.len());
    }

    for test_case in test_cases.iter() {
        let mut buf = Vec::<u8>::new();
        write_var_int(test_case.value, &mut buf);
        assert_eq!(buf, test_case.sample);
    }
}

#[test]
fn var_int_round_trip_and_length() {
    let values = [
        i32::MIN, -1, 0, 1, 127, 128, i32::MAX, 300, -300, 16383, 16384, 2097152, 268435455,
        268435456, -123456789, 987654321,
    ];
    for v in values {
        let mut buf = Vec::new();
        write_var_int(v, &mut buf);
        assert!(buf.len() >= 1 && buf.len() <= 5);
        buf.push(0xaa);
        let (back, end) = read_var_int(&buf, 0).unwrap();
        assert_eq!(back, v);
        assert_eq!(end, buf.len() - 1);
    }
}

#[test]
fn negative_var_int_takes_five_bytes() {
    for v in [-1, -2, -128, -25565, i32::MIN] {
        let mut buf = Vec::new();
        write_var_int(v, &mut buf);
        assert_eq!(buf.len(), 5);
    }
}

#[test]
fn var_int_too_big() {
    let sample = vec![0x80, 0x80, 0x80, 0x80, 0x80, 0x01];
    let err = read_var_int(&sample, 0).unwrap_err();
    assert_eq!(err, ProtocolError::VarIntTooBig);
    assert_eq!(err.kind(), ErrorKind::InvalidData);
    assert_eq!(err.message(), "VarInt too big");
    // Five continuation bytes are refused even with nothing after them.
    assert_eq!(read_var_int(&sample[..5], 0), Err(ProtocolError::VarIntTooBig));
}

#[test]
fn var_int_truncated() {
    assert_eq!(read_var_int(&[0x80, 0x80], 0), Err(ProtocolError::UnexpectedEof));
    assert_eq!(read_var_int(&[], 0), Err(ProtocolError::UnexpectedEof));
}

#[test]
fn var_int_at_offset() {
    let buf = vec![0x05, 0xdd, 0xc7, 0x01, 0x09];
    assert_eq!(read_var_int(&buf, 1), Ok((25565, 4)));
}

#[test]
fn string_round_trip() {
    for s in ["", "localhost", "héllo wörld", "日本語", "a\"quote\\"] {
        let mut buf = Vec::new();
        write_string(s, &mut buf);
        assert_eq!(buf[0] as usize, s.len());
        let (back, end) = read_string(&buf, 0).unwrap();
        assert_eq!(back, s);
        assert_eq!(back.as_bytes(), s.as_bytes());
        assert_eq!(end, buf.len());
    }
}

#[test]
fn string_exact_bytes() {
    let mut buf = Vec::new();
    write_string("localhost", &mut buf);
    let mut expected = vec![9u8];
    expected.extend_from_slice(b"localhost");
    assert_eq!(buf, expected);
}

#[test]
fn invalid_utf8_is_refused() {
    let buf = vec![0x02, 0xc3, 0x28];
    let err = read_string(&buf, 0).unwrap_err();
    assert_eq!(err, ProtocolError::InvalidUtf8);
    assert_eq!(err.kind(), ErrorKind::InvalidData);
}

#[test]
fn prefixed_bytes_round_trip_and_errors() {
    let data: Vec<u8> = (0..200u16).map(|i| (i % 256) as u8).collect();
    let mut buf = Vec::new();
    write_prefixed_bytes(&data, &mut buf);
    assert_eq!(&buf[..2], &[0xc8, 0x01]);
    assert_eq!(read_prefixed_bytes(&buf, 0), Ok((data.clone(), buf.len())));
    // A length larger than what remains.
    assert_eq!(read_prefixed_bytes(&[0x05, 1, 2], 0), Err(ProtocolError::UnexpectedEof));
    // A negative length.
    let mut neg = Vec::new();
    write_var_int(-1, &mut neg);
    assert_eq!(read_prefixed_bytes(&neg, 0), Err(ProtocolError::NegativeLength));
}

#[test]
fn fixed_width_integers() {
    let mut buf = Vec::new();
    write_u16(25565, &mut buf);
    assert_eq!(buf, vec![0x63, 0xdd]);
    write_u64(0xDEADBEEF, &mut buf);
    assert_eq!(&buf[2..], &[0, 0, 0, 0, 0xde, 0xad, 0xbe, 0xef]);
    let uuid: u128 = 0x0123456789abcdef_fedcba9876543210;
    write_u128(uuid, &mut buf);
    assert_eq!(read_u16(&buf, 0), Ok((25565, 2)));
    assert_eq!(read_u64(&buf, 2), Ok((0xDEADBEEF, 10)));
    assert_eq!(read_u128(&buf, 10), Ok((uuid, 26)));
    assert_eq!(read_u16(&buf, 25), Err(ProtocolError::UnexpectedEof));
}
