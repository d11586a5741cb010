use kmip_ttlv::reader::ByteReader;
use kmip_ttlv::types::{
    Error, IoErrorKind, SerializableTtlvType, TtlvBigInteger, TtlvBoolean, TtlvByteString,
    TtlvDateTime, TtlvEnumeration, TtlvInteger, TtlvLongInteger, TtlvTag, TtlvTextString,
    TtlvType,
};

fn written<T: SerializableTtlvType>(v: &T) -> Vec<u8> {
    let mut out = Vec::new();
    v.write(&mut out).unwrap();
    out
}

fn read_back<T: SerializableTtlvType>(bytes: &[u8]) -> (T, usize) {
    // The type byte is for the caller to read.
    let mut src = ByteReader::new(&bytes[1..]);
    let v = T::read(&mut src).unwrap();
    (v, src.position())
}

#[test]
fn handcrafted_integer_item_reads_and_writes_back() {
    let mut ttlv_wire = Vec::new();
    ttlv_wire.extend(b"\x66\x00\x01");
    ttlv_wire.extend(b"\x02");
    ttlv_wire.extend(b"\x00\x00\x00\x04");
    ttlv_wire.extend(b"\x00\x00\x00\x03");
    ttlv_wire.extend(b"\x00\x00\x00\x00");

    let mut src = ByteReader::new(&ttlv_wire);
    let tag = TtlvTag::read(&mut src).unwrap();
    let typ = TtlvType::read(&mut src).unwrap();
    let val = TtlvInteger::read(&mut src).unwrap();
    assert_eq!(*tag, 0x660001);
    assert_eq!(typ, TtlvType::Integer);
    assert_eq!(*val, 3);
    assert_eq!(src.remaining_len(), 0);

    let mut buf = Vec::new();
    tag.write(&mut buf).unwrap();
    val.write(&mut buf).unwrap();
    assert_eq!(ttlv_wire, buf);
}

#[test]
fn integer_round_trips() {
    for v in [0i32, 1, -1, i32::MIN, i32::MAX, 0x0102_0304] {
        let bytes = written(&TtlvInteger(v));
        assert_eq!(bytes.len(), 13);
        assert_eq!(bytes[0], 0x02);
        assert_eq!(&bytes[1..5], &[0, 0, 0, 4]);
        assert_eq!(&bytes[5..9], &v.to_be_bytes());
        assert_eq!(&bytes[9..], &[0, 0, 0, 0]);
        let (back, used) = read_back::<TtlvInteger>(&bytes);
        assert_eq!(*back, v);
        assert_eq!(used, 12);
        assert_eq!(back.ttlv_type(), TtlvType::Integer);
    }
}

#[test]
fn long_integer_round_trips() {
    for v in [0i64, 1, -1, i64::MIN, i64::MAX, 0x0102_0304_0506_0708] {
        let bytes = written(&TtlvLongInteger(v));
        assert_eq!(bytes.len(), 13);
        assert_eq!(bytes[0], 0x03);
        assert_eq!(&bytes[1..5], &[0, 0, 0, 8]);
        assert_eq!(&bytes[5..], &v.to_be_bytes());
        let (back, used) = read_back::<TtlvLongInteger>(&bytes);
        assert_eq!(*back, v);
        assert_eq!(used, 12);
    }
}

#[test]
fn enumeration_round_trips() {
    for v in [0u32, 1, 0x8000_0000, u32::MAX] {
        let bytes = written(&TtlvEnumeration(v));
        assert_eq!(bytes[0], 0x05);
        assert_eq!(&bytes[1..5], &[0, 0, 0, 4]);
        assert_eq!(&bytes[5..9], &v.to_be_bytes());
        assert_eq!(&bytes[9..], &[0, 0, 0, 0]);
        let (back, used) = read_back::<TtlvEnumeration>(&bytes);
        assert_eq!(*back, v);
        assert_eq!(used, 12);
    }
}

#[test]
fn date_time_round_trips() {
    for v in [0i64, -1, i64::MIN, i64::MAX, 0x0000_0000_47DA_67F8] {
        let bytes = written(&TtlvDateTime(v));
        assert_eq!(bytes[0], 0x09);
        assert_eq!(&bytes[1..5], &[0, 0, 0, 8]);
        assert_eq!(&bytes[5..], &v.to_be_bytes());
        let (back, used) = read_back::<TtlvDateTime>(&bytes);
        assert_eq!(*back, v);
        assert_eq!(used, 12);
    }
}

#[test]
fn boolean_round_trips() {
    let t = written(&TtlvBoolean(true));
    assert_eq!(t, vec![0x06, 0, 0, 0, 8, 0, 0, 0, 0, 0, 0, 0, 1]);
    let f = written(&TtlvBoolean(false));
    assert_eq!(f, vec![0x06, 0, 0, 0, 8, 0, 0, 0, 0, 0, 0, 0, 0]);
    assert!(*read_back::<TtlvBoolean>(&t).0);
    assert!(!*read_back::<TtlvBoolean>(&f).0);
    assert_eq!(read_back::<TtlvBoolean>(&t).1, 12);
}

#[test]
fn boolean_refuses_any_other_number() {
    for value in [2u64, 0x0100, u64::MAX, 0x0100_0000_0000_0000] {
        let mut bytes = vec![0u8, 0, 0, 8];
        bytes.extend(value.to_be_bytes());
        let mut src = ByteReader::new(&bytes);
        assert!(matches!(
            TtlvBoolean::read(&mut src),
            Err(Error::InvalidTtlvValue(TtlvType::Boolean))
        ));
        assert_eq!(src.position(), 12);
    }
}

#[test]
fn fixed_size_types_refuse_another_length() {
    let bytes = [0u8, 0, 0, 8, 0, 0, 0, 0, 0, 0, 0, 3];
    let mut src = ByteReader::new(&bytes);
    match TtlvInteger::read(&mut src) {
        Err(Error::InvalidTtlvValueLength { expected, actual, ttlv_type }) => {
            assert_eq!(expected, 4);
            assert_eq!(actual, 8);
            assert_eq!(ttlv_type, TtlvType::Integer);
        }
        other => panic!("{:?}", other),
    }
    // Nothing after the length was taken.
    assert_eq!(src.position(), 4);

    let bytes = [0u8, 0, 0, 4, 0, 0, 0, 1, 0, 0, 0, 0];
    let mut src = ByteReader::new(&bytes);
    assert!(matches!(
        TtlvLongInteger::read(&mut src),
        Err(Error::InvalidTtlvValueLength { expected: 8, actual: 4, ttlv_type: TtlvType::LongInteger })
    ));
    let mut src = ByteReader::new(&bytes);
    assert!(matches!(
        TtlvBoolean::read(&mut src),
        Err(Error::InvalidTtlvValueLength { expected: 8, actual: 4, ttlv_type: TtlvType::Boolean })
    ));
    let mut src = ByteReader::new(&bytes);
    assert!(matches!(
        TtlvDateTime::read(&mut src),
        Err(Error::InvalidTtlvValueLength { expected: 8, actual: 4, ttlv_type: TtlvType::DateTime })
    ));
    let bytes = [0u8, 0, 0, 5, 0, 0, 0, 1, 0, 0, 0, 0];
    let mut src = ByteReader::new(&bytes);
    assert!(matches!(
        TtlvEnumeration::read(&mut src),
        Err(Error::InvalidTtlvValueLength { expected: 4, actual: 5, ttlv_type: TtlvType::Enumeration })
    ));
}

#[test]
fn six_byte_text_takes_two_padding_bytes() {
    let text = TtlvTextString("abcdef".to_string());
    let bytes = written(&text);
    assert_eq!(bytes, vec![0x07, 0, 0, 0, 6, b'a', b'b', b'c', b'd', b'e', b'f', 0, 0]);
    let (back, used) = read_back::<TtlvTextString>(&bytes);
    assert_eq!(*back, "abcdef");
    assert_eq!(used, 4 + 6 + 2);
}

#[test]
fn reading_takes_the_length_and_its_padding() {
    for len in 0usize..=17 {
        let value = vec![0x5Au8; len];
        let mut bytes = written(&TtlvByteString(value.clone()));
        let pad = (8 - len % 8) % 8;
        assert_eq!(bytes.len(), 1 + 4 + len + pad);
        assert!(bytes[5 + len..].iter().all(|b| *b == 0));
        // What follows the item is left alone.
        bytes.extend([0xEE, 0xEE, 0xEE]);
        let (back, used) = read_back::<TtlvByteString>(&bytes);
        assert_eq!(*back, value);
        assert_eq!(used, 4 + len + pad);
    }
}

#[test]
fn padding_is_not_looked_at() {
    let bytes = [0u8, 0, 0, 4, 0, 0, 0, 7, 1, 2, 3, 4];
    let mut src = ByteReader::new(&bytes);
    assert_eq!(*TtlvInteger::read(&mut src).unwrap(), 7);
    assert_eq!(src.remaining_len(), 0);
}

#[test]
fn missing_padding_is_an_end_of_input() {
    let bytes = [0u8, 0, 0, 4, 0, 0, 0, 7, 0, 0];
    let mut src = ByteReader::new(&bytes);
    assert!(matches!(
        TtlvInteger::read(&mut src),
        Err(Error::IoError(IoErrorKind::UnexpectedEof))
    ));
    assert_eq!(src.remaining_len(), 0);
}

#[test]
fn text_round_trips() {
    for s in ["", "a", "exactly8", "Grüße, 世界 🌍", "\0"] {
        let bytes = written(&TtlvTextString(s.to_string()));
        assert_eq!(bytes[0], 0x07);
        assert_eq!(&bytes[1..5], &(s.len() as u32).to_be_bytes());
        assert_eq!(&bytes[5..5 + s.len()], s.as_bytes());
        assert_eq!((bytes.len() - 5) % 8, 0);
        let (back, used) = read_back::<TtlvTextString>(&bytes);
        assert_eq!(*back, s);
        assert_eq!(used, bytes.len() - 1);
    }
}

#[test]
fn text_that_is_not_utf8_is_refused() {
    for bad in [vec![0xFFu8], vec![0xC3], vec![0xE2, 0x28, 0xA1], vec![0xED, 0xA0, 0x80], vec![0xC0, 0x80]] {
        let mut bytes = (bad.len() as u32).to_be_bytes().to_vec();
        bytes.extend(&bad);
        bytes.extend(vec![0u8; (8 - bad.len() % 8) % 8]);
        let mut src = ByteReader::new(&bytes);
        assert!(matches!(
            TtlvTextString::read(&mut src),
            Err(Error::InvalidTtlvValue(TtlvType::TextString))
        ));
        assert_eq!(src.position(), 4 + bad.len());
    }
}

#[test]
fn byte_string_round_trips() {
    for v in [vec![], vec![0u8], vec![0xFF; 8], (0u8..=255).collect::<Vec<u8>>()] {
        let bytes = written(&TtlvByteString(v.clone()));
        assert_eq!(bytes[0], 0x08);
        let (back, used) = read_back::<TtlvByteString>(&bytes);
        assert_eq!(*back, v);
        assert_eq!(used, bytes.len() - 1);
    }
}

#[test]
fn value_longer_than_the_input_is_an_end_of_input() {
    let bytes = [0u8, 0, 0, 9, 1, 2, 3];
    let mut src = ByteReader::new(&bytes);
    assert!(matches!(
        TtlvByteString::read(&mut src),
        Err(Error::IoError(IoErrorKind::UnexpectedEof))
    ));
    let bytes = [0xFFu8, 0xFF, 0xFF, 0xFF, 1, 2, 3];
    let mut src = ByteReader::new(&bytes);
    assert!(matches!(
        TtlvBigInteger::read(&mut src),
        Err(Error::IoError(IoErrorKind::UnexpectedEof))
    ));
}

#[test]
fn big_integer_0x80_is_sign_extended_with_ones() {
    let bytes = written(&TtlvBigInteger(vec![0x80]));
    assert_eq!(
        bytes,
        vec![0x04, 0, 0, 0, 8, 0xFF, 0xFF, 0xFF, 0xFF, 0xFF, 0xFF, 0xFF, 0x80]
    );
}

#[test]
fn big_integer_that_is_not_negative_is_extended_with_zeros() {
    let bytes = written(&TtlvBigInteger(vec![0x7F, 0x01]));
    assert_eq!(bytes, vec![0x04, 0, 0, 0, 8, 0, 0, 0, 0, 0, 0, 0x7F, 0x01]);
    let (back, used) = read_back::<TtlvBigInteger>(&bytes);
    assert_eq!(*back, vec![0, 0, 0, 0, 0, 0, 0x7F, 0x01]);
    assert_eq!(used, 12);
}

#[test]
fn big_integer_of_eight_bytes_round_trips_as_it_is() {
    for v in [vec![], vec![0x80, 0, 0, 0, 0, 0, 0, 1], vec![1u8; 16]] {
        let bytes = written(&TtlvBigInteger(v.clone()));
        assert_eq!(&bytes[1..5], &(v.len() as u32).to_be_bytes());
        assert_eq!(bytes.len(), 5 + v.len());
        let (back, _) = read_back::<TtlvBigInteger>(&bytes);
        assert_eq!(*back, v);
    }
}

#[test]
fn big_integer_of_nine_bytes_is_extended_to_sixteen() {
    let v = vec![0x90u8, 1, 2, 3, 4, 5, 6, 7, 8];
    let bytes = written(&TtlvBigInteger(v.clone()));
    assert_eq!(&bytes[1..5], &[0, 0, 0, 16]);
    assert_eq!(&bytes[5..12], &[0xFF; 7]);
    assert_eq!(&bytes[12..], &v[..]);
}

#[test]
fn padding_counts_up_to_the_next_multiple_of_eight() {
    let expected = [0u32, 7, 6, 5, 4, 3, 2, 1, 0, 7];
    for (len, pad) in expected.iter().enumerate() {
        assert_eq!(TtlvInteger::calc_pad_bytes(len as u32), *pad);
    }
    assert_eq!(TtlvInteger::calc_pad_bytes(u32::MAX), 1);
    assert_eq!(TtlvInteger::calc_pad_bytes(u32::MAX - 7), 0);
}

#[test]
fn pad_bytes_are_written_as_zeros_and_read_unseen() {
    let mut out = vec![1u8];
    TtlvTextString::write_pad_bytes(&mut out, 6).unwrap();
    assert_eq!(out, vec![1, 0, 0]);
    let mut src = ByteReader::new(&[9, 9, 9]);
    TtlvTextString::read_pad_bytes(&mut src, 6).unwrap();
    assert_eq!(src.position(), 2);
    TtlvTextString::read_pad_bytes(&mut src, 8).unwrap();
    assert_eq!(src.position(), 2);
    assert!(TtlvTextString::read_pad_bytes(&mut src, 5).is_err());
}
