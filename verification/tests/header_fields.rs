use kmip_ttlv::reader::ByteReader;
use kmip_ttlv::types::{Error, IoErrorKind, TtlvLength, TtlvTag, TtlvType};

#[test]
fn tag_reads_three_big_endian_bytes() {
    let bytes = [0x42u8, 0x00, 0x01, 0xFF];
    let mut src = ByteReader::new(&bytes);
    let tag = TtlvTag::read(&mut src).unwrap();
    assert_eq!(*tag, 0x420001);
    assert_eq!(src.position(), 3);
    assert_eq!(src.remaining_len(), 1);
}

#[test]
fn tag_writes_three_big_endian_bytes() {
    let tag = TtlvTag::from([0x66u8, 0x00, 0x01]);
    let mut out = vec![0xAAu8];
    tag.write(&mut out).unwrap();
    assert_eq!(out, vec![0xAA, 0x66, 0x00, 0x01]);
}

#[test]
fn tag_round_trips_at_both_ends_of_its_range() {
    for raw in [[0u8, 0, 0], [0xFF, 0xFF, 0xFF], [0x42, 0x00, 0x7B]] {
        let tag = TtlvTag::from(&raw);
        let mut out = Vec::new();
        tag.write(&mut out).unwrap();
        assert_eq!(out, raw.to_vec());
        let mut src = ByteReader::new(&out);
        assert_eq!(TtlvTag::read(&mut src).unwrap(), tag);
        assert_eq!(<[u8; 3]>::from(tag), raw);
        assert_eq!(<[u8; 3]>::from(&tag), raw);
    }
}

#[test]
fn tag_read_fails_on_short_input_and_drains_it() {
    let bytes = [0x42u8, 0x00];
    let mut src = ByteReader::new(&bytes);
    assert!(matches!(TtlvTag::read(&mut src), Err(Error::IoError(IoErrorKind::UnexpectedEof))));
    assert_eq!(src.position(), 2);
    assert_eq!(src.remaining_len(), 0);
}

#[test]
fn tag_from_str_accepts_hexadecimal() {
    assert_eq!(*TtlvTag::from_str("0x420001").unwrap(), 0x420001);
    assert_eq!(*TtlvTag::from_str("420001").unwrap(), 0x420001);
    assert_eq!(*TtlvTag::from_str("0xabCDef").unwrap(), 0xABCDEF);
    assert_eq!(*TtlvTag::from_str("0x0x12").unwrap(), 0x12);
    assert_eq!(*TtlvTag::from_str("+7").unwrap(), 7);
    assert_eq!(*TtlvTag::from_str("0x000000000FFFFFF").unwrap(), 0xFFFFFF);
    assert_eq!(*"0x54000A".parse::<TtlvTag>().unwrap(), 0x54000A);
}

#[test]
fn tag_from_str_refuses_what_names_no_tag() {
    for text in ["", "0x", "+", "0x+", "-1", "0xZZ", "12 ", " 12", "0x1000000", "0xFFFFFFFFFF", "++1", "0X12", "é"] {
        match TtlvTag::from_str(text) {
            Err(Error::InvalidTtlvTag(t)) => assert_eq!(t, text),
            other => panic!("{:?} gave {:?}", text, other),
        }
    }
}

#[test]
fn type_codes_are_one_to_nine() {
    let all = [
        (0x01u8, TtlvType::Structure),
        (0x02, TtlvType::Integer),
        (0x03, TtlvType::LongInteger),
        (0x04, TtlvType::BigInteger),
        (0x05, TtlvType::Enumeration),
        (0x06, TtlvType::Boolean),
        (0x07, TtlvType::TextString),
        (0x08, TtlvType::ByteString),
        (0x09, TtlvType::DateTime),
    ];
    for (code, ty) in all {
        assert_eq!(ty.code(), code);
        assert_eq!(TtlvType::try_from(code).unwrap(), ty);
        assert_eq!(<[u8; 1]>::from(ty), [code]);
        let mut out = Vec::new();
        ty.write(&mut out).unwrap();
        assert_eq!(out, vec![code]);
        let mut src = ByteReader::new(&out);
        assert_eq!(TtlvType::read(&mut src).unwrap(), ty);
        assert_eq!(src.position(), 1);
    }
}

#[test]
fn type_byte_0a_is_unsupported_and_0b_is_invalid() {
    let mut src = ByteReader::new(&[0x0A]);
    assert!(matches!(TtlvType::read(&mut src), Err(Error::UnsupportedTtlvType(0x0A))));
    let mut src = ByteReader::new(&[0x0B]);
    assert!(matches!(TtlvType::read(&mut src), Err(Error::InvalidTtlvType(0x0B))));
    assert!(matches!(TtlvType::try_from(0x00), Err(Error::InvalidTtlvType(0x00))));
    assert!(matches!(TtlvType::try_from(0xFF), Err(Error::InvalidTtlvType(0xFF))));
}

#[test]
fn type_read_fails_on_empty_input() {
    let mut src = ByteReader::new(&[]);
    assert!(matches!(TtlvType::read(&mut src), Err(Error::IoError(IoErrorKind::UnexpectedEof))));
}

#[test]
fn length_round_trips() {
    for n in [0u32, 1, 4, 8, 0x0102_0304, u32::MAX] {
        let len = TtlvLength::new(n);
        assert_eq!(*len, n);
        let mut out = Vec::new();
        len.write(&mut out).unwrap();
        assert_eq!(out, n.to_be_bytes().to_vec());
        let mut src = ByteReader::new(&out);
        assert_eq!(TtlvLength::read(&mut src).unwrap(), len);
        assert_eq!(src.position(), 4);
    }
}

#[test]
fn length_read_fails_on_short_input() {
    let mut src = ByteReader::new(&[0, 0, 1]);
    assert!(matches!(TtlvLength::read(&mut src), Err(Error::IoError(IoErrorKind::UnexpectedEof))));
    assert_eq!(src.remaining_len(), 0);
}

#[test]
fn reader_takes_exactly_what_is_asked() {
    let bytes = [1u8, 2, 3, 4, 5];
    let mut src = ByteReader::new(&bytes);
    assert_eq!(src.read_exact(0).unwrap(), &[] as &[u8]);
    assert_eq!(src.read_exact(2).unwrap(), &[1, 2]);
    assert_eq!(src.position(), 2);
    assert_eq!(src.read_exact(3).unwrap(), &[3, 4, 5]);
    assert_eq!(src.remaining_len(), 0);
    assert!(src.read_exact(1).is_err());
}
