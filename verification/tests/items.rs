use kmip_ttlv::de::{from_slice, item_extent, Config};
use kmip_ttlv::error::{Error, ErrorKind, MalformedTtlvError};
use kmip_ttlv::item::{TtlvItem, TtlvValue};
use kmip_ttlv::ser::to_vec;
use kmip_ttlv::types::{
    ByteOffset, IoErrorKind, TtlvBigInteger, TtlvBoolean, TtlvByteString, TtlvDateTime,
    TtlvEnumeration, TtlvInteger, TtlvLongInteger, TtlvTag, TtlvTextString, TtlvType,
};

fn tag(n: u32) -> TtlvTag {
    let b = n.to_be_bytes();
    TtlvTag::from([b[1], b[2], b[3]])
}

fn item(t: u32, value: TtlvValue) -> TtlvItem {
    TtlvItem { tag: tag(t), value }
}

fn integer(t: u32, v: i32) -> TtlvItem {
    item(t, TtlvValue::Integer(TtlvInteger(v)))
}

fn structure(t: u32, items: Vec<TtlvItem>) -> TtlvItem {
    item(t, TtlvValue::Structure(items))
}

fn same(a: &TtlvItem, b: &TtlvItem) -> bool {
    a.tag == b.tag
        && match (&a.value, &b.value) {
            (TtlvValue::Structure(x), TtlvValue::Structure(y)) => {
                x.len() == y.len() && x.iter().zip(y.iter()).all(|(p, q)| same(p, q))
            }
            (TtlvValue::Integer(x), TtlvValue::Integer(y)) => x.0 == y.0,
            (TtlvValue::LongInteger(x), TtlvValue::LongInteger(y)) => x.0 == y.0,
            (TtlvValue::BigInteger(x), TtlvValue::BigInteger(y)) => x.0 == y.0,
            (TtlvValue::Enumeration(x), TtlvValue::Enumeration(y)) => x.0 == y.0,
            (TtlvValue::Boolean(x), TtlvValue::Boolean(y)) => x.0 == y.0,
            (TtlvValue::TextString(x), TtlvValue::TextString(y)) => x.0 == y.0,
            (TtlvValue::ByteString(x), TtlvValue::ByteString(y)) => x.0 == y.0,
            (TtlvValue::DateTime(x), TtlvValue::DateTime(y)) => x.0 == y.0,
            _ => false,
        }
}

fn kind_and_offset(e: &Error) -> (&ErrorKind, Option<ByteOffset>) {
    (e.kind(), e.location().offset())
}

#[test]
fn empty_structure_is_eight_bytes() {
    let bytes = to_vec(&structure(0x123456, vec![])).unwrap();
    assert_eq!(bytes, vec![0x12, 0x34, 0x56, 0x01, 0, 0, 0, 0]);
}

#[test]
fn structure_of_one_integer_declares_length_16_with_its_header() {
    // The item inside is eight bytes of header and eight of value and
    // padding.
    let bytes = to_vec(&structure(0x420001, vec![integer(0x420002, 3)])).unwrap();
    assert_eq!(
        bytes,
        vec![
            0x42, 0x00, 0x01, 0x01, 0, 0, 0, 16, // structure
            0x42, 0x00, 0x02, 0x02, 0, 0, 0, 4, 0, 0, 0, 3, 0, 0, 0, 0,
        ]
    );
}

#[test]
fn structure_length_counts_the_items_inside_with_their_padding() {
    let one = to_vec(&structure(1, vec![integer(2, 3)])).unwrap();
    let two = to_vec(&structure(1, vec![integer(2, 3), integer(3, 4)])).unwrap();
    let inner_one = u32::from_be_bytes([one[4], one[5], one[6], one[7]]) as usize;
    let inner_two = u32::from_be_bytes([two[4], two[5], two[6], two[7]]) as usize;
    assert_eq!(inner_one, one.len() - 8);
    assert_eq!(inner_two, two.len() - 8);
    // Each integer item adds its header and eight bytes.
    assert_eq!(inner_two - inner_one, 16);
    assert_eq!(inner_one, 16);
}

#[test]
fn nested_structures_count_all_that_is_inside() {
    let tree = structure(
        1,
        vec![
            structure(2, vec![integer(3, 1), item(4, TtlvValue::TextString(TtlvTextString("abcdef".into())))]),
            structure(5, vec![]),
            item(6, TtlvValue::Boolean(TtlvBoolean(true))),
        ],
    );
    let bytes = to_vec(&tree).unwrap();
    assert_eq!(bytes.len() % 8, 0);
    assert_eq!(u32::from_be_bytes([bytes[4], bytes[5], bytes[6], bytes[7]]) as usize, bytes.len() - 8);
    // The first inner structure: integer (16) and text (8 + 6 + 2).
    assert_eq!(&bytes[8..16], &[0, 0, 2, 1, 0, 0, 0, 32]);
    let back = from_slice(&bytes, &Config::new()).unwrap();
    assert!(same(&back, &tree));
}

#[test]
fn every_kind_of_value_round_trips() {
    let tree = structure(
        0x420078,
        vec![
            integer(0x420001, i32::MIN),
            integer(0x420001, i32::MAX),
            item(0x420002, TtlvValue::LongInteger(TtlvLongInteger(i64::MIN))),
            item(0x420003, TtlvValue::BigInteger(TtlvBigInteger(vec![0x80, 0, 0, 0, 0, 0, 0, 1]))),
            item(0x420004, TtlvValue::Enumeration(TtlvEnumeration(u32::MAX))),
            item(0x420005, TtlvValue::Boolean(TtlvBoolean(false))),
            item(0x420005, TtlvValue::Boolean(TtlvBoolean(true))),
            item(0x420006, TtlvValue::TextString(TtlvTextString(String::new()))),
            item(0x420006, TtlvValue::TextString(TtlvTextString("Grüße 🌍".into()))),
            item(0x420007, TtlvValue::ByteString(TtlvByteString(vec![]))),
            item(0x420007, TtlvValue::ByteString(TtlvByteString(vec![1, 2, 3, 4, 5, 6, 7, 8, 9]))),
            item(0x420008, TtlvValue::DateTime(TtlvDateTime(0x47DA67F8))),
            structure(0xFFFFFF, vec![structure(0, vec![integer(1, 0)])]),
        ],
    );
    let bytes = to_vec(&tree).unwrap();
    let back = from_slice(&bytes, &Config::new()).unwrap();
    assert!(same(&back, &tree));
    assert_eq!(to_vec(&back).unwrap(), bytes);
}

#[test]
fn a_primitive_alone_round_trips() {
    let bytes = to_vec(&integer(0x420020, -2)).unwrap();
    assert_eq!(bytes, vec![0x42, 0, 0x20, 2, 0, 0, 0, 4, 0xFF, 0xFF, 0xFF, 0xFE, 0, 0, 0, 0]);
    let back = from_slice(&bytes, &Config::new()).unwrap();
    assert!(same(&back, &integer(0x420020, -2)));
}

#[test]
fn big_integer_comes_back_with_its_sign_extended() {
    let bytes = to_vec(&item(1, TtlvValue::BigInteger(TtlvBigInteger(vec![0x80])))).unwrap();
    assert_eq!(&bytes[4..], &[0, 0, 0, 8, 0xFF, 0xFF, 0xFF, 0xFF, 0xFF, 0xFF, 0xFF, 0x80]);
    let back = from_slice(&bytes, &Config::new()).unwrap();
    match back.value {
        TtlvValue::BigInteger(v) => assert_eq!(v.0, vec![0xFF, 0xFF, 0xFF, 0xFF, 0xFF, 0xFF, 0xFF, 0x80]),
        other => panic!("{:?}", other),
    }
}

#[test]
fn what_follows_the_item_is_left_alone() {
    let mut bytes = to_vec(&structure(1, vec![integer(2, 3)])).unwrap();
    bytes.extend([0xDE, 0xAD]);
    let back = from_slice(&bytes, &Config::new()).unwrap();
    assert!(same(&back, &structure(1, vec![integer(2, 3)])));
}

#[test]
fn value_types_are_told() {
    assert_eq!(TtlvValue::Structure(vec![]).ttlv_type(), TtlvType::Structure);
    assert_eq!(TtlvValue::Integer(TtlvInteger(0)).ttlv_type(), TtlvType::Integer);
    assert_eq!(TtlvValue::DateTime(TtlvDateTime(0)).ttlv_type(), TtlvType::DateTime);
    assert_eq!(TtlvValue::TextString(TtlvTextString(String::new())).ttlv_type(), TtlvType::TextString);
}

#[test]
fn reading_under_a_limit_that_is_kept() {
    let bytes = to_vec(&structure(1, vec![integer(2, 3)])).unwrap();
    assert_eq!(bytes.len(), 24);
    let config = Config::new().with_max_bytes(24);
    assert_eq!(config.max_bytes(), Some(24));
    assert!(from_slice(&bytes, &config).is_ok());
    assert_eq!(item_extent(&bytes, &config).unwrap(), 24);
    assert_eq!(item_extent(&bytes[..8], &config).unwrap(), 24);
}

#[test]
fn reading_over_the_limit_fails_with_the_limit() {
    let bytes = to_vec(&structure(1, vec![integer(2, 3)])).unwrap();
    for limit in [0u32, 7, 8, 23] {
        let err = from_slice(&bytes, &Config::new().with_max_bytes(limit)).unwrap_err();
        match err.kind() {
            ErrorKind::ResponseSizeExceedsLimit(n) => assert_eq!(*n, limit as usize),
            other => panic!("{:?}", other),
        }
        let expected_offset = if limit < 8 { 0 } else { 8 };
        assert_eq!(err.location().offset(), Some(ByteOffset(expected_offset)));
        assert!(item_extent(&bytes, &Config::new().with_max_bytes(limit)).is_err());
    }
}

#[test]
fn the_limit_counts_the_padding_of_a_primitive() {
    let bytes = to_vec(&item(1, TtlvValue::TextString(TtlvTextString("abcdef".into())))).unwrap();
    assert_eq!(bytes.len(), 16);
    assert!(from_slice(&bytes, &Config::new().with_max_bytes(16)).is_ok());
    let err = from_slice(&bytes, &Config::new().with_max_bytes(15)).unwrap_err();
    assert!(matches!(err.kind(), ErrorKind::ResponseSizeExceedsLimit(15)));
    assert_eq!(err.location().tag(), Some(tag(1)));
    assert_eq!(err.location().ttlv_type(), Some(TtlvType::TextString));
}

#[test]
fn a_limit_under_the_header_fails_before_the_bytes_are_looked_at() {
    let err = from_slice(&[0xFF; 3], &Config::new().with_max_bytes(4)).unwrap_err();
    assert!(matches!(err.kind(), ErrorKind::ResponseSizeExceedsLimit(4)));
    assert_eq!(err.location().tag(), None);
}

#[test]
fn no_limit_by_default() {
    assert_eq!(Config::new().max_bytes(), None);
    assert_eq!(Config::default().max_bytes(), None);
}

#[test]
fn truncated_data_is_an_end_of_input() {
    let bytes = to_vec(&structure(1, vec![integer(2, 3)])).unwrap();
    for cut in [0usize, 2, 3, 5, 7] {
        let err = from_slice(&bytes[..cut], &Config::new()).unwrap_err();
        assert!(matches!(err.kind(), ErrorKind::IoError(IoErrorKind::UnexpectedEof)));
        assert_eq!(err.location().offset(), Some(ByteOffset(cut as u64)));
        assert!(err.location().parent_tags().is_empty());
    }
    let err = from_slice(&bytes[..20], &Config::new()).unwrap_err();
    let (kind, offset) = kind_and_offset(&err);
    assert!(matches!(kind, ErrorKind::IoError(IoErrorKind::UnexpectedEof)));
    assert_eq!(offset, Some(ByteOffset(8)));
    assert_eq!(err.location().tag(), Some(tag(1)));
    assert_eq!(err.location().ttlv_type(), Some(TtlvType::Structure));
}

#[test]
fn an_item_that_runs_past_its_structure_overflows() {
    // The structure says 16 bytes, the integer inside says it has 12 bytes
    // of value.
    let bytes = vec![
        0, 0, 1, 1, 0, 0, 0, 16, //
        0, 0, 2, 8, 0, 0, 0, 12, 0, 0, 0, 3, 0, 0, 0, 0, 0, 0, 0, 0, 0, 0, 0, 0,
    ];
    let err = from_slice(&bytes, &Config::new()).unwrap_err();
    match err.kind() {
        ErrorKind::MalformedTtlv(MalformedTtlvError::Overflow { field_end }) => {
            assert_eq!(*field_end, ByteOffset(8 + 8 + 12 + 4))
        }
        other => panic!("{:?}", other),
    }
    assert_eq!(err.location().offset(), Some(ByteOffset(16)));
    assert_eq!(err.location().parent_tags(), &[tag(1)]);
    assert_eq!(err.location().tag(), Some(tag(2)));
    assert_eq!(err.location().ttlv_type(), Some(TtlvType::ByteString));
}

#[test]
fn a_header_cut_off_by_its_structure_is_an_end_of_input() {
    // The structure says 4 bytes: too few for a header inside.
    let bytes = vec![0, 0, 1, 1, 0, 0, 0, 4, 0, 0, 2, 2];
    let err = from_slice(&bytes, &Config::new()).unwrap_err();
    assert!(matches!(err.kind(), ErrorKind::IoError(IoErrorKind::UnexpectedEof)));
    assert_eq!(err.location().offset(), Some(ByteOffset(12)));
    assert_eq!(err.location().parent_tags(), &[tag(1)]);
    assert_eq!(err.location().tag(), Some(tag(2)));
}

#[test]
fn failures_deep_inside_say_where() {
    let good = to_vec(&structure(
        0x0A,
        vec![integer(0x0B, 1), structure(0x0C, vec![item(0x0D, TtlvValue::Boolean(TtlvBoolean(true)))])],
    ))
    .unwrap();
    // Make the boolean hold 2.
    let mut bad = good.clone();
    let last = bad.len() - 1;
    bad[last] = 2;
    let err = from_slice(&bad, &Config::new()).unwrap_err();
    assert!(matches!(
        err.kind(),
        ErrorKind::MalformedTtlv(MalformedTtlvError::InvalidValue { ttlv_type: TtlvType::Boolean })
    ));
    assert_eq!(err.location().offset(), Some(ByteOffset(bad.len() as u64)));
    assert_eq!(err.location().parent_tags(), &[tag(0x0A), tag(0x0C)]);
    assert_eq!(err.location().tag(), Some(tag(0x0D)));
    assert_eq!(err.location().ttlv_type(), Some(TtlvType::Boolean));

    // Make the type of the inner structure the interval type.
    let mut bad = good.clone();
    bad[8 + 16 + 3] = 0x0A;
    let err = from_slice(&bad, &Config::new()).unwrap_err();
    assert!(matches!(
        err.kind(),
        ErrorKind::MalformedTtlv(MalformedTtlvError::UnsupportedType(0x0A))
    ));
    assert_eq!(err.location().offset(), Some(ByteOffset(8 + 16 + 4)));
    assert_eq!(err.location().parent_tags(), &[tag(0x0A)]);
    assert_eq!(err.location().tag(), Some(tag(0x0C)));
    assert_eq!(err.location().ttlv_type(), None);

    // An unknown type byte.
    let mut bad = good.clone();
    bad[3] = 0x0B;
    let err = from_slice(&bad, &Config::new()).unwrap_err();
    assert!(matches!(err.kind(), ErrorKind::MalformedTtlv(MalformedTtlvError::InvalidType(0x0B))));
    assert_eq!(err.location().offset(), Some(ByteOffset(4)));
    assert!(err.location().parent_tags().is_empty());

    // A wrong length for the integer.
    let mut bad = good.clone();
    bad[8 + 7] = 8;
    let err = from_slice(&bad, &Config::new()).unwrap_err();
    assert!(matches!(
        err.kind(),
        ErrorKind::MalformedTtlv(MalformedTtlvError::InvalidLength {
            expected: 4,
            actual: 8,
            ttlv_type: TtlvType::Integer
        })
    ));
    assert_eq!(err.location().offset(), Some(ByteOffset(16)));
}

#[test]
fn text_that_is_not_utf8_fails_inside_a_structure() {
    let bytes = vec![
        0, 0, 1, 1, 0, 0, 0, 16, //
        0, 0, 2, 7, 0, 0, 0, 2, 0xC3, 0x28, 0, 0, 0, 0, 0, 0,
    ];
    let err = from_slice(&bytes, &Config::new()).unwrap_err();
    assert!(matches!(
        err.kind(),
        ErrorKind::MalformedTtlv(MalformedTtlvError::InvalidValue { ttlv_type: TtlvType::TextString })
    ));
    assert_eq!(err.location().offset(), Some(ByteOffset(18)));
}

#[test]
fn a_structure_whose_length_is_no_multiple_of_eight_is_read_as_it_says() {
    // Two bytes of rubbish cannot be an item.
    let bytes = vec![0, 0, 1, 1, 0, 0, 0, 2, 9, 9];
    let err = from_slice(&bytes, &Config::new()).unwrap_err();
    assert!(matches!(err.kind(), ErrorKind::IoError(IoErrorKind::UnexpectedEof)));
    assert_eq!(err.location().parent_tags(), &[tag(1)]);
}
