use kmip_ttlv::error::{Error, ErrorKind, ErrorLocation, MalformedTtlvError, SerdeError};
use kmip_ttlv::types::{self, ByteOffset, FieldType, IoErrorKind, TtlvTag, TtlvType};

fn tag(n: u8) -> TtlvTag {
    TtlvTag::from([0x42, 0x00, n])
}

#[test]
fn unknown_location_knows_nothing() {
    let loc = ErrorLocation::unknown();
    assert!(loc.is_unknown());
    assert_eq!(loc.offset(), None);
    assert!(loc.parent_tags().is_empty());
    assert_eq!(loc.tag(), None);
    assert_eq!(loc.ttlv_type(), None);
    assert!(ErrorLocation::default().is_unknown());
}

#[test]
fn any_part_makes_a_location_known() {
    assert!(!ErrorLocation::at(ByteOffset(0)).is_unknown());
    assert!(!ErrorLocation::unknown().with_tag(tag(1)).is_unknown());
    assert!(!ErrorLocation::unknown().with_type(TtlvType::Integer).is_unknown());
    assert!(!ErrorLocation::unknown().with_parent_tags(&[tag(1)]).is_unknown());
    assert!(ErrorLocation::unknown().with_parent_tags(&[]).is_unknown());
}

#[test]
fn what_was_said_first_stays() {
    let loc = ErrorLocation::at(ByteOffset(8))
        .with_tag(tag(1))
        .with_type(TtlvType::Boolean)
        .with_parent_tags(&[tag(7), tag(8)]);
    let loc = loc
        .with_offset(ByteOffset(99))
        .with_tag(tag(2))
        .with_type(TtlvType::Integer)
        .with_parent_tags(&[tag(9)]);
    assert_eq!(loc.offset(), Some(ByteOffset(8)));
    assert_eq!(loc.tag(), Some(tag(1)));
    assert_eq!(loc.ttlv_type(), Some(TtlvType::Boolean));
    assert_eq!(loc.parent_tags(), &[tag(7), tag(8)]);
}

#[test]
fn merge_fills_only_what_is_missing() {
    let inner = ErrorLocation::unknown().with_tag(tag(1));
    let outer = ErrorLocation::at(ByteOffset(16))
        .with_tag(tag(2))
        .with_type(TtlvType::Structure)
        .with_parent_tags(&[tag(3)]);
    let merged = inner.merge(outer);
    assert_eq!(merged.offset(), Some(ByteOffset(16)));
    assert_eq!(merged.tag(), Some(tag(1)));
    assert_eq!(merged.ttlv_type(), Some(TtlvType::Structure));
    assert_eq!(merged.parent_tags(), &[tag(3)]);

    let same = merged.clone().merge(ErrorLocation::unknown());
    assert_eq!(same.offset(), merged.offset());
    assert_eq!(same.tag(), merged.tag());
    assert_eq!(same.ttlv_type(), merged.ttlv_type());
    assert_eq!(same.parent_tags(), merged.parent_tags());
}

#[test]
fn locations_come_from_offsets() {
    assert_eq!(ErrorLocation::from(ByteOffset(5)).offset(), Some(ByteOffset(5)));
    assert_eq!(ErrorLocation::from(5u8).offset(), Some(ByteOffset(5)));
    assert_eq!(ErrorLocation::from(500u16).offset(), Some(ByteOffset(500)));
    assert_eq!(ErrorLocation::from(70_000u32).offset(), Some(ByteOffset(70_000)));
    assert_eq!(ErrorLocation::from(u64::MAX).offset(), Some(ByteOffset(u64::MAX)));
    assert_eq!(ErrorLocation::from(12usize).offset(), Some(ByteOffset(12)));
    assert!(ErrorLocation::from(usize::MAX).is_unknown());
}

#[test]
fn byte_offsets_convert() {
    assert_eq!(ByteOffset::from(7u64), ByteOffset(7));
    assert_eq!(ByteOffset::from(&7u64), ByteOffset(7));
    assert_eq!(*ByteOffset(7), 7);
    assert_eq!(ByteOffset::try_from(7usize), Ok(ByteOffset(7)));
    assert_eq!(ByteOffset::try_from(usize::MAX - 1), Ok(ByteOffset(usize::MAX as u64 - 1)));
    assert_eq!(ByteOffset::try_from(usize::MAX), Err(()));
}

#[test]
fn low_level_failures_sort_into_kinds() {
    assert!(matches!(
        ErrorKind::from(types::Error::IoError(IoErrorKind::UnexpectedEof)),
        ErrorKind::IoError(IoErrorKind::UnexpectedEof)
    ));
    assert!(matches!(
        ErrorKind::from(types::Error::UnexpectedTtlvField {
            expected: FieldType::Length,
            actual: FieldType::Type
        }),
        ErrorKind::MalformedTtlv(MalformedTtlvError::UnexpectedTtlvField {
            expected: FieldType::Length,
            actual: FieldType::Type
        })
    ));
    match ErrorKind::from(types::Error::InvalidTtlvTag("0xZZ".to_string())) {
        ErrorKind::SerdeError(SerdeError::InvalidTag(t)) => assert_eq!(t, "0xZZ"),
        other => panic!("{:?}", other),
    }
    assert!(matches!(
        ErrorKind::from(types::Error::UnsupportedTtlvType(0x0A)),
        ErrorKind::MalformedTtlv(MalformedTtlvError::UnsupportedType(0x0A))
    ));
    assert!(matches!(
        ErrorKind::from(types::Error::InvalidTtlvType(0x0B)),
        ErrorKind::MalformedTtlv(MalformedTtlvError::InvalidType(0x0B))
    ));
    assert!(matches!(
        ErrorKind::from(types::Error::InvalidTtlvValueLength {
            expected: 4,
            actual: 8,
            ttlv_type: TtlvType::Integer
        }),
        ErrorKind::MalformedTtlv(MalformedTtlvError::InvalidLength {
            expected: 4,
            actual: 8,
            ttlv_type: TtlvType::Integer
        })
    ));
    assert!(matches!(
        ErrorKind::from(types::Error::InvalidTtlvValue(TtlvType::Boolean)),
        ErrorKind::MalformedTtlv(MalformedTtlvError::InvalidValue { ttlv_type: TtlvType::Boolean })
    ));
    match ErrorKind::from(types::Error::InvalidStateMachineOperation) {
        ErrorKind::SerdeError(SerdeError::Other(t)) => {
            assert_eq!(t, "Internal error: invalid state machine operaiton")
        }
        other => panic!("{:?}", other),
    }
}

#[test]
fn kinds_wrap_their_parts() {
    assert!(matches!(
        ErrorKind::from(MalformedTtlvError::UnknownStructureLength),
        ErrorKind::MalformedTtlv(MalformedTtlvError::UnknownStructureLength)
    ));
    assert!(matches!(
        ErrorKind::from(SerdeError::MissingIdentifier),
        ErrorKind::SerdeError(SerdeError::MissingIdentifier)
    ));
    assert!(matches!(
        ErrorKind::from(IoErrorKind::UnexpectedEof),
        ErrorKind::IoError(IoErrorKind::UnexpectedEof)
    ));
}

#[test]
fn overflow_takes_anything_that_gives_an_offset() {
    assert!(matches!(
        MalformedTtlvError::overflow(24u64),
        MalformedTtlvError::Overflow { field_end: ByteOffset(24) }
    ));
    assert!(matches!(
        MalformedTtlvError::overflow(ByteOffset(24)),
        MalformedTtlvError::Overflow { field_end: ByteOffset(24) }
    ));
    assert!(matches!(
        MalformedTtlvError::overflow(&24u64),
        MalformedTtlvError::Overflow { field_end: ByteOffset(24) }
    ));
}

#[test]
fn an_error_holds_kind_and_location() {
    let err = Error::new(
        ErrorKind::ResponseSizeExceedsLimit(64),
        ErrorLocation::at(ByteOffset(8)),
    );
    assert!(matches!(err.kind(), ErrorKind::ResponseSizeExceedsLimit(64)));
    assert_eq!(err.location().offset(), Some(ByteOffset(8)));
    let (kind, location) = err.into_inner();
    assert!(matches!(kind, ErrorKind::ResponseSizeExceedsLimit(64)));
    assert_eq!(location.offset(), Some(ByteOffset(8)));
}

#[test]
fn pinpoint_converts_both_parts() {
    let err = Error::pinpoint(types::Error::InvalidTtlvType(0x0B), 3u8);
    assert!(matches!(
        err.kind(),
        ErrorKind::MalformedTtlv(MalformedTtlvError::InvalidType(0x0B))
    ));
    assert_eq!(err.location().offset(), Some(ByteOffset(3)));
    let err = Error::pinpoint(SerdeError::MissingIdentifier, ByteOffset(40));
    assert!(matches!(err.kind(), ErrorKind::SerdeError(SerdeError::MissingIdentifier)));
    assert_eq!(err.location().offset(), Some(ByteOffset(40)));
}
