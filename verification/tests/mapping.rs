use kmip_ttlv::error::{ErrorKind, SerdeError};
use kmip_ttlv::item::{TtlvItem, TtlvValue};
use kmip_ttlv::mapping::{
    match_fields, select_variant, FieldItems, FieldSpec, Occurs, TypeName, VariantMatcher,
};
use kmip_ttlv::types::{
    TtlvEnumeration, TtlvInteger, TtlvTag, TtlvTextString, TtlvType,
};

fn tag(n: u32) -> TtlvTag {
    let b = n.to_be_bytes();
    TtlvTag::from([b[1], b[2], b[3]])
}

fn enumeration(t: u32, v: u32) -> TtlvItem {
    TtlvItem { tag: tag(t), value: TtlvValue::Enumeration(TtlvEnumeration(v)) }
}

fn text(t: u32, s: &str) -> TtlvItem {
    TtlvItem { tag: tag(t), value: TtlvValue::TextString(TtlvTextString(s.to_string())) }
}

fn integer(t: u32, v: i32) -> TtlvItem {
    TtlvItem { tag: tag(t), value: TtlvValue::Integer(TtlvInteger(v)) }
}

fn rule(s: &str) -> VariantMatcher {
    VariantMatcher::parse(s).unwrap()
}

fn bad_rule(s: &str) {
    match VariantMatcher::parse(s) {
        Err(e) => match e.kind() {
            ErrorKind::SerdeError(SerdeError::InvalidVariantMatcherSyntax(t)) => assert_eq!(t, s),
            other => panic!("{:?}", other),
        },
        Ok(m) => panic!("{:?} gave {:?}", s, m),
    }
}

#[test]
fn names_hold_tags() {
    let n = TypeName::parse("0x420001").unwrap();
    assert_eq!(n, TypeName { tag: tag(0x420001), transparent: false });
    let n = TypeName::parse("Transparent:0x42000A").unwrap();
    assert_eq!(n, TypeName { tag: tag(0x42000A), transparent: true });
    let n = TypeName::parse("ffffff").unwrap();
    assert_eq!(n.tag, tag(0xFFFFFF));
}

#[test]
fn what_is_no_name_is_refused_with_its_text() {
    for name in ["", "Transparent:", "transparent:0x01", "0x1000000", "MyType", "Transparent: 0x01"] {
        match TypeName::parse(name) {
            Err(e) => {
                match e.kind() {
                    ErrorKind::SerdeError(SerdeError::InvalidTag(t)) => assert_eq!(t, name),
                    other => panic!("{:?}", other),
                }
                assert!(e.location().is_unknown());
            }
            Ok(n) => panic!("{:?} gave {:?}", name, n),
        }
    }
}

#[test]
fn rules_are_read() {
    assert!(matches!(
        rule("if 0x420001==0x00000002"),
        VariantMatcher::EnumEquals { tag: t, value: 2 } if t == tag(0x420001)
    ));
    assert!(matches!(
        rule("if 0x420001 == 0x2"),
        VariantMatcher::TextEquals { tag: t, text } if t == tag(0x420001) && text == " 0x2"
    ));
    assert!(matches!(
        rule("if 0x420001 >= 0x00000003"),
        VariantMatcher::EnumAtLeast { tag: t, value: 3 } if t == tag(0x420001)
    ));
    assert!(matches!(
        rule("if 0x420001>=0xFFFFFFFF"),
        VariantMatcher::EnumAtLeast { value: u32::MAX, .. }
    ));
    match rule("if 0x420001 in [0x00000001, 0x00000002,0x0000000A]") {
        VariantMatcher::EnumIn { tag: t, values } => {
            assert_eq!(t, tag(0x420001));
            assert_eq!(values, vec![1, 2, 10]);
        }
        other => panic!("{:?}", other),
    }
    match rule("if 0x420001 in[0x7]") {
        VariantMatcher::EnumIn { values, .. } => assert_eq!(values, vec![7]),
        other => panic!("{:?}", other),
    }
    assert!(matches!(
        rule("if 0x420001==Textual Content"),
        VariantMatcher::TextEquals { tag: t, text } if t == tag(0x420001) && text == "Textual Content"
    ));
    assert!(matches!(
        rule("if 0x420001=="),
        VariantMatcher::TextEquals { text, .. } if text.is_empty()
    ));
    assert!(matches!(
        rule("if 0x420001==0xZZ"),
        VariantMatcher::TextEquals { text, .. } if text == "0xZZ"
    ));
    assert!(matches!(
        rule("if 0x420001==Grüße"),
        VariantMatcher::TextEquals { text, .. } if text == "Grüße"
    ));
}

#[test]
fn type_rules_name_each_type() {
    let all = [
        ("Structure", TtlvType::Structure),
        ("Integer", TtlvType::Integer),
        ("LongInteger", TtlvType::LongInteger),
        ("BigInteger", TtlvType::BigInteger),
        ("Enumeration", TtlvType::Enumeration),
        ("Boolean", TtlvType::Boolean),
        ("TextString", TtlvType::TextString),
        ("ByteString", TtlvType::ByteString),
        ("DateTime", TtlvType::DateTime),
    ];
    for (name, ty) in all {
        let text = format!("if type=={}", name);
        assert!(matches!(rule(&text), VariantMatcher::TypeIs { ttlv_type } if ttlv_type == ty));
    }
}

#[test]
fn what_is_no_rule_is_refused_with_its_text() {
    for s in [
        "",
        "if",
        "if ",
        "0x420001==0x1",
        "If 0x420001==0x1",
        "if  0x420001==0x1",
        "if type==Interval",
        "if type==integer",
        "if type== Integer",
        "if type=Integer",
        "if 0x420001",
        "if 0x420001=0x1",
        "if 0x420001>0x1",
        "if 0x420001<=0x1",
        "if 0x1000000==0x1",
        "if tag==0x1",
        "if 0x420001>=",
        "if 0x420001>=ten",
        "if 0x420001>=0x100000000",
        "if 0x420001 in",
        "if 0x420001 in []",
        "if 0x420001 in [0x1",
        "if 0x420001 in 0x1]",
        "if 0x420001 in [0x1,]",
        "if 0x420001 in [,0x1]",
        "if 0x420001 in [0x1 ,0x2]",
        "if 0x420001 in [0x1] ",
        "if 0x420001 in [0x1; 0x2]",
    ] {
        bad_rule(s);
    }
}

#[test]
fn a_rule_looks_at_the_last_item_with_its_tag() {
    let earlier = vec![enumeration(0x420001, 1), integer(0x420002, 5), enumeration(0x420001, 2)];
    assert!(rule("if 0x420001==0x00000002").matches(&earlier, TtlvType::Structure));
    assert!(!rule("if 0x420001==0x00000001").matches(&earlier, TtlvType::Structure));
    assert!(!rule("if 0x420003==0x00000002").matches(&earlier, TtlvType::Structure));
    // An integer is no enumeration.
    assert!(!rule("if 0x420002==0x00000005").matches(&earlier, TtlvType::Structure));
    assert!(!rule("if 0x420001==0x00000002").matches(&[], TtlvType::Structure));
}

#[test]
fn at_least_holds_from_the_constant_on() {
    let earlier = vec![enumeration(0x42006A, 3)];
    assert!(rule("if 0x42006A >= 0x00000002").matches(&earlier, TtlvType::Integer));
    assert!(rule("if 0x42006A >= 0x00000003").matches(&earlier, TtlvType::Integer));
    assert!(!rule("if 0x42006A >= 0x00000004").matches(&earlier, TtlvType::Integer));
    assert!(!rule("if 0x42006B >= 0x00000000").matches(&earlier, TtlvType::Integer));
}

#[test]
fn text_rules_hold_for_the_very_text() {
    let earlier = vec![text(0x42000A, "Cryptographic Algorithm"), enumeration(0x42000B, 1)];
    assert!(rule("if 0x42000A==Cryptographic Algorithm").matches(&earlier, TtlvType::Enumeration));
    assert!(!rule("if 0x42000A==Cryptographic Length").matches(&earlier, TtlvType::Enumeration));
    assert!(!rule("if 0x42000A==cryptographic algorithm").matches(&earlier, TtlvType::Enumeration));
    // An enumeration is no text.
    assert!(!rule("if 0x42000B==1").matches(&earlier, TtlvType::Enumeration));
}

#[test]
fn type_rules_look_at_the_item_itself() {
    let earlier = vec![enumeration(1, 1)];
    assert!(rule("if type==LongInteger").matches(&earlier, TtlvType::LongInteger));
    assert!(!rule("if type==LongInteger").matches(&earlier, TtlvType::Integer));
    assert!(rule("if type==Structure").matches(&[], TtlvType::Structure));
}

#[test]
fn of_two_disjoint_sets_the_one_with_the_value_is_chosen() {
    let rules = vec![
        rule("if 0x42005C in [0x00000001, 0x00000002]"),
        rule("if 0x42005C in [0x00000003, 0x00000004]"),
    ];
    for (seen, chosen) in [(1u32, 0usize), (2, 0), (3, 1), (4, 1)] {
        let earlier = vec![enumeration(0x42005C, seen)];
        assert_eq!(select_variant(&rules, &earlier, TtlvType::Structure).unwrap(), chosen);
    }
    for seen in [0u32, 5, u32::MAX] {
        let earlier = vec![enumeration(0x42005C, seen)];
        let err = select_variant(&rules, &earlier, TtlvType::Structure).unwrap_err();
        assert!(matches!(err.kind(), ErrorKind::SerdeError(SerdeError::MissingIdentifier)));
        assert!(err.location().is_unknown());
    }
}

#[test]
fn the_first_rule_that_holds_is_chosen() {
    let rules = vec![
        rule("if 0x420001==0x00000009"),
        rule("if 0x420001 >= 0x00000001"),
        rule("if type==Integer"),
        rule("if 0x420001 >= 0x00000000"),
    ];
    let earlier = vec![enumeration(0x420001, 5)];
    assert_eq!(select_variant(&rules, &earlier, TtlvType::Integer).unwrap(), 1);
    assert_eq!(select_variant(&rules, &[], TtlvType::Integer).unwrap(), 2);
    assert!(select_variant(&rules, &[], TtlvType::Boolean).is_err());
    assert!(select_variant(&[], &earlier, TtlvType::Integer).is_err());
}

fn field(t: u32, occurs: Occurs) -> FieldSpec {
    FieldSpec { tag: tag(t), occurs }
}

fn at(start: usize, count: usize) -> FieldItems {
    FieldItems { start, count }
}

#[test]
fn fields_take_their_items_in_order() {
    let fields = [
        field(1, Occurs::Once),
        field(2, Occurs::Optional),
        field(3, Occurs::Repeated),
        field(4, Occurs::Once),
    ];
    let items = vec![integer(1, 0), integer(2, 0), integer(3, 0), integer(3, 1), integer(4, 0)];
    assert_eq!(match_fields(&fields, &items).unwrap(), vec![at(0, 1), at(1, 1), at(2, 2), at(4, 1)]);
}

#[test]
fn a_field_that_may_stay_away_takes_nothing() {
    let fields = [
        field(1, Occurs::Once),
        field(2, Occurs::Optional),
        field(3, Occurs::Repeated),
        field(4, Occurs::Once),
    ];
    let items = vec![integer(1, 0), integer(4, 0)];
    assert_eq!(match_fields(&fields, &items).unwrap(), vec![at(0, 1), at(1, 0), at(1, 0), at(1, 1)]);
    assert_eq!(match_fields(&[field(9, Occurs::Optional)], &[]).unwrap(), vec![at(0, 0)]);
    assert_eq!(match_fields(&[], &[]).unwrap(), vec![]);
}

#[test]
fn an_optional_field_takes_only_one() {
    let fields = [field(2, Occurs::Optional)];
    let items = vec![integer(2, 0), integer(2, 1)];
    let err = match_fields(&fields, &items).unwrap_err();
    assert!(matches!(err.kind(), ErrorKind::SerdeError(SerdeError::MissingIdentifier)));
}

#[test]
fn a_field_that_must_come_and_does_not_is_a_failure() {
    let fields = [field(1, Occurs::Once), field(2, Occurs::Once)];
    let err = match_fields(&fields, &[integer(2, 0), integer(1, 0)]).unwrap_err();
    match err.kind() {
        ErrorKind::SerdeError(SerdeError::UnexpectedTag { expected, actual }) => {
            assert_eq!(*expected, tag(1));
            assert_eq!(*actual, tag(2));
        }
        other => panic!("{:?}", other),
    }
    let err = match_fields(&fields, &[integer(1, 0)]).unwrap_err();
    match err.kind() {
        ErrorKind::SerdeError(SerdeError::Other(t)) => assert_eq!(t, "missing field"),
        other => panic!("{:?}", other),
    }
}

#[test]
fn an_item_that_goes_with_no_field_is_a_failure() {
    let fields = [field(1, Occurs::Once)];
    let err = match_fields(&fields, &[integer(1, 0), integer(7, 0)]).unwrap_err();
    assert!(matches!(err.kind(), ErrorKind::SerdeError(SerdeError::MissingIdentifier)));
    let err = match_fields(&[], &[integer(7, 0)]).unwrap_err();
    assert!(matches!(err.kind(), ErrorKind::SerdeError(SerdeError::MissingIdentifier)));
}

#[test]
fn repeated_items_must_come_one_after_another() {
    let fields = [field(3, Occurs::Repeated), field(4, Occurs::Optional)];
    let items = vec![integer(3, 0), integer(4, 0), integer(3, 1)];
    let err = match_fields(&fields, &items).unwrap_err();
    assert!(matches!(err.kind(), ErrorKind::SerdeError(SerdeError::MissingIdentifier)));
}

#[test]
fn a_record_is_wrapped_in_a_structure() {
    let name = TypeName::parse("0x420078").unwrap();
    let item = name.wrap(vec![integer(1, 5), integer(2, 6)]).unwrap();
    assert_eq!(item.tag, tag(0x420078));
    match &item.value {
        TtlvValue::Structure(items) => {
            assert_eq!(items.len(), 2);
            assert_eq!(items[1].tag, tag(2));
        }
        other => panic!("{:?}", other),
    }
    let fields = name.unwrap(item).unwrap();
    assert_eq!(fields.len(), 2);
    assert_eq!(fields[0].tag, tag(1));
    assert!(matches!(&fields[1].value, TtlvValue::Integer(v) if v.0 == 6));
    // A record of no fields is an empty structure.
    let empty = name.wrap(vec![]).unwrap();
    assert!(matches!(&empty.value, TtlvValue::Structure(items) if items.is_empty()));
}

#[test]
fn a_transparent_record_is_its_one_value_under_its_own_tag() {
    let name = TypeName::parse("Transparent:0x42000A").unwrap();
    let item = name.wrap(vec![text(0x999999, "x-custom")]).unwrap();
    assert_eq!(item.tag, tag(0x42000A));
    assert!(matches!(&item.value, TtlvValue::TextString(s) if s.0 == "x-custom"));
    let fields = name.unwrap(item).unwrap();
    assert_eq!(fields.len(), 1);
    assert_eq!(fields[0].tag, tag(0x42000A));
    assert!(matches!(&fields[0].value, TtlvValue::TextString(s) if s.0 == "x-custom"));
}

#[test]
fn a_transparent_record_holds_one_value() {
    let name = TypeName::parse("Transparent:0x42000A").unwrap();
    for fields in [vec![], vec![integer(1, 1), integer(2, 2)]] {
        let err = name.wrap(fields).unwrap_err();
        match err.kind() {
            ErrorKind::SerdeError(SerdeError::Other(t)) => {
                assert_eq!(t, "a transparent type holds one value")
            }
            other => panic!("{:?}", other),
        }
    }
}

#[test]
fn an_item_that_is_not_the_record_is_refused() {
    let name = TypeName::parse("0x420078").unwrap();
    let err = name.unwrap(integer(0x420077, 1)).unwrap_err();
    match err.kind() {
        ErrorKind::SerdeError(SerdeError::UnexpectedTag { expected, actual }) => {
            assert_eq!(*expected, tag(0x420078));
            assert_eq!(*actual, tag(0x420077));
        }
        other => panic!("{:?}", other),
    }
    let err = name.unwrap(integer(0x420078, 1)).unwrap_err();
    assert!(matches!(
        err.kind(),
        ErrorKind::SerdeError(SerdeError::UnexpectedType {
            expected: TtlvType::Structure,
            actual: TtlvType::Integer
        })
    ));
}
