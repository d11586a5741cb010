//! The rules by which items are mapped to named data: names that hold tags,
//! and the conditions under which one of several shapes is chosen for an
//! item.

use vstd::prelude::*;
use vstd::slice::slice_subrange;
use vstd::slice::slice_to_vec;
use vstd::string::StringSliceAdditionalSpecFns;
use vstd::utf8::decode_utf8;
use vstd::utf8::valid_utf8;

use crate::error::Error;
use crate::error::ErrorKind;
use crate::error::ErrorLocation;
use crate::error::ErrorLocationView;
use crate::error::ErrorView;
use crate::error::Result;
use crate::error::SerdeError;
use crate::item::ItemView;
use crate::item::TtlvItem;
use crate::item::TtlvValue;
use crate::item::ValueView;
use crate::types::MAX_TAG;
use crate::types::TtlvTag;
use crate::types::TtlvType;
use crate::types::parse_hex;
use crate::types::spec_parse_hex;
use crate::types::spec_parse_tag;
use crate::types::string_from_utf8;

verus! {

// --- Pieces of text ---

/// What is left of `s` after the `prefix` that it begins with, if it begins
/// with it.
pub open spec fn spec_strip_prefix(s: Seq<u8>, prefix: Seq<u8>) -> Option<Seq<u8>> {
    if prefix.len() <= s.len() && s.take(prefix.len() as int) == prefix {
        Some(s.skip(prefix.len() as int))
    } else {
        None
    }
}

/// What is left of `s` after the spaces that it begins with.
pub open spec fn spec_skip_spaces(s: Seq<u8>) -> Seq<u8>
    decreases s.len(),
{
    if s.len() > 0 && s[0] == 0x20 {
        spec_skip_spaces(s.skip(1))
    } else {
        s
    }
}

/// The number of bytes at the front of `s` before the first that is `stop`;
/// all of them where none is.
pub open spec fn spec_len_before(s: Seq<u8>, stop: spec_fn(u8) -> bool) -> nat
    decreases s.len(),
{
    if s.len() == 0 || stop(s[0]) {
        0
    } else {
        1 + spec_len_before(s.skip(1), stop)
    }
}

/// Whether a byte ends the tag that a condition begins with: a space, an
/// equals sign or a greater-than sign.
pub open spec fn spec_ends_tag(b: u8) -> bool {
    b == 0x20 || b == 0x3D || b == 0x3E
}

/// Whether a byte is a comma.
pub open spec fn spec_is_comma(b: u8) -> bool {
    b == 0x2C
}

fn strip_prefix<'a>(s: &'a [u8], prefix: &[u8]) -> (r: Option<&'a [u8]>)
    ensures
        match spec_strip_prefix(s@, prefix@) {
            Some(rest) => r matches Some(left) && left@ == rest,
            None => r is None,
        },
{
    if prefix.len() > s.len() {
        return None;
    }
    let mut i: usize = 0;
    while i < prefix.len()
        invariant
            i <= prefix@.len() <= s@.len(),
            s@.take(i as int) == prefix@.take(i as int),
        decreases prefix@.len() - i,
    {
        if s[i] != prefix[i] {
            assert(s@.take(prefix@.len() as int)[i as int] != prefix@[i as int]);
            return None;
        }
        i = i + 1;
        assert(s@.take(i as int) =~= s@.take(i - 1).push(s@[i - 1]));
        assert(prefix@.take(i as int) =~= prefix@.take(i - 1).push(prefix@[i - 1]));
    }
    assert(prefix@.take(i as int) =~= prefix@);
    Some(slice_subrange(s, prefix.len(), s.len()))
}

fn skip_spaces<'a>(s: &'a [u8]) -> (r: &'a [u8])
    ensures
        r@ == spec_skip_spaces(s@),
{
    let mut i: usize = 0;
    assert(s@.skip(0) =~= s@);
    while i < s.len() && s[i] == 0x20
        invariant
            i <= s@.len(),
            spec_skip_spaces(s@) == spec_skip_spaces(s@.skip(i as int)),
        decreases s@.len() - i,
    {
        assert(s@.skip(i as int).skip(1) =~= s@.skip(i + 1));
        i = i + 1;
    }
    slice_subrange(s, i, s.len())
}

fn bytes_eq(a: &[u8], b: &[u8]) -> (r: bool)
    ensures
        r == (a@ == b@),
{
    match strip_prefix(a, b) {
        Some(rest) => {
            assert(a@.take(b@.len() as int) =~= a@ <==> a@.len() == b@.len());
            rest.len() == 0
        },
        None => {
            assert(a@ == b@ ==> a@.take(b@.len() as int) =~= b@);
            false
        },
    }
}

fn len_before_tag_end(s: &[u8]) -> (n: usize)
    ensures
        n == spec_len_before(s@, |b: u8| spec_ends_tag(b)),
        n <= s@.len(),
{
    let ghost stop = |b: u8| spec_ends_tag(b);
    let mut i: usize = 0;
    assert(s@.skip(0) =~= s@);
    while i < s.len() && !(s[i] == 0x20 || s[i] == 0x3D || s[i] == 0x3E)
        invariant
            i <= s@.len(),
            stop == (|b: u8| spec_ends_tag(b)),
            spec_len_before(s@, stop) == i + spec_len_before(s@.skip(i as int), stop),
        decreases s@.len() - i,
    {
        assert(s@.skip(i as int).skip(1) =~= s@.skip(i + 1));
        assert(!stop(s@.skip(i as int)[0]));
        i = i + 1;
    }
    proof {
        if i < s@.len() {
            assert(stop(s@.skip(i as int)[0]));
        }
    }
    i
}

fn len_before_comma(s: &[u8]) -> (n: usize)
    ensures
        n == spec_len_before(s@, |b: u8| spec_is_comma(b)),
        n <= s@.len(),
{
    let ghost stop = |b: u8| spec_is_comma(b);
    let mut i: usize = 0;
    assert(s@.skip(0) =~= s@);
    while i < s.len() && s[i] != 0x2C
        invariant
            i <= s@.len(),
            stop == (|b: u8| spec_is_comma(b)),
            spec_len_before(s@, stop) == i + spec_len_before(s@.skip(i as int), stop),
        decreases s@.len() - i,
    {
        assert(s@.skip(i as int).skip(1) =~= s@.skip(i + 1));
        assert(!stop(s@.skip(i as int)[0]));
        i = i + 1;
    }
    proof {
        if i < s@.len() {
            assert(stop(s@.skip(i as int)[0]));
        }
    }
    i
}

// --- Names ---

/// The prefix of the name of a type that is written as the one value inside
/// it, with no structure around that value.
pub const TRANSPARENT_PREFIX: &'static str = "Transparent:";

/// What the name of a mapped type or field says: the tag that items of it
/// have, and whether a type of one field is written as that field's value
/// alone, under the tag of the type.
#[derive(Clone, Copy, Debug, PartialEq, Eq)]
pub struct TypeName {
    pub tag: TtlvTag,
    pub transparent: bool,
}

/// What a name says, if it is a name: a tag in hexadecimal, which the
/// prefix for transparent types may come before.
pub open spec fn spec_parse_type_name(name: Seq<u8>) -> Option<(u32, bool)> {
    match spec_strip_prefix(name, TRANSPARENT_PREFIX.spec_bytes()) {
        Some(rest) => match spec_parse_tag(rest) {
            Some(tag) => Some((tag, true)),
            None => None,
        },
        None => match spec_parse_tag(name) {
            Some(tag) => Some((tag, false)),
            None => None,
        },
    }
}

impl TypeName {
    /// Reads the name of a mapped type or field.
    ///
    /// What is no name is refused, and the failure holds the text.
    pub fn parse(name: &str) -> (r: Result<TypeName>)
        ensures
            match spec_parse_type_name(name.spec_bytes()) {
                Some((tag, transparent)) => {
                    &&& r matches Ok(n)
                    &&& n.tag@ == tag
                    &&& n.tag == TtlvTag::spec_of(tag)
                    &&& n.transparent == transparent
                },
                None => {
                    &&& r matches Err(e)
                    &&& e@.kind matches ErrorKind::SerdeError(SerdeError::InvalidTag(text))
                    &&& text@ == name@
                    &&& e@.location == ErrorLocationView::unknown()
                },
            },
    {
        let bytes = name.as_bytes();
        let (digits, transparent) = match strip_prefix(bytes, TRANSPARENT_PREFIX.as_bytes()) {
            Some(rest) => (rest, true),
            None => (bytes, false),
        };
        match parse_hex(digits, MAX_TAG) {
            Some(value) => {
                let tag = tag_of(value);
                Ok(TypeName { tag, transparent })
            },
            None => Err(
                Error::new(
                    ErrorKind::SerdeError(SerdeError::InvalidTag(name.to_owned())),
                    ErrorLocation::unknown(),
                ),
            ),
        }
    }
}

/// The text of the failure where a transparent type is given another
/// number of values than one.
pub const NOT_ONE_VALUE: &'static str = "a transparent type holds one value";

/// The item that a record is written as: a structure of the items of its
/// fields under the tag of the record; for a transparent record, the value
/// of its one field under the tag of the record, with no structure around
/// it. Nothing where a transparent record has another number of fields
/// than one.
pub open spec fn spec_wrap(tag: u32, transparent: bool, fields: Seq<ItemView>) -> Option<ItemView> {
    if !transparent {
        Some(ItemView { tag, value: ValueView::Structure(fields) })
    } else if fields.len() == 1 {
        Some(ItemView { tag, value: fields[0].value })
    } else {
        None
    }
}

/// Why an item is not the item of a record.
pub enum Unfit {
    /// The item has another tag than the record.
    UnexpectedTag { expected: u32, actual: u32 },
    /// The item is no structure, and the record is not transparent.
    UnexpectedType { expected: TtlvType, actual: TtlvType },
}

/// The items of the fields of a record, taken out of the item that the
/// record was written as: the items inside the structure; for a transparent
/// record, the item itself, which holds the value of the one field.
pub open spec fn spec_unwrap(tag: u32, transparent: bool, item: ItemView) -> std::result::Result<
    Seq<ItemView>,
    Unfit,
> {
    if item.tag != tag {
        Err(Unfit::UnexpectedTag { expected: tag, actual: item.tag })
    } else if transparent {
        Ok(seq![item])
    } else {
        match item.value {
            ValueView::Structure(items) => Ok(items),
            v => Err(
                Unfit::UnexpectedType { expected: TtlvType::Structure, actual: v.ttlv_type() },
            ),
        }
    }
}

/// Whether `e` is the failure that says `u`. No place in the data is said.
pub open spec fn spec_is_unfit(e: ErrorView, u: Unfit) -> bool {
    &&& e.location == ErrorLocationView::unknown()
    &&& match u {
        Unfit::UnexpectedTag { expected, actual } => e.kind == ErrorKind::SerdeError(
            SerdeError::UnexpectedTag {
                expected: TtlvTag::spec_of(expected),
                actual: TtlvTag::spec_of(actual),
            },
        ),
        Unfit::UnexpectedType { expected, actual } => e.kind == ErrorKind::SerdeError(
            SerdeError::UnexpectedType { expected, actual },
        ),
    }
}

/// What was wrapped is unwrapped again: the items of the fields come back
/// as they were, but that the one item of a transparent record comes back
/// under the tag of the record.
pub proof fn lemma_wrap_unwrap(tag: u32, transparent: bool, fields: Seq<ItemView>)
    requires
        spec_wrap(tag, transparent, fields) is Some,
    ensures
        spec_unwrap(tag, transparent, spec_wrap(tag, transparent, fields)->0) == Ok::<
            Seq<ItemView>,
            Unfit,
        >(
            if transparent {
                seq![ItemView { tag, value: fields[0].value }]
            } else {
                fields
            },
        ),
{
}

impl TypeName {
    /// The item that a record of this name is written as, where `fields`
    /// are the items of its fields.
    ///
    /// For a transparent record that is the value of its one field, under
    /// the tag of the record; another number of fields than one is
    /// refused.
    pub fn wrap(&self, fields: Vec<TtlvItem>) -> (r: Result<TtlvItem>)
        ensures
            match spec_wrap(self.tag@, self.transparent, crate::item::items_view(fields@)) {
                Some(item) => r matches Ok(wrapped) && wrapped@ == item,
                None => {
                    &&& r matches Err(e)
                    &&& e@.kind matches ErrorKind::SerdeError(SerdeError::Other(text))
                    &&& text@ == NOT_ONE_VALUE@
                    &&& e@.location == ErrorLocationView::unknown()
                },
            },
    {
        proof {
            crate::item::lemma_items_view(fields@);
        }
        if !self.transparent {
            return Ok(TtlvItem { tag: self.tag, value: TtlvValue::Structure(fields) });
        }
        let mut fields = fields;
        if fields.len() != 1 {
            return Err(mismatch(SerdeError::Other(NOT_ONE_VALUE.to_owned())));
        }
        match fields.pop() {
            Some(only) => Ok(TtlvItem { tag: self.tag, value: only.value }),
            None => Err(mismatch(SerdeError::Other(NOT_ONE_VALUE.to_owned()))),
        }
    }

    /// The items of the fields of a record of this name, taken out of the
    /// item that the record was written as.
    ///
    /// An item with another tag is refused, and so is an item that is no
    /// structure where the record is not transparent.
    pub fn unwrap(&self, item: TtlvItem) -> (r: Result<Vec<TtlvItem>>)
        ensures
            match spec_unwrap(self.tag@, self.transparent, item@) {
                Ok(fields) => r matches Ok(v) && crate::item::items_view(v@) == fields,
                Err(u) => r matches Err(e) && spec_is_unfit(e@, u),
            },
    {
        if *item.tag != *self.tag {
            return Err(
                mismatch(SerdeError::UnexpectedTag { expected: self.tag, actual: item.tag }),
            );
        }
        if self.transparent {
            let ghost view = item@;
            let mut fields: Vec<TtlvItem> = Vec::new();
            fields.push(item);
            proof {
                crate::item::lemma_items_view(fields@);
                assert(crate::item::items_view(fields@) =~= seq![view]);
            }
            return Ok(fields);
        }
        match item.value {
            TtlvValue::Structure(items) => Ok(items),
            other => Err(
                mismatch(
                    SerdeError::UnexpectedType {
                        expected: TtlvType::Structure,
                        actual: other.ttlv_type(),
                    },
                ),
            ),
        }
    }
}

/// The tag with the number `value`.
fn tag_of(value: u32) -> (tag: TtlvTag)
    requires
        value <= MAX_TAG,
    ensures
        tag@ == value,
        tag == TtlvTag::spec_of(value),
{
    let tag = TtlvTag::from(
        [(value / 0x1_0000) as u8, (value / 0x100 % 0x100) as u8, (value % 0x100) as u8],
    );
    proof {
        TtlvTag::lemma_from_bytes(
            [(value / 0x1_0000) as u8, (value / 0x100 % 0x100) as u8, (value % 0x100) as u8],
        );
    }
    tag
}

// --- Rules that choose a variant ---

/// A rule that says when one of several shapes is the one for an item: a
/// condition on a value that came earlier among the items beside it, or on
/// the type of the item itself.
#[derive(Debug)]
pub enum VariantMatcher {
    /// `if TAG==0xVALUE`: the last enumeration with the tag was the value.
    EnumEquals { tag: TtlvTag, value: u32 },
    /// `if TAG in [0xVALUE, ..]`: the last enumeration with the tag was one
    /// of the values.
    EnumIn { tag: TtlvTag, values: Vec<u32> },
    /// `if TAG>=0xVALUE`: the last enumeration with the tag was at least
    /// the value.
    EnumAtLeast { tag: TtlvTag, value: u32 },
    /// `if TAG==text`: the last text string with the tag was the text.
    TextEquals { tag: TtlvTag, text: String },
    /// `if type==NAME`: the item has the type of that name.
    TypeIs { ttlv_type: TtlvType },
}

/// What a [`VariantMatcher`] looks like to a contract.
pub enum MatcherView {
    EnumEquals { tag: u32, value: u32 },
    EnumIn { tag: u32, values: Seq<u32> },
    EnumAtLeast { tag: u32, value: u32 },
    TextEquals { tag: u32, text: Seq<char> },
    TypeIs { ttlv_type: TtlvType },
}

impl View for VariantMatcher {
    type V = MatcherView;

    open spec fn view(&self) -> MatcherView {
        match self {
            VariantMatcher::EnumEquals { tag, value } => MatcherView::EnumEquals {
                tag: tag@,
                value: *value,
            },
            VariantMatcher::EnumIn { tag, values } => MatcherView::EnumIn {
                tag: tag@,
                values: values@,
            },
            VariantMatcher::EnumAtLeast { tag, value } => MatcherView::EnumAtLeast {
                tag: tag@,
                value: *value,
            },
            VariantMatcher::TextEquals { tag, text } => MatcherView::TextEquals {
                tag: tag@,
                text: text@,
            },
            VariantMatcher::TypeIs { ttlv_type } => MatcherView::TypeIs { ttlv_type: *ttlv_type },
        }
    }
}

/// The type with a name, if the name is that of a type: the names are
/// those of the types, without spaces.
pub open spec fn spec_type_by_name(name: Seq<u8>) -> Option<TtlvType> {
    if name == "Structure".spec_bytes() {
        Some(TtlvType::Structure)
    } else if name == "Integer".spec_bytes() {
        Some(TtlvType::Integer)
    } else if name == "LongInteger".spec_bytes() {
        Some(TtlvType::LongInteger)
    } else if name == "BigInteger".spec_bytes() {
        Some(TtlvType::BigInteger)
    } else if name == "Enumeration".spec_bytes() {
        Some(TtlvType::Enumeration)
    } else if name == "Boolean".spec_bytes() {
        Some(TtlvType::Boolean)
    } else if name == "TextString".spec_bytes() {
        Some(TtlvType::TextString)
    } else if name == "ByteString".spec_bytes() {
        Some(TtlvType::ByteString)
    } else if name == "DateTime".spec_bytes() {
        Some(TtlvType::DateTime)
    } else {
        None
    }
}

/// The numbers that a list names, if it is a list: numbers in hexadecimal
/// with commas between them, each of which spaces may come before.
pub open spec fn spec_parse_list(s: Seq<u8>) -> Option<Seq<u32>>
    decreases s.len(),
{
    let n = spec_len_before(s, |b: u8| spec_is_comma(b));
    match spec_parse_hex(spec_skip_spaces(s.take(n as int)), u32::MAX) {
        None => None,
        Some(v) => if n >= s.len() {
            Some(seq![v])
        } else {
            spec_list_after(seq![v], spec_parse_list(s.skip(n as int + 1)))
        },
    }
}

/// The numbers that a list names where `done` are its first numbers and
/// `rest` is what the rest of it names.
pub open spec fn spec_list_after(done: Seq<u32>, rest: Option<Seq<u32>>) -> Option<Seq<u32>> {
    match rest {
        Some(values) => Some(done + values),
        None => None,
    }
}

/// What comes after the tag of a condition: the thing that the value with
/// that tag is held against.
pub open spec fn spec_parse_comparison(tag: u32, rest: Seq<u8>) -> Option<MatcherView> {
    if let Some(literal) = spec_strip_prefix(rest, "==".spec_bytes()) {
        // What begins like a number and is one is a number; all else is
        // text.
        if spec_strip_prefix(literal, "0x".spec_bytes()) is Some && spec_parse_hex(
            literal,
            u32::MAX,
        ) is Some {
            Some(MatcherView::EnumEquals { tag, value: spec_parse_hex(literal, u32::MAX)->0 })
        } else if valid_utf8(literal) {
            Some(MatcherView::TextEquals { tag, text: decode_utf8(literal) })
        } else {
            None
        }
    } else if let Some(number) = spec_strip_prefix(rest, ">=".spec_bytes()) {
        match spec_parse_hex(spec_skip_spaces(number), u32::MAX) {
            Some(value) => Some(MatcherView::EnumAtLeast { tag, value }),
            None => None,
        }
    } else if let Some(after) = spec_strip_prefix(rest, "in".spec_bytes()) {
        let list = spec_skip_spaces(after);
        if list.len() >= 2 && list[0] == 0x5B && list.last() == 0x5D {
            match spec_parse_list(list.subrange(1, list.len() - 1)) {
                Some(values) => Some(MatcherView::EnumIn { tag, values }),
                None => None,
            }
        } else {
            None
        }
    } else {
        None
    }
}

/// The rule that a text states, if it states one.
///
/// A rule is the word `if`, a space, and a condition. The condition is
/// `type==` and the name of a type; or a tag in hexadecimal, spaces if any,
/// and one of: `==` and a value, `>=` and a number, `in` and a list of
/// numbers in square brackets. After `>=` and after `in` spaces may come.
/// The value after `==` is all that follows, as it is: a number in
/// hexadecimal that begins with `0x`, or else a text.
pub open spec fn spec_parse_matcher(rule: Seq<u8>) -> Option<MatcherView> {
    match spec_strip_prefix(rule, "if ".spec_bytes()) {
        None => None,
        Some(condition) => {
            if let Some(name) = spec_strip_prefix(condition, "type==".spec_bytes()) {
                match spec_type_by_name(name) {
                    Some(ttlv_type) => Some(MatcherView::TypeIs { ttlv_type }),
                    None => None,
                }
            } else {
                let n = spec_len_before(condition, |b: u8| spec_ends_tag(b));
                match spec_parse_tag(condition.take(n as int)) {
                    None => None,
                    Some(tag) => spec_parse_comparison(
                        tag,
                        spec_skip_spaces(condition.skip(n as int)),
                    ),
                }
            }
        },
    }
}

fn type_by_name(name: &[u8]) -> (r: Option<TtlvType>)
    ensures
        r == spec_type_by_name(name@),
{
    if bytes_eq(name, "Structure".as_bytes()) {
        Some(TtlvType::Structure)
    } else if bytes_eq(name, "Integer".as_bytes()) {
        Some(TtlvType::Integer)
    } else if bytes_eq(name, "LongInteger".as_bytes()) {
        Some(TtlvType::LongInteger)
    } else if bytes_eq(name, "BigInteger".as_bytes()) {
        Some(TtlvType::BigInteger)
    } else if bytes_eq(name, "Enumeration".as_bytes()) {
        Some(TtlvType::Enumeration)
    } else if bytes_eq(name, "Boolean".as_bytes()) {
        Some(TtlvType::Boolean)
    } else if bytes_eq(name, "TextString".as_bytes()) {
        Some(TtlvType::TextString)
    } else if bytes_eq(name, "ByteString".as_bytes()) {
        Some(TtlvType::ByteString)
    } else if bytes_eq(name, "DateTime".as_bytes()) {
        Some(TtlvType::DateTime)
    } else {
        None
    }
}

fn parse_list(s: &[u8]) -> (r: Option<Vec<u32>>)
    ensures
        match spec_parse_list(s@) {
            Some(values) => r matches Some(v) && v@ == values,
            None => r is None,
        },
{
    let mut values: Vec<u32> = Vec::new();
    let mut pos: usize = 0;
    proof {
        assert(s@.skip(0) =~= s@);
        let whole = spec_parse_list(s@);
        if let Some(v) = whole {
            assert(Seq::<u32>::empty() + v =~= v);
        }
    }
    loop
        invariant
            pos <= s@.len(),
            values@.len() == 0 ==> spec_parse_list(s@) == spec_parse_list(s@.skip(pos as int)),
            values@.len() > 0 ==> spec_parse_list(s@) == spec_list_after(
                values@,
                spec_parse_list(s@.skip(pos as int)),
            ),
        decreases s@.len() - pos,
    {
        let rest = slice_subrange(s, pos, s.len());
        assert(rest@ =~= s@.skip(pos as int));
        let n = len_before_comma(rest);
        let element = skip_spaces(slice_subrange(rest, 0, n));
        assert(rest@.subrange(0, n as int) =~= rest@.take(n as int));
        match parse_hex(element, u32::MAX) {
            None => {
                return None;
            },
            Some(v) => {
                let ghost before = values@;
                values.push(v);
                if n >= rest.len() {
                    proof {
                        assert(before + seq![v] =~= values@);
                    }
                    return Some(values);
                }
                proof {
                    assert(rest@.skip(n + 1) =~= s@.skip(pos + n + 1));
                    let next = spec_parse_list(rest@.skip(n + 1));
                    if let Some(more) = next {
                        assert(before + (seq![v] + more) =~= values@ + more);
                    }
                }
                pos = pos + n + 1;
            },
        }
    }
}

fn syntax_failure(rule: &str) -> (e: Error)
    ensures
        e@.kind matches ErrorKind::SerdeError(SerdeError::InvalidVariantMatcherSyntax(text))
            && text@ == rule@,
        e@.location == ErrorLocationView::unknown(),
{
    Error::new(
        ErrorKind::SerdeError(SerdeError::InvalidVariantMatcherSyntax(rule.to_owned())),
        ErrorLocation::unknown(),
    )
}

fn parse_comparison(tag: TtlvTag, rest: &[u8]) -> (r: Option<VariantMatcher>)
    ensures
        match spec_parse_comparison(tag@, rest@) {
            Some(m) => r matches Some(matcher) && matcher@ == m,
            None => r is None,
        },
{
    if let Some(literal) = strip_prefix(rest, "==".as_bytes()) {
        if strip_prefix(literal, "0x".as_bytes()).is_some() {
            if let Some(value) = parse_hex(literal, u32::MAX) {
                return Some(VariantMatcher::EnumEquals { tag, value });
            }
        }
        match string_from_utf8(slice_to_vec(literal)) {
            Some(text) => Some(VariantMatcher::TextEquals { tag, text }),
            None => None,
        }
    } else if let Some(number) = strip_prefix(rest, ">=".as_bytes()) {
        match parse_hex(skip_spaces(number), u32::MAX) {
            Some(value) => Some(VariantMatcher::EnumAtLeast { tag, value }),
            None => None,
        }
    } else if let Some(after) = strip_prefix(rest, "in".as_bytes()) {
        let list = skip_spaces(after);
        if list.len() >= 2 && list[0] == 0x5B && list[list.len() - 1] == 0x5D {
            match parse_list(slice_subrange(list, 1, list.len() - 1)) {
                Some(values) => Some(VariantMatcher::EnumIn { tag, values }),
                None => None,
            }
        } else {
            None
        }
    } else {
        None
    }
}

impl VariantMatcher {
    /// Reads a rule.
    ///
    /// What is no rule is refused, and the failure holds the text.
    pub fn parse(rule: &str) -> (r: Result<VariantMatcher>)
        ensures
            match spec_parse_matcher(rule.spec_bytes()) {
                Some(m) => r matches Ok(matcher) && matcher@ == m,
                None => {
                    &&& r matches Err(e)
                    &&& e@.kind matches ErrorKind::SerdeError(
                        SerdeError::InvalidVariantMatcherSyntax(text),
                    )
                    &&& text@ == rule@
                    &&& e@.location == ErrorLocationView::unknown()
                },
            },
    {
        let bytes = rule.as_bytes();
        let condition = match strip_prefix(bytes, "if ".as_bytes()) {
            Some(condition) => condition,
            None => {
                return Err(syntax_failure(rule));
            },
        };
        if let Some(name) = strip_prefix(condition, "type==".as_bytes()) {
            return match type_by_name(name) {
                Some(ttlv_type) => Ok(VariantMatcher::TypeIs { ttlv_type }),
                None => Err(syntax_failure(rule)),
            };
        }
        let n = len_before_tag_end(condition);
        assert(condition@.subrange(0, n as int) =~= condition@.take(n as int));
        let tag = match parse_hex(slice_subrange(condition, 0, n), MAX_TAG) {
            Some(value) => tag_of(value),
            None => {
                return Err(syntax_failure(rule));
            },
        };
        let rest = skip_spaces(slice_subrange(condition, n, condition.len()));
        match parse_comparison(tag, rest) {
            Some(matcher) => Ok(matcher),
            None => Err(syntax_failure(rule)),
        }
    }
}

// --- Choosing a variant ---

/// The value of the last of `items` that has the tag `tag`, if one has it.
pub open spec fn spec_last_with_tag(items: Seq<ItemView>, tag: u32) -> Option<ValueView>
    decreases items.len(),
{
    if items.len() == 0 {
        None
    } else if items.last().tag == tag {
        Some(items.last().value)
    } else {
        spec_last_with_tag(items.drop_last(), tag)
    }
}

impl MatcherView {
    /// Whether the rule holds for an item of the type `ttlv_type` that comes
    /// after the items `earlier` in one structure.
    pub open spec fn holds(self, earlier: Seq<ItemView>, ttlv_type: TtlvType) -> bool {
        match self {
            MatcherView::EnumEquals { tag, value } => spec_last_with_tag(earlier, tag) == Some(
                ValueView::Enumeration(value),
            ),
            MatcherView::EnumIn { tag, values } => {
                &&& spec_last_with_tag(earlier, tag) matches Some(ValueView::Enumeration(seen))
                &&& values.contains(seen)
            },
            MatcherView::EnumAtLeast { tag, value } => {
                &&& spec_last_with_tag(earlier, tag) matches Some(ValueView::Enumeration(seen))
                &&& seen >= value
            },
            MatcherView::TextEquals { tag, text } => spec_last_with_tag(earlier, tag) == Some(
                ValueView::TextString(text),
            ),
            MatcherView::TypeIs { ttlv_type: wanted } => ttlv_type == wanted,
        }
    }
}

/// The views of rules, in their order.
pub open spec fn matchers_view(rules: Seq<VariantMatcher>) -> Seq<MatcherView> {
    rules.map_values(|m: VariantMatcher| m@)
}

/// The place of the first of `rules` that holds, if any holds.
pub open spec fn spec_select(rules: Seq<MatcherView>, earlier: Seq<ItemView>, ttlv_type: TtlvType) -> Option<
    nat,
>
    decreases rules.len(),
{
    if rules.len() == 0 {
        None
    } else if spec_select(rules.drop_last(), earlier, ttlv_type) is Some {
        spec_select(rules.drop_last(), earlier, ttlv_type)
    } else if rules.last().holds(earlier, ttlv_type) {
        Some((rules.len() - 1) as nat)
    } else {
        None
    }
}

/// The failure of choosing where no rule holds.
pub open spec fn spec_no_match() -> ErrorView {
    ErrorView {
        kind: ErrorKind::SerdeError(SerdeError::MissingIdentifier),
        location: ErrorLocationView::unknown(),
    }
}

/// The rule that is chosen holds and none before it does; where none is
/// chosen, none holds.
pub proof fn lemma_select(rules: Seq<MatcherView>, earlier: Seq<ItemView>, ttlv_type: TtlvType)
    ensures
        match spec_select(rules, earlier, ttlv_type) {
            Some(i) => {
                &&& i < rules.len()
                &&& rules[i as int].holds(earlier, ttlv_type)
                &&& forall|j: int| 0 <= j < i ==> !(#[trigger] rules[j]).holds(earlier, ttlv_type)
            },
            None => forall|j: int|
                0 <= j < rules.len() ==> !(#[trigger] rules[j]).holds(earlier, ttlv_type),
        },
    decreases rules.len(),
{
    if rules.len() > 0 {
        lemma_select(rules.drop_last(), earlier, ttlv_type);
        assert forall|j: int| 0 <= j < rules.len() - 1 implies rules[j] == rules.drop_last()[j] by {}
    }
}

/// Of two rules that ask whether the same earlier enumeration is in a set,
/// with no value in both sets, a value in one set chooses the rule of that
/// set, and a value in neither chooses none.
pub proof fn lemma_disjoint_sets_choose_one(
    tag: u32,
    first: Seq<u32>,
    second: Seq<u32>,
    earlier: Seq<ItemView>,
    ttlv_type: TtlvType,
    seen: u32,
)
    requires
        forall|v: u32| !(first.contains(v) && second.contains(v)),
        spec_last_with_tag(earlier, tag) == Some(ValueView::Enumeration(seen)),
    ensures
        spec_select(
            seq![
                MatcherView::EnumIn { tag, values: first },
                MatcherView::EnumIn { tag, values: second },
            ],
            earlier,
            ttlv_type,
        ) == if first.contains(seen) {
            Some(0nat)
        } else if second.contains(seen) {
            Some(1nat)
        } else {
            None
        },
{
    let rules = seq![
        MatcherView::EnumIn { tag, values: first },
        MatcherView::EnumIn { tag, values: second },
    ];
    lemma_select(rules, earlier, ttlv_type);
    assert(rules[0].holds(earlier, ttlv_type) == first.contains(seen));
    assert(rules[1].holds(earlier, ttlv_type) == second.contains(seen));
}

fn last_with_tag<'a>(items: &'a [TtlvItem], tag: &TtlvTag) -> (r: Option<&'a TtlvValue>)
    ensures
        match spec_last_with_tag(crate::item::items_view(items@), tag@) {
            Some(v) => r matches Some(value) && value@ == v,
            None => r is None,
        },
{
    let ghost views = crate::item::items_view(items@);
    proof {
        crate::item::lemma_items_view(items@);
    }
    let mut i: usize = items.len();
    assert(views.take(i as int) =~= views);
    while i > 0
        invariant
            i <= items@.len(),
            views == crate::item::items_view(items@),
            views.len() == items@.len(),
            forall|k: int| 0 <= k < views.len() ==> (#[trigger] views[k]) == items@[k]@,
            spec_last_with_tag(views, tag@) == spec_last_with_tag(views.take(i as int), tag@),
        decreases i,
    {
        let item = &items[i - 1];
        proof {
            assert(views.take(i as int).last() == items@[i - 1]@);
            assert(views.take(i as int).drop_last() =~= views.take(i - 1));
        }
        if *item.tag == **tag {
            return Some(&item.value);
        }
        i = i - 1;
    }
    None
}

fn contains(values: &Vec<u32>, v: u32) -> (r: bool)
    ensures
        r == values@.contains(v),
{
    let mut i: usize = 0;
    while i < values.len()
        invariant
            i <= values@.len(),
            !values@.take(i as int).contains(v),
        decreases values@.len() - i,
    {
        if values[i] == v {
            return true;
        }
        i = i + 1;
        assert(values@.take(i as int) =~= values@.take(i - 1).push(values@[i - 1]));
    }
    assert(values@.take(i as int) =~= values@);
    false
}

impl VariantMatcher {
    /// Whether the rule holds for an item of the type `ttlv_type` that comes
    /// after the items `earlier` in one structure.
    pub fn matches(&self, earlier: &[TtlvItem], ttlv_type: TtlvType) -> (r: bool)
        ensures
            r == self@.holds(crate::item::items_view(earlier@), ttlv_type),
    {
        match self {
            VariantMatcher::EnumEquals { tag, value } => match last_with_tag(earlier, tag) {
                Some(TtlvValue::Enumeration(seen)) => seen.0 == *value,
                _ => false,
            },
            VariantMatcher::EnumIn { tag, values } => match last_with_tag(earlier, tag) {
                Some(TtlvValue::Enumeration(seen)) => contains(values, seen.0),
                _ => false,
            },
            VariantMatcher::EnumAtLeast { tag, value } => match last_with_tag(earlier, tag) {
                Some(TtlvValue::Enumeration(seen)) => seen.0 >= *value,
                _ => false,
            },
            VariantMatcher::TextEquals { tag, text } => match last_with_tag(earlier, tag) {
                Some(TtlvValue::TextString(seen)) => seen.0 == *text,
                _ => false,
            },
            VariantMatcher::TypeIs { ttlv_type: wanted } => ttlv_type == *wanted,
        }
    }
}

/// Chooses among `rules`, which stand for the shapes that an item of the
/// type `ttlv_type` may have, by the items `earlier` that came before it in
/// its structure: the first rule that holds is chosen, and its place is
/// returned. Where no rule holds, choosing fails.
pub fn select_variant(rules: &[VariantMatcher], earlier: &[TtlvItem], ttlv_type: TtlvType) -> (r:
    Result<usize>)
    ensures
        match spec_select(matchers_view(rules@), crate::item::items_view(earlier@), ttlv_type) {
            Some(i) => r == Ok::<usize, Error>(i as usize),
            None => r matches Err(e) && e@ == spec_no_match(),
        },
{
    let ghost views = matchers_view(rules@);
    let ghost items = crate::item::items_view(earlier@);
    let mut i: usize = 0;
    while i < rules.len()
        invariant
            i <= rules@.len(),
            views == matchers_view(rules@),
            items == crate::item::items_view(earlier@),
            spec_select(views.take(i as int), items, ttlv_type) is None,
        decreases rules@.len() - i,
    {
        proof {
            assert(views.take(i + 1).drop_last() =~= views.take(i as int));
            assert(views.take(i + 1).last() == rules@[i as int]@);
        }
        if rules[i].matches(earlier, ttlv_type) {
            proof {
                lemma_select_stays(views, i + 1, items, ttlv_type);
            }
            return Ok(i);
        }
        i = i + 1;
    }
    assert(views.take(i as int) =~= views);
    Err(Error::new(ErrorKind::SerdeError(SerdeError::MissingIdentifier), ErrorLocation::unknown()))
}

/// A rule that is chosen among the first of some rules is chosen among all
/// of them.
proof fn lemma_select_stays(rules: Seq<MatcherView>, n: int, earlier: Seq<ItemView>, ttlv_type: TtlvType)
    requires
        0 <= n <= rules.len(),
        spec_select(rules.take(n), earlier, ttlv_type) is Some,
    ensures
        spec_select(rules, earlier, ttlv_type) == spec_select(rules.take(n), earlier, ttlv_type),
    decreases rules.len() - n,
{
    if n < rules.len() {
        assert(rules.take(n + 1).drop_last() =~= rules.take(n));
        lemma_select_stays(rules, n + 1, earlier, ttlv_type);
    } else {
        assert(rules.take(n) =~= rules);
    }
}

// --- Fields ---

/// How often the items of a field may come.
#[derive(Clone, Copy, Debug, PartialEq, Eq, Structural)]
pub enum Occurs {
    /// One item, always.
    Once,
    /// One item or none.
    Optional,
    /// Any number of items, one after another.
    Repeated,
}

/// A field of a mapped record: the tag that its items have, and how often
/// they may come.
#[derive(Clone, Copy, Debug)]
pub struct FieldSpec {
    pub tag: TtlvTag,
    pub occurs: Occurs,
}

/// What a [`FieldSpec`] looks like to a contract.
pub struct FieldSpecView {
    pub tag: u32,
    pub occurs: Occurs,
}

impl View for FieldSpec {
    type V = FieldSpecView;

    open spec fn view(&self) -> FieldSpecView {
        FieldSpecView { tag: self.tag@, occurs: self.occurs }
    }
}

/// The items of one field among the items of a structure: `count` items
/// from the place `start` on.
#[derive(Clone, Copy, Debug, PartialEq, Eq)]
pub struct FieldItems {
    pub start: usize,
    pub count: usize,
}

impl View for FieldItems {
    type V = (nat, nat);

    open spec fn view(&self) -> (nat, nat) {
        (self.start as nat, self.count as nat)
    }
}

/// The views of fields, in their order.
pub open spec fn fields_view(fields: Seq<FieldSpec>) -> Seq<FieldSpecView> {
    fields.map_values(|f: FieldSpec| f@)
}

/// The views of the items of fields, in their order.
pub open spec fn field_items_view(found: Seq<FieldItems>) -> Seq<(nat, nat)> {
    found.map_values(|f: FieldItems| f@)
}

/// The text of the failure where a field that must come has no item and no
/// item is left.
pub const MISSING_FIELD: &'static str = "missing field";

/// Why the items of a structure do not go with the fields of a record.
pub enum Mismatch {
    /// A field must come, and the next item has another tag.
    UnexpectedTag { expected: u32, actual: u32 },
    /// A field must come, and no item is left.
    MissingField,
    /// An item is left that goes with no field.
    UnknownItem,
}

/// The number of items at the front of `items` that have the tag `tag`.
pub open spec fn spec_run_len(items: Seq<ItemView>, tag: u32) -> nat
    decreases items.len(),
{
    if items.len() > 0 && items[0].tag == tag {
        1 + spec_run_len(items.skip(1), tag)
    } else {
        0
    }
}

/// The number of items that a field takes where `run` items with its tag
/// come next; nothing where the field must come and none does.
pub open spec fn spec_taken(occurs: Occurs, run: nat) -> Option<nat> {
    match occurs {
        Occurs::Once => if run >= 1 {
            Some(1)
        } else {
            None
        },
        Occurs::Optional => if run >= 1 {
            Some(1)
        } else {
            Some(0)
        },
        Occurs::Repeated => Some(run),
    }
}

/// Where the items of each field lie among `items`, which begin at the
/// place `at` of a structure.
///
/// The fields take their items in the order of the fields: each takes, of
/// the items that come next with its tag, one, one if there is one, or all
/// of them. A field that may stay away takes none where the next item has
/// another tag. When all fields have taken theirs, no item may be left.
pub open spec fn spec_match_fields(fields: Seq<FieldSpecView>, items: Seq<ItemView>, at: nat) -> std::result::Result<
    Seq<(nat, nat)>,
    Mismatch,
>
    decreases fields.len(),
{
    if fields.len() == 0 {
        if items.len() == 0 {
            Ok(Seq::empty())
        } else {
            Err(Mismatch::UnknownItem)
        }
    } else {
        match spec_taken(fields[0].occurs, spec_run_len(items, fields[0].tag)) {
            None => if items.len() == 0 {
                Err(Mismatch::MissingField)
            } else {
                Err(Mismatch::UnexpectedTag { expected: fields[0].tag, actual: items[0].tag })
            },
            Some(count) => spec_fields_after(
                seq![(at, count)],
                spec_match_fields(fields.skip(1), items.skip(count as int), at + count),
            ),
        }
    }
}

/// Where the items of fields lie where `done` is known of the first fields
/// and `rest` of the others.
pub open spec fn spec_fields_after(
    done: Seq<(nat, nat)>,
    rest: std::result::Result<Seq<(nat, nat)>, Mismatch>,
) -> std::result::Result<Seq<(nat, nat)>, Mismatch> {
    match rest {
        Ok(found) => Ok(done + found),
        Err(m) => Err(m),
    }
}

/// Whether `e` is the failure that says `m`. No place in the data is said.
pub open spec fn spec_is_mismatch(e: ErrorView, m: Mismatch) -> bool {
    &&& e.location == ErrorLocationView::unknown()
    &&& match m {
        Mismatch::UnexpectedTag { expected, actual } => e.kind == ErrorKind::SerdeError(
            SerdeError::UnexpectedTag {
                expected: TtlvTag::spec_of(expected),
                actual: TtlvTag::spec_of(actual),
            },
        ),
        Mismatch::MissingField => {
            &&& e.kind matches ErrorKind::SerdeError(SerdeError::Other(text))
            &&& text@ == MISSING_FIELD@
        },
        Mismatch::UnknownItem => e.kind == ErrorKind::SerdeError(SerdeError::MissingIdentifier),
    }
}

/// The fields that take items are all the fields, and the items that they
/// take are all the items.
pub proof fn lemma_match_fields_takes_all(fields: Seq<FieldSpecView>, items: Seq<ItemView>, at: nat)
    requires
        spec_match_fields(fields, items, at) is Ok,
    ensures
        spec_match_fields(fields, items, at)->Ok_0.len() == fields.len(),
        spec_total(spec_match_fields(fields, items, at)->Ok_0) == items.len(),
    decreases fields.len(),
{
    let found = spec_match_fields(fields, items, at)->Ok_0;
    if fields.len() > 0 {
        let run = spec_run_len(items, fields[0].tag);
        let count = spec_taken(fields[0].occurs, run)->0;
        lemma_run(items, fields[0].tag);
        lemma_match_fields_takes_all(fields.skip(1), items.skip(count as int), at + count);
        lemma_total_head(found);
        let rest = spec_match_fields(fields.skip(1), items.skip(count as int), at + count)->Ok_0;
        assert(found.skip(1) =~= rest);
    }
}

/// The items that the field at the place `i` takes come right after those
/// of the fields before it, are inside `items`, all have the tag of the
/// field, and are as many as the field allows.
pub proof fn lemma_match_fields_items(
    fields: Seq<FieldSpecView>,
    items: Seq<ItemView>,
    at: nat,
    i: int,
)
    requires
        spec_match_fields(fields, items, at) is Ok,
        0 <= i < fields.len(),
    ensures
        ({
            let found = spec_match_fields(fields, items, at)->Ok_0;
            let first = found[i].0 - at;
            let count = found[i].1;
            &&& i < found.len()
            &&& found[i].0 == at + spec_total(found.take(i))
            &&& first + count <= items.len()
            &&& fields[i].occurs == Occurs::Once ==> count == 1
            &&& fields[i].occurs == Occurs::Optional ==> count <= 1
            &&& forall|k: int| first <= k < first + count ==> (#[trigger] items[k]).tag == fields[i].tag
        }),
    decreases fields.len(),
{
    let found = spec_match_fields(fields, items, at)->Ok_0;
    let run = spec_run_len(items, fields[0].tag);
    let taken = spec_taken(fields[0].occurs, run)->0;
    let rest = spec_match_fields(fields.skip(1), items.skip(taken as int), at + taken)->Ok_0;
    lemma_run(items, fields[0].tag);
    lemma_match_fields_takes_all(fields, items, at);
    assert(found =~= seq![(at, taken)] + rest);
    if i == 0 {
        assert(found.take(0) =~= Seq::<(nat, nat)>::empty());
    } else {
        lemma_match_fields_items(fields.skip(1), items.skip(taken as int), at + taken, i - 1);
        lemma_match_fields_takes_all(fields.skip(1), items.skip(taken as int), at + taken);
        assert(found[i] == rest[i - 1]);
        assert(fields[i] == fields.skip(1)[i - 1]);
        assert(found.take(i).skip(1) =~= rest.take(i - 1));
        lemma_total_head(found.take(i));
        let first = found[i].0 - at;
        let count = found[i].1;
        assert forall|k: int| first <= k < first + count implies (#[trigger] items[k]).tag
            == fields[i].tag by {
            assert(items.skip(taken as int)[k - taken] == items[k]);
        }
    }
}

/// The number of items that fields take together.
pub open spec fn spec_total(found: Seq<(nat, nat)>) -> nat
    decreases found.len(),
{
    if found.len() == 0 {
        0
    } else {
        spec_total(found.drop_last()) + found.last().1
    }
}

proof fn lemma_total_head(found: Seq<(nat, nat)>)
    requires
        found.len() > 0,
    ensures
        spec_total(found) == found[0].1 + spec_total(found.skip(1)),
    decreases found.len(),
{
    if found.len() == 1 {
        assert(found.drop_last() =~= Seq::empty());
        assert(found.skip(1) =~= Seq::empty());
    } else {
        lemma_total_head(found.drop_last());
        assert(found.drop_last().skip(1) =~= found.skip(1).drop_last());
    }
}

/// The items that come first with a tag are inside the items and have the
/// tag, and the item after them, if there is one, has another.
proof fn lemma_run(items: Seq<ItemView>, tag: u32)
    ensures
        spec_run_len(items, tag) <= items.len(),
        forall|k: int| 0 <= k < spec_run_len(items, tag) ==> (#[trigger] items[k]).tag == tag,
        spec_run_len(items, tag) < items.len() ==> items[spec_run_len(items, tag) as int].tag
            != tag,
    decreases items.len(),
{
    if items.len() > 0 && items[0].tag == tag {
        lemma_run(items.skip(1), tag);
        assert forall|k: int| 0 <= k < spec_run_len(items, tag) implies (#[trigger] items[k]).tag
            == tag by {
            if k > 0 {
                assert(items.skip(1)[k - 1] == items[k]);
            }
        }
    }
}

fn mismatch(kind: SerdeError) -> (e: Error)
    ensures
        e@.kind == ErrorKind::SerdeError(kind),
        e@.location == ErrorLocationView::unknown(),
{
    Error::new(ErrorKind::SerdeError(kind), ErrorLocation::unknown())
}

/// Finds the items of each field of a record among the items of a
/// structure.
pub fn match_fields(fields: &[FieldSpec], items: &[TtlvItem]) -> (r: Result<Vec<FieldItems>>)
    ensures
        match spec_match_fields(fields_view(fields@), crate::item::items_view(items@), 0) {
            Ok(found) => r matches Ok(v) && field_items_view(v@) == found,
            Err(m) => r matches Err(e) && spec_is_mismatch(e@, m),
        },
{
    let ghost specs = fields_view(fields@);
    let ghost views = crate::item::items_view(items@);
    proof {
        crate::item::lemma_items_view(items@);
    }
    let mut found: Vec<FieldItems> = Vec::new();
    let mut pos: usize = 0;
    let mut i: usize = 0;
    let total = items.len();
    proof {
        assert(specs.skip(0) =~= specs);
        assert(views.skip(0) =~= views);
        let whole = spec_match_fields(specs, views, 0);
        if let Ok(w) = whole {
            assert(field_items_view(found@) + w =~= w);
        }
    }
    while i < fields.len()
        invariant
            i <= fields@.len(),
            pos <= items@.len(),
            total == items@.len(),
            specs == fields_view(fields@),
            views == crate::item::items_view(items@),
            views.len() == items@.len(),
            forall|k: int| 0 <= k < views.len() ==> (#[trigger] views[k]) == items@[k]@,
            spec_match_fields(specs, views, 0) == spec_fields_after(
                field_items_view(found@),
                spec_match_fields(specs.skip(i as int), views.skip(pos as int), pos as nat),
            ),
        decreases fields@.len() - i,
    {
        let field = &fields[i];
        let ghost left = views.skip(pos as int);
        assert(specs.skip(i as int)[0] == field@);
        // How many of the next items have the tag of the field.
        let mut run: usize = 0;
        assert(left.skip(0) =~= left);
        while run < total - pos && *items[pos + run].tag == *field.tag
            invariant
                pos + run <= items@.len(),
                total == items@.len(),
                left == views.skip(pos as int),
                views.len() == items@.len(),
                forall|k: int| 0 <= k < views.len() ==> (#[trigger] views[k]) == items@[k]@,
                spec_run_len(left, field.tag@) == run + spec_run_len(
                    left.skip(run as int),
                    field.tag@,
                ),
            decreases items@.len() - pos - run,
        {
            assert(left.skip(run as int)[0] == views[pos + run]);
            assert(left.skip(run as int).skip(1) =~= left.skip(run + 1));
            run = run + 1;
        }
        proof {
            if pos + run < items@.len() {
                assert(left.skip(run as int)[0] == views[pos + run]);
            }
        }
        let count: usize = match field.occurs {
            Occurs::Once => {
                if run == 0 {
                    if pos < items.len() {
                        assert(left[0] == views[pos as int]);
                        return Err(
                            mismatch(
                                SerdeError::UnexpectedTag {
                                    expected: field.tag,
                                    actual: items[pos].tag,
                                },
                            ),
                        );
                    } else {
                        return Err(mismatch(SerdeError::Other(MISSING_FIELD.to_owned())));
                    }
                }
                1
            },
            Occurs::Optional => if run == 0 {
                0
            } else {
                1
            },
            Occurs::Repeated => run,
        };
        proof {
            let next = spec_match_fields(
                specs.skip(i as int).skip(1),
                left.skip(count as int),
                (pos + count) as nat,
            );
            assert(specs.skip(i as int).skip(1) =~= specs.skip(i + 1));
            assert(left.skip(count as int) =~= views.skip(pos + count));
            let before = field_items_view(found@);
            let entry = FieldItems { start: pos, count };
            assert(field_items_view(found@.push(entry)) =~= before.push(entry@));
            if let Ok(more) = next {
                assert(before + (seq![entry@] + more) =~= before.push(entry@) + more);
            }
        }
        found.push(FieldItems { start: pos, count });
        pos = pos + count;
        i = i + 1;
    }
    if pos < items.len() {
        return Err(mismatch(SerdeError::MissingIdentifier));
    }
    proof {
        assert(field_items_view(found@) + Seq::<(nat, nat)>::empty() =~= field_items_view(found@));
    }
    Ok(found)
}

} // verus!
