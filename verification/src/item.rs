//! TTLV items as a tree: an item is a tag and a value, and the value of a
//! structure is the items inside it, in their order.

use vstd::prelude::*;
use crate::types::MAX_TAG;
use crate::types::TtlvBigInteger;
use crate::types::TtlvBoolean;
use crate::types::TtlvByteString;
use crate::types::TtlvDateTime;
use crate::types::TtlvEnumeration;
use crate::types::TtlvInteger;
use crate::types::TtlvLongInteger;
use crate::types::TtlvTag;
use crate::types::TtlvTextString;
use crate::types::TtlvType;
use crate::types::WireFormat;
use crate::types::tag_to_be;
use crate::wire::lemma_pad_len;
use crate::wire::pad_len;
use crate::wire::u32_to_be;
use crate::wire::zeros;

verus! {

/// The value of a TTLV item.
#[derive(Debug)]
pub enum TtlvValue {
    /// The items inside, in their order.
    Structure(Vec<TtlvItem>),
    Integer(TtlvInteger),
    LongInteger(TtlvLongInteger),
    BigInteger(TtlvBigInteger),
    Enumeration(TtlvEnumeration),
    Boolean(TtlvBoolean),
    TextString(TtlvTextString),
    ByteString(TtlvByteString),
    DateTime(TtlvDateTime),
}

/// A TTLV item: a tag and the value that it names.
#[derive(Debug)]
pub struct TtlvItem {
    pub tag: TtlvTag,
    pub value: TtlvValue,
}

/// What a [`TtlvValue`] looks like to a contract.
pub enum ValueView {
    Structure(Seq<ItemView>),
    Integer(i32),
    LongInteger(i64),
    BigInteger(Seq<u8>),
    Enumeration(u32),
    Boolean(bool),
    TextString(Seq<char>),
    ByteString(Seq<u8>),
    DateTime(i64),
}

/// What a [`TtlvItem`] looks like to a contract.
pub struct ItemView {
    pub tag: u32,
    pub value: ValueView,
}

/// The view of a value.
pub open spec fn value_view(value: TtlvValue) -> ValueView
    decreases value, 0nat,
{
    match value {
        TtlvValue::Structure(items) => ValueView::Structure(items_view(items@)),
        TtlvValue::Integer(v) => ValueView::Integer(v@),
        TtlvValue::LongInteger(v) => ValueView::LongInteger(v@),
        TtlvValue::BigInteger(v) => ValueView::BigInteger(v@),
        TtlvValue::Enumeration(v) => ValueView::Enumeration(v@),
        TtlvValue::Boolean(v) => ValueView::Boolean(v@),
        TtlvValue::TextString(v) => ValueView::TextString(v@),
        TtlvValue::ByteString(v) => ValueView::ByteString(v@),
        TtlvValue::DateTime(v) => ValueView::DateTime(v@),
    }
}

/// The view of an item.
pub open spec fn item_view(item: TtlvItem) -> ItemView
    decreases item, 0nat,
{
    ItemView { tag: item.tag@, value: value_view(item.value) }
}

/// The views of items, in their order.
pub open spec fn items_view(items: Seq<TtlvItem>) -> Seq<ItemView>
    decreases items, 1nat,
{
    if items.len() == 0 {
        Seq::empty()
    } else {
        items_view(items.drop_last()).push(item_view(items.last()))
    }
}

impl View for TtlvValue {
    type V = ValueView;

    open spec fn view(&self) -> ValueView {
        value_view(*self)
    }
}

impl View for TtlvItem {
    type V = ItemView;

    open spec fn view(&self) -> ItemView {
        item_view(*self)
    }
}

/// The views of items are as many as the items, and each is the view of the
/// item at its place.
pub proof fn lemma_items_view(items: Seq<TtlvItem>)
    ensures
        items_view(items).len() == items.len(),
        forall|i: int|
            0 <= i < items.len() ==> (#[trigger] items_view(items)[i]) == item_view(items[i]),
    decreases items.len(),
{
    if items.len() > 0 {
        lemma_items_view(items.drop_last());
    }
}

impl ValueView {
    /// The TTLV type of the value.
    pub open spec fn ttlv_type(self) -> TtlvType {
        match self {
            ValueView::Structure(_) => TtlvType::Structure,
            ValueView::Integer(_) => TtlvType::Integer,
            ValueView::LongInteger(_) => TtlvType::LongInteger,
            ValueView::BigInteger(_) => TtlvType::BigInteger,
            ValueView::Enumeration(_) => TtlvType::Enumeration,
            ValueView::Boolean(_) => TtlvType::Boolean,
            ValueView::TextString(_) => TtlvType::TextString,
            ValueView::ByteString(_) => TtlvType::ByteString,
            ValueView::DateTime(_) => TtlvType::DateTime,
        }
    }
}

impl TtlvValue {
    /// The TTLV type of the value.
    pub fn ttlv_type(&self) -> (r: TtlvType)
        ensures
            r == self@.ttlv_type(),
    {
        match self {
            TtlvValue::Structure(_) => TtlvType::Structure,
            TtlvValue::Integer(_) => TtlvType::Integer,
            TtlvValue::LongInteger(_) => TtlvType::LongInteger,
            TtlvValue::BigInteger(_) => TtlvType::BigInteger,
            TtlvValue::Enumeration(_) => TtlvType::Enumeration,
            TtlvValue::Boolean(_) => TtlvType::Boolean,
            TtlvValue::TextString(_) => TtlvType::TextString,
            TtlvValue::ByteString(_) => TtlvType::ByteString,
            TtlvValue::DateTime(_) => TtlvType::DateTime,
        }
    }
}

/// The bytes of the value field of a value that is no structure.
pub open spec fn spec_primitive_field(v: ValueView) -> Seq<u8> {
    match v {
        ValueView::Structure(_) => Seq::empty(),
        ValueView::Integer(n) => TtlvInteger::spec_value_bytes(n),
        ValueView::LongInteger(n) => TtlvLongInteger::spec_value_bytes(n),
        ValueView::BigInteger(b) => TtlvBigInteger::spec_value_bytes(b),
        ValueView::Enumeration(n) => TtlvEnumeration::spec_value_bytes(n),
        ValueView::Boolean(b) => TtlvBoolean::spec_value_bytes(b),
        ValueView::TextString(s) => TtlvTextString::spec_value_bytes(s),
        ValueView::ByteString(b) => TtlvByteString::spec_value_bytes(b),
        ValueView::DateTime(n) => TtlvDateTime::spec_value_bytes(n),
    }
}

/// The bytes of the value field of an item: for a structure, what the items
/// inside it are written as, one after another.
pub open spec fn spec_value_field(item: ItemView) -> Seq<u8>
    decreases item, 0nat,
{
    match item.value {
        ValueView::Structure(items) => spec_encode_items(items),
        v => spec_primitive_field(v),
    }
}

/// The bytes that an item is written as: its tag, its type, the length of
/// its value field, the value field, and, unless the item is a structure,
/// zero bytes up to a multiple of eight.
pub open spec fn spec_encode_item(item: ItemView) -> Seq<u8>
    decreases item, 1nat,
{
    let field = spec_value_field(item);
    tag_to_be(item.tag) + seq![item.value.ttlv_type().spec_code()] + u32_to_be(field.len() as u32)
        + field + if item.value is Structure {
        Seq::empty()
    } else {
        zeros(pad_len(field.len()))
    }
}

/// The bytes that items are written as, one after another.
pub open spec fn spec_encode_items(items: Seq<ItemView>) -> Seq<u8>
    decreases items, 2nat,
{
    if items.len() == 0 {
        Seq::empty()
    } else {
        spec_encode_items(items.drop_last()) + spec_encode_item(items.last())
    }
}

/// Whether the item can be written: the length of its value field, and of
/// the value field of every item inside it, fits in 32 bits.
pub open spec fn spec_fits(item: ItemView) -> bool
    decreases item, 0nat,
{
    &&& spec_value_field(item).len() <= u32::MAX
    &&& match item.value {
        ValueView::Structure(items) => spec_all_fit(items),
        _ => true,
    }
}

/// Whether every one of the items can be written.
pub open spec fn spec_all_fit(items: Seq<ItemView>) -> bool
    decreases items, 1nat,
{
    items.len() > 0 ==> spec_all_fit(items.drop_last()) && spec_fits(items.last())
}

/// Whether the tag of the item, and of every item inside it, fits in 24 bits.
/// That is so of the view of every [`TtlvItem`].
pub open spec fn spec_tags_fit(item: ItemView) -> bool
    decreases item, 0nat,
{
    &&& item.tag <= MAX_TAG
    &&& match item.value {
        ValueView::Structure(items) => spec_all_tags_fit(items),
        _ => true,
    }
}

/// Whether the tags of every one of the items fit in 24 bits.
pub open spec fn spec_all_tags_fit(items: Seq<ItemView>) -> bool
    decreases items, 1nat,
{
    items.len() > 0 ==> spec_all_tags_fit(items.drop_last()) && spec_tags_fit(items.last())
}

/// The tags in the view of an item fit in 24 bits.
pub proof fn lemma_view_tags_fit(item: TtlvItem)
    ensures
        spec_tags_fit(item@),
    decreases item, 0nat,
{
    item.tag.lemma_view_bound();
    match item.value {
        TtlvValue::Structure(items) => lemma_views_tags_fit(items@),
        _ => {},
    }
}

/// The tags in the views of items fit in 24 bits.
pub proof fn lemma_views_tags_fit(items: Seq<TtlvItem>)
    ensures
        spec_all_tags_fit(items_view(items)),
    decreases items, 1nat,
{
    if items.len() > 0 {
        lemma_views_tags_fit(items.drop_last());
        lemma_view_tags_fit(items.last());
        assert(items_view(items).drop_last() =~= items_view(items.drop_last()));
    }
}

/// An item is written as the eight bytes of its header and then a multiple
/// of eight bytes; the length in the header of a structure is the number of
/// bytes that the items inside it are written as, their padding counted.
pub proof fn lemma_encoded_len(item: ItemView)
    ensures
        spec_encode_item(item).len() >= 8,
        spec_fits(item) ==> spec_encode_item(item).len() % 8 == 0,
        spec_encode_item(item).len() == 8 + spec_value_field(item).len() + if item.value
            is Structure {
            0
        } else {
            pad_len(spec_value_field(item).len())
        },
        item.value matches ValueView::Structure(items) ==> spec_value_field(item)
            == spec_encode_items(items),
    decreases item, 0nat,
{
    let field = spec_value_field(item);
    lemma_pad_len(field.len());
    match item.value {
        ValueView::Structure(items) => {
            lemma_encoded_items_len(items);
        },
        _ => {},
    }
}

/// Items are written as a multiple of eight bytes.
pub proof fn lemma_encoded_items_len(items: Seq<ItemView>)
    ensures
        spec_all_fit(items) ==> spec_encode_items(items).len() % 8 == 0,
        spec_encode_items(items).len() >= 8 * items.len(),
    decreases items, 1nat,
{
    if items.len() > 0 {
        lemma_encoded_items_len(items.drop_last());
        lemma_encoded_len(items.last());
    }
}

} // verus!
