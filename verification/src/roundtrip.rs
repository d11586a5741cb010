//! What is written is read back: the laws that tie writing and reading of
//! items together.

use vstd::prelude::*;
use crate::de::HeaderView;
use crate::de::spec_decode_item;
use crate::de::spec_decode_items;
use crate::de::spec_decode_value;
use crate::de::spec_from_slice;
use crate::de::spec_read_header;
use crate::error::ErrorKind;
use crate::item::ItemView;
use crate::item::ValueView;
use crate::item::lemma_encoded_len;
use crate::item::spec_all_fit;
use crate::item::spec_all_tags_fit;
use crate::item::spec_encode_item;
use crate::item::spec_encode_items;
use crate::item::spec_fits;
use crate::item::spec_primitive_field;
use crate::item::spec_tags_fit;
use crate::item::spec_value_field;
use crate::types::TtlvBigInteger;
use crate::types::TtlvBoolean;
use crate::types::TtlvByteString;
use crate::types::TtlvDateTime;
use crate::types::TtlvEnumeration;
use crate::types::TtlvInteger;
use crate::types::TtlvLength;
use crate::types::TtlvLongInteger;
use crate::types::TtlvTag;
use crate::types::TtlvTextString;
use crate::types::TtlvType;
use crate::types::WireFormat;
use crate::types::tag_to_be;
use crate::wire::lemma_pad_len;
use crate::wire::pad_len;
use crate::wire::sign_extension;
use crate::wire::u32_to_be;
use crate::wire::zeros;

verus! {

/// The item that is read back from what `item` was written as: `item`
/// itself, but that a big integer in it has its sign extended to a multiple
/// of eight bytes.
pub open spec fn spec_read_back(item: ItemView) -> ItemView
    decreases item, 0nat,
{
    ItemView {
        tag: item.tag,
        value: match item.value {
            ValueView::Structure(items) => ValueView::Structure(spec_read_back_all(items)),
            ValueView::BigInteger(v) => ValueView::BigInteger(sign_extension(v) + v),
            v => v,
        },
    }
}

/// The items that are read back from what `items` were written as.
pub open spec fn spec_read_back_all(items: Seq<ItemView>) -> Seq<ItemView>
    decreases items, 1nat,
{
    if items.len() == 0 {
        Seq::empty()
    } else {
        spec_read_back_all(items.drop_last()).push(spec_read_back(items.last()))
    }
}

/// Whether no big integer in the item needs its sign extended: each has as
/// many bytes as a multiple of eight.
pub open spec fn spec_big_integers_aligned(item: ItemView) -> bool
    decreases item, 0nat,
{
    match item.value {
        ValueView::Structure(items) => spec_all_big_integers_aligned(items),
        ValueView::BigInteger(v) => v.len() % 8 == 0,
        _ => true,
    }
}

/// Whether no big integer in the items needs its sign extended.
pub open spec fn spec_all_big_integers_aligned(items: Seq<ItemView>) -> bool
    decreases items, 1nat,
{
    items.len() > 0 ==> spec_all_big_integers_aligned(items.drop_last())
        && spec_big_integers_aligned(items.last())
}

proof fn lemma_encode_items_head(items: Seq<ItemView>)
    requires
        items.len() > 0,
    ensures
        spec_encode_items(items) == spec_encode_item(items[0]) + spec_encode_items(items.skip(1)),
        spec_read_back_all(items) == seq![spec_read_back(items[0])] + spec_read_back_all(
            items.skip(1),
        ),
        spec_all_fit(items) ==> spec_fits(items[0]) && spec_all_fit(items.skip(1)),
        spec_all_tags_fit(items) ==> spec_tags_fit(items[0]) && spec_all_tags_fit(items.skip(1)),
    decreases items.len(),
{
    if items.len() == 1 {
        assert(items.drop_last() =~= Seq::<ItemView>::empty());
        assert(items.skip(1) =~= Seq::<ItemView>::empty());
        assert(spec_encode_items(items) =~= spec_encode_item(items[0]) + spec_encode_items(
            items.skip(1),
        ));
        assert(spec_read_back_all(items) =~= seq![spec_read_back(items[0])] + spec_read_back_all(
            items.skip(1),
        ));
    } else {
        lemma_encode_items_head(items.drop_last());
        assert(items.drop_last().skip(1) =~= items.skip(1).drop_last());
        assert(items.skip(1).last() == items.last());
        assert(items.drop_last()[0] == items[0]);
        assert(spec_encode_items(items) =~= spec_encode_item(items[0]) + spec_encode_items(
            items.skip(1),
        ));
        assert(spec_read_back_all(items) =~= seq![spec_read_back(items[0])] + spec_read_back_all(
            items.skip(1),
        ));
    }
}

/// The header that an item is written with is read back, whatever follows
/// it.
proof fn lemma_header_round_trip(item: ItemView, rest: Seq<u8>, at: nat, parents: Seq<TtlvTag>)
    requires
        item.tag <= crate::types::MAX_TAG,
        spec_value_field(item).len() <= u32::MAX,
    ensures
        spec_read_header(spec_encode_item(item) + rest, at, parents) == Ok::<
            HeaderView,
            crate::error::ErrorView,
        >(
            HeaderView {
                tag: item.tag,
                ttlv_type: item.value.ttlv_type(),
                length: spec_value_field(item).len() as u32,
            },
        ),
{
    let field = spec_value_field(item);
    let input = spec_encode_item(item) + rest;
    let code = item.value.ttlv_type().spec_code();
    let length = u32_to_be(field.len() as u32);
    let tail = field + if item.value is Structure {
        Seq::<u8>::empty()
    } else {
        zeros(pad_len(field.len()))
    } + rest;
    let after_type = length + tail;
    let after_tag = seq![code] + after_type;
    assert(input =~= tag_to_be(item.tag) + after_tag);
    assert(input.skip(3) =~= after_tag) by {
        assert(tag_to_be(item.tag).len() == 3);
    }
    assert(input.skip(4) =~= after_type) by {
        assert(after_tag.skip(1) =~= after_type);
        assert(input.skip(4) =~= input.skip(3).skip(1));
    }
    assert(TtlvTag::spec_read(input).result == Ok::<u32, crate::types::Error>(item.tag)) by {
        TtlvTag::lemma_round_trip(item.tag, after_tag);
    }
    assert(TtlvType::spec_read(input.skip(3)).result == Ok::<TtlvType, crate::types::Error>(
        item.value.ttlv_type(),
    )) by {
        TtlvType::lemma_round_trip(item.value.ttlv_type(), after_type);
    }
    assert(TtlvLength::spec_read(input.skip(4)).result == Ok::<u32, crate::types::Error>(
        field.len() as u32,
    )) by {
        TtlvLength::lemma_round_trip(field.len() as u32, tail);
    }
}

/// The value field that a value which is no structure is written as is read
/// back, whatever follows it.
proof fn lemma_value_round_trip(v: ValueView, rest: Seq<u8>)
    requires
        !(v is Structure),
        spec_primitive_field(v).len() <= u32::MAX,
    ensures
        spec_decode_value(
            v.ttlv_type(),
            spec_primitive_field(v) + rest,
            spec_primitive_field(v).len() as u32,
        ).result == Ok::<ValueView, crate::types::Error>(
            spec_read_back(ItemView { tag: 0, value: v }).value,
        ),
{
    match v {
        ValueView::Structure(_) => {},
        ValueView::Integer(n) => TtlvInteger::lemma_value_round_trip(n, rest),
        ValueView::LongInteger(n) => TtlvLongInteger::lemma_value_round_trip(n, rest),
        ValueView::BigInteger(b) => TtlvBigInteger::lemma_value_round_trip(b, rest),
        ValueView::Enumeration(n) => TtlvEnumeration::lemma_value_round_trip(n, rest),
        ValueView::Boolean(b) => TtlvBoolean::lemma_value_round_trip(b, rest),
        ValueView::TextString(s) => TtlvTextString::lemma_value_round_trip(s, rest),
        ValueView::ByteString(b) => TtlvByteString::lemma_value_round_trip(b, rest),
        ValueView::DateTime(n) => TtlvDateTime::lemma_value_round_trip(n, rest),
    }
}

/// An item that was written is read back, whatever follows it and wherever
/// it lies: reading gives the item, but for the sign of its big integers
/// being extended, and takes exactly the bytes that the item was written as.
pub proof fn lemma_item_round_trip(item: ItemView, rest: Seq<u8>, at: nat, parents: Seq<TtlvTag>)
    requires
        spec_tags_fit(item),
        spec_fits(item),
    ensures
        spec_decode_item(spec_encode_item(item) + rest, at, parents) == Ok::<
            (ItemView, nat),
            crate::error::ErrorView,
        >((spec_read_back(item), spec_encode_item(item).len())),
    decreases item, 0nat,
{
    let field = spec_value_field(item);
    let input = spec_encode_item(item) + rest;
    lemma_header_round_trip(item, rest, at, parents);
    lemma_encoded_len(item);
    let header = HeaderView {
        tag: item.tag,
        ttlv_type: item.value.ttlv_type(),
        length: field.len() as u32,
    };
    assert(header.extent() == spec_encode_item(item).len());
    match item.value {
        ValueView::Structure(items) => {
            assert(input.subrange(8, 8 + field.len() as int) =~= spec_encode_items(items));
            lemma_items_round_trip(items, at + 8, parents.push(TtlvTag::spec_of(item.tag)));
        },
        v => {
            let pad = zeros(pad_len(field.len()));
            assert(input.skip(8) =~= field + (pad + rest));
            lemma_value_round_trip(v, pad + rest);
        },
    }
}

/// Items that were written one after another are read back, wherever they
/// lie.
pub proof fn lemma_items_round_trip(items: Seq<ItemView>, at: nat, parents: Seq<TtlvTag>)
    requires
        spec_all_tags_fit(items),
        spec_all_fit(items),
    ensures
        spec_decode_items(spec_encode_items(items), at, parents) == Ok::<
            (Seq<ItemView>, nat),
            crate::error::ErrorView,
        >((spec_read_back_all(items), spec_encode_items(items).len())),
    decreases items, 1nat,
{
    if items.len() > 0 {
        lemma_encode_items_head(items);
        let first = spec_encode_item(items[0]);
        let others = spec_encode_items(items.skip(1));
        lemma_encoded_len(items[0]);
        lemma_item_round_trip(items[0], others, at, parents);
        assert((first + others).skip(first.len() as int) =~= others);
        lemma_items_round_trip(items.skip(1), at + first.len(), parents);
    }
}

/// An item in which no big integer needs its sign extended is read back as
/// it is.
pub proof fn lemma_read_back_aligned(item: ItemView)
    requires
        spec_big_integers_aligned(item),
    ensures
        spec_read_back(item) == item,
    decreases item, 0nat,
{
    match item.value {
        ValueView::Structure(items) => {
            lemma_read_back_all_aligned(items);
        },
        ValueView::BigInteger(v) => {
            lemma_pad_len(v.len());
            assert(sign_extension(v) + v =~= v);
        },
        _ => {},
    }
}

/// Items in which no big integer needs its sign extended are read back as
/// they are.
pub proof fn lemma_read_back_all_aligned(items: Seq<ItemView>)
    requires
        spec_all_big_integers_aligned(items),
    ensures
        spec_read_back_all(items) == items,
    decreases items, 1nat,
{
    if items.len() > 0 {
        lemma_read_back_all_aligned(items.drop_last());
        lemma_read_back_aligned(items.last());
        assert(items.drop_last().push(items.last()) =~= items);
    } else {
        assert(items =~= Seq::<ItemView>::empty());
    }
}

/// What was written for an item is read back as that item where the limit,
/// if there is one, is no less than the number of bytes written; under a
/// lower limit reading fails, and the failure says the limit.
pub proof fn lemma_write_then_read(item: ItemView, rest: Seq<u8>, max_bytes: Option<u32>)
    requires
        spec_tags_fit(item),
        spec_fits(item),
    ensures
        (max_bytes matches Some(limit) ==> spec_encode_item(item).len() <= limit) ==> spec_from_slice(
            spec_encode_item(item) + rest,
            max_bytes,
        ) == Ok::<ItemView, crate::error::ErrorView>(spec_read_back(item)),
        (max_bytes matches Some(limit) && spec_encode_item(item).len() > limit) ==> (spec_from_slice(
            spec_encode_item(item) + rest,
            max_bytes,
        ) matches Err(f) && f.kind == ErrorKind::ResponseSizeExceedsLimit(max_bytes->0 as usize)),
{
    lemma_header_round_trip(item, rest, 0, Seq::empty());
    lemma_encoded_len(item);
    lemma_item_round_trip(item, rest, 0, Seq::empty());
}

/// Reading under a limit takes no more bytes than the limit: where an item
/// is read, it is the item that is read without a limit, and it has no more
/// bytes than the limit; where the item that would be read without a limit
/// has more, reading fails, and the failure says the limit.
pub proof fn lemma_limit_is_kept(input: Seq<u8>, limit: u32)
    ensures
        spec_from_slice(input, Some(limit)) matches Ok(item) ==> (spec_decode_item(
            input,
            0,
            Seq::empty(),
        ) matches Ok((read, used)) && read == item && used <= limit),
        spec_decode_item(input, 0, Seq::empty()) matches Ok((_, used)) && used > limit
            ==> (spec_from_slice(input, Some(limit)) matches Err(f) && f.kind
            == ErrorKind::ResponseSizeExceedsLimit(limit as usize)),
        spec_from_slice(input, None) == match spec_decode_item(input, 0, Seq::empty()) {
            Ok((item, _)) => Ok::<ItemView, crate::error::ErrorView>(item),
            Err(f) => Err(f),
        },
{
}

} // verus!
