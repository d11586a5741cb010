//! Writing items as TTLV bytes.

use vstd::prelude::*;
use crate::error::Error;
use crate::error::ErrorKind;
use crate::error::ErrorLocation;
use crate::error::ErrorLocationView;
use crate::error::ErrorView;
use crate::error::MalformedTtlvError;
use crate::error::Result;
use crate::item::ItemView;
use crate::item::TtlvItem;
use crate::item::TtlvValue;
use crate::item::items_view;
use crate::item::lemma_items_view;
use crate::item::spec_all_fit;
use crate::item::spec_encode_item;
use crate::item::spec_encode_items;
use crate::item::spec_fits;
use crate::item::spec_value_field;
use crate::types::FieldType;
use crate::types::SerializableTtlvType;
use crate::types::StateMachineView;
use crate::types::TtlvStateMachine;
use crate::types::TtlvStateMachineMode;
use crate::types::TtlvType;
use crate::types::WireFormat;
use crate::types::spec_absorbs_tag;
use crate::types::spec_advance;
use crate::types::spec_next_field;
use crate::types::spec_write;
use crate::types::tag_to_be;
use crate::wire::put_u32;
use crate::wire::u32_to_be;

verus! {

/// The failure of writing an item that does not fit: its length, or that of
/// a structure around it, cannot be said in the 32 bits that a header has
/// for it.
pub open spec fn spec_length_failure() -> ErrorView {
    ErrorView {
        kind: ErrorKind::MalformedTtlv(MalformedTtlvError::UnknownStructureLength),
        location: ErrorLocationView::unknown(),
    }
}

/// Every one of some items that can all be written can be written.
pub proof fn lemma_all_fit(items: Seq<ItemView>, i: int)
    requires
        spec_all_fit(items),
        0 <= i < items.len(),
    ensures
        spec_fits(items[i]),
    decreases items.len(),
{
    if i < items.len() - 1 {
        lemma_all_fit(items.drop_last(), i);
    }
}

fn length_failure() -> (e: Error)
    ensures
        e@ == spec_length_failure(),
{
    Error::new(
        ErrorKind::MalformedTtlv(MalformedTtlvError::UnknownStructureLength),
        ErrorLocation::unknown(),
    )
}

/// Tells the machine of a field that is in order, and returns whether the
/// field is to be read or written.
pub(crate) fn step(state: &mut TtlvStateMachine, field: FieldType) -> (write: bool)
    requires
        spec_next_field(old(state)@, field) is Some,
    ensures
        final(state)@ == spec_advance(old(state)@, field),
        write == !spec_absorbs_tag(old(state)@, field),
{
    match state.advance(field) {
        Ok(write) => write,
        Err(_) => false,
    }
}

/// Puts `v` over the four bytes at `at`, most significant byte first.
fn patch_u32(dst: &mut Vec<u8>, at: usize, v: u32)
    requires
        at + 4 <= old(dst)@.len(),
    ensures
        final(dst)@ == old(dst)@.subrange(0, at as int) + u32_to_be(v) + old(dst)@.subrange(
            at + 4,
            old(dst)@.len() as int,
        ),
{
    let len = dst.len();
    let at1 = at + 1;
    let at2 = at + 2;
    let at3 = at + 3;
    dst[at] = (v / 0x100_0000) as u8;
    dst[at1] = (v / 0x1_0000 % 0x100) as u8;
    dst[at2] = (v / 0x100 % 0x100) as u8;
    dst[at3] = (v % 0x100) as u8;
    assert(dst@ =~= old(dst)@.subrange(0, at as int) + u32_to_be(v) + old(dst)@.subrange(
        at + 4,
        old(dst)@.len() as int,
    ));
}

/// Whether a writing machine is between two items: it passes over no tag,
/// and it expects the tag of an item, or the value of a structure, which
/// begins with one.
pub open spec fn spec_between_items(state: StateMachineView) -> bool {
    &&& state.mode == TtlvStateMachineMode::Serializing
    &&& !state.ignore_next_tag
    &&& (state.expected == FieldType::Tag || state.expected == FieldType::Value)
}

/// Writes an item after what `dst` holds, and tells `state`, which follows
/// the items around it, of each field.
///
/// An item that does not fit is refused; what `dst` and `state` hold then is
/// of no use.
fn write_item(item: &TtlvItem, dst: &mut Vec<u8>, state: &mut TtlvStateMachine) -> (r: Result<
    (),
>)
    requires
        spec_between_items(old(state)@),
    ensures
        match r {
            Ok(_) => {
                &&& spec_fits(item@)
                &&& final(dst)@ == old(dst)@ + spec_encode_item(item@)
                &&& spec_between_items(final(state)@)
            },
            Err(e) => !spec_fits(item@) && e@ == spec_length_failure(),
        },
    decreases item, 1nat,
{
    if step(state, FieldType::Tag) {
        let _ = item.tag.write(dst);
    }
    let ghost tagged = dst@;
    let r = match &item.value {
        TtlvValue::Structure(items) => write_structure(item, items, dst, state),
        TtlvValue::Integer(v) => write_primitive(v, dst, state),
        TtlvValue::LongInteger(v) => write_primitive(v, dst, state),
        TtlvValue::BigInteger(v) => write_primitive(v, dst, state),
        TtlvValue::Enumeration(v) => write_primitive(v, dst, state),
        TtlvValue::Boolean(v) => write_primitive(v, dst, state),
        TtlvValue::TextString(v) => write_primitive(v, dst, state),
        TtlvValue::ByteString(v) => write_primitive(v, dst, state),
        TtlvValue::DateTime(v) => write_primitive(v, dst, state),
    };
    proof {
        if r is Ok {
            assert(dst@ =~= tagged + dst@.skip(tagged.len() as int));
            assert(dst@ =~= old(dst)@ + spec_encode_item(item@));
        }
    }
    r
}

/// Writes the type and length of a structure and the items inside it, after
/// its tag.
fn write_structure(
    item: &TtlvItem,
    items: &Vec<TtlvItem>,
    dst: &mut Vec<u8>,
    state: &mut TtlvStateMachine,
) -> (r: Result<()>)
    requires
        item.value == TtlvValue::Structure(*items),
        old(state)@.mode == TtlvStateMachineMode::Serializing,
        old(state)@.expected == FieldType::Type,
        !old(state)@.ignore_next_tag,
    ensures
        match r {
            Ok(_) => {
                &&& spec_fits(item@)
                &&& tag_to_be(item@.tag) + (final(dst)@.skip(old(dst)@.len() as int))
                    == spec_encode_item(item@)
                &&& final(dst)@.take(old(dst)@.len() as int) == old(dst)@
                &&& final(dst)@.len() >= old(dst)@.len()
                &&& spec_between_items(final(state)@)
            },
            Err(e) => !spec_fits(item@) && e@ == spec_length_failure(),
        },
    decreases item, 0nat,
{
    if step(state, FieldType::Type) {
        let _ = TtlvType::Structure.write(dst);
    }
    let length_at = dst.len();
    if step(state, FieldType::Length) {
        // The length is not known before the items are written: room is
        // left for it here and it is put in afterwards.
        put_u32(dst, 0);
    }
    let ghost header = dst@;
    match write_items(items, dst) {
        Ok(_) => {},
        Err(e) => {
            return Err(e);
        },
    }
    let body_len = dst.len() - (length_at + 4);
    let ghost body = spec_encode_items(items_view(items@));
    assert(dst@ == header + body);
    assert(spec_value_field(item@) == body);
    if body_len > u32::MAX as usize {
        return Err(length_failure());
    }
    patch_u32(dst, length_at, body_len as u32);
    proof {
        let written = seq![TtlvType::Structure.spec_code()] + u32_to_be(body_len as u32) + body;
        assert(dst@ =~= old(dst)@ + written);
        assert(dst@.skip(old(dst)@.len() as int) =~= written);
        assert(dst@.take(old(dst)@.len() as int) =~= old(dst)@);
        assert(tag_to_be(item@.tag) + written =~= spec_encode_item(item@));
    }
    Ok(())
}

/// Writes items one after another, after what `dst` holds. The items have an
/// order of their own, which a machine of their own follows.
fn write_items(items: &Vec<TtlvItem>, dst: &mut Vec<u8>) -> (r: Result<()>)
    ensures
        match r {
            Ok(_) => {
                &&& spec_all_fit(items_view(items@))
                &&& final(dst)@ == old(dst)@ + spec_encode_items(items_view(items@))
            },
            Err(e) => !spec_all_fit(items_view(items@)) && e@ == spec_length_failure(),
        },
    decreases items, 2nat,
{
    let ghost views = items_view(items@);
    proof {
        lemma_items_view(items@);
    }
    let mut inner = TtlvStateMachine::new(TtlvStateMachineMode::Serializing);
    let mut i: usize = 0;
    assert(dst@ =~= old(dst)@ + spec_encode_items(views.take(0)));
    while i < items.len()
        invariant
            i <= items.len(),
            views == items_view(items@),
            views.len() == items@.len(),
            forall|k: int| 0 <= k < views.len() ==> (#[trigger] views[k]) == items@[k]@,
            spec_all_fit(views.take(i as int)),
            dst@ == old(dst)@ + spec_encode_items(views.take(i as int)),
            spec_between_items(inner@),
        decreases items.len() - i,
    {
        proof {
            assert(views.take(i + 1).drop_last() =~= views.take(i as int));
            assert(views.take(i + 1).last() == items@[i as int]@);
        }
        let ghost before = dst@;
        match write_item(&items[i], dst, &mut inner) {
            Ok(_) => {},
            Err(e) => {
                proof {
                    if spec_all_fit(views) {
                        lemma_all_fit(views, i as int);
                    }
                }
                return Err(e);
            },
        }
        assert(dst@ =~= old(dst)@ + spec_encode_items(views.take(i + 1)));
        i = i + 1;
    }
    proof {
        assert(views.take(i as int) =~= views);
    }
    Ok(())
}

/// Writes the type, length, value and padding of a value that is no
/// structure, after its tag. A value that does not fit is refused.
fn write_primitive<T: SerializableTtlvType>(
    v: &T,
    dst: &mut Vec<u8>,
    state: &mut TtlvStateMachine,
) -> (r: Result<()>)
    requires
        old(state)@.mode == TtlvStateMachineMode::Serializing,
        old(state)@.expected == FieldType::Type,
        !old(state)@.ignore_next_tag,
    ensures
        match r {
            Ok(_) => {
                &&& T::spec_value_bytes(v@).len() <= u32::MAX
                &&& final(dst)@ == old(dst)@ + spec_write::<T>(v@)
                &&& final(dst)@.skip(old(dst)@.len() as int) == spec_write::<T>(v@)
                &&& spec_between_items(final(state)@)
            },
            Err(e) => T::spec_value_bytes(v@).len() > u32::MAX && e@ == spec_length_failure(),
        },
{
    if !v.fits() {
        return Err(length_failure());
    }
    if step(state, FieldType::TypeAndLengthAndValue) {
        let _ = v.write(dst);
    }
    assert(dst@.skip(old(dst)@.len() as int) =~= spec_write::<T>(v@));
    Ok(())
}

/// The bytes that an item is written as.
///
/// An item that does not fit is refused: one with a value field, its own or
/// that of an item inside it, of more bytes than 32 bits can count.
pub fn to_vec(item: &TtlvItem) -> (r: Result<Vec<u8>>)
    ensures
        match r {
            Ok(bytes) => spec_fits(item@) && bytes@ == spec_encode_item(item@),
            Err(e) => !spec_fits(item@) && e@ == spec_length_failure(),
        },
{
    let mut dst = Vec::new();
    let mut state = TtlvStateMachine::new(TtlvStateMachineMode::Serializing);
    match write_item(item, &mut dst, &mut state) {
        Ok(_) => {
            assert(dst@ =~= spec_encode_item(item@));
            Ok(dst)
        },
        Err(e) => Err(e),
    }
}

} // verus!
