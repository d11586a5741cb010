//! Reading items from TTLV bytes.

use vstd::prelude::*;
use vstd::slice::slice_subrange;
use vstd::slice::slice_to_vec;

use crate::error::Error;
use crate::error::ErrorKind;
use crate::error::ErrorLocation;
use crate::error::ErrorLocationView;
use crate::error::ErrorView;
use crate::error::MalformedTtlvError;
use crate::error::Result;
use crate::error::lemma_kind;
use crate::error::spec_kind;
use crate::item::ItemView;
use crate::item::TtlvItem;
use crate::item::TtlvValue;
use crate::item::ValueView;
use crate::item::items_view;
use crate::reader::ByteReader;
use crate::reader::Parsed;
use crate::reader::lemma_advance_remaining;
use crate::reader::result_view;
use crate::ser::step;
use crate::types::ByteOffset;
use crate::types::FieldType;
use crate::types::IoErrorKind;
use crate::types::SerializableTtlvType;
use crate::types::StateMachineView;
use crate::types::TtlvBigInteger;
use crate::types::TtlvBoolean;
use crate::types::TtlvByteString;
use crate::types::TtlvDateTime;
use crate::types::TtlvEnumeration;
use crate::types::TtlvInteger;
use crate::types::TtlvLength;
use crate::types::TtlvLongInteger;
use crate::types::TtlvStateMachine;
use crate::types::TtlvStateMachineMode;
use crate::types::TtlvTag;
use crate::types::TtlvTextString;
use crate::types::TtlvType;
use crate::types::WireFormat;
use crate::wire::pad_len;

verus! {

// --- Config ---

/// Limits that a reader keeps to.
#[derive(Clone, Copy, Debug)]
pub struct Config {
    max_bytes: Option<u32>,
}

impl View for Config {
    type V = Option<u32>;

    /// The most bytes that may be taken from the source, if there is a limit.
    closed spec fn view(&self) -> Option<u32> {
        self.max_bytes
    }
}

impl Default for Config {
    fn default() -> (r: Self)
        ensures
            r@ is None,
    {
        Config { max_bytes: None }
    }
}

impl Config {
    /// No limits.
    pub fn new() -> (r: Self)
        ensures
            r@ is None,
    {
        Config { max_bytes: None }
    }

    /// The most bytes that may be taken from the source, if there is a limit.
    pub fn max_bytes(&self) -> (r: Option<u32>)
        ensures
            r == self@,
    {
        self.max_bytes
    }

    /// The same limits, but that no more than `max_bytes` bytes may be taken
    /// from the source.
    pub fn with_max_bytes(self, max_bytes: u32) -> (r: Self)
        ensures
            r@ == Some(max_bytes),
    {
        Config { max_bytes: Some(max_bytes) }
    }
}

// --- What reading comes to ---

/// The header of an item.
pub struct HeaderView {
    pub tag: u32,
    pub ttlv_type: TtlvType,
    pub length: u32,
}

/// A failure at `offset`, inside the structures with the tags `parents`, in
/// an item of which `tag` and `ttlv_type` are known or not.
pub open spec fn spec_failure(
    kind: ErrorKind,
    offset: nat,
    parents: Seq<TtlvTag>,
    tag: Option<u32>,
    ttlv_type: Option<TtlvType>,
) -> ErrorView {
    ErrorView {
        kind,
        location: ErrorLocationView {
            offset: Some(ByteOffset(offset as u64)),
            parent_tags: parents,
            tag: match tag {
                Some(t) => Some(TtlvTag::spec_of(t)),
                None => None,
            },
            ttlv_type,
        },
    }
}

/// What reading the eight bytes of a header from the front of `input`, which
/// begins at `at`, comes to. A failure is at the place where reading
/// stopped, and says the tag and type as far as they were read.
pub open spec fn spec_read_header(input: Seq<u8>, at: nat, parents: Seq<TtlvTag>) -> std::result::Result<
    HeaderView,
    ErrorView,
> {
    let tag = TtlvTag::spec_read(input);
    match tag.result {
        Err(e) => Err(spec_failure(spec_kind(e), at + tag.consumed, parents, None, None)),
        Ok(tag_value) => {
            let ty = TtlvType::spec_read(input.skip(3));
            match ty.result {
                Err(e) => Err(
                    spec_failure(spec_kind(e), at + 3 + ty.consumed, parents, Some(tag_value), None),
                ),
                Ok(ttlv_type) => {
                    let length = TtlvLength::spec_read(input.skip(4));
                    match length.result {
                        Err(e) => Err(
                            spec_failure(
                                spec_kind(e),
                                at + 4 + length.consumed,
                                parents,
                                Some(tag_value),
                                Some(ttlv_type),
                            ),
                        ),
                        Ok(len) => Ok(HeaderView { tag: tag_value, ttlv_type, length: len }),
                    }
                },
            }
        },
    }
}

impl HeaderView {
    /// The number of bytes of the item: the header, the value field, and,
    /// unless the item is a structure, its padding.
    pub open spec fn extent(self) -> nat {
        8 + self.length as nat + if self.ttlv_type == TtlvType::Structure {
            0
        } else {
            pad_len(self.length as nat)
        }
    }
}

/// What reading the value field of an item that is no structure from the
/// front of `input` comes to.
pub open spec fn spec_decode_value(ttlv_type: TtlvType, input: Seq<u8>, length: u32) -> Parsed<
    ValueView,
> {
    match ttlv_type {
        TtlvType::Structure => Parsed { result: Ok(ValueView::Structure(Seq::empty())), consumed: 0 },
        TtlvType::Integer => TtlvInteger::spec_read_value(input, length).map(
            |v: i32| ValueView::Integer(v),
        ),
        TtlvType::LongInteger => TtlvLongInteger::spec_read_value(input, length).map(
            |v: i64| ValueView::LongInteger(v),
        ),
        TtlvType::BigInteger => TtlvBigInteger::spec_read_value(input, length).map(
            |v: Seq<u8>| ValueView::BigInteger(v),
        ),
        TtlvType::Enumeration => TtlvEnumeration::spec_read_value(input, length).map(
            |v: u32| ValueView::Enumeration(v),
        ),
        TtlvType::Boolean => TtlvBoolean::spec_read_value(input, length).map(
            |v: bool| ValueView::Boolean(v),
        ),
        TtlvType::TextString => TtlvTextString::spec_read_value(input, length).map(
            |v: Seq<char>| ValueView::TextString(v),
        ),
        TtlvType::ByteString => TtlvByteString::spec_read_value(input, length).map(
            |v: Seq<u8>| ValueView::ByteString(v),
        ),
        TtlvType::DateTime => TtlvDateTime::spec_read_value(input, length).map(
            |v: i64| ValueView::DateTime(v),
        ),
    }
}

/// The offset `end` as the end of a field; the largest offset there is where
/// `end` is larger.
pub open spec fn spec_field_end(end: nat) -> ByteOffset {
    ByteOffset(
        if end > u64::MAX {
            u64::MAX
        } else {
            end as u64
        },
    )
}

/// What reading an item from the front of `input` comes to: the item and
/// the number of its bytes, or a failure.
///
/// `input` begins `at` bytes into the data and ends where the structure
/// around the item ends; `parents` are the tags of the structures around
/// it, the outermost first. An item that says it is longer than `input`
/// runs past the end of its structure, or, where no structure is around it,
/// past the end of the data.
pub open spec fn spec_decode_item(input: Seq<u8>, at: nat, parents: Seq<TtlvTag>) -> std::result::Result<
    (ItemView, nat),
    ErrorView,
>
    decreases input.len(), 0nat,
{
    match spec_read_header(input, at, parents) {
        Err(f) => Err(f),
        Ok(header) => {
            if header.extent() > input.len() {
                Err(
                    spec_failure(
                        if parents.len() == 0 {
                            ErrorKind::IoError(IoErrorKind::UnexpectedEof)
                        } else {
                            ErrorKind::MalformedTtlv(
                                MalformedTtlvError::Overflow {
                                    field_end: spec_field_end(at + header.extent()),
                                },
                            )
                        },
                        at + 8,
                        parents,
                        Some(header.tag),
                        Some(header.ttlv_type),
                    ),
                )
            } else if header.ttlv_type == TtlvType::Structure {
                match spec_decode_items(
                    input.subrange(8, 8 + header.length),
                    at + 8,
                    parents.push(TtlvTag::spec_of(header.tag)),
                ) {
                    Err(f) => Err(f),
                    Ok((items, _)) => Ok(
                        (
                            ItemView { tag: header.tag, value: ValueView::Structure(items) },
                            header.extent(),
                        ),
                    ),
                }
            } else {
                let value = spec_decode_value(header.ttlv_type, input.skip(8), header.length);
                match value.result {
                    Err(e) => Err(
                        spec_failure(
                            spec_kind(e),
                            at + 8 + value.consumed,
                            parents,
                            Some(header.tag),
                            Some(header.ttlv_type),
                        ),
                    ),
                    Ok(v) => Ok((ItemView { tag: header.tag, value: v }, header.extent())),
                }
            }
        },
    }
}

/// What reading items from `input`, one after another until it is used up,
/// comes to: the items and the number of their bytes, or the first failure.
pub open spec fn spec_decode_items(input: Seq<u8>, at: nat, parents: Seq<TtlvTag>) -> std::result::Result<
    (Seq<ItemView>, nat),
    ErrorView,
>
    decreases input.len(), 1nat,
{
    if input.len() == 0 {
        Ok((Seq::empty(), 0))
    } else {
        match spec_decode_item(input, at, parents) {
            Err(f) => Err(f),
            Ok((item, used)) => {
                if 0 < used <= input.len() {
                    spec_after(
                        seq![item],
                        used,
                        spec_decode_items(input.skip(used as int), at + used, parents),
                    )
                } else {
                    Ok((seq![item], used))
                }
            },
        }
    }
}

/// What reading items comes to where `done` were read from `used` bytes and
/// reading on comes to `rest`.
pub open spec fn spec_after(
    done: Seq<ItemView>,
    used: nat,
    rest: std::result::Result<(Seq<ItemView>, nat), ErrorView>,
) -> std::result::Result<(Seq<ItemView>, nat), ErrorView> {
    match rest {
        Ok((items, n)) => Ok((done + items, used + n)),
        Err(f) => Err(f),
    }
}

/// The failure of reading where more bytes would have to be taken than the
/// limit allows.
pub open spec fn spec_limit_failure(limit: u32, header: Option<HeaderView>) -> ErrorView {
    match header {
        None => spec_failure(
            ErrorKind::ResponseSizeExceedsLimit(limit as usize),
            0,
            Seq::empty(),
            None,
            None,
        ),
        Some(h) => spec_failure(
            ErrorKind::ResponseSizeExceedsLimit(limit as usize),
            8,
            Seq::empty(),
            Some(h.tag),
            Some(h.ttlv_type),
        ),
    }
}

/// The number of bytes that the item with the header at the front of
/// `input` is said to have, where no more than `max_bytes` bytes may be
/// taken from the source.
///
/// The header is not taken where the limit is under its eight bytes, and an
/// item that is said to be longer than the limit is refused: both failures
/// say the limit.
pub open spec fn spec_item_extent(input: Seq<u8>, max_bytes: Option<u32>) -> std::result::Result<
    nat,
    ErrorView,
> {
    if max_bytes is Some && max_bytes->0 < 8 {
        Err(spec_limit_failure(max_bytes->0, None))
    } else {
        match spec_read_header(input, 0, Seq::empty()) {
            Err(f) => Err(f),
            Ok(header) => {
                if max_bytes is Some && header.extent() > max_bytes->0 {
                    Err(spec_limit_failure(max_bytes->0, Some(header)))
                } else {
                    Ok(header.extent())
                }
            },
        }
    }
}

/// What reading one item from the front of `input` comes to, where no more
/// than `max_bytes` bytes may be taken from the source.
///
/// Nothing after the header is looked at where the item, as long as its
/// header says it is, would go over the limit.
pub open spec fn spec_from_slice(input: Seq<u8>, max_bytes: Option<u32>) -> std::result::Result<
    ItemView,
    ErrorView,
> {
    match spec_item_extent(input, max_bytes) {
        Err(f) => Err(f),
        Ok(_) => match spec_decode_item(input, 0, Seq::empty()) {
            Ok((item, _)) => Ok(item),
            Err(f) => Err(f),
        },
    }
}

// --- Reading ---

/// Whether a reading machine is between two items: it expects the tag of an
/// item, or the value of a structure, which begins with one.
pub open spec fn spec_between_items(state: StateMachineView) -> bool {
    &&& state.mode == TtlvStateMachineMode::Deserializing
    &&& (state.expected == FieldType::Tag || state.expected == FieldType::Value)
}

/// The view of what reading an item gave.
pub open spec fn spec_item_result(r: Result<(TtlvItem, usize)>) -> std::result::Result<
    (ItemView, nat),
    ErrorView,
> {
    match r {
        Ok((item, used)) => Ok((item@, used as nat)),
        Err(e) => Err(e@),
    }
}

/// The failure `e` of a header field or value, at `offset`.
fn failure(
    e: crate::types::Error,
    offset: usize,
    parents: &Vec<TtlvTag>,
    tag: Option<TtlvTag>,
    ttlv_type: Option<TtlvType>,
) -> (r: Error)
    requires
        !(e is InvalidStateMachineOperation),
        tag matches Some(t) ==> t == TtlvTag::spec_of(t@),
    ensures
        r@ == spec_failure(
            spec_kind(e),
            offset as nat,
            parents@,
            match tag {
                Some(t) => Some(t@),
                None => None,
            },
            ttlv_type,
        ),
{
    let kind = ErrorKind::from(e);
    proof {
        lemma_kind(e, kind);
    }
    located(kind, offset, parents, tag, ttlv_type)
}

/// A failure of the kind `kind`, at `offset`.
fn located(
    kind: ErrorKind,
    offset: usize,
    parents: &Vec<TtlvTag>,
    tag: Option<TtlvTag>,
    ttlv_type: Option<TtlvType>,
) -> (r: Error)
    requires
        tag matches Some(t) ==> t == TtlvTag::spec_of(t@),
    ensures
        r@ == spec_failure(
            kind,
            offset as nat,
            parents@,
            match tag {
                Some(t) => Some(t@),
                None => None,
            },
            ttlv_type,
        ),
{
    let mut location = ErrorLocation::at(ByteOffset(offset as u64)).with_parent_tags(
        parents.as_slice(),
    );
    if let Some(t) = tag {
        location = location.with_tag(t);
    }
    if let Some(ty) = ttlv_type {
        location = location.with_type(ty);
    }
    Error::new(kind, location)
}

/// The header of an item.
#[derive(Clone, Copy, Debug)]
pub struct TtlvHeader {
    pub tag: TtlvTag,
    pub ttlv_type: TtlvType,
    pub length: u32,
}

impl View for TtlvHeader {
    type V = HeaderView;

    open spec fn view(&self) -> HeaderView {
        HeaderView { tag: self.tag@, ttlv_type: self.ttlv_type, length: self.length }
    }
}

/// Reads the eight bytes of a header from the start of `src`, and tells
/// `state` of each field.
fn read_header(src: &mut ByteReader, at: usize, parents: &Vec<TtlvTag>, state: &mut TtlvStateMachine) -> (r:
    Result<TtlvHeader>)
    requires
        old(src)@.pos == 0,
        at + old(src)@.input.len() <= usize::MAX,
        spec_between_items(old(state)@),
    ensures
        match spec_read_header(old(src)@.input, at as nat, parents@) {
            Ok(header) => {
                &&& r matches Ok(h)
                &&& h@ == header
                &&& h.tag == TtlvTag::spec_of(header.tag)
                &&& final(src)@ == old(src)@.advance(8)
                &&& old(src)@.input.len() >= 8
                &&& final(state)@.mode == TtlvStateMachineMode::Deserializing
                &&& final(state)@.expected == FieldType::Value
            },
            Err(f) => r matches Err(e) && e@ == f,
        },
{
    let ghost input = src@.input;
    proof {
        src.lemma_in_bounds();
        assert(input.skip(0) =~= input);
    }
    let _ = step(state, FieldType::Tag);
    let tag = match TtlvTag::read(src) {
        Ok(tag) => tag,
        Err(e) => {
            proof {
                src.lemma_in_bounds();
            }
            return Err(failure(e, at + src.position(), parents, None, None));
        },
    };
    proof {
        lemma_advance_remaining(old(src)@, 3);
    }
    let _ = step(state, FieldType::Type);
    let ttlv_type = match TtlvType::read(src) {
        Ok(ttlv_type) => ttlv_type,
        Err(e) => {
            proof {
                src.lemma_in_bounds();
            }
            return Err(failure(e, at + src.position(), parents, Some(tag), None));
        },
    };
    proof {
        lemma_advance_remaining(old(src)@, 4);
    }
    let _ = step(state, FieldType::Length);
    let length = match TtlvLength::read(src) {
        Ok(length) => length,
        Err(e) => {
            proof {
                src.lemma_in_bounds();
            }
            return Err(failure(e, at + src.position(), parents, Some(tag), Some(ttlv_type)));
        },
    };
    proof {
        src.lemma_in_bounds();
    }
    Ok(TtlvHeader { tag, ttlv_type, length: *length })
}

impl TtlvHeader {
    /// The number of bytes of the item: the header, the value field, and,
    /// unless the item is a structure, its padding.
    pub fn extent(&self) -> (r: u64)
        ensures
            r == self@.extent(),
    {
        let length = self.length as u64;
        if self.ttlv_type == TtlvType::Structure {
            8 + length
        } else {
            let remainder = length % 8;
            if remainder == 0 {
                8 + length
            } else {
                8 + length + (8 - remainder)
            }
        }
    }
}

/// Reads the value field of `length` bytes and the padding after it.
fn read_primitive<T: SerializableTtlvType>(src: &mut ByteReader, length: u32) -> (r: std::result::Result<
    T,
    crate::types::Error,
>)
    requires
        old(src)@.remaining().len() >= length + pad_len(length as nat),
        old(src)@.pos <= old(src)@.input.len(),
    ensures
        result_view(r) == T::spec_read_value(old(src)@.remaining(), length).result,
        r is Err ==> final(src)@ == old(src)@.advance(
            T::spec_read_value(old(src)@.remaining(), length).consumed,
        ),
        r is Ok ==> final(src)@ == old(src)@.advance(length as nat + pad_len(length as nat)),
{
    proof {
        T::lemma_read_value_consumed(old(src)@.remaining(), length);
        lemma_advance_remaining(old(src)@, length as nat);
    }
    let v = T::read_value(src, length)?;
    let padded = T::read_pad_bytes(src, length);
    assert(padded is Ok);
    Ok(v)
}

/// Reads the value field of an item that is no structure, and its padding.
fn read_value(ttlv_type: TtlvType, src: &mut ByteReader, length: u32) -> (r: std::result::Result<
    TtlvValue,
    crate::types::Error,
>)
    requires
        ttlv_type != TtlvType::Structure,
        old(src)@.remaining().len() >= length + pad_len(length as nat),
        old(src)@.pos <= old(src)@.input.len(),
    ensures
        result_view(r) == spec_decode_value(ttlv_type, old(src)@.remaining(), length).result,
        r is Err ==> final(src)@ == old(src)@.advance(
            spec_decode_value(ttlv_type, old(src)@.remaining(), length).consumed,
        ),
        r is Ok ==> final(src)@ == old(src)@.advance(length as nat + pad_len(length as nat)),
        r matches Err(e) ==> !(e is InvalidStateMachineOperation),
{
    match ttlv_type {
        TtlvType::Integer => match read_primitive::<TtlvInteger>(src, length) {
            Ok(v) => Ok(TtlvValue::Integer(v)),
            Err(e) => Err(e),
        },
        TtlvType::LongInteger => match read_primitive::<TtlvLongInteger>(src, length) {
            Ok(v) => Ok(TtlvValue::LongInteger(v)),
            Err(e) => Err(e),
        },
        TtlvType::BigInteger => match read_primitive::<TtlvBigInteger>(src, length) {
            Ok(v) => Ok(TtlvValue::BigInteger(v)),
            Err(e) => Err(e),
        },
        TtlvType::Enumeration => match read_primitive::<TtlvEnumeration>(src, length) {
            Ok(v) => Ok(TtlvValue::Enumeration(v)),
            Err(e) => Err(e),
        },
        TtlvType::Boolean => match read_primitive::<TtlvBoolean>(src, length) {
            Ok(v) => Ok(TtlvValue::Boolean(v)),
            Err(e) => Err(e),
        },
        TtlvType::TextString => match read_primitive::<TtlvTextString>(src, length) {
            Ok(v) => Ok(TtlvValue::TextString(v)),
            Err(e) => Err(e),
        },
        TtlvType::ByteString => match read_primitive::<TtlvByteString>(src, length) {
            Ok(v) => Ok(TtlvValue::ByteString(v)),
            Err(e) => Err(e),
        },
        _ => match read_primitive::<TtlvDateTime>(src, length) {
            Ok(v) => Ok(TtlvValue::DateTime(v)),
            Err(e) => Err(e),
        },
    }
}

/// Reads an item from the front of `window`, which begins `at` bytes into
/// the data and ends where the structure around the item ends, and tells
/// `state`, which follows the items beside it, of each field.
fn read_item(window: &[u8], at: usize, parents: &Vec<TtlvTag>, state: &mut TtlvStateMachine) -> (r:
    Result<(TtlvItem, usize)>)
    requires
        at + window@.len() <= usize::MAX,
        spec_between_items(old(state)@),
    ensures
        spec_item_result(r) == spec_decode_item(window@, at as nat, parents@),
        r matches Ok((_, used)) ==> 8 <= used <= window@.len() && spec_between_items(
            final(state)@,
        ),
    decreases window@.len(), 0nat,
{
    let mut src = ByteReader::new(window);
    let header = read_header(&mut src, at, parents, state)?;
    let ghost h = header@;
    let extent = header.extent();
    if extent > window.len() as u64 {
        let kind = if parents.len() == 0 {
            ErrorKind::IoError(IoErrorKind::UnexpectedEof)
        } else {
            // A sum that does not fit is past any end.
            let field_end: u64 = if extent > u64::MAX - at as u64 {
                u64::MAX
            } else {
                at as u64 + extent
            };
            ErrorKind::MalformedTtlv(MalformedTtlvError::Overflow { field_end: ByteOffset(field_end) })
        };
        return Err(located(kind, at + 8, parents, Some(header.tag), Some(header.ttlv_type)));
    }
    match header.ttlv_type {
        TtlvType::Structure => {
            let body = slice_subrange(window, 8, 8 + header.length as usize);
            let mut inner = slice_to_vec(parents.as_slice());
            inner.push(header.tag);
            assert(inner@ =~= parents@.push(TtlvTag::spec_of(h.tag)));
            match read_items(body, at + 8, &inner) {
                Ok(items) => Ok((TtlvItem { tag: header.tag, value: TtlvValue::Structure(items) }, extent as usize)),
                Err(e) => Err(e),
            }
        },
        ttlv_type => {
            let _ = step(state, FieldType::Value);
            proof {
                lemma_advance_remaining(ByteReader::new_view(window@), 8);
            }
            match read_value(ttlv_type, &mut src, header.length) {
                Ok(value) => Ok((TtlvItem { tag: header.tag, value }, extent as usize)),
                Err(e) => {
                    proof {
                        src.lemma_in_bounds();
                    }
                    Err(
                        failure(
                            e,
                            at + src.position(),
                            parents,
                            Some(header.tag),
                            Some(header.ttlv_type),
                        ),
                    )
                },
            }
        },
    }
}

/// Reads items from `body`, one after another until it is used up. The
/// items have an order of their own, which a machine of their own follows.
fn read_items(body: &[u8], at: usize, parents: &Vec<TtlvTag>) -> (r: Result<Vec<TtlvItem>>)
    requires
        at + body@.len() <= usize::MAX,
    ensures
        match spec_decode_items(body@, at as nat, parents@) {
            Ok((items, used)) => r matches Ok(v) && items_view(v@) == items && used == body@.len(),
            Err(f) => r matches Err(e) && e@ == f,
        },
    decreases body@.len(), 1nat,
{
    let mut state = TtlvStateMachine::new(TtlvStateMachineMode::Deserializing);
    let mut items: Vec<TtlvItem> = Vec::new();
    let mut pos: usize = 0;
    proof {
        assert(body@.skip(0) =~= body@);
        assert(items_view(items@) + Seq::<ItemView>::empty() =~= items_view(items@));
        let whole = spec_decode_items(body@, at as nat, parents@);
        assert(whole == spec_after(items_view(items@), 0, whole)) by {
            if let Ok((s, n)) = whole {
                assert(Seq::<ItemView>::empty() + s =~= s);
            }
        }
    }
    while pos < body.len()
        invariant
            pos <= body@.len(),
            at + body@.len() <= usize::MAX,
            spec_between_items(state@),
            spec_decode_items(body@, at as nat, parents@) == spec_after(
                items_view(items@),
                pos as nat,
                spec_decode_items(body@.skip(pos as int), (at + pos) as nat, parents@),
            ),
        decreases body@.len() - pos,
    {
        let rest = slice_subrange(body, pos, body.len());
        assert(rest@ =~= body@.skip(pos as int));
        let ghost done = items_view(items@);
        match read_item(rest, at + pos, parents, &mut state) {
            Err(e) => {
                return Err(e);
            },
            Ok((item, used)) => {
                proof {
                    let next = spec_decode_items(
                        rest@.skip(used as int),
                        (at + pos + used) as nat,
                        parents@,
                    );
                    assert(rest@.skip(used as int) =~= body@.skip(pos + used));
                    assert(items@.push(item).drop_last() =~= items@);
                    assert(items_view(items@.push(item)) == done.push(item@));
                    if let Ok((s, n)) = next {
                        assert(done + (seq![item@] + s) =~= done.push(item@) + s);
                    }
                }
                items.push(item);
                pos = pos + used;
            },
        }
    }
    proof {
        assert(body@.skip(pos as int) =~= Seq::<u8>::empty());
        assert(items_view(items@) + Seq::<ItemView>::empty() =~= items_view(items@));
    }
    Ok(items)
}

/// The number of bytes that the item with the header at the front of
/// `bytes` is said to have, where no more than the limit of `config` may be
/// taken from the source.
///
/// A source that gives its bytes piece by piece is asked for the header
/// first and then, once this has said how many bytes the item has, for the
/// rest: the bytes after the header are not needed here.
pub fn item_extent(bytes: &[u8], config: &Config) -> (r: Result<u64>)
    ensures
        match spec_item_extent(bytes@, config@) {
            Ok(extent) => r matches Ok(n) && n == extent,
            Err(f) => r matches Err(e) && e@ == f,
        },
{
    let parents: Vec<TtlvTag> = Vec::new();
    if let Some(limit) = config.max_bytes() {
        if limit < 8 {
            return Err(
                located(ErrorKind::ResponseSizeExceedsLimit(limit as usize), 0, &parents, None, None),
            );
        }
    }
    let mut src = ByteReader::new(bytes);
    let mut state = TtlvStateMachine::new(TtlvStateMachineMode::Deserializing);
    proof {
        src.lemma_in_bounds();
    }
    assert(bytes@.len() <= usize::MAX) by {
        vstd::slice::axiom_spec_len(bytes);
    }
    let header = read_header(&mut src, 0, &parents, &mut state)?;
    let extent = header.extent();
    if let Some(limit) = config.max_bytes() {
        if extent > limit as u64 {
            return Err(
                located(
                    ErrorKind::ResponseSizeExceedsLimit(limit as usize),
                    8,
                    &parents,
                    Some(header.tag),
                    Some(header.ttlv_type),
                ),
            );
        }
    }
    Ok(extent)
}

/// Reads the item at the front of `bytes`. What follows the item is left
/// alone.
///
/// Where `config` sets a limit, no item is read that is longer: the failure
/// says the limit, and comes before anything after the header is looked at.
pub fn from_slice(bytes: &[u8], config: &Config) -> (r: Result<TtlvItem>)
    ensures
        match spec_from_slice(bytes@, config@) {
            Ok(item) => r matches Ok(it) && it@ == item,
            Err(f) => r matches Err(e) && e@ == f,
        },
{
    let _ = item_extent(bytes, config)?;
    assert(bytes@.len() <= usize::MAX) by {
        vstd::slice::axiom_spec_len(bytes);
    }
    let parents: Vec<TtlvTag> = Vec::new();
    let mut state = TtlvStateMachine::new(TtlvStateMachineMode::Deserializing);
    match read_item(bytes, 0, &parents, &mut state) {
        Ok((item, _)) => Ok(item),
        Err(e) => Err(e),
    }
}

} // verus!
