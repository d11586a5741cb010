//! The header fields and primitive values of TTLV, and the rules for the order
//! in which the fields of an item follow one another.

use vstd::prelude::*;
use std::convert::TryFrom;
use std::ops::Deref;

use vstd::slice::slice_to_vec;
use vstd::std_specs::convert::FromSpecImpl;
use vstd::std_specs::convert::TryFromSpecImpl;
use vstd::string::StringSliceAdditionalSpecFns;
use vstd::utf8::decode_utf8;
use vstd::utf8::encode_utf8;
use vstd::utf8::encode_utf8_decode_utf8;
use vstd::utf8::encode_utf8_valid_utf8;
use vstd::utf8::valid_utf8;

use crate::reader::ByteReader;
use crate::reader::Parsed;
use crate::reader::lemma_advance_remaining;
use crate::reader::result_view;
use crate::reader::spec_read_exact;
use crate::text::push_upper_hex;
use crate::text::upper_hex_text;
use crate::wire::bits_of_i32;
use crate::wire::bits_of_i64;
use crate::wire::get_u32;
use crate::wire::get_u64;
use crate::wire::i32_bits;
use crate::wire::i32_from_bits;
use crate::wire::i32_of_bits;
use crate::wire::i64_bits;
use crate::wire::i64_from_bits;
use crate::wire::i64_of_bits;
use crate::wire::lemma_i32_bits_round_trip;
use crate::wire::lemma_i64_bits_round_trip;
use crate::wire::lemma_pad_len;
use crate::wire::lemma_u32_round_trip;
use crate::wire::lemma_u64_round_trip;
use crate::wire::pad_len;
use crate::wire::put_bytes;
use crate::wire::put_repeated;
use crate::wire::put_u32;
use crate::wire::put_u64;
use crate::wire::put_zeros;
use crate::wire::repeated;
use crate::wire::sign_extension;
use crate::wire::u32_from_be;
use crate::wire::u32_to_be;
use crate::wire::u64_from_be;
use crate::wire::u64_to_be;
use crate::wire::zeros;

verus! {

// --- FieldType ---

/// The kind of header or value field in a run of TTLV bytes.
///
/// The field-order state machine also uses it to say which field it expects
/// next.
#[derive(Copy, Clone, Debug, PartialEq, Eq, Structural)]
pub enum FieldType {
    Tag,
    Type,
    Length,
    Value,
    /// A length and the value after it, taken as one step while reading.
    LengthAndValue,
    /// A type, a length and a value, given as one step while writing.
    TypeAndLengthAndValue,
}

impl FieldType {
    /// The name of the kind of field.
    pub open spec fn spec_text(self) -> Seq<char> {
        match self {
            FieldType::Tag => "Tag"@,
            FieldType::Type => "Type"@,
            FieldType::Length => "Length"@,
            FieldType::Value => "Value"@,
            FieldType::LengthAndValue => "LengthAndValue"@,
            FieldType::TypeAndLengthAndValue => "TypeAndLengthAndValue"@,
        }
    }

    /// The name of the kind of field.
    pub fn to_string(&self) -> (r: String)
        ensures
            r@ == self.spec_text(),
    {
        match self {
            FieldType::Tag => "Tag".to_owned(),
            FieldType::Type => "Type".to_owned(),
            FieldType::Length => "Length".to_owned(),
            FieldType::Value => "Value".to_owned(),
            FieldType::LengthAndValue => "LengthAndValue".to_owned(),
            FieldType::TypeAndLengthAndValue => "TypeAndLengthAndValue".to_owned(),
        }
    }
}

impl Default for FieldType {
    fn default() -> (r: Self)
        ensures
            r == FieldType::Tag,
    {
        FieldType::Tag
    }
}

// --- ByteOffset ---

/// An offset into a run of TTLV bytes.
#[derive(Copy, Clone, Debug, PartialEq, Eq, Structural)]
pub struct ByteOffset(pub u64);

impl Deref for ByteOffset {
    type Target = u64;

    fn deref(&self) -> (r: &u64)
        ensures
            *r == self.0,
    {
        &self.0
    }
}

impl From<u64> for ByteOffset {
    fn from(v: u64) -> (r: ByteOffset) {
        ByteOffset(v)
    }
}

impl FromSpecImpl<u64> for ByteOffset {
    open spec fn obeys_from_spec() -> bool {
        true
    }

    open spec fn from_spec(v: u64) -> ByteOffset {
        ByteOffset(v)
    }
}

impl From<&u64> for ByteOffset {
    fn from(v: &u64) -> (r: ByteOffset) {
        ByteOffset(*v)
    }
}

impl FromSpecImpl<&u64> for ByteOffset {
    open spec fn obeys_from_spec() -> bool {
        true
    }

    open spec fn from_spec(v: &u64) -> ByteOffset {
        ByteOffset(*v)
    }
}

impl TryFrom<usize> for ByteOffset {
    type Error = ();

    fn try_from(value: usize) -> (r: std::result::Result<ByteOffset, ()>) {
        if value < usize::MAX {
            Ok(ByteOffset(value as u64))
        } else {
            Err(())
        }
    }
}

impl TryFromSpecImpl<usize> for ByteOffset {
    open spec fn obeys_try_from_spec() -> bool {
        true
    }

    open spec fn try_from_spec(value: usize) -> std::result::Result<ByteOffset, ()> {
        if value < usize::MAX {
            Ok(ByteOffset(value as u64))
        } else {
            Err(())
        }
    }
}

// --- Error ---

/// Why a source of bytes failed.
#[derive(Copy, Clone, Debug, PartialEq, Eq, Structural)]
pub enum IoErrorKind {
    /// The source ended before the bytes asked for were read.
    UnexpectedEof,
}

impl IoErrorKind {
    /// The name of the kind.
    pub open spec fn spec_name(self) -> Seq<char> {
        match self {
            IoErrorKind::UnexpectedEof => "UnexpectedEof"@,
        }
    }

    /// What the kind means, in words.
    pub open spec fn spec_text(self) -> Seq<char> {
        match self {
            IoErrorKind::UnexpectedEof => "failed to fill whole buffer"@,
        }
    }

    /// The name of the kind.
    pub fn name(&self) -> (r: &'static str)
        ensures
            r@ == self.spec_name(),
    {
        match self {
            IoErrorKind::UnexpectedEof => "UnexpectedEof",
        }
    }

    /// What the kind means, in words.
    pub fn to_string(&self) -> (r: String)
        ensures
            r@ == self.spec_text(),
    {
        match self {
            IoErrorKind::UnexpectedEof => "failed to fill whole buffer".to_owned(),
        }
    }
}

/// What can go wrong in reading or writing header fields and primitive values.
#[derive(Debug)]
#[allow(inconsistent_fields)]
pub enum Error {
    /// The source of the bytes failed.
    IoError(IoErrorKind),
    /// The text names no tag; it is held as it was given.
    InvalidTtlvTag(String),
    /// A field came where another was due.
    UnexpectedTtlvField { expected: FieldType, actual: FieldType },
    /// The type byte stands for a type that this library does not handle.
    UnsupportedTtlvType(u8),
    /// The type byte stands for no type.
    InvalidTtlvType(u8),
    /// The length is not the one that values of the type have.
    InvalidTtlvValueLength { expected: u32, actual: u32, ttlv_type: TtlvType },
    /// The value bytes hold no value of the type.
    InvalidTtlvValue(TtlvType),
    /// The state machine was asked for what its mode does not allow.
    InvalidStateMachineOperation,
}

impl From<IoErrorKind> for Error {
    fn from(e: IoErrorKind) -> (r: Error) {
        Error::IoError(e)
    }
}

impl FromSpecImpl<IoErrorKind> for Error {
    open spec fn obeys_from_spec() -> bool {
        true
    }

    open spec fn from_spec(e: IoErrorKind) -> Error {
        Error::IoError(e)
    }
}

pub type Result<T> = std::result::Result<T, Error>;

// --- TtlvTag ---

/// The number that three tag bytes denote, most significant byte first.
pub open spec fn tag_from_be(b: Seq<u8>) -> u32
    recommends
        b.len() == 3,
{
    (b[0] as int * 0x1_0000 + b[1] as int * 0x100 + b[2] as int) as u32
}

/// The three tag bytes of a number, most significant byte first. Bits above
/// the low 24 are dropped.
pub open spec fn tag_to_be(v: u32) -> Seq<u8> {
    seq![(v / 0x1_0000 % 0x100) as u8, (v / 0x100 % 0x100) as u8, (v % 0x100) as u8]
}

/// The largest number that fits a tag.
pub const MAX_TAG: u32 = 0xFF_FFFF;

/// A tag: the 24-bit number that names a TTLV item.
#[derive(Clone, Copy, Debug, PartialEq, Eq, Hash, Structural)]
pub struct TtlvTag(u32);

impl View for TtlvTag {
    type V = u32;

    /// The number of the tag, which is at most [`MAX_TAG`].
    closed spec fn view(&self) -> u32 {
        self.0 % 0x100_0000
    }
}

impl TtlvTag {
    #[verifier::type_invariant]
    spec fn fits(&self) -> bool {
        self.0 <= MAX_TAG
    }

    /// The tag with the number `v`, for a number that fits in 24 bits.
    pub closed spec fn spec_of(v: u32) -> TtlvTag {
        TtlvTag(v)
    }

    /// The tag with a number that fits in 24 bits has that number.
    pub proof fn lemma_spec_of(v: u32)
        requires
            v <= MAX_TAG,
        ensures
            Self::spec_of(v)@ == v,
    {
    }

    /// What reading a tag from the front of `input` comes to.
    pub open spec fn spec_read(input: Seq<u8>) -> Parsed<u32> {
        let bytes = spec_read_exact(input, 3);
        match bytes.result {
            Ok(b) => Parsed { result: Ok(tag_from_be(b)), consumed: bytes.consumed },
            Err(e) => Parsed { result: Err(e), consumed: bytes.consumed },
        }
    }

    /// The number of a tag fits in 24 bits.
    pub proof fn lemma_view_bound(&self)
        ensures
            self@ <= MAX_TAG,
    {
    }

    /// The three bytes that a tag is written as are read back as that tag,
    /// whatever follows them.
    pub proof fn lemma_round_trip(tag: u32, rest: Seq<u8>)
        requires
            tag <= MAX_TAG,
        ensures
            Self::spec_read(tag_to_be(tag) + rest) == (Parsed::<u32> {
                result: Ok(tag),
                consumed: 3,
            }),
    {
        assert((tag_to_be(tag) + rest).take(3) =~= tag_to_be(tag));
    }

    /// The tag as text: `0x` and six hexadecimal digits, with capital
    /// letters.
    pub open spec fn spec_text(self) -> Seq<char> {
        "0x"@ + upper_hex_text(self@ as nat, 6)
    }

    /// The tag as short text: `0x` and its hexadecimal digits with no zeros
    /// before them.
    pub open spec fn spec_short_text(self) -> Seq<char> {
        "0x"@ + upper_hex_text(self@ as nat, 0)
    }

    /// The tag as text, such as `0x420001`.
    pub fn to_string(&self) -> (r: String)
        ensures
            r@ == self.spec_text(),
    {
        let mut out = "0x".to_owned();
        push_upper_hex(&mut out, **self as u64, 6);
        out
    }

    /// The tag as short text, such as `0x1` for the tag one.
    pub fn to_short_string(&self) -> (r: String)
        ensures
            r@ == self.spec_short_text(),
    {
        let mut out = "0x".to_owned();
        push_upper_hex(&mut out, **self as u64, 0);
        out
    }

    /// Reads the three bytes of a tag.
    pub fn read(src: &mut ByteReader) -> (r: Result<Self>)
        ensures
            result_view(r) == Self::spec_read(old(src)@.remaining()).result,
            r matches Ok(tag) ==> tag == Self::spec_of(tag@),
            final(src)@ == old(src)@.advance(Self::spec_read(old(src)@.remaining()).consumed),
    {
        let raw = src.read_exact(3)?;
        Ok(Self::from_be_bytes(raw))
    }

    /// Writes the three bytes of the tag.
    pub fn write(&self, dst: &mut Vec<u8>) -> (r: Result<()>)
        ensures
            r is Ok,
            final(dst)@ == old(dst)@ + tag_to_be(self@),
    {
        proof {
            use_type_invariant(self);
        }
        let v = self.0;
        dst.push((v / 0x1_0000 % 0x100) as u8);
        dst.push((v / 0x100 % 0x100) as u8);
        dst.push((v % 0x100) as u8);
        assert(dst@ =~= old(dst)@ + tag_to_be(self@));
        Ok(())
    }

    fn from_be_bytes(b: &[u8]) -> (r: Self)
        requires
            b@.len() == 3,
        ensures
            r == TtlvTag(tag_from_be(b@)),
            r == Self::spec_of(tag_from_be(b@)),
            r@ == tag_from_be(b@),
    {
        let b0: u32 = b[0] as u32;
        let b1: u32 = b[1] as u32;
        let b2: u32 = b[2] as u32;
        TtlvTag(b0 * 0x1_0000 + b1 * 0x100 + b2)
    }
}

/// The number that a byte stands for as a hexadecimal digit, in either
/// case.
pub open spec fn hex_digit_value(b: u8) -> Option<nat> {
    if 0x30 <= b <= 0x39 {
        Some((b - 0x30) as nat)
    } else if 0x41 <= b <= 0x46 {
        Some((b - 0x41 + 10) as nat)
    } else if 0x61 <= b <= 0x66 {
        Some((b - 0x61 + 10) as nat)
    } else {
        None
    }
}

/// Whether every byte is a hexadecimal digit.
pub open spec fn all_hex_digits(s: Seq<u8>) -> bool {
    forall|i: int| 0 <= i < s.len() ==> (#[trigger] hex_digit_value(s[i])) is Some
}

/// The number that hexadecimal digits denote.
pub open spec fn hex_value(s: Seq<u8>) -> nat
    decreases s.len(),
{
    if s.len() == 0 {
        0
    } else {
        hex_value(s.drop_last()) * 16 + hex_digit_value(s.last()).unwrap_or(0)
    }
}

/// The text without the `0x` that it starts with, however often that is
/// repeated.
pub open spec fn strip_hex_prefixes(s: Seq<u8>) -> Seq<u8>
    decreases s.len(),
{
    if s.len() >= 2 && s[0] == 0x30 && s[1] == 0x78 {
        strip_hex_prefixes(s.skip(2))
    } else {
        s
    }
}

/// The text without the plus sign that it may start with.
pub open spec fn strip_plus_sign(s: Seq<u8>) -> Seq<u8> {
    if s.len() >= 1 && s[0] == 0x2B {
        s.skip(1)
    } else {
        s
    }
}

/// The number that a text in hexadecimal names, if it names one that is no
/// more than `max`: after any `0x` and one optional plus sign come one or
/// more hexadecimal digits.
pub open spec fn spec_parse_hex(s: Seq<u8>, max: u32) -> Option<u32> {
    let digits = strip_plus_sign(strip_hex_prefixes(s));
    if digits.len() > 0 && all_hex_digits(digits) && hex_value(digits) <= max {
        Some(hex_value(digits) as u32)
    } else {
        None
    }
}

/// The tag that a text such as `0x420001` names, if it names one: a number
/// in hexadecimal that fits in 24 bits.
pub open spec fn spec_parse_tag(s: Seq<u8>) -> Option<u32> {
    spec_parse_hex(s, MAX_TAG)
}

/// The number that hexadecimal digits denote is no less than what the first
/// of them denote.
proof fn lemma_hex_value_grows(s: Seq<u8>, n: int)
    requires
        0 <= n <= s.len(),
    ensures
        hex_value(s.take(n)) <= hex_value(s),
    decreases s.len(),
{
    if n == s.len() {
        assert(s.take(n) =~= s);
    } else {
        assert(s.drop_last().take(n) =~= s.take(n));
        lemma_hex_value_grows(s.drop_last(), n);
    }
}

/// The number that a text in hexadecimal names, if it names one that is no
/// more than `max`.
pub fn parse_hex(bytes: &[u8], max: u32) -> (r: Option<u32>)
    ensures
        r == spec_parse_hex(bytes@, max),
{
    let mut start: usize = 0;
    assert(bytes@.skip(0) =~= bytes@);
    while bytes.len() - start >= 2 && bytes[start] == 0x30 && bytes[start + 1] == 0x78
        invariant
            start <= bytes@.len(),
            strip_hex_prefixes(bytes@) == strip_hex_prefixes(bytes@.skip(start as int)),
        decreases bytes@.len() - start,
    {
        assert(bytes@.skip(start as int).skip(2) =~= bytes@.skip(start + 2));
        start = start + 2;
    }
    let ghost unprefixed = bytes@.skip(start as int);
    assert(strip_hex_prefixes(bytes@) == unprefixed);
    if start < bytes.len() && bytes[start] == 0x2B {
        assert(unprefixed.skip(1) =~= bytes@.skip(start + 1));
        start = start + 1;
    }
    let ghost digits = bytes@.skip(start as int);
    assert(digits == strip_plus_sign(strip_hex_prefixes(bytes@)));
    if start == bytes.len() {
        return None;
    }
    let mut value: u32 = 0;
    let mut i: usize = start;
    while i < bytes.len()
        invariant
            start <= i <= bytes@.len(),
            digits == bytes@.skip(start as int),
            digits == strip_plus_sign(strip_hex_prefixes(bytes@)),
            all_hex_digits(digits.take(i - start)),
            value == hex_value(digits.take(i - start)),
            value <= max,
        decreases bytes@.len() - i,
    {
        let b = bytes[i];
        assert(digits[i - start] == b);
        let digit: u32 = if 0x30 <= b && b <= 0x39 {
            (b - 0x30) as u32
        } else if 0x41 <= b && b <= 0x46 {
            (b - 0x41 + 10) as u32
        } else if 0x61 <= b && b <= 0x66 {
            (b - 0x61 + 10) as u32
        } else {
            assert(hex_digit_value(digits[i - start]) is None);
            assert(!all_hex_digits(digits));
            return None;
        };
        let ghost next = digits.take(i - start + 1);
        assert(next.drop_last() =~= digits.take(i - start));
        assert(next.last() == b);
        assert(hex_value(next) == value * 16 + digit);
        if digit > max || value > (max - digit) / 16 {
            proof {
                lemma_hex_value_grows(digits, i - start + 1);
            }
            return None;
        }
        value = value * 16 + digit;
        i = i + 1;
        assert forall|k: int| 0 <= k < next.len() implies (#[trigger] hex_digit_value(
            next[k],
        )) is Some by {
            if k < next.len() - 1 {
                assert(next[k] == digits.take(i - start - 1)[k]);
            }
        }
    }
    assert(digits.take(i - start) =~= digits);
    Some(value)
}

impl TtlvTag {
    /// The tag that a text such as `0x420001` names.
    ///
    /// A text that names no tag is refused, and the error holds the text.
    pub fn from_str(s: &str) -> (r: Result<Self>)
        ensures
            match spec_parse_tag(s.spec_bytes()) {
                Some(v) => r matches Ok(tag) && tag@ == v && tag == TtlvTag::spec_of(v),
                None => r matches Err(Error::InvalidTtlvTag(text)) && text@ == s@,
            },
    {
        match parse_hex(s.as_bytes(), MAX_TAG) {
            Some(value) => Ok(TtlvTag(value)),
            None => Err(Error::InvalidTtlvTag(s.to_owned())),
        }
    }
}

impl std::str::FromStr for TtlvTag {
    type Err = Error;

    fn from_str(s: &str) -> (r: Result<Self>)
        ensures
            match spec_parse_tag(s.spec_bytes()) {
                Some(v) => r matches Ok(tag) && tag@ == v,
                None => r matches Err(Error::InvalidTtlvTag(text)) && text@ == s@,
            },
    {
        TtlvTag::from_str(s)
    }
}

impl Deref for TtlvTag {
    type Target = u32;

    /// The number of the tag.
    fn deref(&self) -> (r: &u32)
        ensures
            *r == self@,
            *self == TtlvTag::spec_of(self@),
    {
        proof {
            use_type_invariant(self);
        }
        &self.0
    }
}

impl TtlvTag {
    /// The tag made from three bytes is the tag with the number that they
    /// denote.
    pub proof fn lemma_from_bytes(b: [u8; 3])
        ensures
            <TtlvTag as vstd::std_specs::convert::FromSpec<[u8; 3]>>::from_spec(b) == TtlvTag::spec_of(
                tag_from_be(b@),
            ),
    {
    }
}

impl From<[u8; 3]> for TtlvTag {
    /// The tag that three bytes denote, most significant byte first.
    fn from(b: [u8; 3]) -> (r: TtlvTag)
        ensures
            r@ == tag_from_be(b@),
    {
        TtlvTag::from_be_bytes(b.as_slice())
    }
}

impl FromSpecImpl<[u8; 3]> for TtlvTag {
    open spec fn obeys_from_spec() -> bool {
        true
    }

    closed spec fn from_spec(b: [u8; 3]) -> TtlvTag {
        TtlvTag(tag_from_be(b@))
    }
}

impl From<&[u8; 3]> for TtlvTag {
    /// The tag that three bytes denote, most significant byte first.
    fn from(b: &[u8; 3]) -> (r: TtlvTag)
        ensures
            r@ == tag_from_be(b@),
    {
        TtlvTag::from_be_bytes(b.as_slice())
    }
}

impl FromSpecImpl<&[u8; 3]> for TtlvTag {
    open spec fn obeys_from_spec() -> bool {
        true
    }

    closed spec fn from_spec(b: &[u8; 3]) -> TtlvTag {
        TtlvTag(tag_from_be(b@))
    }
}

impl From<&TtlvTag> for [u8; 3] {
    /// The three bytes of a tag, most significant byte first.
    fn from(tag: &TtlvTag) -> (r: [u8; 3])
        ensures
            r@ == tag_to_be(tag@),
    {
        proof {
            use_type_invariant(tag);
        }
        let v = tag.0;
        let r = [(v / 0x1_0000 % 0x100) as u8, (v / 0x100 % 0x100) as u8, (v % 0x100) as u8];
        assert(r@ =~= tag_to_be(tag@));
        r
    }
}

impl FromSpecImpl<&TtlvTag> for [u8; 3] {
    open spec fn obeys_from_spec() -> bool {
        true
    }

    closed spec fn from_spec(tag: &TtlvTag) -> [u8; 3] {
        let v = tag.0;
        [(v / 0x1_0000 % 0x100) as u8, (v / 0x100 % 0x100) as u8, (v % 0x100) as u8]
    }
}

impl From<TtlvTag> for [u8; 3] {
    /// The three bytes of a tag, most significant byte first.
    fn from(tag: TtlvTag) -> (r: [u8; 3])
        ensures
            r@ == tag_to_be(tag@),
    {
        <[u8; 3]>::from(&tag)
    }
}

impl FromSpecImpl<TtlvTag> for [u8; 3] {
    open spec fn obeys_from_spec() -> bool {
        true
    }

    closed spec fn from_spec(tag: TtlvTag) -> [u8; 3] {
        let v = tag.0;
        [(v / 0x1_0000 % 0x100) as u8, (v / 0x100 % 0x100) as u8, (v % 0x100) as u8]
    }
}

// --- TtlvType ---

/// The type of a TTLV item: what kind of value follows its header.
#[derive(Copy, Clone, Debug, PartialEq, Eq, Structural)]
pub enum TtlvType {
    Structure,
    Integer,
    LongInteger,
    BigInteger,
    Enumeration,
    Boolean,
    TextString,
    ByteString,
    DateTime,
}

/// The type byte that the format reserves for intervals, which this library
/// recognises and does not support.
pub const INTERVAL_TYPE_CODE: u8 = 0x0A;

impl TtlvType {
    /// The byte that stands for the type on the wire.
    pub open spec fn spec_code(self) -> u8 {
        match self {
            TtlvType::Structure => 0x01,
            TtlvType::Integer => 0x02,
            TtlvType::LongInteger => 0x03,
            TtlvType::BigInteger => 0x04,
            TtlvType::Enumeration => 0x05,
            TtlvType::Boolean => 0x06,
            TtlvType::TextString => 0x07,
            TtlvType::ByteString => 0x08,
            TtlvType::DateTime => 0x09,
        }
    }

    /// The type that a byte stands for. The interval byte is reported as
    /// unsupported, every other byte without a type as invalid.
    pub open spec fn spec_from_code(code: u8) -> Result<TtlvType> {
        if code == 0x01 {
            Ok(TtlvType::Structure)
        } else if code == 0x02 {
            Ok(TtlvType::Integer)
        } else if code == 0x03 {
            Ok(TtlvType::LongInteger)
        } else if code == 0x04 {
            Ok(TtlvType::BigInteger)
        } else if code == 0x05 {
            Ok(TtlvType::Enumeration)
        } else if code == 0x06 {
            Ok(TtlvType::Boolean)
        } else if code == 0x07 {
            Ok(TtlvType::TextString)
        } else if code == 0x08 {
            Ok(TtlvType::ByteString)
        } else if code == 0x09 {
            Ok(TtlvType::DateTime)
        } else if code == INTERVAL_TYPE_CODE {
            Err(Error::UnsupportedTtlvType(code))
        } else {
            Err(Error::InvalidTtlvType(code))
        }
    }

    /// What reading a type from the front of `input` comes to.
    pub open spec fn spec_read(input: Seq<u8>) -> Parsed<TtlvType> {
        let bytes = spec_read_exact(input, 1);
        match bytes.result {
            Ok(b) => Parsed { result: Self::spec_from_code(b[0]), consumed: bytes.consumed },
            Err(e) => Parsed { result: Err(e), consumed: bytes.consumed },
        }
    }

    /// The bytes that stand for a type are the numbers from one to nine, and
    /// each stands for the type that is written as it.
    pub proof fn lemma_codes(code: u8, ttlv_type: TtlvType)
        ensures
            Self::spec_from_code(code) is Ok <==> 1 <= code <= 9,
            Self::spec_from_code(code) == Ok::<TtlvType, Error>(ttlv_type) <==> code
                == ttlv_type.spec_code(),
            Self::spec_from_code(code) is Err ==> Self::spec_from_code(code) == if code
                == INTERVAL_TYPE_CODE {
                Err::<TtlvType, Error>(Error::UnsupportedTtlvType(code))
            } else {
                Err::<TtlvType, Error>(Error::InvalidTtlvType(code))
            },
    {
    }

    /// The byte that a type is written as is read back as that type,
    /// whatever follows it.
    pub proof fn lemma_round_trip(ttlv_type: TtlvType, rest: Seq<u8>)
        ensures
            Self::spec_read(seq![ttlv_type.spec_code()] + rest) == (Parsed::<TtlvType> {
                result: Ok(ttlv_type),
                consumed: 1,
            }),
    {
        assert((seq![ttlv_type.spec_code()] + rest).take(1)[0] == ttlv_type.spec_code());
    }

    /// The name of the type, with the byte that stands for it.
    pub open spec fn spec_text(self) -> Seq<char> {
        match self {
            TtlvType::Structure => "Structure (0x01)"@,
            TtlvType::Integer => "Integer (0x02)"@,
            TtlvType::LongInteger => "LongInteger (0x03)"@,
            TtlvType::BigInteger => "BigInteger (0x04)"@,
            TtlvType::Enumeration => "Enumeration (0x05)"@,
            TtlvType::Boolean => "Boolean (0x06)"@,
            TtlvType::TextString => "TextString (0x07)"@,
            TtlvType::ByteString => "ByteString (0x08)"@,
            TtlvType::DateTime => "DateTime (0x09)"@,
        }
    }

    /// The name of the type alone.
    pub open spec fn spec_name(self) -> Seq<char> {
        match self {
            TtlvType::Structure => "Structure"@,
            TtlvType::Integer => "Integer"@,
            TtlvType::LongInteger => "LongInteger"@,
            TtlvType::BigInteger => "BigInteger"@,
            TtlvType::Enumeration => "Enumeration"@,
            TtlvType::Boolean => "Boolean"@,
            TtlvType::TextString => "TextString"@,
            TtlvType::ByteString => "ByteString"@,
            TtlvType::DateTime => "DateTime"@,
        }
    }

    /// The name of the type, with the byte that stands for it.
    pub fn to_string(&self) -> (r: String)
        ensures
            r@ == self.spec_text(),
    {
        match self {
            TtlvType::Structure => "Structure (0x01)".to_owned(),
            TtlvType::Integer => "Integer (0x02)".to_owned(),
            TtlvType::LongInteger => "LongInteger (0x03)".to_owned(),
            TtlvType::BigInteger => "BigInteger (0x04)".to_owned(),
            TtlvType::Enumeration => "Enumeration (0x05)".to_owned(),
            TtlvType::Boolean => "Boolean (0x06)".to_owned(),
            TtlvType::TextString => "TextString (0x07)".to_owned(),
            TtlvType::ByteString => "ByteString (0x08)".to_owned(),
            TtlvType::DateTime => "DateTime (0x09)".to_owned(),
        }
    }

    /// The name of the type alone.
    pub fn name(&self) -> (r: &'static str)
        ensures
            r@ == self.spec_name(),
    {
        match self {
            TtlvType::Structure => "Structure",
            TtlvType::Integer => "Integer",
            TtlvType::LongInteger => "LongInteger",
            TtlvType::BigInteger => "BigInteger",
            TtlvType::Enumeration => "Enumeration",
            TtlvType::Boolean => "Boolean",
            TtlvType::TextString => "TextString",
            TtlvType::ByteString => "ByteString",
            TtlvType::DateTime => "DateTime",
        }
    }

    /// The byte that stands for the type on the wire.
    pub fn code(&self) -> (r: u8)
        ensures
            r == self.spec_code(),
    {
        match self {
            TtlvType::Structure => 0x01,
            TtlvType::Integer => 0x02,
            TtlvType::LongInteger => 0x03,
            TtlvType::BigInteger => 0x04,
            TtlvType::Enumeration => 0x05,
            TtlvType::Boolean => 0x06,
            TtlvType::TextString => 0x07,
            TtlvType::ByteString => 0x08,
            TtlvType::DateTime => 0x09,
        }
    }

    /// Reads the byte of a type.
    pub fn read(src: &mut ByteReader) -> (r: Result<Self>)
        ensures
            r == Self::spec_read(old(src)@.remaining()).result,
            final(src)@ == old(src)@.advance(Self::spec_read(old(src)@.remaining()).consumed),
    {
        let raw = src.read_exact(1)?;
        TtlvType::try_from(raw[0])
    }

    /// Writes the byte of the type.
    pub fn write(&self, dst: &mut Vec<u8>) -> (r: Result<()>)
        ensures
            r is Ok,
            final(dst)@ == old(dst)@ + seq![self.spec_code()],
    {
        dst.push(self.code());
        assert(dst@ =~= old(dst)@ + seq![self.spec_code()]);
        Ok(())
    }
}

impl TryFrom<u8> for TtlvType {
    type Error = Error;

    fn try_from(value: u8) -> (r: Result<TtlvType>) {
        match value {
            0x01 => Ok(TtlvType::Structure),
            0x02 => Ok(TtlvType::Integer),
            0x03 => Ok(TtlvType::LongInteger),
            0x04 => Ok(TtlvType::BigInteger),
            0x05 => Ok(TtlvType::Enumeration),
            0x06 => Ok(TtlvType::Boolean),
            0x07 => Ok(TtlvType::TextString),
            0x08 => Ok(TtlvType::ByteString),
            0x09 => Ok(TtlvType::DateTime),
            0x0A => Err(Error::UnsupportedTtlvType(0x0A)),
            _ => Err(Error::InvalidTtlvType(value)),
        }
    }
}

impl TryFromSpecImpl<u8> for TtlvType {
    open spec fn obeys_try_from_spec() -> bool {
        true
    }

    open spec fn try_from_spec(value: u8) -> Result<TtlvType> {
        TtlvType::spec_from_code(value)
    }
}

impl From<TtlvType> for [u8; 1] {
    /// The one byte of a type.
    fn from(item_type: TtlvType) -> (r: [u8; 1])
        ensures
            r@ == seq![item_type.spec_code()],
    {
        [item_type.code()]
    }
}

impl FromSpecImpl<TtlvType> for [u8; 1] {
    open spec fn obeys_from_spec() -> bool {
        true
    }

    open spec fn from_spec(item_type: TtlvType) -> [u8; 1] {
        [item_type.spec_code()]
    }
}

// --- TtlvLength ---

/// The length of a TTLV item: the number of bytes of its value, padding not
/// counted.
#[derive(Clone, Copy, Debug, PartialEq, Eq, Hash, Structural)]
pub struct TtlvLength(u32);

impl View for TtlvLength {
    type V = u32;

    closed spec fn view(&self) -> u32 {
        self.0
    }
}

impl TtlvLength {
    /// What reading a length from the front of `input` comes to.
    pub open spec fn spec_read(input: Seq<u8>) -> Parsed<u32> {
        let bytes = spec_read_exact(input, 4);
        match bytes.result {
            Ok(b) => Parsed { result: Ok(u32_from_be(b)), consumed: bytes.consumed },
            Err(e) => Parsed { result: Err(e), consumed: bytes.consumed },
        }
    }

    /// The four bytes that a length is written as are read back as that
    /// length, whatever follows them.
    pub proof fn lemma_round_trip(length: u32, rest: Seq<u8>)
        ensures
            Self::spec_read(u32_to_be(length) + rest) == (Parsed::<u32> {
                result: Ok(length),
                consumed: 4,
            }),
    {
        lemma_u32_round_trip(length);
        assert((u32_to_be(length) + rest).take(4) =~= u32_to_be(length));
    }

    /// The length as text: `0x` and eight hexadecimal digits, with capital
    /// letters.
    pub open spec fn spec_text(self) -> Seq<char> {
        "0x"@ + upper_hex_text(self@ as nat, 8)
    }

    /// The length as text, such as `0x00000010`.
    pub fn to_string(&self) -> (r: String)
        ensures
            r@ == self.spec_text(),
    {
        let mut out = "0x".to_owned();
        push_upper_hex(&mut out, self.0 as u64, 8);
        out
    }

    /// The length as short text: `0x` and its hexadecimal digits with no
    /// zeros before them.
    pub open spec fn spec_short_text(self) -> Seq<char> {
        "0x"@ + upper_hex_text(self@ as nat, 0)
    }

    /// The length as short text, such as `0x10`.
    pub fn to_short_string(&self) -> (r: String)
        ensures
            r@ == self.spec_short_text(),
    {
        let mut out = "0x".to_owned();
        push_upper_hex(&mut out, self.0 as u64, 0);
        out
    }

    pub fn new(value: u32) -> (r: Self)
        ensures
            r@ == value,
    {
        Self(value)
    }

    /// Reads the four bytes of a length.
    pub fn read(src: &mut ByteReader) -> (r: Result<Self>)
        ensures
            result_view(r) == Self::spec_read(old(src)@.remaining()).result,
            final(src)@ == old(src)@.advance(Self::spec_read(old(src)@.remaining()).consumed),
    {
        let raw = src.read_exact(4)?;
        Ok(Self(get_u32(raw)))
    }

    /// Writes the four bytes of the length.
    pub fn write(&self, dst: &mut Vec<u8>) -> (r: Result<()>)
        ensures
            r is Ok,
            final(dst)@ == old(dst)@ + u32_to_be(self@),
    {
        put_u32(dst, self.0);
        Ok(())
    }
}

impl Deref for TtlvLength {
    type Target = u32;

    fn deref(&self) -> (r: &u32)
        ensures
            *r == self@,
    {
        &self.0
    }
}

// --- SerializableTtlvType ---

/// What reading the padding after a value of `value_len` bytes from the front
/// of `input` comes to. What the padding bytes hold is not looked at.
pub open spec fn spec_read_pad_bytes(input: Seq<u8>, value_len: u32) -> Parsed<()> {
    let bytes = spec_read_exact(input, pad_len(value_len as nat));
    match bytes.result {
        Ok(_) => Parsed { result: Ok(()), consumed: bytes.consumed },
        Err(e) => Parsed { result: Err(e), consumed: bytes.consumed },
    }
}

/// How the values of a primitive TTLV type lie on the wire.
pub trait WireFormat: Sized + View {
    /// The TTLV type that values of this type are written as.
    spec fn spec_ttlv_type() -> TtlvType;

    /// The bytes of the value field that `v` is written as.
    spec fn spec_value_bytes(v: Self::V) -> Seq<u8>;

    /// What reading a value field of `value_len` bytes from the front of
    /// `input` comes to.
    spec fn spec_read_value(input: Seq<u8>, value_len: u32) -> Parsed<Self::V>;

    /// The value that is read back from what `v` was written as.
    spec fn spec_read_back(v: Self::V) -> Self::V;

    /// Reading a value field takes no more than there is, and where it
    /// succeeds it takes exactly the length that was declared.
    proof fn lemma_read_value_consumed(input: Seq<u8>, value_len: u32)
        ensures
            Self::spec_read_value(input, value_len).consumed <= input.len(),
            Self::spec_read_value(input, value_len).result is Ok ==> Self::spec_read_value(
                input,
                value_len,
            ).consumed == value_len,
    ;

    /// A value field that was written is read back, whatever follows it.
    proof fn lemma_value_round_trip(v: Self::V, rest: Seq<u8>)
        requires
            Self::spec_value_bytes(v).len() <= u32::MAX,
        ensures
            Self::spec_read_value(
                Self::spec_value_bytes(v) + rest,
                Self::spec_value_bytes(v).len() as u32,
            ) == (Parsed {
                result: Ok(Self::spec_read_back(v)),
                consumed: Self::spec_value_bytes(v).len(),
            }),
    ;
}

/// What reading a length, a value and its padding from the front of `input`
/// comes to.
pub open spec fn spec_read<T: WireFormat>(input: Seq<u8>) -> Parsed<T::V> {
    let length = TtlvLength::spec_read(input);
    match length.result {
        Err(e) => Parsed { result: Err(e), consumed: length.consumed },
        Ok(value_len) => {
            let value = T::spec_read_value(input.skip(4), value_len);
            match value.result {
                Err(e) => Parsed { result: Err(e), consumed: 4 + value.consumed },
                Ok(v) => {
                    let pad = spec_read_pad_bytes(input.skip(4 + value.consumed as int), value_len);
                    match pad.result {
                        Err(e) => Parsed {
                            result: Err(e),
                            consumed: 4 + value.consumed + pad.consumed,
                        },
                        Ok(_) => Parsed {
                            result: Ok(v),
                            consumed: 4 + value.consumed + pad.consumed,
                        },
                    }
                },
            }
        },
    }
}

/// The bytes that stand for a value on the wire: its type, the length of its
/// value field, the value field, and zero bytes up to a multiple of eight.
pub open spec fn spec_write<T: WireFormat>(v: T::V) -> Seq<u8> {
    let value = T::spec_value_bytes(v);
    seq![T::spec_ttlv_type().spec_code()] + u32_to_be(value.len() as u32) + value + zeros(
        pad_len(value.len()),
    )
}

/// What is written for a value is, with the three bytes of a tag before it,
/// as many bytes as a multiple of eight: the header, the value field, and
/// the padding that the length of the value field asks for.
pub proof fn lemma_write_len<T: WireFormat>(v: T::V)
    requires
        T::spec_value_bytes(v).len() <= u32::MAX,
    ensures
        spec_write::<T>(v).len() == 5 + T::spec_value_bytes(v).len() + pad_len(
            T::spec_value_bytes(v).len(),
        ),
        (3 + spec_write::<T>(v).len()) % 8 == 0,
{
    lemma_pad_len(T::spec_value_bytes(v).len());
}

/// A read that succeeds takes the four bytes of the length, as many bytes as
/// that length says, and the padding that goes with it. No read takes more
/// than there is.
pub proof fn lemma_read_consumed<T: WireFormat>(input: Seq<u8>)
    ensures
        spec_read::<T>(input).consumed <= input.len(),
        spec_read::<T>(input).result is Ok ==> input.len() >= 4 && spec_read::<T>(input).consumed
            == 4 + u32_from_be(input.take(4)) + pad_len(u32_from_be(input.take(4)) as nat),
{
    if input.len() >= 4 {
        let value_len = u32_from_be(input.take(4));
        T::lemma_read_value_consumed(input.skip(4), value_len);
    }
}

/// What is written for a value, without the byte of the type, is read back
/// as that value, whatever follows it.
///
/// Only a big integer whose bytes are no multiple of eight is read back
/// otherwise: with its sign extended, as it was written.
pub proof fn lemma_round_trip<T: WireFormat>(v: T::V, rest: Seq<u8>)
    requires
        T::spec_value_bytes(v).len() <= u32::MAX,
    ensures
        spec_read::<T>(spec_write::<T>(v).skip(1) + rest) == (Parsed::<T::V> {
            result: Ok(T::spec_read_back(v)),
            consumed: (spec_write::<T>(v).len() - 1) as nat,
        }),
{
    let value = T::spec_value_bytes(v);
    let len = value.len() as u32;
    let pad = zeros(pad_len(value.len()));
    let input = spec_write::<T>(v).skip(1) + rest;
    lemma_u32_round_trip(len);
    assert(input.take(4) =~= u32_to_be(len));
    assert(input.skip(4) =~= value + (pad + rest));
    T::lemma_value_round_trip(v, pad + rest);
    assert(input.skip(4 + value.len() as int) =~= pad + rest);
    assert((pad + rest).take(pad.len() as int) =~= pad);
}

/// A Rust type that stands for one of the primitive TTLV types and can be
/// read from and written as TTLV bytes.
pub trait SerializableTtlvType: Sized + Deref + WireFormat {
    /// The TTLV type that the value is written as.
    fn ttlv_type(&self) -> (r: TtlvType)
        ensures
            r == Self::spec_ttlv_type(),
    ;

    /// Whether the value can be written: whether the length of its value
    /// field can be said in the 32 bits that a header has for it.
    fn fits(&self) -> (r: bool)
        ensures
            r == (Self::spec_value_bytes(self@).len() <= u32::MAX),
    ;

    /// The number of padding bytes after a value of `value_len` bytes: what
    /// is missing to the next multiple of eight.
    fn calc_pad_bytes(value_len: u32) -> (r: u32)
        ensures
            r == pad_len(value_len as nat),
    {
        let remainder = value_len % 8;
        if remainder == 0 {
            0
        } else {
            8 - remainder
        }
    }

    /// Reads and drops the padding after a value of `value_len` bytes.
    fn read_pad_bytes(src: &mut ByteReader, value_len: u32) -> (r: Result<()>)
        ensures
            r == spec_read_pad_bytes(old(src)@.remaining(), value_len).result,
            final(src)@ == old(src)@.advance(
                spec_read_pad_bytes(old(src)@.remaining(), value_len).consumed,
            ),
    {
        let num_pad_bytes = Self::calc_pad_bytes(value_len) as usize;
        if num_pad_bytes > 0 {
            let _ = src.read_exact(num_pad_bytes)?;
        }
        Ok(())
    }

    /// Writes the zero bytes that pad a value of `value_len` bytes.
    fn write_pad_bytes(dst: &mut Vec<u8>, value_len: u32) -> (r: Result<()>)
        ensures
            r is Ok,
            final(dst)@ == old(dst)@ + zeros(pad_len(value_len as nat)),
    {
        let num_pad_bytes = Self::calc_pad_bytes(value_len);
        put_zeros(dst, num_pad_bytes);
        Ok(())
    }

    /// Reads a length, the value, and the padding. The type has been read by
    /// the caller, who chose this Rust type by it.
    fn read(src: &mut ByteReader) -> (r: Result<Self>)
        ensures
            result_view(r) == spec_read::<Self>(old(src)@.remaining()).result,
            final(src)@ == old(src)@.advance(spec_read::<Self>(old(src)@.remaining()).consumed),
    {
        let ghost input = src@.remaining();
        let length = TtlvLength::read(src)?;
        let value_len = *length;
        proof {
            src.lemma_in_bounds();
            lemma_advance_remaining(old(src)@, 4);
            Self::lemma_read_value_consumed(input.skip(4), value_len);
        }
        let ghost at_value = src@;
        let v = Self::read_value(src, value_len)?;
        proof {
            lemma_advance_remaining(at_value, value_len as nat);
            assert(input.skip(4).skip(value_len as int) =~= input.skip(4 + value_len));
        }
        Self::read_pad_bytes(src, value_len)?;
        Ok(v)
    }

    /// Writes the type, the length, the value, and the padding. The tag is
    /// for the caller to write before.
    fn write(&self, dst: &mut Vec<u8>) -> (r: Result<()>)
        requires
            Self::spec_value_bytes(self@).len() <= u32::MAX,
        ensures
            r is Ok,
            final(dst)@ == old(dst)@ + spec_write::<Self>(self@),
    {
        dst.push(self.ttlv_type().code());
        let value_len = self.write_length_and_value(dst)?;
        let r = Self::write_pad_bytes(dst, value_len);
        assert(dst@ =~= old(dst)@ + spec_write::<Self>(self@));
        r
    }

    /// Reads a value field of `value_len` bytes.
    fn read_value(src: &mut ByteReader, value_len: u32) -> (r: Result<Self>)
        ensures
            result_view(r) == Self::spec_read_value(old(src)@.remaining(), value_len).result,
            final(src)@ == old(src)@.advance(
                Self::spec_read_value(old(src)@.remaining(), value_len).consumed,
            ),
    ;

    /// Writes the length of the value field and the value field, and returns
    /// that length.
    fn write_length_and_value(&self, dst: &mut Vec<u8>) -> (r: Result<u32>)
        requires
            Self::spec_value_bytes(self@).len() <= u32::MAX,
        ensures
            r == Ok::<u32, Error>(Self::spec_value_bytes(self@).len() as u32),
            final(dst)@ == old(dst)@ + u32_to_be(Self::spec_value_bytes(self@).len() as u32)
                + Self::spec_value_bytes(self@),
    ;
}

/// What reading a value field of a fixed size from the front of `input` comes
/// to: its bytes, or a failure where the length that was declared is not
/// that size, or where the source ends too soon.
pub open spec fn spec_read_fixed(
    input: Seq<u8>,
    value_len: u32,
    fixed: u32,
    ttlv_type: TtlvType,
) -> Parsed<Seq<u8>> {
    if value_len != fixed {
        Parsed {
            result: Err(
                Error::InvalidTtlvValueLength { expected: fixed, actual: value_len, ttlv_type },
            ),
            consumed: 0,
        }
    } else {
        spec_read_exact(input, fixed as nat)
    }
}

/// Reads a value field that must be `fixed` bytes long.
fn read_fixed<'a>(src: &mut ByteReader<'a>, value_len: u32, fixed: u32, ttlv_type: TtlvType) -> (r:
    Result<&'a [u8]>)
    ensures
        result_view(r) == spec_read_fixed(old(src)@.remaining(), value_len, fixed, ttlv_type).result,
        final(src)@ == old(src)@.advance(
            spec_read_fixed(old(src)@.remaining(), value_len, fixed, ttlv_type).consumed,
        ),
{
    if value_len != fixed {
        assert(old(src)@.advance(0) == old(src)@);
        Err(Error::InvalidTtlvValueLength { expected: fixed, actual: value_len, ttlv_type })
    } else {
        src.read_exact(fixed as usize)
    }
}

// --- TtlvInteger ---

/// A TTLV Integer: a signed 32-bit number, written as four bytes in two's
/// complement, most significant byte first.
#[derive(Clone, Debug)]
pub struct TtlvInteger(pub i32);

impl Deref for TtlvInteger {
    type Target = i32;

    fn deref(&self) -> (r: &i32)
        ensures
            *r == self.0,
    {
        &self.0
    }
}

impl View for TtlvInteger {
    type V = i32;

    open spec fn view(&self) -> i32 {
        self.0
    }
}

impl WireFormat for TtlvInteger {
    open spec fn spec_ttlv_type() -> TtlvType {
        TtlvType::Integer
    }

    open spec fn spec_value_bytes(v: i32) -> Seq<u8> {
        u32_to_be(i32_bits(v))
    }

    open spec fn spec_read_value(input: Seq<u8>, value_len: u32) -> Parsed<i32> {
        let bytes = spec_read_fixed(input, value_len, 4, TtlvType::Integer);
        match bytes.result {
            Ok(b) => Parsed { result: Ok(i32_of_bits(u32_from_be(b))), consumed: bytes.consumed },
            Err(e) => Parsed { result: Err(e), consumed: bytes.consumed },
        }
    }

    open spec fn spec_read_back(v: i32) -> i32 {
        v
    }

    proof fn lemma_read_value_consumed(input: Seq<u8>, value_len: u32) {
    }

    proof fn lemma_value_round_trip(v: i32, rest: Seq<u8>) {
        let bytes = u32_to_be(i32_bits(v));
        lemma_u32_round_trip(i32_bits(v));
        lemma_i32_bits_round_trip(v);
        assert((bytes + rest).take(4) =~= bytes);
    }
}

impl SerializableTtlvType for TtlvInteger {
    fn ttlv_type(&self) -> (r: TtlvType) {
        TtlvType::Integer
    }

    fn fits(&self) -> (r: bool) {
        proof {
            lemma_u32_round_trip(i32_bits(self.0));
        }
        true
    }

    fn read_value(src: &mut ByteReader, value_len: u32) -> (r: Result<Self>) {
        let raw = read_fixed(src, value_len, 4, TtlvType::Integer)?;
        Ok(TtlvInteger(i32_from_bits(get_u32(raw))))
    }

    fn write_length_and_value(&self, dst: &mut Vec<u8>) -> (r: Result<u32>) {
        put_u32(dst, 4);
        put_u32(dst, bits_of_i32(self.0));
        Ok(4)
    }
}

// --- TtlvLongInteger ---

/// A TTLV Long Integer: a signed 64-bit number, written as eight bytes in
/// two's complement, most significant byte first.
#[derive(Clone, Debug)]
pub struct TtlvLongInteger(pub i64);

impl Deref for TtlvLongInteger {
    type Target = i64;

    fn deref(&self) -> (r: &i64)
        ensures
            *r == self.0,
    {
        &self.0
    }
}

impl View for TtlvLongInteger {
    type V = i64;

    open spec fn view(&self) -> i64 {
        self.0
    }
}

impl WireFormat for TtlvLongInteger {
    open spec fn spec_ttlv_type() -> TtlvType {
        TtlvType::LongInteger
    }

    open spec fn spec_value_bytes(v: i64) -> Seq<u8> {
        u64_to_be(i64_bits(v))
    }

    open spec fn spec_read_value(input: Seq<u8>, value_len: u32) -> Parsed<i64> {
        let bytes = spec_read_fixed(input, value_len, 8, TtlvType::LongInteger);
        match bytes.result {
            Ok(b) => Parsed { result: Ok(i64_of_bits(u64_from_be(b))), consumed: bytes.consumed },
            Err(e) => Parsed { result: Err(e), consumed: bytes.consumed },
        }
    }

    open spec fn spec_read_back(v: i64) -> i64 {
        v
    }

    proof fn lemma_read_value_consumed(input: Seq<u8>, value_len: u32) {
    }

    proof fn lemma_value_round_trip(v: i64, rest: Seq<u8>) {
        let bytes = u64_to_be(i64_bits(v));
        lemma_u64_round_trip(i64_bits(v));
        lemma_i64_bits_round_trip(v);
        assert((bytes + rest).take(8) =~= bytes);
    }
}

impl SerializableTtlvType for TtlvLongInteger {
    fn ttlv_type(&self) -> (r: TtlvType) {
        TtlvType::LongInteger
    }

    fn fits(&self) -> (r: bool) {
        proof {
            lemma_u64_round_trip(i64_bits(self.0));
        }
        true
    }

    fn read_value(src: &mut ByteReader, value_len: u32) -> (r: Result<Self>) {
        let raw = read_fixed(src, value_len, 8, TtlvType::LongInteger)?;
        Ok(TtlvLongInteger(i64_from_bits(get_u64(raw))))
    }

    fn write_length_and_value(&self, dst: &mut Vec<u8>) -> (r: Result<u32>) {
        proof {
            lemma_u64_round_trip(i64_bits(self.0));
        }
        put_u32(dst, 8);
        put_u64(dst, bits_of_i64(self.0));
        Ok(8)
    }
}

// --- TtlvBigInteger ---

/// A TTLV Big Integer: a signed number of any size, held as its bytes in
/// two's complement, most significant byte first.
///
/// On the wire the number of bytes is a multiple of eight. A value of another
/// size is written with its sign extended at the front, and those bytes count
/// in the length; a value that is read holds the bytes as they came.
#[derive(Clone, Debug)]
pub struct TtlvBigInteger(pub Vec<u8>);

impl Deref for TtlvBigInteger {
    type Target = Vec<u8>;

    fn deref(&self) -> (r: &Vec<u8>)
        ensures
            *r == self.0,
    {
        &self.0
    }
}

impl View for TtlvBigInteger {
    type V = Seq<u8>;

    open spec fn view(&self) -> Seq<u8> {
        self.0@
    }
}

impl WireFormat for TtlvBigInteger {
    open spec fn spec_ttlv_type() -> TtlvType {
        TtlvType::BigInteger
    }

    open spec fn spec_value_bytes(v: Seq<u8>) -> Seq<u8> {
        sign_extension(v) + v
    }

    open spec fn spec_read_value(input: Seq<u8>, value_len: u32) -> Parsed<Seq<u8>> {
        spec_read_exact(input, value_len as nat)
    }

    open spec fn spec_read_back(v: Seq<u8>) -> Seq<u8> {
        sign_extension(v) + v
    }

    proof fn lemma_read_value_consumed(input: Seq<u8>, value_len: u32) {
    }

    proof fn lemma_value_round_trip(v: Seq<u8>, rest: Seq<u8>) {
        let bytes = sign_extension(v) + v;
        assert((bytes + rest).take(bytes.len() as int) =~= bytes);
    }
}

impl SerializableTtlvType for TtlvBigInteger {
    fn ttlv_type(&self) -> (r: TtlvType) {
        TtlvType::BigInteger
    }

    fn fits(&self) -> (r: bool) {
        proof {
            lemma_pad_len(self.0@.len());
        }
        // The largest multiple of eight that 32 bits can say.
        self.0.len() <= 0xFFFF_FFF8
    }

    fn read_value(src: &mut ByteReader, value_len: u32) -> (r: Result<Self>) {
        let raw = src.read_exact(value_len as usize)?;
        Ok(TtlvBigInteger(slice_to_vec(raw)))
    }

    fn write_length_and_value(&self, dst: &mut Vec<u8>) -> (r: Result<u32>) {
        let v = self.0.as_slice();
        let v_len = v.len() as u32;
        let num_pad_bytes = Self::calc_pad_bytes(v_len);
        let v_len = v_len + num_pad_bytes;
        put_u32(dst, v_len);
        // The sign is extended to the front: ones before a negative number,
        // zeros before any other.
        let pad_byte: u8 = if v_len > 0 && v[0] >= 0x80 {
            0xFF
        } else {
            0x00
        };
        put_repeated(dst, pad_byte, num_pad_bytes);
        put_bytes(dst, v);
        assert(dst@ =~= old(dst)@ + u32_to_be(v_len) + (sign_extension(self@) + self@));
        Ok(v_len)
    }
}

// --- TtlvEnumeration ---

/// A TTLV Enumeration: an unsigned 32-bit number, written as four bytes, most
/// significant byte first.
#[derive(Clone, Debug)]
pub struct TtlvEnumeration(pub u32);

impl Deref for TtlvEnumeration {
    type Target = u32;

    fn deref(&self) -> (r: &u32)
        ensures
            *r == self.0,
    {
        &self.0
    }
}

impl View for TtlvEnumeration {
    type V = u32;

    open spec fn view(&self) -> u32 {
        self.0
    }
}

impl WireFormat for TtlvEnumeration {
    open spec fn spec_ttlv_type() -> TtlvType {
        TtlvType::Enumeration
    }

    open spec fn spec_value_bytes(v: u32) -> Seq<u8> {
        u32_to_be(v)
    }

    open spec fn spec_read_value(input: Seq<u8>, value_len: u32) -> Parsed<u32> {
        let bytes = spec_read_fixed(input, value_len, 4, TtlvType::Enumeration);
        match bytes.result {
            Ok(b) => Parsed { result: Ok(u32_from_be(b)), consumed: bytes.consumed },
            Err(e) => Parsed { result: Err(e), consumed: bytes.consumed },
        }
    }

    open spec fn spec_read_back(v: u32) -> u32 {
        v
    }

    proof fn lemma_read_value_consumed(input: Seq<u8>, value_len: u32) {
    }

    proof fn lemma_value_round_trip(v: u32, rest: Seq<u8>) {
        let bytes = u32_to_be(v);
        lemma_u32_round_trip(v);
        assert((bytes + rest).take(4) =~= bytes);
    }
}

impl SerializableTtlvType for TtlvEnumeration {
    fn ttlv_type(&self) -> (r: TtlvType) {
        TtlvType::Enumeration
    }

    fn fits(&self) -> (r: bool) {
        proof {
            lemma_u32_round_trip(self.0);
        }
        true
    }

    fn read_value(src: &mut ByteReader, value_len: u32) -> (r: Result<Self>) {
        let raw = read_fixed(src, value_len, 4, TtlvType::Enumeration)?;
        Ok(TtlvEnumeration(get_u32(raw)))
    }

    fn write_length_and_value(&self, dst: &mut Vec<u8>) -> (r: Result<u32>) {
        put_u32(dst, 4);
        put_u32(dst, self.0);
        Ok(4)
    }
}

// --- TtlvBoolean ---

/// The eight-byte number that stands for a truth value: one for true, zero
/// for false.
pub open spec fn bool_bits(v: bool) -> u64 {
    if v {
        1
    } else {
        0
    }
}

/// A TTLV Boolean: written as eight bytes that hold the number one for true
/// and zero for false. No other number is a Boolean.
#[derive(Clone, Debug)]
pub struct TtlvBoolean(pub bool);

impl Deref for TtlvBoolean {
    type Target = bool;

    fn deref(&self) -> (r: &bool)
        ensures
            *r == self.0,
    {
        &self.0
    }
}

impl View for TtlvBoolean {
    type V = bool;

    open spec fn view(&self) -> bool {
        self.0
    }
}

impl WireFormat for TtlvBoolean {
    open spec fn spec_ttlv_type() -> TtlvType {
        TtlvType::Boolean
    }

    open spec fn spec_value_bytes(v: bool) -> Seq<u8> {
        u64_to_be(bool_bits(v))
    }

    open spec fn spec_read_value(input: Seq<u8>, value_len: u32) -> Parsed<bool> {
        let bytes = spec_read_fixed(input, value_len, 8, TtlvType::Boolean);
        match bytes.result {
            Ok(b) => Parsed {
                result: if u64_from_be(b) == 0 {
                    Ok(false)
                } else if u64_from_be(b) == 1 {
                    Ok(true)
                } else {
                    Err(Error::InvalidTtlvValue(TtlvType::Boolean))
                },
                consumed: bytes.consumed,
            },
            Err(e) => Parsed { result: Err(e), consumed: bytes.consumed },
        }
    }

    open spec fn spec_read_back(v: bool) -> bool {
        v
    }

    proof fn lemma_read_value_consumed(input: Seq<u8>, value_len: u32) {
    }

    proof fn lemma_value_round_trip(v: bool, rest: Seq<u8>) {
        let bytes = u64_to_be(bool_bits(v));
        lemma_u64_round_trip(bool_bits(v));
        assert((bytes + rest).take(8) =~= bytes);
    }
}

impl SerializableTtlvType for TtlvBoolean {
    fn ttlv_type(&self) -> (r: TtlvType) {
        TtlvType::Boolean
    }

    fn fits(&self) -> (r: bool) {
        proof {
            lemma_u64_round_trip(bool_bits(self.0));
        }
        true
    }

    fn read_value(src: &mut ByteReader, value_len: u32) -> (r: Result<Self>) {
        let raw = read_fixed(src, value_len, 8, TtlvType::Boolean)?;
        match get_u64(raw) {
            0 => Ok(TtlvBoolean(false)),
            1 => Ok(TtlvBoolean(true)),
            _ => Err(Error::InvalidTtlvValue(TtlvType::Boolean)),
        }
    }

    fn write_length_and_value(&self, dst: &mut Vec<u8>) -> (r: Result<u32>) {
        let v: u64 = match self.0 {
            true => 1u64,
            false => 0u64,
        };
        proof {
            lemma_u64_round_trip(v);
        }
        put_u32(dst, 8);
        put_u64(dst, v);
        Ok(8)
    }
}

// --- TtlvTextString ---

/// [`String::from_utf8`]: the text that `bytes` hold where they are
/// well-formed UTF-8, and nothing where they are not.
#[verifier::external_body]
pub(crate) fn string_from_utf8(bytes: Vec<u8>) -> (r: Option<String>)
    ensures
        r is Some <==> valid_utf8(bytes@),
        r is Some ==> r->0@ == decode_utf8(bytes@),
{
    match String::from_utf8(bytes) {
        Ok(s) => Some(s),
        Err(_) => None,
    }
}

/// A TTLV Text String: text, written as its UTF-8 bytes with nothing to mark
/// the end.
#[derive(Clone, Debug)]
pub struct TtlvTextString(pub String);

impl Deref for TtlvTextString {
    type Target = String;

    fn deref(&self) -> (r: &String)
        ensures
            *r == self.0,
    {
        &self.0
    }
}

impl View for TtlvTextString {
    type V = Seq<char>;

    open spec fn view(&self) -> Seq<char> {
        self.0@
    }
}

impl WireFormat for TtlvTextString {
    open spec fn spec_ttlv_type() -> TtlvType {
        TtlvType::TextString
    }

    open spec fn spec_value_bytes(v: Seq<char>) -> Seq<u8> {
        encode_utf8(v)
    }

    open spec fn spec_read_value(input: Seq<u8>, value_len: u32) -> Parsed<Seq<char>> {
        let bytes = spec_read_exact(input, value_len as nat);
        match bytes.result {
            Ok(b) => Parsed {
                result: if valid_utf8(b) {
                    Ok(decode_utf8(b))
                } else {
                    Err(Error::InvalidTtlvValue(TtlvType::TextString))
                },
                consumed: bytes.consumed,
            },
            Err(e) => Parsed { result: Err(e), consumed: bytes.consumed },
        }
    }

    open spec fn spec_read_back(v: Seq<char>) -> Seq<char> {
        v
    }

    proof fn lemma_read_value_consumed(input: Seq<u8>, value_len: u32) {
    }

    proof fn lemma_value_round_trip(v: Seq<char>, rest: Seq<u8>) {
        let bytes = encode_utf8(v);
        encode_utf8_valid_utf8(v);
        encode_utf8_decode_utf8(v);
        assert((bytes + rest).take(bytes.len() as int) =~= bytes);
    }
}

impl SerializableTtlvType for TtlvTextString {
    fn ttlv_type(&self) -> (r: TtlvType) {
        TtlvType::TextString
    }

    fn fits(&self) -> (r: bool) {
        self.0.as_str().as_bytes().len() <= u32::MAX as usize
    }

    fn read_value(src: &mut ByteReader, value_len: u32) -> (r: Result<Self>) {
        let raw = src.read_exact(value_len as usize)?;
        match string_from_utf8(slice_to_vec(raw)) {
            Some(new_str) => Ok(TtlvTextString(new_str)),
            None => Err(Error::InvalidTtlvValue(TtlvType::TextString)),
        }
    }

    fn write_length_and_value(&self, dst: &mut Vec<u8>) -> (r: Result<u32>) {
        let v = self.0.as_str().as_bytes();
        let v_len = v.len() as u32;
        put_u32(dst, v_len);
        put_bytes(dst, v);
        Ok(v_len)
    }
}

// --- TtlvByteString ---

/// A TTLV Byte String: bytes, written as they are.
#[derive(Clone, Debug)]
pub struct TtlvByteString(pub Vec<u8>);

impl Deref for TtlvByteString {
    type Target = Vec<u8>;

    fn deref(&self) -> (r: &Vec<u8>)
        ensures
            *r == self.0,
    {
        &self.0
    }
}

impl View for TtlvByteString {
    type V = Seq<u8>;

    open spec fn view(&self) -> Seq<u8> {
        self.0@
    }
}

impl WireFormat for TtlvByteString {
    open spec fn spec_ttlv_type() -> TtlvType {
        TtlvType::ByteString
    }

    open spec fn spec_value_bytes(v: Seq<u8>) -> Seq<u8> {
        v
    }

    open spec fn spec_read_value(input: Seq<u8>, value_len: u32) -> Parsed<Seq<u8>> {
        spec_read_exact(input, value_len as nat)
    }

    open spec fn spec_read_back(v: Seq<u8>) -> Seq<u8> {
        v
    }

    proof fn lemma_read_value_consumed(input: Seq<u8>, value_len: u32) {
    }

    proof fn lemma_value_round_trip(v: Seq<u8>, rest: Seq<u8>) {
        assert((v + rest).take(v.len() as int) =~= v);
    }
}

impl SerializableTtlvType for TtlvByteString {
    fn ttlv_type(&self) -> (r: TtlvType) {
        TtlvType::ByteString
    }

    fn fits(&self) -> (r: bool) {
        self.0.len() <= u32::MAX as usize
    }

    fn read_value(src: &mut ByteReader, value_len: u32) -> (r: Result<Self>) {
        let raw = src.read_exact(value_len as usize)?;
        Ok(TtlvByteString(slice_to_vec(raw)))
    }

    fn write_length_and_value(&self, dst: &mut Vec<u8>) -> (r: Result<u32>) {
        let v = self.0.as_slice();
        let v_len = v.len() as u32;
        put_u32(dst, v_len);
        put_bytes(dst, v);
        Ok(v_len)
    }
}

// --- TtlvDateTime ---

/// A TTLV Date-Time: a count of seconds since the start of 1970 (UTC), leap
/// seconds not counted, written as a Long Integer is.
#[derive(Clone, Debug)]
pub struct TtlvDateTime(pub i64);

impl Deref for TtlvDateTime {
    type Target = i64;

    fn deref(&self) -> (r: &i64)
        ensures
            *r == self.0,
    {
        &self.0
    }
}

impl View for TtlvDateTime {
    type V = i64;

    open spec fn view(&self) -> i64 {
        self.0
    }
}

impl WireFormat for TtlvDateTime {
    open spec fn spec_ttlv_type() -> TtlvType {
        TtlvType::DateTime
    }

    open spec fn spec_value_bytes(v: i64) -> Seq<u8> {
        u64_to_be(i64_bits(v))
    }

    open spec fn spec_read_value(input: Seq<u8>, value_len: u32) -> Parsed<i64> {
        let bytes = spec_read_fixed(input, value_len, 8, TtlvType::DateTime);
        match bytes.result {
            Ok(b) => Parsed { result: Ok(i64_of_bits(u64_from_be(b))), consumed: bytes.consumed },
            Err(e) => Parsed { result: Err(e), consumed: bytes.consumed },
        }
    }

    open spec fn spec_read_back(v: i64) -> i64 {
        v
    }

    proof fn lemma_read_value_consumed(input: Seq<u8>, value_len: u32) {
    }

    proof fn lemma_value_round_trip(v: i64, rest: Seq<u8>) {
        let bytes = u64_to_be(i64_bits(v));
        lemma_u64_round_trip(i64_bits(v));
        lemma_i64_bits_round_trip(v);
        assert((bytes + rest).take(8) =~= bytes);
    }
}

impl SerializableTtlvType for TtlvDateTime {
    fn ttlv_type(&self) -> (r: TtlvType) {
        TtlvType::DateTime
    }

    fn fits(&self) -> (r: bool) {
        proof {
            lemma_u64_round_trip(i64_bits(self.0));
        }
        true
    }

    fn read_value(src: &mut ByteReader, value_len: u32) -> (r: Result<Self>) {
        let raw = read_fixed(src, value_len, 8, TtlvType::DateTime)?;
        Ok(TtlvDateTime(i64_from_bits(get_u64(raw))))
    }

    fn write_length_and_value(&self, dst: &mut Vec<u8>) -> (r: Result<u32>) {
        proof {
            lemma_u64_round_trip(i64_bits(self.0));
        }
        put_u32(dst, 8);
        put_u64(dst, bits_of_i64(self.0));
        Ok(8)
    }
}

/// A TTLV Interval would be written as an Enumeration is. The format has the
/// type; this library does not read or write it.
#[allow(dead_code)]
pub type TtlvInterval = TtlvEnumeration;

// --- TtlvStateMachine ---

/// Whether a field-order state machine follows an item that is being read or
/// one that is being written.
#[derive(Clone, Copy, Debug, PartialEq, Eq, Structural)]
pub enum TtlvStateMachineMode {
    Deserializing,
    Serializing,
}

/// What a field-order state machine looks like to a contract.
pub struct StateMachineView {
    pub mode: TtlvStateMachineMode,
    /// The field that must come next.
    pub expected: FieldType,
    /// Whether one tag that comes where a type is expected will be passed over.
    pub ignore_next_tag: bool,
}

/// Whether `observed`, met where `expected` was due, is the one extra tag
/// that the machine was told to pass over.
pub open spec fn spec_absorbs_tag(state: StateMachineView, observed: FieldType) -> bool {
    &&& state.mode == TtlvStateMachineMode::Serializing
    &&& state.ignore_next_tag
    &&& state.expected == FieldType::Type
    &&& observed == FieldType::Tag
}

/// The field that is due after `observed` was met in `state`, or `None` where
/// `observed` may not come there.
///
/// A tag is followed by a type, a type by a length, a length by a value, and
/// a value by the tag of the next item; where a value is due, a tag opens an
/// item inside a structure. A writer may give type, length and value as one
/// step, and a reader may take length and value as one step.
pub open spec fn spec_next_field(state: StateMachineView, observed: FieldType) -> Option<FieldType> {
    match (state.expected, observed) {
        (FieldType::Tag, FieldType::Tag) => Some(FieldType::Type),
        (FieldType::Type, FieldType::Type) => Some(FieldType::Length),
        (FieldType::Type, FieldType::TypeAndLengthAndValue) => if state.mode
            == TtlvStateMachineMode::Serializing {
            Some(FieldType::Tag)
        } else {
            None
        },
        (FieldType::Length, FieldType::Length) => Some(FieldType::Value),
        (FieldType::Length, FieldType::LengthAndValue) => if state.mode
            == TtlvStateMachineMode::Deserializing {
            Some(FieldType::Tag)
        } else {
            None
        },
        (FieldType::Value, FieldType::Value) => Some(FieldType::Tag),
        (FieldType::Value, FieldType::Tag) => Some(FieldType::Type),
        (FieldType::Type, FieldType::Tag) => if spec_absorbs_tag(state, observed) {
            Some(FieldType::Type)
        } else {
            None
        },
        _ => None,
    }
}

/// The state after `observed` was met in `state`; `state` itself where
/// `observed` may not come there.
pub open spec fn spec_advance(state: StateMachineView, observed: FieldType) -> StateMachineView {
    match spec_next_field(state, observed) {
        Some(next) => StateMachineView {
            mode: state.mode,
            expected: next,
            ignore_next_tag: state.ignore_next_tag && !spec_absorbs_tag(state, observed),
        },
        None => state,
    }
}

/// While reading, a type is followed by a length: a second type in its
/// place is refused, whatever the machine was told to pass over.
pub proof fn lemma_type_after_type_refused(state: StateMachineView)
    requires
        state.mode == TtlvStateMachineMode::Deserializing,
        state.expected == FieldType::Type,
    ensures
        spec_advance(state, FieldType::Type).expected == FieldType::Length,
        spec_next_field(spec_advance(state, FieldType::Type), FieldType::Type) is None,
{
}

/// A field that is met moves the machine to another field, but for the one
/// extra tag that a writing machine was told to pass over; and once a tag
/// was passed over, the next one is not.
pub proof fn lemma_only_an_absorbed_tag_stays(state: StateMachineView, observed: FieldType)
    ensures
        spec_next_field(state, observed) == Some(state.expected) <==> spec_absorbs_tag(
            state,
            observed,
        ),
        spec_absorbs_tag(state, observed) ==> !spec_absorbs_tag(
            spec_advance(state, observed),
            observed,
        ),
{
}

/// A state machine that holds the fields of TTLV items to their order.
pub struct TtlvStateMachine {
    mode: TtlvStateMachineMode,
    expected_next_field_type: FieldType,
    ignore_next_tag: bool,
}

impl View for TtlvStateMachine {
    type V = StateMachineView;

    closed spec fn view(&self) -> StateMachineView {
        StateMachineView {
            mode: self.mode,
            expected: self.expected_next_field_type,
            ignore_next_tag: self.ignore_next_tag,
        }
    }
}

impl TtlvStateMachine {
    /// A machine that expects a tag and passes over none.
    pub fn new(mode: TtlvStateMachineMode) -> (r: Self)
        ensures
            r@ == (StateMachineView { mode, expected: FieldType::Tag, ignore_next_tag: false }),
    {
        Self { mode, expected_next_field_type: FieldType::default(), ignore_next_tag: false }
    }

    /// Takes note that a field of kind `next_field_type` comes next.
    ///
    /// Where that field may come, the machine moves on and the result says
    /// whether the field is to be read or written: always while reading; while
    /// writing, unless the field is the one extra tag that the machine was
    /// told to pass over. Where it may not come, the machine stays as it is
    /// and the error names the field that was due and the one that came.
    pub fn advance(&mut self, next_field_type: FieldType) -> (r: Result<bool>)
        ensures
            final(self)@ == spec_advance(old(self)@, next_field_type),
            match spec_next_field(old(self)@, next_field_type) {
                Some(_) => r == Ok::<bool, Error>(!spec_absorbs_tag(old(self)@, next_field_type)),
                None => r == Err::<bool, Error>(
                    Error::UnexpectedTtlvField {
                        expected: old(self)@.expected,
                        actual: next_field_type,
                    },
                ),
            },
    {
        let next_expected_next_field_type = match (
            self.mode,
            self.expected_next_field_type,
            next_field_type,
        ) {
            (_, FieldType::Tag, FieldType::Tag) => FieldType::Type,
            (_, FieldType::Type, FieldType::Type) => FieldType::Length,
            (
                TtlvStateMachineMode::Serializing,
                FieldType::Type,
                FieldType::TypeAndLengthAndValue,
            ) => FieldType::Tag,
            (_, FieldType::Length, FieldType::Length) => FieldType::Value,
            (
                TtlvStateMachineMode::Deserializing,
                FieldType::Length,
                FieldType::LengthAndValue,
            ) => FieldType::Tag,
            (_, FieldType::Value, FieldType::Value) => FieldType::Tag,
            // Inside a structure the first thing after the header is the tag
            // of an item, not a value.
            (_, FieldType::Value, FieldType::Tag) => FieldType::Type,
            (TtlvStateMachineMode::Serializing, FieldType::Type, FieldType::Tag) => {
                if self.ignore_next_tag {
                    self.ignore_next_tag = false;
                    FieldType::Type
                } else {
                    return Err(
                        Error::UnexpectedTtlvField {
                            expected: FieldType::Type,
                            actual: FieldType::Tag,
                        },
                    );
                }
            },
            (_, expected, actual) => {
                return Err(Error::UnexpectedTtlvField { expected, actual });
            },
        };

        if self.mode == TtlvStateMachineMode::Deserializing || next_expected_next_field_type
            != self.expected_next_field_type {
            self.expected_next_field_type = next_expected_next_field_type;
            Ok(true)
        } else {
            // The machine stays where it is: the caller must not write the
            // field.
            Ok(false)
        }
    }

    /// Tells a writing machine to pass over one tag that comes where a type
    /// is expected. A reading machine refuses.
    pub fn ignore_next_tag(&mut self) -> (r: Result<()>)
        ensures
            old(self)@.mode == TtlvStateMachineMode::Serializing ==> r is Ok && final(self)@ == (
            StateMachineView { ignore_next_tag: true, ..old(self)@ }),
            old(self)@.mode == TtlvStateMachineMode::Deserializing ==> r == Err::<(), Error>(
                Error::InvalidStateMachineOperation,
            ) && final(self)@ == old(self)@,
    {
        if matches!(self.mode, TtlvStateMachineMode::Serializing) {
            self.ignore_next_tag = true;
            Ok(())
        } else {
            Err(Error::InvalidStateMachineOperation)
        }
    }

    /// Puts the machine back to where it started: it expects a tag and passes
    /// over none.
    pub fn reset(&mut self)
        ensures
            final(self)@ == (
            StateMachineView {
                mode: old(self)@.mode,
                expected: FieldType::Tag,
                ignore_next_tag: false,
            }),
    {
        self.expected_next_field_type = FieldType::default();
        self.ignore_next_tag = false;
    }
}

} // verus!
