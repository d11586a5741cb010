//! What went wrong in reading or writing TTLV, and where in the data.

use vstd::prelude::*;
use vstd::slice::slice_to_vec;
use vstd::std_specs::convert::FromSpec;
use vstd::std_specs::convert::FromSpecImpl;
use vstd::string::StringExecFns;

use crate::text::decimal_text;
use crate::text::push_decimal;
use crate::types::ByteOffset;
use crate::types::FieldType;
use crate::types::IoErrorKind;
use crate::types::TtlvTag;
use crate::types::TtlvType;

verus! {

pub type Result<T> = std::result::Result<T, Error>;

// --- Error ---

/// A failure to read or write TTLV: what kind of failure it was, and where in
/// the data it happened.
#[derive(Debug)]
#[non_exhaustive]
pub struct Error {
    kind: ErrorKind,
    location: ErrorLocation,
}

/// What an [`Error`] looks like to a contract.
pub struct ErrorView {
    pub kind: ErrorKind,
    pub location: ErrorLocationView,
}

impl View for Error {
    type V = ErrorView;

    closed spec fn view(&self) -> ErrorView {
        ErrorView { kind: self.kind, location: self.location@ }
    }
}

impl Error {
    pub fn new(kind: ErrorKind, location: ErrorLocation) -> (r: Self)
        ensures
            r@ == (ErrorView { kind, location: location@ }),
    {
        Self { kind, location }
    }

    pub fn into_inner(self) -> (r: (ErrorKind, ErrorLocation))
        ensures
            r.0 == self@.kind,
            r.1@ == self@.location,
    {
        (self.kind, self.location)
    }

    /// The kind of failure.
    pub fn kind(&self) -> (r: &ErrorKind)
        ensures
            *r == self@.kind,
    {
        &self.kind
    }

    /// Where in the data the failure happened.
    pub fn location(&self) -> (r: &ErrorLocation)
        ensures
            r@ == self@.location,
    {
        &self.location
    }

    /// An error made of anything that gives a kind and anything that gives a
    /// location.
    pub fn pinpoint<T, L>(error: T, location: L) -> (r: Self) where
        ErrorKind: From<T>,
        ErrorLocation: From<L>,

        ensures
            call_ensures(<ErrorKind as From<T>>::from, (error,), r@.kind),
            exists|l: ErrorLocation|
                call_ensures(<ErrorLocation as From<L>>::from, (location,), l) && r@.location
                    == l@,
    {
        Self { kind: error.into(), location: location.into() }
    }
}

// --- ErrorKind ---

/// The kind of a failure.
///
/// A failure comes from the source of the bytes ([`ErrorKind::IoError`],
/// [`ErrorKind::ResponseSizeExceedsLimit`]), from bytes that are not TTLV
/// ([`ErrorKind::MalformedTtlv`]), or from TTLV that does not fit the data
/// it is mapped to ([`ErrorKind::SerdeError`]).
#[derive(Debug)]
#[non_exhaustive]
pub enum ErrorKind {
    IoError(IoErrorKind),
    /// More bytes would have to be taken than the limit that was set; the
    /// number is that limit.
    ResponseSizeExceedsLimit(usize),
    MalformedTtlv(MalformedTtlvError),
    SerdeError(SerdeError),
}

/// Whether `kind` is what the failure `err` of a header field or primitive
/// value becomes as the kind of an [`Error`].
pub open spec fn spec_kind_of(err: crate::types::Error, kind: ErrorKind) -> bool {
    match err {
        crate::types::Error::IoError(e) => kind == ErrorKind::IoError(e),
        crate::types::Error::UnexpectedTtlvField { expected, actual } => kind
            == ErrorKind::MalformedTtlv(MalformedTtlvError::UnexpectedTtlvField { expected, actual }),
        crate::types::Error::InvalidTtlvTag(v) => kind == ErrorKind::SerdeError(
            SerdeError::InvalidTag(v),
        ),
        crate::types::Error::UnsupportedTtlvType(v) => kind == ErrorKind::MalformedTtlv(
            MalformedTtlvError::UnsupportedType(v),
        ),
        crate::types::Error::InvalidTtlvType(v) => kind == ErrorKind::MalformedTtlv(
            MalformedTtlvError::InvalidType(v),
        ),
        crate::types::Error::InvalidTtlvValueLength { expected, actual, ttlv_type } => kind
            == ErrorKind::MalformedTtlv(
            MalformedTtlvError::InvalidLength { expected, actual, ttlv_type },
        ),
        crate::types::Error::InvalidTtlvValue(ttlv_type) => kind == ErrorKind::MalformedTtlv(
            MalformedTtlvError::InvalidValue { ttlv_type },
        ),
        crate::types::Error::InvalidStateMachineOperation => {
            &&& kind matches ErrorKind::SerdeError(SerdeError::Other(text))
            &&& text@ == INVALID_STATE_MACHINE_OPERATION@
        },
    }
}

/// The kind that the failure `err` of a header field or primitive value
/// becomes.
pub open spec fn spec_kind(err: crate::types::Error) -> ErrorKind {
    choose|kind: ErrorKind| spec_kind_of(err, kind)
}

/// A failure becomes one kind only, but for that of a misused state machine,
/// of which only the text is said.
pub proof fn lemma_kind(err: crate::types::Error, kind: ErrorKind)
    requires
        spec_kind_of(err, kind),
        !(err is InvalidStateMachineOperation),
    ensures
        kind == spec_kind(err),
{
}

/// The text of the failure that a misused field-order state machine becomes.
pub const INVALID_STATE_MACHINE_OPERATION: &'static str =
    "Internal error: invalid state machine operaiton";

impl From<IoErrorKind> for ErrorKind {
    fn from(err: IoErrorKind) -> (r: ErrorKind) {
        Self::IoError(err)
    }
}

impl FromSpecImpl<IoErrorKind> for ErrorKind {
    open spec fn obeys_from_spec() -> bool {
        true
    }

    open spec fn from_spec(err: IoErrorKind) -> ErrorKind {
        ErrorKind::IoError(err)
    }
}

impl From<crate::types::Error> for ErrorKind {
    /// Sorts a failure of a header field or primitive value into its kind.
    fn from(err: crate::types::Error) -> (r: ErrorKind)
        ensures
            spec_kind_of(err, r),
    {
        match err {
            crate::types::Error::IoError(e) => Self::IoError(e),
            crate::types::Error::UnexpectedTtlvField { expected, actual } => {
                Self::MalformedTtlv(MalformedTtlvError::UnexpectedTtlvField { expected, actual })
            },
            crate::types::Error::InvalidTtlvTag(v) => { Self::SerdeError(SerdeError::InvalidTag(v)) },
            crate::types::Error::UnsupportedTtlvType(v) => {
                Self::MalformedTtlv(MalformedTtlvError::UnsupportedType(v))
            },
            crate::types::Error::InvalidTtlvType(v) => {
                Self::MalformedTtlv(MalformedTtlvError::InvalidType(v))
            },
            crate::types::Error::InvalidTtlvValueLength { expected, actual, ttlv_type } => {
                Self::MalformedTtlv(MalformedTtlvError::InvalidLength { expected, actual, ttlv_type })
            },
            crate::types::Error::InvalidTtlvValue(ttlv_type) => {
                Self::MalformedTtlv(MalformedTtlvError::InvalidValue { ttlv_type })
            },
            crate::types::Error::InvalidStateMachineOperation => {
                Self::SerdeError(SerdeError::Other(INVALID_STATE_MACHINE_OPERATION.to_string()))
            },
        }
    }
}

impl FromSpecImpl<crate::types::Error> for ErrorKind {
    /// What `from` returns is stated by `from` itself, with [`spec_kind_of`].
    open spec fn obeys_from_spec() -> bool {
        false
    }

    open spec fn from_spec(err: crate::types::Error) -> ErrorKind {
        arbitrary()
    }
}

impl From<MalformedTtlvError> for ErrorKind {
    fn from(err: MalformedTtlvError) -> (r: ErrorKind) {
        Self::MalformedTtlv(err)
    }
}

impl FromSpecImpl<MalformedTtlvError> for ErrorKind {
    open spec fn obeys_from_spec() -> bool {
        true
    }

    open spec fn from_spec(err: MalformedTtlvError) -> ErrorKind {
        ErrorKind::MalformedTtlv(err)
    }
}

impl From<SerdeError> for ErrorKind {
    fn from(err: SerdeError) -> (r: ErrorKind) {
        Self::SerdeError(err)
    }
}

impl FromSpecImpl<SerdeError> for ErrorKind {
    open spec fn obeys_from_spec() -> bool {
        true
    }

    open spec fn from_spec(err: SerdeError) -> ErrorKind {
        ErrorKind::SerdeError(err)
    }
}

// --- ErrorLocation ---

/// What an [`ErrorLocation`] looks like to a contract.
///
/// Each part is known or not. A part that is known stays as it is: whoever is
/// nearest to the failure says it first, and nobody further out overrules it.
pub struct ErrorLocationView {
    /// How many bytes into the data.
    pub offset: Option<ByteOffset>,
    /// The tags of the structures around the item, the outermost first.
    pub parent_tags: Seq<TtlvTag>,
    /// The tag of the item.
    pub tag: Option<TtlvTag>,
    /// The type of the item.
    pub ttlv_type: Option<TtlvType>,
}

impl ErrorLocationView {
    /// The location of which nothing is known.
    pub open spec fn unknown() -> ErrorLocationView {
        ErrorLocationView { offset: None, parent_tags: Seq::empty(), tag: None, ttlv_type: None }
    }

    /// Whether nothing is known of the location.
    pub open spec fn is_unknown(self) -> bool {
        &&& self.offset is None
        &&& self.parent_tags.len() == 0
        &&& self.tag is None
        &&& self.ttlv_type is None
    }

    /// The location with `offset` as its offset, if it had none.
    pub open spec fn with_offset(self, offset: ByteOffset) -> ErrorLocationView {
        ErrorLocationView {
            offset: if self.offset is Some {
                self.offset
            } else {
                Some(offset)
            },
            ..self
        }
    }

    /// The location with `parent_tags` around it, if it had no tags around it.
    pub open spec fn with_parent_tags(self, parent_tags: Seq<TtlvTag>) -> ErrorLocationView {
        ErrorLocationView {
            parent_tags: if self.parent_tags.len() == 0 {
                parent_tags
            } else {
                self.parent_tags
            },
            ..self
        }
    }

    /// The location with `tag` as its tag, if it had none.
    pub open spec fn with_tag(self, tag: TtlvTag) -> ErrorLocationView {
        ErrorLocationView {
            tag: if self.tag is Some {
                self.tag
            } else {
                Some(tag)
            },
            ..self
        }
    }

    /// The location with `ttlv_type` as its type, if it had none.
    pub open spec fn with_type(self, ttlv_type: TtlvType) -> ErrorLocationView {
        ErrorLocationView {
            ttlv_type: if self.ttlv_type is Some {
                self.ttlv_type
            } else {
                Some(ttlv_type)
            },
            ..self
        }
    }

    /// The location with each part that it lacks taken from `other`.
    pub open spec fn merge(self, other: ErrorLocationView) -> ErrorLocationView {
        ErrorLocationView {
            offset: if self.offset is Some {
                self.offset
            } else {
                other.offset
            },
            parent_tags: if self.parent_tags.len() == 0 {
                other.parent_tags
            } else {
                self.parent_tags
            },
            tag: if self.tag is Some {
                self.tag
            } else {
                other.tag
            },
            ttlv_type: if self.ttlv_type is Some {
                self.ttlv_type
            } else {
                other.ttlv_type
            },
        }
    }
}

/// What is known of a location stays: a part that was said is not changed
/// by saying it again.
pub proof fn lemma_first_said_stays(
    loc: ErrorLocationView,
    offset: ByteOffset,
    parent_tags: Seq<TtlvTag>,
    tag: TtlvTag,
    ttlv_type: TtlvType,
)
    ensures
        loc.offset is Some ==> loc.with_offset(offset) == loc,
        loc.parent_tags.len() > 0 ==> loc.with_parent_tags(parent_tags) == loc,
        loc.tag is Some ==> loc.with_tag(tag) == loc,
        loc.ttlv_type is Some ==> loc.with_type(ttlv_type) == loc,
        loc.with_offset(offset).offset is Some,
        loc.with_tag(tag).tag is Some,
        loc.with_type(ttlv_type).ttlv_type is Some,
{
}

/// Filling in from other locations may be grouped in any way, the unknown
/// location fills in nothing and takes everything, and a location fills in
/// nothing of itself.
pub proof fn lemma_merge(a: ErrorLocationView, b: ErrorLocationView, c: ErrorLocationView)
    ensures
        a.merge(b).merge(c) == a.merge(b.merge(c)),
        a.merge(ErrorLocationView::unknown()) == a,
        ErrorLocationView::unknown().merge(a) == a,
        a.merge(a) == a,
{
    assert(a.merge(ErrorLocationView::unknown()).parent_tags =~= a.parent_tags);
    assert(ErrorLocationView::unknown().merge(a).parent_tags =~= a.parent_tags);
}

/// Where in the data a failure happened.
#[derive(Clone, Debug)]
pub struct ErrorLocation {
    offset: Option<ByteOffset>,
    parent_tags: Vec<TtlvTag>,
    tag: Option<TtlvTag>,
    ttlv_type: Option<TtlvType>,
}

impl View for ErrorLocation {
    type V = ErrorLocationView;

    closed spec fn view(&self) -> ErrorLocationView {
        ErrorLocationView {
            offset: self.offset,
            parent_tags: self.parent_tags@,
            tag: self.tag,
            ttlv_type: self.ttlv_type,
        }
    }
}

impl Default for ErrorLocation {
    fn default() -> (r: Self)
        ensures
            r@ == ErrorLocationView::unknown(),
    {
        ErrorLocation { offset: None, parent_tags: Vec::new(), tag: None, ttlv_type: None }
    }
}

impl From<ByteOffset> for ErrorLocation {
    /// The location at `offset`.
    fn from(offset: ByteOffset) -> (r: ErrorLocation)
        ensures
            r@ == ErrorLocationView::unknown().with_offset(offset),
    {
        ErrorLocation::at(offset)
    }
}

impl FromSpecImpl<ByteOffset> for ErrorLocation {
    /// What `from` returns is stated by `from` itself, over the view.
    open spec fn obeys_from_spec() -> bool {
        false
    }

    open spec fn from_spec(offset: ByteOffset) -> ErrorLocation {
        arbitrary()
    }
}

impl From<u8> for ErrorLocation {
    /// The location at `offset`.
    fn from(offset: u8) -> (r: ErrorLocation)
        ensures
            r@ == ErrorLocationView::unknown().with_offset(ByteOffset(offset as u64)),
    {
        ErrorLocation::at(ByteOffset(offset as u64))
    }
}

impl FromSpecImpl<u8> for ErrorLocation {
    /// What `from` returns is stated by `from` itself, over the view.
    open spec fn obeys_from_spec() -> bool {
        false
    }

    open spec fn from_spec(offset: u8) -> ErrorLocation {
        arbitrary()
    }
}

impl From<u16> for ErrorLocation {
    /// The location at `offset`.
    fn from(offset: u16) -> (r: ErrorLocation)
        ensures
            r@ == ErrorLocationView::unknown().with_offset(ByteOffset(offset as u64)),
    {
        ErrorLocation::at(ByteOffset(offset as u64))
    }
}

impl FromSpecImpl<u16> for ErrorLocation {
    /// What `from` returns is stated by `from` itself, over the view.
    open spec fn obeys_from_spec() -> bool {
        false
    }

    open spec fn from_spec(offset: u16) -> ErrorLocation {
        arbitrary()
    }
}

impl From<u32> for ErrorLocation {
    /// The location at `offset`.
    fn from(offset: u32) -> (r: ErrorLocation)
        ensures
            r@ == ErrorLocationView::unknown().with_offset(ByteOffset(offset as u64)),
    {
        ErrorLocation::at(ByteOffset(offset as u64))
    }
}

impl FromSpecImpl<u32> for ErrorLocation {
    /// What `from` returns is stated by `from` itself, over the view.
    open spec fn obeys_from_spec() -> bool {
        false
    }

    open spec fn from_spec(offset: u32) -> ErrorLocation {
        arbitrary()
    }
}

impl From<u64> for ErrorLocation {
    /// The location at `offset`.
    fn from(offset: u64) -> (r: ErrorLocation)
        ensures
            r@ == ErrorLocationView::unknown().with_offset(ByteOffset(offset)),
    {
        ErrorLocation::at(ByteOffset(offset))
    }
}

impl FromSpecImpl<u64> for ErrorLocation {
    /// What `from` returns is stated by `from` itself, over the view.
    open spec fn obeys_from_spec() -> bool {
        false
    }

    open spec fn from_spec(offset: u64) -> ErrorLocation {
        arbitrary()
    }
}

impl From<usize> for ErrorLocation {
    /// The location at `value`; the unknown location where `value` is the
    /// largest number that its type holds.
    fn from(value: usize) -> (r: ErrorLocation)
        ensures
            value < usize::MAX ==> r@ == ErrorLocationView::unknown().with_offset(
                ByteOffset(value as u64),
            ),
            value == usize::MAX ==> r@ == ErrorLocationView::unknown(),
    {
        match ByteOffset::try_from(value) {
            Ok(offset) => ErrorLocation::at(offset),
            Err(_) => ErrorLocation::unknown(),
        }
    }
}

impl FromSpecImpl<usize> for ErrorLocation {
    /// What `from` returns is stated by `from` itself, over the view.
    open spec fn obeys_from_spec() -> bool {
        false
    }

    open spec fn from_spec(value: usize) -> ErrorLocation {
        arbitrary()
    }
}

impl ErrorLocation {
    /// The location at `offset`, with nothing else known of it.
    pub fn at(offset: ByteOffset) -> (r: Self)
        ensures
            r@ == ErrorLocationView::unknown().with_offset(offset),
    {
        ErrorLocation { offset: Some(offset), parent_tags: Vec::new(), tag: None, ttlv_type: None }
    }

    /// The location of which nothing is known.
    pub fn unknown() -> (r: Self)
        ensures
            r@ == ErrorLocationView::unknown(),
    {
        Self::default()
    }

    /// Says the offset, unless it is known already.
    pub fn with_offset(self, offset: ByteOffset) -> (r: Self)
        ensures
            r@ == self@.with_offset(offset),
    {
        let mut loc = self;
        if loc.offset.is_none() {
            loc.offset = Some(offset);
        }
        loc
    }

    /// Says the tags of the structures around, unless some are known already.
    pub fn with_parent_tags(self, parent_tags: &[TtlvTag]) -> (r: Self)
        ensures
            r@ == self@.with_parent_tags(parent_tags@),
    {
        let mut loc = self;
        if loc.parent_tags.is_empty() {
            loc.parent_tags = slice_to_vec(parent_tags);
        }
        loc
    }

    /// Says the tag, unless it is known already.
    pub fn with_tag(self, tag: TtlvTag) -> (r: Self)
        ensures
            r@ == self@.with_tag(tag),
    {
        let mut loc = self;
        if loc.tag.is_none() {
            loc.tag = Some(tag);
        }
        loc
    }

    /// Says the type, unless it is known already.
    pub fn with_type(self, ttlv_type: TtlvType) -> (r: Self)
        ensures
            r@ == self@.with_type(ttlv_type),
    {
        let mut loc = self;
        if loc.ttlv_type.is_none() {
            loc.ttlv_type = Some(ttlv_type);
        }
        loc
    }

    /// Fills each part that is not known from `loc`.
    pub fn merge(self, loc: ErrorLocation) -> (r: Self)
        ensures
            r@ == self@.merge(loc@),
    {
        let mut merged = self;
        if let Some(offset) = loc.offset {
            merged = merged.with_offset(offset);
        }
        merged = merged.with_parent_tags(loc.parent_tags.as_slice());
        if let Some(tag) = loc.tag {
            merged = merged.with_tag(tag);
        }
        if let Some(ttlv_type) = loc.ttlv_type {
            merged = merged.with_type(ttlv_type);
        }
        merged
    }

    /// Whether nothing is known of the location.
    pub fn is_unknown(&self) -> (r: bool)
        ensures
            r == self@.is_unknown(),
    {
        self.offset.is_none() && self.parent_tags.is_empty() && self.tag.is_none()
            && self.ttlv_type.is_none()
    }

    pub fn offset(&self) -> (r: Option<ByteOffset>)
        ensures
            r == self@.offset,
    {
        self.offset
    }

    pub fn parent_tags(&self) -> (r: &[TtlvTag])
        ensures
            r@ == self@.parent_tags,
    {
        self.parent_tags.as_slice()
    }

    pub fn tag(&self) -> (r: Option<TtlvTag>)
        ensures
            r == self@.tag,
    {
        self.tag
    }

    pub fn ttlv_type(&self) -> (r: Option<TtlvType>)
        ensures
            r == self@.ttlv_type,
    {
        self.ttlv_type
    }
}

// --- MalformedTtlvError ---

/// Bytes that are not TTLV, or TTLV that may not be written.
#[derive(Debug)]
#[non_exhaustive]
#[allow(inconsistent_fields)]
pub enum MalformedTtlvError {
    /// The type byte stands for no type.
    InvalidType(u8),
    /// The length is not one that the type can have.
    InvalidLength { expected: u32, actual: u32, ttlv_type: TtlvType },
    /// The value bytes hold no value of the type.
    InvalidValue { ttlv_type: TtlvType },
    /// The value runs past the end of the structure that holds it.
    Overflow { field_end: ByteOffset },
    /// A field came out of order.
    UnexpectedTtlvField { expected: FieldType, actual: FieldType },
    /// An item of that type may not come at this place.
    UnexpectedType { expected: TtlvType, actual: TtlvType },
    /// The type byte stands for a type that this library does not handle.
    UnsupportedType(u8),
    /// The length of a structure was never filled in.
    UnknownStructureLength,
}

impl MalformedTtlvError {
    /// A value that runs past the end of its structure, up to `field_end`.
    pub fn overflow<T>(field_end: T) -> (r: Self) where ByteOffset: From<T>
        ensures
            <ByteOffset as FromSpec<T>>::obeys_from_spec() ==> r == (MalformedTtlvError::Overflow {
                field_end: <ByteOffset as FromSpec<T>>::from_spec(field_end),
            }),
    {
        Self::Overflow { field_end: field_end.into() }
    }
}

// --- SerdeError ---

/// TTLV that does not fit the data it is mapped to, or a mapping that is not
/// in order.
#[derive(Debug)]
#[non_exhaustive]
#[allow(inconsistent_fields)]
pub enum SerdeError {
    /// The name of a variant is neither a number in hexadecimal nor a rule.
    InvalidVariant(&'static str),
    /// The rule that selects a variant is not well-formed.
    InvalidVariantMatcherSyntax(String),
    /// The name given to a type or field is not a tag in hexadecimal.
    InvalidTag(String),
    /// No field and no variant goes with the tag that was met.
    MissingIdentifier,
    /// A failure that has no kind of its own.
    Other(String),
    /// Another tag was met than the one that was due.
    UnexpectedTag { expected: TtlvTag, actual: TtlvTag },
    /// Another type was met than the one that was due.
    UnexpectedType { expected: TtlvType, actual: TtlvType },
    /// The data holds a type that has no TTLV form.
    UnsupportedRustType(&'static str),
}

// --- Failures as text ---

impl MalformedTtlvError {
    /// The failure as text: its name and what it holds.
    pub open spec fn spec_debug_text(self) -> Seq<char> {
        match self {
            MalformedTtlvError::InvalidType(v) => "InvalidType("@ + decimal_text(v as nat) + ")"@,
            MalformedTtlvError::InvalidLength { expected, actual, ttlv_type } =>
                "InvalidLength { expected: "@ + decimal_text(expected as nat) + ", actual: "@
                + decimal_text(actual as nat) + ", type: "@ + ttlv_type.spec_name() + " }"@,
            MalformedTtlvError::InvalidValue { ttlv_type } => "InvalidValue { type: "@
                + ttlv_type.spec_name() + " }"@,
            MalformedTtlvError::Overflow { field_end } => "Overflow { field_end: ByteOffset("@
                + decimal_text(field_end.0 as nat) + ") }"@,
            MalformedTtlvError::UnexpectedTtlvField { expected, actual } =>
                "UnexpectedTtlvField { expected: "@ + expected.spec_text() + ", actual: "@
                + actual.spec_text() + " }"@,
            MalformedTtlvError::UnexpectedType { expected, actual } =>
                "UnexpectedType { expected: "@ + expected.spec_name() + ", actual: "@
                + actual.spec_name() + " }"@,
            MalformedTtlvError::UnsupportedType(v) => "UnsupportedType("@ + decimal_text(v as nat)
                + ")"@,
            MalformedTtlvError::UnknownStructureLength => "UnknownStructureLength"@,
        }
    }

    /// The failure as text: its name and what it holds.
    pub fn to_debug_string(&self) -> (r: String)
        ensures
            r@ == self.spec_debug_text(),
    {
        match self {
            MalformedTtlvError::InvalidType(v) => {
                let mut out = "InvalidType(".to_owned();
                push_decimal(&mut out, *v as u64);
                out.append(")");
                out
            },
            MalformedTtlvError::InvalidLength { expected, actual, ttlv_type } => {
                let mut out = "InvalidLength { expected: ".to_owned();
                push_decimal(&mut out, *expected as u64);
                out.append(", actual: ");
                push_decimal(&mut out, *actual as u64);
                out.append(", type: ");
                out.append(ttlv_type.name());
                out.append(" }");
                out
            },
            MalformedTtlvError::InvalidValue { ttlv_type } => {
                let mut out = "InvalidValue { type: ".to_owned();
                out.append(ttlv_type.name());
                out.append(" }");
                out
            },
            MalformedTtlvError::Overflow { field_end } => {
                let mut out = "Overflow { field_end: ByteOffset(".to_owned();
                push_decimal(&mut out, field_end.0);
                out.append(") }");
                out
            },
            MalformedTtlvError::UnexpectedTtlvField { expected, actual } => {
                let mut out = "UnexpectedTtlvField { expected: ".to_owned();
                out.append(expected.to_string().as_str());
                out.append(", actual: ");
                out.append(actual.to_string().as_str());
                out.append(" }");
                out
            },
            MalformedTtlvError::UnexpectedType { expected, actual } => {
                let mut out = "UnexpectedType { expected: ".to_owned();
                out.append(expected.name());
                out.append(", actual: ");
                out.append(actual.name());
                out.append(" }");
                out
            },
            MalformedTtlvError::UnsupportedType(v) => {
                let mut out = "UnsupportedType(".to_owned();
                push_decimal(&mut out, *v as u64);
                out.append(")");
                out
            },
            MalformedTtlvError::UnknownStructureLength => "UnknownStructureLength".to_owned(),
        }
    }
}

/// A text as it is shown between double quotes, with the characters
/// written out that cannot be shown as they are.
pub uninterp spec fn spec_quoted(text: Seq<char>) -> Seq<char>;

/// [`format!`] with `{:?}` on a text: the text between double quotes, as
/// [`spec_quoted`] names it.
#[verifier::external_body]
fn quoted(text: &str) -> (r: String)
    ensures
        r@ == spec_quoted(text@),
{
    format!("{:?}", text)
}

impl SerdeError {
    /// The text that the failure holds, if it holds one.
    pub open spec fn spec_held_text(self) -> Option<Seq<char>> {
        match self {
            SerdeError::InvalidVariant(s) => Some(s@),
            SerdeError::InvalidVariantMatcherSyntax(s) => Some(s@),
            SerdeError::InvalidTag(s) => Some(s@),
            SerdeError::Other(s) => Some(s@),
            SerdeError::UnsupportedRustType(s) => Some(s@),
            _ => None,
        }
    }

    /// The failure as text, its name and what it holds, where `held` is the
    /// text that it holds as it is to be shown.
    pub open spec fn spec_debug_text_with(self, held: Seq<char>) -> Seq<char> {
        match self {
            SerdeError::InvalidVariant(_) => "InvalidVariant("@ + held + ")"@,
            SerdeError::InvalidVariantMatcherSyntax(_) => "InvalidVariantMatcherSyntax("@ + held
                + ")"@,
            SerdeError::InvalidTag(_) => "InvalidTag("@ + held + ")"@,
            SerdeError::MissingIdentifier => "MissingIdentifier"@,
            SerdeError::Other(_) => "Other("@ + held + ")"@,
            SerdeError::UnexpectedTag { expected, actual } => "UnexpectedTag { expected: "@
                + expected.spec_short_text() + ", actual: "@ + actual.spec_short_text() + " }"@,
            SerdeError::UnexpectedType { expected, actual } => "UnexpectedType { expected: "@
                + expected.spec_name() + ", actual: "@ + actual.spec_name() + " }"@,
            SerdeError::UnsupportedRustType(_) => "UnsupportedRustType("@ + held + ")"@,
        }
    }

    /// The failure as text: its name and what it holds, a text that it holds
    /// between double quotes.
    pub open spec fn spec_debug_text(self) -> Seq<char> {
        self.spec_debug_text_with(
            match self.spec_held_text() {
                Some(text) => spec_quoted(text),
                None => Seq::empty(),
            },
        )
    }

    /// The failure as text, where `held` is the text that it holds as it is
    /// to be shown.
    pub fn to_debug_string_with(&self, held: &str) -> (r: String)
        ensures
            r@ == self.spec_debug_text_with(held@),
    {
        match self {
            SerdeError::InvalidVariant(_) => around("InvalidVariant(", held, ")"),
            SerdeError::InvalidVariantMatcherSyntax(_) => around(
                "InvalidVariantMatcherSyntax(",
                held,
                ")",
            ),
            SerdeError::InvalidTag(_) => around("InvalidTag(", held, ")"),
            SerdeError::MissingIdentifier => "MissingIdentifier".to_owned(),
            SerdeError::Other(_) => around("Other(", held, ")"),
            SerdeError::UnexpectedTag { expected, actual } => {
                let mut out = "UnexpectedTag { expected: ".to_owned();
                out.append(expected.to_short_string().as_str());
                out.append(", actual: ");
                out.append(actual.to_short_string().as_str());
                out.append(" }");
                out
            },
            SerdeError::UnexpectedType { expected, actual } => {
                let mut out = "UnexpectedType { expected: ".to_owned();
                out.append(expected.name());
                out.append(", actual: ");
                out.append(actual.name());
                out.append(" }");
                out
            },
            SerdeError::UnsupportedRustType(_) => around("UnsupportedRustType(", held, ")"),
        }
    }

    /// The failure as text: its name and what it holds, a text that it holds
    /// between double quotes.
    pub fn to_debug_string(&self) -> (r: String)
        ensures
            r@ == self.spec_debug_text(),
    {
        match self {
            SerdeError::InvalidVariant(s) => self.to_debug_string_with(quoted(s).as_str()),
            SerdeError::InvalidVariantMatcherSyntax(s) => self.to_debug_string_with(
                quoted(s.as_str()).as_str(),
            ),
            SerdeError::InvalidTag(s) => self.to_debug_string_with(quoted(s.as_str()).as_str()),
            SerdeError::Other(s) => self.to_debug_string_with(quoted(s.as_str()).as_str()),
            SerdeError::UnsupportedRustType(s) => self.to_debug_string_with(quoted(s).as_str()),
            _ => {
                proof {
                    reveal_strlit("");
                }
                assert(""@ =~= Seq::<char>::empty());
                self.to_debug_string_with("")
            },
        }
    }
}

/// The three texts one after another.
fn around(before: &str, text: &str, after: &str) -> (r: String)
    ensures
        r@ == before@ + text@ + after@,
{
    let mut out = before.to_owned();
    out.append(text);
    out.append(after);
    out
}

/// The tags as text, with ` > ` between them.
pub open spec fn spec_tags_text(tags: Seq<TtlvTag>) -> Seq<char>
    decreases tags.len(),
{
    if tags.len() == 0 {
        Seq::empty()
    } else if tags.len() == 1 {
        tags[0].spec_text()
    } else {
        spec_tags_text(tags.drop_last()) + " > "@ + tags.last().spec_text()
    }
}

/// One part of a location as text: its name and what is known of it, after
/// a comma unless it is the first part that is shown.
pub open spec fn spec_part(first: bool, name: Seq<char>, known: Seq<char>) -> Seq<char> {
    (if first {
        Seq::empty()
    } else {
        ", "@
    }) + name + known
}

impl ErrorLocationView {
    /// The location as text: what is known of it, with commas between the
    /// parts; `Unknown` where nothing is known.
    pub open spec fn spec_text(self) -> Seq<char> {
        if self.is_unknown() {
            "Unknown"@
        } else {
            let offset = match self.offset {
                Some(offset) => spec_part(
                    true,
                    "pos: "@,
                    decimal_text(offset.0 as nat) + " bytes"@,
                ),
                None => Seq::empty(),
            };
            let parents = if self.parent_tags.len() > 0 {
                spec_part(
                    self.offset is None,
                    "parent tags: "@,
                    spec_tags_text(self.parent_tags),
                )
            } else {
                Seq::empty()
            };
            let tag = match self.tag {
                Some(tag) => spec_part(
                    self.offset is None && self.parent_tags.len() == 0,
                    "tag: "@,
                    tag.spec_text(),
                ),
                None => Seq::empty(),
            };
            let ttlv_type = match self.ttlv_type {
                Some(ttlv_type) => spec_part(
                    self.offset is None && self.parent_tags.len() == 0 && self.tag is None,
                    "type: "@,
                    ttlv_type.spec_text(),
                ),
                None => Seq::empty(),
            };
            offset + parents + tag + ttlv_type
        }
    }
}

fn push_part(out: &mut String, first: bool, name: &str, known: &str)
    ensures
        final(out)@ == old(out)@ + spec_part(first, name@, known@),
{
    if !first {
        out.append(", ");
    }
    out.append(name);
    out.append(known);
    assert(out@ =~= old(out)@ + spec_part(first, name@, known@));
}

fn tags_string(tags: &[TtlvTag]) -> (r: String)
    ensures
        r@ == spec_tags_text(tags@),
{
    let mut out = String::new();
    if tags.len() == 0 {
        return out;
    }
    out.append(tags[0].to_string().as_str());
    let mut i: usize = 1;
    assert(tags@.take(1) =~= seq![tags@[0]]);
    assert(out@ =~= spec_tags_text(tags@.take(1)));
    while i < tags.len()
        invariant
            1 <= i <= tags@.len(),
            out@ == spec_tags_text(tags@.take(i as int)),
        decreases tags@.len() - i,
    {
        out.append(" > ");
        out.append(tags[i].to_string().as_str());
        proof {
            let longer = tags@.take(i + 1);
            assert(longer.drop_last() =~= tags@.take(i as int));
            assert(out@ =~= spec_tags_text(longer));
        }
        i = i + 1;
    }
    assert(tags@.take(i as int) =~= tags@);
    out
}

impl ErrorLocation {
    /// The location as text, such as `pos: 8 bytes, tag: 0x420001`.
    pub fn to_string(&self) -> (r: String)
        ensures
            r@ == self@.spec_text(),
    {
        if self.is_unknown() {
            return "Unknown".to_owned();
        }
        let mut out = String::new();
        let mut first = true;
        if let Some(offset) = self.offset {
            let mut known = String::new();
            push_decimal(&mut known, offset.0);
            known.append(" bytes");
            push_part(&mut out, first, "pos: ", known.as_str());
            first = false;
        }
        let ghost after_offset = out@;
        if !self.parent_tags.is_empty() {
            let known = tags_string(self.parent_tags.as_slice());
            push_part(&mut out, first, "parent tags: ", known.as_str());
            first = false;
        }
        let ghost after_parents = out@;
        if let Some(tag) = self.tag {
            push_part(&mut out, first, "tag: ", tag.to_string().as_str());
            first = false;
        }
        let ghost after_tag = out@;
        if let Some(ttlv_type) = self.ttlv_type {
            push_part(&mut out, first, "type: ", ttlv_type.to_string().as_str());
        }
        out
    }
}

impl ErrorView {
    /// The failure as text: what kind of failure it is, and where it
    /// happened.
    pub open spec fn spec_text(self) -> Seq<char> {
        match self.kind {
            ErrorKind::IoError(kind) => "IO error "@ + kind.spec_name() + ": "@ + kind.spec_text()
                + " (at "@ + self.location.spec_text() + ")"@,
            ErrorKind::ResponseSizeExceedsLimit(size) => "Response size "@ + decimal_text(
                size as nat,
            ) + " exceeds the configured limit"@,
            ErrorKind::MalformedTtlv(error) => "Malformed TTLV: "@ + error.spec_debug_text()
                + " (at "@ + self.location.spec_text() + ")"@,
            ErrorKind::SerdeError(error) => "Serde error : "@ + error.spec_debug_text() + " (at "@
                + self.location.spec_text() + ")"@,
        }
    }
}

impl Error {
    /// The failure as text, such as
    /// `Malformed TTLV: InvalidType(11) (at pos: 4 bytes)`.
    pub fn to_string(&self) -> (r: String)
        ensures
            r@ == self@.spec_text(),
    {
        match &self.kind {
            ErrorKind::IoError(kind) => {
                let mut out = "IO error ".to_owned();
                out.append(kind.name());
                out.append(": ");
                out.append(kind.to_string().as_str());
                out.append(" (at ");
                out.append(self.location.to_string().as_str());
                out.append(")");
                out
            },
            ErrorKind::ResponseSizeExceedsLimit(size) => {
                let mut out = "Response size ".to_owned();
                push_decimal(&mut out, *size as u64);
                out.append(" exceeds the configured limit");
                out
            },
            ErrorKind::MalformedTtlv(error) => {
                let mut out = "Malformed TTLV: ".to_owned();
                out.append(error.to_debug_string().as_str());
                out.append(" (at ");
                out.append(self.location.to_string().as_str());
                out.append(")");
                out
            },
            ErrorKind::SerdeError(error) => {
                let mut out = "Serde error : ".to_owned();
                out.append(error.to_debug_string().as_str());
                out.append(" (at ");
                out.append(self.location.to_string().as_str());
                out.append(")");
                out
            },
        }
    }
}

} // verus!
