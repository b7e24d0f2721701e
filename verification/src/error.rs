//! The error envelope: a stable code, a message, details and a trace.
//!
//! The cause of an error is kept beside the envelope and never shown in it.

use vstd::prelude::*;

use crate::id::{IdView, TraceId};
use crate::json::{JsonFields, JsonValue, JsonView};
use crate::text::same_text;

verus! {

/// What went wrong, as a stable name.
#[derive(Debug, Clone, Copy, PartialEq, Eq, Hash, Structural)]
pub enum ErrorCode {
    InvalidArgument,
    Unsupported,
    CapabilityUnavailable,
    HostRefused,
    ResourceReleaseFailed,
    Internal,
}

impl ErrorCode {
    /// The stable spelling of the code.
    pub open spec fn name(self) -> Seq<char> {
        match self {
            ErrorCode::InvalidArgument => "invalid_argument"@,
            ErrorCode::Unsupported => "unsupported"@,
            ErrorCode::CapabilityUnavailable => "capability_unavailable"@,
            ErrorCode::HostRefused => "host_refused"@,
            ErrorCode::ResourceReleaseFailed => "resource_release_failed"@,
            ErrorCode::Internal => "internal"@,
        }
    }

    /// The stable spelling of the code.
    pub fn as_str(self) -> (r: &'static str)
        ensures
            r@ == self.name(),
    {
        match self {
            ErrorCode::InvalidArgument => "invalid_argument",
            ErrorCode::Unsupported => "unsupported",
            ErrorCode::CapabilityUnavailable => "capability_unavailable",
            ErrorCode::HostRefused => "host_refused",
            ErrorCode::ResourceReleaseFailed => "resource_release_failed",
            ErrorCode::Internal => "internal",
        }
    }
}

/// One detail of an error.
#[derive(Debug, PartialEq)]
pub enum DetailValue {
    Text(String),
    Int(i64),
    Bool(bool),
}

/// What a [`DetailValue`] stands for.
pub enum DetailView {
    Text(Seq<char>),
    Int(int),
    Bool(bool),
}

impl DetailView {
    /// The detail as a JSON document.
    pub open spec fn json(self) -> JsonView {
        match self {
            DetailView::Text(s) => JsonView::Text(s),
            DetailView::Int(n) => JsonView::Int(n),
            DetailView::Bool(b) => JsonView::Bool(b),
        }
    }
}

impl View for DetailValue {
    type V = DetailView;

    open spec fn view(&self) -> DetailView {
        match self {
            DetailValue::Text(s) => DetailView::Text(s@),
            DetailValue::Int(n) => DetailView::Int(*n as int),
            DetailValue::Bool(b) => DetailView::Bool(*b),
        }
    }
}

impl Clone for DetailValue {
    fn clone(&self) -> (r: Self)
        ensures
            r@ == self@,
    {
        match self {
            DetailValue::Text(s) => DetailValue::Text(s.clone()),
            DetailValue::Int(n) => DetailValue::Int(*n),
            DetailValue::Bool(b) => DetailValue::Bool(*b),
        }
    }
}

impl DetailValue {
    fn to_json(&self) -> (r: JsonValue)
        ensures
            r@ == self@.json(),
    {
        match self {
            DetailValue::Text(s) => JsonValue::text(s.as_str()),
            DetailValue::Int(n) => JsonValue::Int(*n),
            DetailValue::Bool(b) => JsonValue::Bool(*b),
        }
    }
}

/// A value that can stand as a detail: text, an integer or a truth value.
pub trait IntoDetail: Sized {
    /// The detail that the value becomes.
    spec fn detail(self) -> DetailView;

    fn into_detail(self) -> (r: DetailValue)
        ensures
            r@ == self.detail(),
    ;
}

impl IntoDetail for &str {
    open spec fn detail(self) -> DetailView {
        DetailView::Text(self@)
    }

    fn into_detail(self) -> (r: DetailValue) {
        DetailValue::Text(self.to_owned())
    }
}

impl IntoDetail for String {
    open spec fn detail(self) -> DetailView {
        DetailView::Text(self@)
    }

    fn into_detail(self) -> (r: DetailValue) {
        DetailValue::Text(self)
    }
}

impl IntoDetail for i64 {
    open spec fn detail(self) -> DetailView {
        DetailView::Int(self as int)
    }

    fn into_detail(self) -> (r: DetailValue) {
        DetailValue::Int(self)
    }
}

impl IntoDetail for bool {
    open spec fn detail(self) -> DetailView {
        DetailView::Bool(self)
    }

    fn into_detail(self) -> (r: DetailValue) {
        DetailValue::Bool(self)
    }
}

/// The position of the first entry under `key`, or the number of entries.
pub open spec fn entry_position(entries: Seq<(Seq<char>, DetailView)>, key: Seq<char>) -> nat
    decreases entries.len(),
{
    if entries.len() == 0 {
        0
    } else if entries.first().0 == key {
        0
    } else {
        1 + entry_position(entries.drop_first(), key)
    }
}

/// `entries` with `value` under `key`: in place where the key is there already,
/// else at the end.
pub open spec fn with_entry(
    entries: Seq<(Seq<char>, DetailView)>,
    key: Seq<char>,
    value: DetailView,
) -> Seq<(Seq<char>, DetailView)> {
    let at = entry_position(entries, key);
    if at < entries.len() {
        entries.update(at as int, (key, value))
    } else {
        entries.push((key, value))
    }
}

/// No key stands twice.
pub open spec fn distinct_keys(entries: Seq<(Seq<char>, DetailView)>) -> bool {
    forall|i: int, j: int|
        0 <= i < j < entries.len() ==> (#[trigger] entries[i]).0 != (#[trigger] entries[j]).0
}

/// What stands under `key`.
pub open spec fn entry_under(
    entries: Seq<(Seq<char>, DetailView)>,
    key: Seq<char>,
) -> Option<DetailView> {
    let at = entry_position(entries, key);
    if at < entries.len() {
        Some(entries[at as int].1)
    } else {
        None
    }
}

/// Where a key is found, it stands there and nowhere before.
proof fn lemma_entry_position(entries: Seq<(Seq<char>, DetailView)>, key: Seq<char>)
    ensures
        entry_position(entries, key) <= entries.len(),
        entry_position(entries, key) < entries.len() ==> entries[entry_position(
            entries,
            key,
        ) as int].0 == key,
        forall|i: int|
            0 <= i < entry_position(entries, key) ==> (#[trigger] entries[i]).0 != key,
    decreases entries.len(),
{
    if entries.len() > 0 && entries.first().0 != key {
        let rest = entries.drop_first();
        lemma_entry_position(rest, key);
        assert forall|i: int| 0 <= i < entry_position(entries, key) implies (
        #[trigger] entries[i]).0 != key by {
            if i > 0 {
                assert(rest[i - 1] == entries[i]);
            }
        }
    }
}

/// A position at which `key` stands, and nowhere before, is its position.
pub(crate) proof fn lemma_entry_position_is(entries: Seq<(Seq<char>, DetailView)>, key: Seq<char>, at: int)
    requires
        0 <= at <= entries.len(),
        at < entries.len() ==> entries[at].0 == key,
        forall|i: int| 0 <= i < at ==> (#[trigger] entries[i]).0 != key,
    ensures
        entry_position(entries, key) == at,
{
    lemma_entry_position(entries, key);
    let found = entry_position(entries, key) as int;
    if found < at {
        assert(entries[found].0 != key);
    }
    if at < found {
        assert(entries[at].0 != key);
    }
}

/// Setting a detail keeps every key single.
pub proof fn law_with_entry_keeps_keys_distinct(
    entries: Seq<(Seq<char>, DetailView)>,
    key: Seq<char>,
    value: DetailView,
)
    requires
        distinct_keys(entries),
    ensures
        distinct_keys(with_entry(entries, key, value)),
{
    lemma_entry_position(entries, key);
}

/// The detail last set under a key is the one found under it, and what stands
/// under the other keys does not change.
pub proof fn law_with_entry_is_found(
    entries: Seq<(Seq<char>, DetailView)>,
    key: Seq<char>,
    value: DetailView,
    other: Seq<char>,
)
    ensures
        entry_under(with_entry(entries, key, value), key) == Some(value),
        other != key ==> entry_under(with_entry(entries, key, value), other) == entry_under(
            entries,
            other,
        ),
{
    lemma_entry_position(entries, key);
    lemma_entry_position(entries, other);
    let after = with_entry(entries, key, value);
    lemma_entry_position_is(after, key, entry_position(entries, key) as int);
    if other != key {
        let at = entry_position(entries, other) as int;
        if at < entries.len() {
            lemma_entry_position_is(after, other, at);
        } else {
            assert forall|i: int| 0 <= i < after.len() implies (#[trigger] after[i]).0 != other by {
                if i < entries.len() {
                    assert(entries[i].0 != other);
                }
            }
            lemma_entry_position_is(after, other, after.len() as int);
        }
    }
}

/// The details of an error, in the order in which they were first set. No key
/// stands twice.
#[derive(Debug, PartialEq)]
pub struct Details {
    entries: Vec<(String, DetailValue)>,
}

impl View for Details {
    type V = Seq<(Seq<char>, DetailView)>;

    closed spec fn view(&self) -> Seq<(Seq<char>, DetailView)> {
        entries_view(self.entries@)
    }
}

spec fn entries_view(entries: Seq<(String, DetailValue)>) -> Seq<(Seq<char>, DetailView)> {
    Seq::new(entries.len(), |i: int| (entries[i].0@, entries[i].1@))
}

impl Default for Details {
    fn default() -> (r: Self)
        ensures
            r@.len() == 0,
    {
        Details::new()
    }
}

impl Clone for Details {
    fn clone(&self) -> (r: Self)
        ensures
            r@ == self@,
    {
        proof {
            use_type_invariant(self);
        }
        let mut entries: Vec<(String, DetailValue)> = Vec::new();
        let mut i: usize = 0;
        while i < self.entries.len()
            invariant
                i <= self.entries.len(),
                entries@.len() == i,
                forall|j: int|
                    0 <= j < i ==> (#[trigger] entries@[j]).0@ == self@[j].0 && entries@[j].1@
                        == self@[j].1,
            decreases self.entries.len() - i,
        {
            let entry = &self.entries[i];
            entries.push((entry.0.clone(), entry.1.clone()));
            i = i + 1;
        }
        assert(entries_view(entries@) =~= self@);
        Details { entries }
    }
}

impl Details {
    #[verifier::type_invariant]
    spec fn keys_stand_once(self) -> bool {
        distinct_keys(entries_view(self.entries@))
    }

    /// No detail.
    pub fn new() -> (r: Self)
        ensures
            r@ == Seq::<(Seq<char>, DetailView)>::empty(),
    {
        let r = Details { entries: Vec::new() };
        assert(r@ =~= Seq::<(Seq<char>, DetailView)>::empty());
        r
    }

    /// Sets a detail, in place where the key is there already.
    pub fn insert<V: IntoDetail>(&mut self, key: &str, value: V)
        ensures
            final(self)@ == with_entry(old(self)@, key@, value.detail()),
            distinct_keys(final(self)@),
    {
        proof {
            use_type_invariant(&*self);
            law_with_entry_keeps_keys_distinct(self@, key@, value.detail());
        }
        let ghost before = self@;
        let mut taken = Details::new();
        core::mem::swap(self, &mut taken);
        let mut entries = taken.entries;
        let mut at: usize = 0;
        while at < entries.len() && !same_text(entries[at].0.as_str(), key)
            invariant
                at <= entries.len(),
                before == entries_view(entries@),
                forall|i: int| 0 <= i < at ==> (#[trigger] before[i]).0 != key@,
            decreases entries.len() - at,
        {
            assert(before[at as int].0 != key@);
            at = at + 1;
        }
        proof {
            if at < entries.len() {
                assert(before[at as int].0 == key@);
            }
            lemma_entry_position_is(before, key@, at as int);
        }
        let entry = (key.to_owned(), value.into_detail());
        if at < entries.len() {
            entries.set(at, entry);
        } else {
            entries.push(entry);
        }
        assert(entries_view(entries@) =~= with_entry(before, key@, value.detail()));
        *self = Details { entries };
    }

    /// The details in order, each with its key.
    pub fn iter(&self) -> (r: Vec<(&str, &DetailValue)>)
        ensures
            r@.len() == self@.len(),
            forall|i: int| 0 <= i < r@.len() ==> (#[trigger] r@[i]).0@ == self@[i].0 && r@[i].1@
                == self@[i].1,
    {
        let mut r: Vec<(&str, &DetailValue)> = Vec::new();
        let mut i: usize = 0;
        while i < self.entries.len()
            invariant
                i <= self.entries.len(),
                r@.len() == i,
                forall|j: int| 0 <= j < i ==> (#[trigger] r@[j]).0@ == self@[j].0 && r@[j].1@
                    == self@[j].1,
            decreases self.entries.len() - i,
        {
            let entry = &self.entries[i];
            r.push((entry.0.as_str(), &entry.1));
            i = i + 1;
        }
        r
    }

    /// How many details there are.
    pub fn len(&self) -> (r: usize)
        ensures
            r == self@.len(),
    {
        self.entries.len()
    }

    /// Whether there is no detail.
    pub fn is_empty(&self) -> (r: bool)
        ensures
            r == (self@.len() == 0),
    {
        self.entries.len() == 0
    }

    fn to_json(&self) -> (r: JsonValue)
        ensures
            r@ == details_json(self@),
    {
        let mut fields = JsonFields::new();
        let mut i: usize = 0;
        while i < self.entries.len()
            invariant
                i <= self.entries.len(),
                fields@ == details_fields(self@).take(i as int),
            decreases self.entries.len() - i,
        {
            let entry = &self.entries[i];
            fields = fields.with(entry.0.as_str(), entry.1.to_json());
            assert(fields@ =~= details_fields(self@).take(i as int + 1));
            i = i + 1;
        }
        assert(details_fields(self@).take(i as int) =~= details_fields(self@));
        fields.into_object()
    }
}

/// The details as JSON fields.
pub open spec fn details_fields(entries: Seq<(Seq<char>, DetailView)>) -> Seq<
    (Seq<char>, JsonView),
> {
    Seq::new(entries.len(), |i: int| (entries[i].0, entries[i].1.json()))
}

/// The details as a JSON object.
pub open spec fn details_json(entries: Seq<(Seq<char>, DetailView)>) -> JsonView {
    JsonView::Object(details_fields(entries))
}

/// What an error holds: what it shows, and what its cause said, where there is one.
pub struct ErrorView {
    pub code: ErrorCode,
    pub message: Seq<char>,
    pub details: Seq<(Seq<char>, DetailView)>,
    pub trace_id: Option<IdView>,
    pub cause: Option<Seq<char>>,
}

/// An error with a code and a message alone.
pub open spec fn plain_error(code: ErrorCode, message: Seq<char>) -> ErrorView {
    ErrorView { code, message, details: Seq::empty(), trace_id: None, cause: None }
}

impl ErrorView {
    /// The same error with one detail set.
    pub open spec fn with(self, key: Seq<char>, value: DetailView) -> ErrorView {
        ErrorView { details: with_entry(self.details, key, value), ..self }
    }

    /// The same error with a cause.
    pub open spec fn because(self, cause: Seq<char>) -> ErrorView {
        ErrorView { cause: Some(cause), ..self }
    }

    /// What the error shows: all of it but its cause.
    pub open spec fn shown(self) -> ErrorView {
        ErrorView { cause: None, ..self }
    }

    /// The three fields that a body carries.
    pub open spec fn body_fields(self) -> Seq<(Seq<char>, JsonView)> {
        seq![
            ("code"@, JsonView::Text(self.code.name())),
            ("message"@, JsonView::Text(self.message)),
            ("details"@, details_json(self.details)),
        ]
    }

    /// The four fields of the envelope.
    pub open spec fn envelope_fields(self) -> Seq<(Seq<char>, JsonView)> {
        self.body_fields().push(("trace_id"@, trace_json(self.trace_id)))
    }

    /// The short form: the code, a colon, the message.
    pub open spec fn summary(self) -> Seq<char> {
        self.code.name() + ": "@ + self.message
    }
}

/// A trace as JSON: its text, or null.
pub open spec fn trace_json(trace_id: Option<IdView>) -> JsonView {
    match trace_id {
        Some(id) => JsonView::Text(id.text),
        None => JsonView::Null,
    }
}

/// A trace as JSON: its text, or null.
pub(crate) fn trace_to_json(trace_id: &TraceId) -> (r: JsonValue)
    ensures
        r@ == trace_json(trace_id@),
{
    match trace_id.as_str() {
        Some(text) => JsonValue::text(text),
        None => JsonValue::Null,
    }
}

/// An error: the envelope that is shown, and the cause that is not.
#[derive(Debug)]
pub struct Error {
    code: ErrorCode,
    message: String,
    details: Details,
    trace_id: TraceId,
    source: Option<String>,
}

impl View for Error {
    type V = ErrorView;

    closed spec fn view(&self) -> ErrorView {
        ErrorView {
            code: self.code,
            message: self.message@,
            details: self.details@,
            trace_id: self.trace_id@,
            cause: match self.source {
                Some(s) => Some(s@),
                None => None,
            },
        }
    }
}

impl Error {
    /// An error without details and without a cause.
    pub fn new(code: ErrorCode, message: &str, trace_id: TraceId) -> (r: Self)
        ensures
            r@ == (ErrorView { trace_id: trace_id@, ..plain_error(code, message@) }),
    {
        Error { code, message: message.to_owned(), details: Details::new(), trace_id, source: None }
    }

    /// The same error with one detail set.
    #[must_use]
    pub fn with_detail<V: IntoDetail>(self, key: &str, value: V) -> (r: Self)
        ensures
            r@ == self@.with(key@, value.detail()),
    {
        let mut details = self.details;
        details.insert(key, value);
        Error {
            code: self.code,
            message: self.message,
            details,
            trace_id: self.trace_id,
            source: self.source,
        }
    }

    /// The same error with a cause. What it shows does not change.
    #[must_use]
    pub fn caused_by(self, source: &str) -> (r: Self)
        ensures
            r@ == self@.because(source@),
    {
        Error {
            code: self.code,
            message: self.message,
            details: self.details,
            trace_id: self.trace_id,
            source: Some(source.to_owned()),
        }
    }

    /// The code.
    pub fn code(&self) -> (r: ErrorCode)
        ensures
            r == self@.code,
    {
        self.code
    }

    /// The message.
    pub fn message(&self) -> (r: &str)
        ensures
            r@ == self@.message,
    {
        self.message.as_str()
    }

    /// The details.
    pub fn details(&self) -> (r: &Details)
        ensures
            r@ == self@.details,
    {
        &self.details
    }

    /// The trace.
    pub fn trace_id(&self) -> (r: &TraceId)
        ensures
            r@ == self@.trace_id,
    {
        &self.trace_id
    }

    /// What the cause said, where there is one.
    pub fn source(&self) -> (r: Option<&str>)
        ensures
            r is Some <==> self@.cause is Some,
            r matches Some(s) ==> s@ == self@.cause->0,
    {
        match &self.source {
            Some(s) => Some(s.as_str()),
            None => None,
        }
    }

    /// The part of the error that is shown.
    pub fn envelope(&self) -> (r: ErrorEnvelope<'_>)
        ensures
            r@ == self@.shown(),
    {
        ErrorEnvelope {
            code: self.code,
            message: self.message.as_str(),
            details: &self.details,
            trace_id: &self.trace_id,
        }
    }

    /// The short form: the code, a colon, the message. It shows no cause.
    pub fn to_text(&self) -> (r: String)
        ensures
            r@ == self@.summary(),
    {
        let mut out = String::new();
        out.append(self.code.as_str());
        out.append(": ");
        out.append(self.message.as_str());
        assert(out@ =~= self@.summary());
        out
    }
}

/// The part of an error that is shown.
#[derive(Debug, Clone, Copy)]
pub struct ErrorEnvelope<'a> {
    pub code: ErrorCode,
    pub message: &'a str,
    pub details: &'a Details,
    pub trace_id: &'a TraceId,
}

impl<'a> View for ErrorEnvelope<'a> {
    type V = ErrorView;

    open spec fn view(&self) -> ErrorView {
        ErrorView {
            code: self.code,
            message: self.message@,
            details: self.details@,
            trace_id: self.trace_id@,
            cause: None,
        }
    }
}

/// Whatever caused an error, its envelope, its body and its short form are the same.
pub proof fn law_cause_is_not_shown(error: ErrorView, cause: Seq<char>)
    ensures
        error.because(cause).shown() == error.shown(),
        error.because(cause).envelope_fields() == error.envelope_fields(),
        error.because(cause).body_fields() == error.body_fields(),
        error.because(cause).summary() == error.summary(),
{
}

impl<'a> ErrorEnvelope<'a> {
    /// The envelope with its four fields: code, message, details, trace_id.
    pub fn to_json(&self) -> (r: JsonValue)
        ensures
            r@ == JsonView::Object(self@.envelope_fields()),
    {
        self.body().with("trace_id", trace_to_json(self.trace_id)).into_object()
    }

    /// The body with its three fields: code, message, details.
    pub fn to_body_json(&self) -> (r: JsonValue)
        ensures
            r@ == JsonView::Object(self@.body_fields()),
    {
        self.body().into_object()
    }

    fn body(&self) -> (r: JsonFields)
        ensures
            r@ == self@.body_fields(),
    {
        JsonFields::new().with("code", JsonValue::text(self.code.as_str())).with(
            "message",
            JsonValue::text(self.message),
        ).with("details", self.details.to_json())
    }
}

/// What came of a call without a result.
pub open spec fn done_view(r: Result<(), Error>) -> Result<(), ErrorView> {
    match r {
        Ok(_) => Ok(()),
        Err(e) => Err(e@),
    }
}

} // verus!
