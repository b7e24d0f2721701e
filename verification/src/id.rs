//! Identifiers: never empty, and always carried with the scheme that made them.

use vstd::prelude::*;

use crate::error::{plain_error, DetailView, Error, ErrorCode, ErrorView};

verus! {

/// How identifier text is generated.
#[derive(Debug, Clone, Copy, PartialEq, Eq, Hash, Structural)]
pub enum IdScheme {
    Uuidv7,
    Ulid,
}

impl IdScheme {
    /// The spelling of the scheme.
    pub open spec fn name(self) -> Seq<char> {
        match self {
            IdScheme::Uuidv7 => "uuidv7"@,
            IdScheme::Ulid => "ulid"@,
        }
    }

    /// The spelling of the scheme.
    pub fn as_str(self) -> (r: &'static str)
        ensures
            r@ == self.name(),
    {
        match self {
            IdScheme::Uuidv7 => "uuidv7",
            IdScheme::Ulid => "ulid",
        }
    }
}

/// What an [`Id`] holds.
pub struct IdView {
    pub scheme: IdScheme,
    pub text: Seq<char>,
}

/// A non-empty identifier and its scheme.
#[derive(Debug, PartialEq, Eq, Hash)]
pub struct Id {
    scheme: IdScheme,
    text: String,
}

impl View for Id {
    type V = IdView;

    closed spec fn view(&self) -> IdView {
        IdView { scheme: self.scheme, text: self.text@ }
    }
}

impl Clone for Id {
    fn clone(&self) -> (r: Self)
        ensures
            r@ == self@,
    {
        proof {
            use_type_invariant(self);
        }
        Id { scheme: self.scheme, text: self.text.clone() }
    }
}

impl Id {
    #[verifier::type_invariant]
    spec fn non_empty(self) -> bool {
        self.text@.len() > 0
    }

    /// An identifier; empty text is refused.
    pub fn new(scheme: IdScheme, text: &str) -> (r: Result<Self, Error>)
        ensures
            r is Ok <==> text@.len() > 0,
            r matches Ok(id) ==> id@ == (IdView { scheme, text: text@ }),
            r matches Err(e) ==> e@ == plain_error(
                ErrorCode::InvalidArgument,
                "identifier text must not be empty"@,
            ).with("scheme"@, DetailView::Text(scheme.name())),
    {
        if text.is_empty() {
            return Err(
                Error::new(
                    ErrorCode::InvalidArgument,
                    "identifier text must not be empty",
                    TraceId::unattributed(),
                ).with_detail("scheme", scheme.as_str()),
            );
        }
        Ok(Id { scheme, text: text.to_owned() })
    }

    /// The scheme.
    pub fn scheme(&self) -> (r: IdScheme)
        ensures
            r == self@.scheme,
    {
        self.scheme
    }

    /// The text, which is never empty.
    pub fn as_str(&self) -> (r: &str)
        ensures
            r@ == self@.text,
            r@.len() > 0,
    {
        proof {
            use_type_invariant(self);
        }
        self.text.as_str()
    }
}

/// What came of drawing an identifier.
pub open spec fn drawn_view(r: Result<Id, Error>) -> Result<IdView, ErrorView> {
    match r {
        Ok(id) => Ok(id@),
        Err(e) => Err(e@),
    }
}

/// A source of fresh identifiers of one scheme.
pub trait IdGen {
    /// The scheme of every identifier that this source makes.
    open spec fn made_by(&self) -> IdScheme {
        arbitrary()
    }

    /// What was drawn so far, in order: identifiers, and errors in their place.
    open spec fn drawn(&self) -> Seq<Result<IdView, ErrorView>> {
        arbitrary()
    }

    fn scheme(&self) -> (r: IdScheme)
        ensures
            r == self.made_by(),
    ;

    fn next_id(&mut self) -> (r: Result<Id, Error>)
        ensures
            final(self).made_by() == old(self).made_by(),
            final(self).drawn() == old(self).drawn().push(drawn_view(r)),
            r matches Ok(id) ==> id@.scheme == old(self).made_by(),
    ;
}

/// The trace that a piece of work belongs to, if any.
#[derive(Debug, PartialEq, Eq, Hash)]
pub struct TraceId(Option<Id>);

impl View for TraceId {
    type V = Option<IdView>;

    closed spec fn view(&self) -> Option<IdView> {
        match self.0 {
            Some(id) => Some(id@),
            None => None,
        }
    }
}

impl Clone for TraceId {
    fn clone(&self) -> (r: Self)
        ensures
            r@ == self@,
    {
        match &self.0 {
            Some(id) => TraceId(Some(id.clone())),
            None => TraceId(None),
        }
    }
}

impl TraceId {
    /// The trace named by `id`.
    pub fn new(id: Id) -> (r: Self)
        ensures
            r@ == Some(id@),
    {
        TraceId(Some(id))
    }

    /// No trace.
    pub fn unattributed() -> (r: Self)
        ensures
            r@ == None::<IdView>,
    {
        TraceId(None)
    }

    /// The text of the trace identifier, if there is one.
    pub fn as_str(&self) -> (r: Option<&str>)
        ensures
            r is Some <==> self@ is Some,
            r matches Some(t) ==> t@ == self@->0.text && t@.len() > 0,
    {
        match &self.0 {
            Some(id) => Some(id.as_str()),
            None => None,
        }
    }
}

/// The key under which a request may be repeated without a second effect.
#[derive(Debug, PartialEq, Eq, Hash)]
pub struct IdempotencyKey(Id);

impl View for IdempotencyKey {
    type V = IdView;

    closed spec fn view(&self) -> IdView {
        self.0@
    }
}

impl Clone for IdempotencyKey {
    fn clone(&self) -> (r: Self)
        ensures
            r@ == self@,
    {
        IdempotencyKey(self.0.clone())
    }
}

impl IdempotencyKey {
    /// The key named by `id`.
    pub fn new(id: Id) -> (r: Self)
        ensures
            r@ == id@,
    {
        IdempotencyKey(id)
    }

    /// The text of the key.
    pub fn as_str(&self) -> (r: &str)
        ensures
            r@ == self@.text,
            r@.len() > 0,
    {
        self.0.as_str()
    }
}

} // verus!
