//! Secrets that do not show themselves.

use vstd::prelude::*;

use crate::error::{plain_error, DetailView, Error, ErrorCode};
use crate::id::TraceId;

verus! {

/// A value that is never shown by accident.
#[derive(PartialEq, Eq)]
pub struct Secret<T>(T);

impl<T: Clone> Clone for Secret<T> {
    fn clone(&self) -> (r: Self)
        ensures
            cloned(self.inner(), r.inner()),
    {
        Secret(self.0.clone())
    }
}

impl<T> Secret<T> {
    /// The value that is kept.
    pub closed spec fn inner(self) -> T {
        self.0
    }

    /// Keeps `value`.
    pub fn new(value: T) -> (r: Self)
        ensures
            r.inner() == value,
    {
        Secret(value)
    }

    /// Shows the value to code that asks for it by name.
    pub fn expose(&self) -> (r: &T)
        ensures
            *r == self.inner(),
    {
        &self.0
    }

    /// Gives the value up.
    pub fn into_inner(self) -> (r: T)
        ensures
            r == self.inner(),
    {
        self.0
    }

    /// What a debug print shows: the same for every value.
    pub fn debug_text(&self) -> (r: &'static str)
        ensures
            r@ == "Secret(<redacted>)"@,
    {
        "Secret(<redacted>)"
    }

    /// What a plain print shows: the same for every value.
    pub fn display_text(&self) -> (r: &'static str)
        ensures
            r@ == "<redacted>"@,
    {
        "<redacted>"
    }
}

/// Where secrets come from, by name.
pub trait SecretSource {
    fn get(&self, name: &str) -> (r: Result<Secret<String>, Error>);
}

/// Secrets of the process environment.
#[derive(Debug, Clone, Copy)]
pub struct EnvSecretSource;

impl EnvSecretSource {
    /// The secret under `name`, given what the environment holds there. The error
    /// shows the name and nothing else.
    pub fn resolve(&self, name: &str, found: Option<String>) -> (r: Result<Secret<String>, Error>)
        ensures
            r is Ok <==> found is Some,
            r matches Ok(s) ==> s.inner() == found->0,
            r matches Err(e) ==> e@ == plain_error(
                ErrorCode::CapabilityUnavailable,
                "secret is not present in the environment"@,
            ).with("name"@, DetailView::Text(name@)),
    {
        match found {
            Some(value) => Ok(Secret::new(value)),
            None => Err(
                Error::new(
                    ErrorCode::CapabilityUnavailable,
                    "secret is not present in the environment",
                    TraceId::unattributed(),
                ).with_detail("name", name),
            ),
        }
    }
}

} // verus!
