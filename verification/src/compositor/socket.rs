//! The name of the socket that clients connect to.

use vstd::prelude::*;

use crate::error::{plain_error, DetailView, Error, ErrorCode};
use crate::id::TraceId;
use crate::text::same_text;

verus! {

/// The first number that is tried for a socket of schorl's own.
pub const FIRST_SOCKET_NUMBER: u32 = 1;

/// The number after the last that is tried.
pub const SOCKET_NUMBER_END: u32 = 33;

/// A socket name. It is never empty.
#[derive(Debug, PartialEq, Eq, Hash)]
pub struct SocketName(String);

impl View for SocketName {
    type V = Seq<char>;

    closed spec fn view(&self) -> Seq<char> {
        self.0@
    }
}

impl SocketName {
    #[verifier::type_invariant]
    spec fn non_empty(self) -> bool {
        self.0@.len() > 0
    }

    /// The socket called `name`; an empty name is refused.
    pub fn new(name: &str) -> (r: Result<Self, Error>)
        ensures
            r is Ok <==> name@.len() > 0,
            r matches Ok(n) ==> n@ == name@,
            r matches Err(e) ==> e@ == plain_error(
                ErrorCode::InvalidArgument,
                "a wayland socket name must not be empty"@,
            ),
    {
        if name.is_empty() {
            return Err(
                Error::new(
                    ErrorCode::InvalidArgument,
                    "a wayland socket name must not be empty",
                    TraceId::unattributed(),
                ),
            );
        }
        Ok(SocketName(name.to_owned()))
    }

    /// The name.
    pub fn as_str(&self) -> (r: &str)
        ensures
            r@ == self@,
            r@.len() > 0,
    {
        proof {
            use_type_invariant(self);
        }
        self.0.as_str()
    }

    /// The name that a bound socket reports: there has to be one, and it has to be
    /// text.
    pub fn reported(present: bool, text: Option<&str>) -> (r: Result<Self, Error>)
        ensures
            r is Ok <==> present && text is Some && text->0@.len() > 0,
            r matches Ok(n) ==> n@ == text->0@,
            r matches Err(e) ==> e@ == (if !present {
                plain_error(ErrorCode::Internal, "the bound socket reports no name"@)
            } else if text is None {
                plain_error(ErrorCode::Internal, "the socket name is not valid UTF-8"@)
            } else {
                plain_error(
                    ErrorCode::InvalidArgument,
                    "a wayland socket name must not be empty"@,
                )
            }),
    {
        if !present {
            return Err(
                Error::new(
                    ErrorCode::Internal,
                    "the bound socket reports no name",
                    TraceId::unattributed(),
                ),
            );
        }
        match text {
            Some(name) => SocketName::new(name),
            None => Err(
                Error::new(
                    ErrorCode::Internal,
                    "the socket name is not valid UTF-8",
                    TraceId::unattributed(),
                ),
            ),
        }
    }
}

/// Refuses the name under which the host's own compositor listens.
pub fn refuse_host_socket(name: &str, host: Option<&str>) -> (r: Result<(), Error>)
    ensures
        r is Err <==> host is Some && host->0@ == name@,
        r matches Err(e) ==> e@ == plain_error(
            ErrorCode::InvalidArgument,
            "schorl refuses to take over the host compositor's socket name"@,
        ).with("name"@, DetailView::Text(name@)),
{
    let taken = match host {
        Some(h) => same_text(h, name),
        None => false,
    };
    if taken {
        return Err(
            Error::new(
                ErrorCode::InvalidArgument,
                "schorl refuses to take over the host compositor's socket name",
                TraceId::unattributed(),
            ).with_detail("name", name),
        );
    }
    Ok(())
}

/// The error of a socket that could not be bound.
pub fn bind_failed(name: &str, reason: &str) -> (r: Error)
    ensures
        r@ == plain_error(
            ErrorCode::HostRefused,
            "could not bind schorl's own wayland socket"@,
        ).with("name"@, DetailView::Text(name@)).with("reason"@, DetailView::Text(reason@)),
{
    Error::new(
        ErrorCode::HostRefused,
        "could not bind schorl's own wayland socket",
        TraceId::unattributed(),
    ).with_detail("name", name).with_detail("reason", reason)
}

/// The error of a client that could not be accepted.
pub fn accept_failed(cause: &str) -> (r: Error)
    ensures
        r@ == plain_error(
            ErrorCode::HostRefused,
            "could not accept a client on schorl's socket"@,
        ).because(cause@),
{
    Error::new(
        ErrorCode::HostRefused,
        "could not accept a client on schorl's socket",
        TraceId::unattributed(),
    ).caused_by(cause)
}

} // verus!
