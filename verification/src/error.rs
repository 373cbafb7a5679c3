//! The failures that serving an arena can meet, and how each one is surfaced.

use vstd::prelude::*;

verus! {

/// What can go wrong between a read request and its response.
#[derive(Debug, Clone, Copy, PartialEq, Eq, Structural)]
pub enum Error {
    /// The store holds no record for the requested arena.
    NotFound,
    /// The store failed or did not answer in time; a later request may succeed.
    StoreUnavailable,
    /// The store's record contradicts itself and is not projected.
    MalformedRecord,
    /// The link to the invalidation channel is down.
    ChannelDisconnected,
}

/// How a failure reaches the outside.
#[derive(Debug, Clone, Copy, PartialEq, Eq, Structural)]
pub enum Disposition {
    /// Told to the client: the arena is unknown.
    UnknownArena,
    /// A server-side failure that the client may retry.
    Retryable,
    /// A server-side failure that is logged; retrying does not help.
    ServerFailure,
    /// Recovered inside the service and never shown to a reader.
    Recovered,
}

impl Error {
    /// How this failure is surfaced.
    pub open spec fn spec_disposition(self) -> Disposition {
        match self {
            Error::NotFound => Disposition::UnknownArena,
            Error::StoreUnavailable => Disposition::Retryable,
            Error::MalformedRecord => Disposition::ServerFailure,
            Error::ChannelDisconnected => Disposition::Recovered,
        }
    }

    /// How this failure is surfaced.
    #[verifier::when_used_as_spec(spec_disposition)]
    pub fn disposition(self) -> (d: Disposition)
        ensures
            d == self.spec_disposition(),
    {
        match self {
            Error::NotFound => Disposition::UnknownArena,
            Error::StoreUnavailable => Disposition::Retryable,
            Error::MalformedRecord => Disposition::ServerFailure,
            Error::ChannelDisconnected => Disposition::Recovered,
        }
    }

    /// A short description for logs and response bodies.
    pub fn message(self) -> (text: String)
        ensures
            text@ == self.spec_message()@,
    {
        match self {
            Error::NotFound => "unknown arena".to_owned(),
            Error::StoreUnavailable => "arena store unavailable".to_owned(),
            Error::MalformedRecord => "malformed arena record".to_owned(),
            Error::ChannelDisconnected => "invalidation channel disconnected".to_owned(),
        }
    }

    /// The text that [`Error::message`] returns.
    pub open spec fn spec_message(self) -> &'static str {
        match self {
            Error::NotFound => "unknown arena",
            Error::StoreUnavailable => "arena store unavailable",
            Error::MalformedRecord => "malformed arena record",
            Error::ChannelDisconnected => "invalidation channel disconnected",
        }
    }
}

} // verus!
