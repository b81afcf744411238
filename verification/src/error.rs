//! Errors of the client library.
use vstd::prelude::*;

use crate::names::ProtoError;

verus! {

/// An error of an operation that the daemon carries out.
#[derive(Debug, PartialEq, Eq)]
#[non_exhaustive]
pub enum RmuxError {
    /// The daemon cannot do what was asked.
    Unsupported {
        /// A stable name of what it cannot do.
        feature: String,
        /// What the user can do about it.
        hint: String,
    },
    /// The daemon answered with an error.
    Protocol {
        /// The error.
        source: ProtoError,
    },
}

impl RmuxError {
    /// The error for a feature that the daemon does not have.
    pub fn unsupported(feature: &str, hint: &str) -> (r: RmuxError)
        ensures
            r matches RmuxError::Unsupported { feature: f, hint: h } && f@ == feature@ && h@
                == hint@,
    {
        RmuxError::Unsupported { feature: feature.to_owned(), hint: hint.to_owned() }
    }

    /// The error for an error of the daemon.
    pub fn protocol(source: ProtoError) -> (r: RmuxError)
        ensures
            r == (RmuxError::Protocol { source }),
    {
        RmuxError::Protocol { source }
    }

    /// What the user can do about it, where something is known.
    pub fn hint(&self) -> (r: Option<&str>)
        ensures
            match *self {
                RmuxError::Unsupported { feature: _, hint } => r matches Some(h) && h@ == hint@,
                RmuxError::Protocol { source: _ } => r is None,
            },
    {
        match self {
            RmuxError::Unsupported { hint, .. } => Some(hint.as_str()),
            RmuxError::Protocol { .. } => None,
        }
    }

    /// The stable name of what the daemon cannot do, where there is one.
    pub fn feature(&self) -> (r: Option<&str>)
        ensures
            match *self {
                RmuxError::Unsupported { feature, hint: _ } => r matches Some(f) && f@ == feature@,
                RmuxError::Protocol { source: _ } => r is None,
            },
    {
        match self {
            RmuxError::Unsupported { feature, .. } => Some(feature.as_str()),
            RmuxError::Protocol { .. } => None,
        }
    }

    /// The error in words.
    pub open spec fn spec_message(self) -> Seq<char> {
        match self {
            RmuxError::Unsupported { feature, hint } => "unsupported feature `"@ + feature@
                + "`\nhint: "@ + hint@,
            RmuxError::Protocol { source } => source@.message(),
        }
    }

    /// The error in words.
    pub fn message(&self) -> (r: String)
        ensures
            r@ == self.spec_message(),
    {
        match self {
            RmuxError::Unsupported { feature, hint } => {
                let mut out = "unsupported feature `".to_owned();
                out.append(feature);
                out.append("`\nhint: ");
                out.append(hint);
                out
            },
            RmuxError::Protocol { source } => source.message(),
        }
    }
}

/// Which daemon a client talks to.
#[derive(Debug, PartialEq, Eq, Hash)]
#[non_exhaustive]
pub enum RmuxEndpoint {
    /// The usual one of the platform.
    Default,
    /// The one at a Unix socket.
    UnixSocket(String),
    /// The one behind a Windows pipe.
    WindowsPipe(String),
}

impl Default for RmuxEndpoint {
    fn default() -> (r: Self)
        ensures
            r == RmuxEndpoint::Default,
    {
        RmuxEndpoint::Default
    }
}

impl RmuxEndpoint {
    /// Whether it is the usual one of the platform.
    pub fn is_default(&self) -> (r: bool)
        ensures
            r == (self is Default),
    {
        matches!(self, RmuxEndpoint::Default)
    }
}

} // verus!
