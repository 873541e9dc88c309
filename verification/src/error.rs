//! Error kinds of the routing core.

use vstd::prelude::*;
use vstd::string::StringExecFns;

use crate::text::{decimal, decimal_string};

verus! {

/// What one call into the sequencer gateway can fail with.
#[derive(Clone, Copy, Debug, PartialEq, Eq, Structural)]
pub enum GatewayError {
    /// `subscribe` found the edge in place already.
    AlreadyConnected,
    /// `unsubscribe` found no such edge.
    NotConnected,
    /// The subsystem reported an I/O error, with its error number.
    Io(i32),
}

/// Failures that the core reports to its callers.
#[derive(Clone, Copy, Debug, PartialEq, Eq, Structural)]
pub enum Error {
    /// No gateway session could be opened; the application cannot start.
    SubsystemUnavailable,
    /// The background synchronizer met a gateway error and has stopped; the
    /// last snapshot stays in the store, stale.
    SynchronizerTerminated,
    /// A toggle was abandoned because a gateway call failed.
    MutationFailed(GatewayError),
}

impl GatewayError {
    /// The failure in words.
    pub open spec fn message_text(self) -> Seq<char> {
        match self {
            GatewayError::AlreadyConnected => "already connected"@,
            GatewayError::NotConnected => "not connected"@,
            GatewayError::Io(code) => "subsystem error "@ + decimal(code as int),
        }
    }

    /// The failure in words.
    pub fn message(&self) -> (text: String)
        ensures
            text@ == self.message_text(),
    {
        match self {
            GatewayError::AlreadyConnected => String::from_str("already connected"),
            GatewayError::NotConnected => String::from_str("not connected"),
            GatewayError::Io(code) => {
                let mut text = String::from_str("subsystem error ");
                text.append(decimal_string(*code).as_str());
                text
            },
        }
    }
}

impl Error {
    /// The failure in words.
    pub open spec fn message_text(self) -> Seq<char> {
        match self {
            Error::SubsystemUnavailable => "sequencer subsystem unavailable"@,
            Error::SynchronizerTerminated => "synchronizer terminated"@,
            Error::MutationFailed(cause) => "toggle failed: "@ + cause.message_text(),
        }
    }

    /// The failure in words.
    pub fn message(&self) -> (text: String)
        ensures
            text@ == self.message_text(),
    {
        match self {
            Error::SubsystemUnavailable => String::from_str("sequencer subsystem unavailable"),
            Error::SynchronizerTerminated => String::from_str("synchronizer terminated"),
            Error::MutationFailed(cause) => {
                let mut text = String::from_str("toggle failed: ");
                text.append(cause.message().as_str());
                text
            },
        }
    }
}

} // verus!
