//! What one upstream fetch came to.

use vstd::prelude::*;

verus! {

/// The result of the one outbound request made for a connection.
#[derive(Debug, PartialEq, Eq)]
pub enum UpstreamOutcome {
    /// The upstream answered. `status_is_ok` tells whether its status was a
    /// success status; `body` is the body it sent.
    Success { status_is_ok: bool, body: Vec<u8> },
    /// No complete answer was received: the connection could not be made, or
    /// failed before the whole response had arrived.
    TransportFailure { cause: String },
}

/// [`UpstreamOutcome`] as a mathematical value.
pub enum OutcomeModel {
    Success { status_is_ok: bool, body: Seq<u8> },
    TransportFailure { cause: Seq<char> },
}

impl View for UpstreamOutcome {
    type V = OutcomeModel;

    open spec fn view(&self) -> OutcomeModel {
        match *self {
            UpstreamOutcome::Success { status_is_ok, body } => OutcomeModel::Success {
                status_is_ok,
                body: body@,
            },
            UpstreamOutcome::TransportFailure { cause } => OutcomeModel::TransportFailure {
                cause: cause@,
            },
        }
    }
}

impl OutcomeModel {
    /// Whether the outcome carries a body that is to be relayed: the upstream
    /// answered, and with a success status.
    pub open spec fn delivers(self) -> bool {
        self matches OutcomeModel::Success { status_is_ok, .. } && status_is_ok
    }
}

/// Whether an HTTP status code is a success status: 200 to 299.
pub open spec fn is_success_status(status: u16) -> bool {
    200 <= status < 300
}

/// Whether an HTTP status code is a success status.
pub fn status_is_success(status: u16) -> (ok: bool)
    ensures
        ok == is_success_status(status),
{
    200 <= status && status < 300
}

impl UpstreamOutcome {
    /// The outcome of a fetch that was answered with `status` and `body`.
    pub fn from_reply(status: u16, body: Vec<u8>) -> (outcome: UpstreamOutcome)
        ensures
            outcome@ == (OutcomeModel::Success {
                status_is_ok: is_success_status(status),
                body: body@,
            }),
    {
        UpstreamOutcome::Success { status_is_ok: status_is_success(status), body }
    }

    /// The outcome of a fetch that failed in transport.
    pub fn transport_failure(cause: String) -> (outcome: UpstreamOutcome)
        ensures
            outcome@ == (OutcomeModel::TransportFailure { cause: cause@ }),
    {
        UpstreamOutcome::TransportFailure { cause }
    }

    /// Whether the outcome carries a body that is to be relayed.
    pub fn delivers(&self) -> (yes: bool)
        ensures
            yes == self@.delivers(),
    {
        match self {
            UpstreamOutcome::Success { status_is_ok, .. } => *status_is_ok,
            UpstreamOutcome::TransportFailure { .. } => false,
        }
    }
}

} // verus!
