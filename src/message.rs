//! What an endpoint can find in its inbox, as far as the protocol cares.
use vstd::prelude::*;

verus! {

/// The outcome of waiting for the next inbound message.
#[derive(Clone, Copy, Debug, PartialEq, Eq, Structural)]
pub enum Inbound {
    /// A request; `expects_response` is set when the sender waits for a reply.
    Request { expects_response: bool },
    /// A response to an earlier request.
    Response,
    /// Nothing usable arrived: the wait failed or timed out.
    Failed,
}

/// Whether an inbound message is a request that waits for a reply.
pub open spec fn wants_reply(m: Inbound) -> bool {
    m matches Inbound::Request { expects_response: true }
}

} // verus!
