//! The responder: answers each request that waits for a reply with an empty
//! reply, and lets everything else pass.
use vstd::prelude::*;
use crate::message::{wants_reply, Inbound};

verus! {

/// Whether the responder answers `m`. Nothing it receives is an error: a
/// request without the flag, a stray response or a failed wait is let pass.
pub fn reply_needed(m: &Inbound) -> (r: bool)
    ensures
        r == wants_reply(*m),
{
    match m {
        Inbound::Request { expects_response } => *expects_response,
        Inbound::Response => false,
        Inbound::Failed => false,
    }
}

/// The positions, in `msgs`, of the messages the responder replies to when it
/// reads them one after another: one empty reply for each message that
/// `reply_needed` accepts, sent before the next message is read.
pub open spec fn replies(msgs: Seq<Inbound>) -> Seq<int>
    decreases msgs.len(),
{
    if msgs.len() == 0 {
        Seq::empty()
    } else {
        let earlier = replies(msgs.drop_last());
        if wants_reply(msgs.last()) {
            earlier.push(msgs.len() - 1)
        } else {
            earlier
        }
    }
}

/// Over any sequence of inbound messages the responder replies exactly once to
/// each request that waits for a reply, never to any other message, and in
/// the order the requests arrived.
pub proof fn lemma_replies_once_in_order(msgs: Seq<Inbound>)
    ensures
        forall|k: int|
            0 <= k < replies(msgs).len() ==> 0 <= #[trigger] replies(msgs)[k] < msgs.len()
                && wants_reply(msgs[replies(msgs)[k]]),
        forall|k1: int, k2: int|
            0 <= k1 < k2 < replies(msgs).len() ==> #[trigger] replies(msgs)[k1]
                < #[trigger] replies(msgs)[k2],
        forall|i: int|
            0 <= i < msgs.len() && wants_reply(#[trigger] msgs[i]) ==> exists|k: int|
                0 <= k < replies(msgs).len() && #[trigger] replies(msgs)[k] == i,
    decreases msgs.len(),
{
    if msgs.len() > 0 {
        let init = msgs.drop_last();
        lemma_replies_once_in_order(init);
        let e = replies(init);
        assert forall|i: int| 0 <= i < msgs.len() && wants_reply(#[trigger] msgs[i]) implies exists|
            k: int,
        | 0 <= k < replies(msgs).len() && #[trigger] replies(msgs)[k] == i by {
            if i < msgs.len() - 1 {
                assert(init[i] == msgs[i]);
                let k = choose|k: int| 0 <= k < e.len() && #[trigger] e[k] == i;
                assert(replies(msgs)[k] == i);
            } else {
                assert(replies(msgs)[e.len() as int] == i);
            }
        }
        assert forall|k: int| 0 <= k < replies(msgs).len() implies 0 <= #[trigger] replies(
            msgs,
        )[k] < msgs.len() && wants_reply(msgs[replies(msgs)[k]]) by {
            if k < e.len() {
                assert(init[e[k]] == msgs[e[k]]);
            }
        }
    }
}

} // verus!
