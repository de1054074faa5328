//! One bandwidth trial: a burst of fire-and-forget sends closed by one send
//! that waits for a reply, and the report drawn from that reply.
use vstd::prelude::*;
use crate::message::Inbound;
use crate::throughput::{divisor_spec, hundredths_spec, scaled_fits, throughput_divisor, trial_throughput};

verus! {

/// Seconds a send that awaits a reply waits before it gives up.
pub const REPLY_TIMEOUT_SECS: u64 = 60;

/// How one message of a trial is sent.
#[derive(Clone, Copy, Debug, PartialEq, Eq, Structural)]
pub enum SendKind {
    /// Dispatched without waiting for anything.
    FireAndForget,
    /// Marked to expect a reply within `REPLY_TIMEOUT_SECS`.
    Acked,
}

/// The sends of a trial of `count` messages, in order.
pub open spec fn sends_spec(count: nat) -> Seq<SendKind> {
    Seq::new(
        count,
        |i: int|
            if i < count - 1 {
                SendKind::FireAndForget
            } else {
                SendKind::Acked
            },
    )
}

/// Number of fire-and-forget sends in `s`.
pub open spec fn fire_and_forget_count(s: Seq<SendKind>) -> nat
    decreases s.len(),
{
    if s.len() == 0 {
        0
    } else {
        fire_and_forget_count(s.drop_last()) + if s.last() == SendKind::FireAndForget {
            1nat
        } else {
            0nat
        }
    }
}

/// A trial of `n` messages sends `n - 1` of them fire-and-forget and then
/// exactly one acked; with one message there is no fire-and-forget send.
pub proof fn lemma_trial_sends_shape(n: nat)
    requires
        n >= 1,
    ensures
        sends_spec(n) =~= Seq::new((n - 1) as nat, |i: int| SendKind::FireAndForget).push(
            SendKind::Acked,
        ),
        fire_and_forget_count(sends_spec(n)) == n - 1,
        sends_spec(n).last() == SendKind::Acked,
        forall|i: int| 0 <= i < n - 1 ==> sends_spec(n)[i] == SendKind::FireAndForget,
{
    lemma_all_fire_and_forget_counted((n - 1) as nat);
    assert(sends_spec(n).drop_last() =~= Seq::new(
        (n - 1) as nat,
        |i: int| SendKind::FireAndForget,
    ));
}

proof fn lemma_all_fire_and_forget_counted(k: nat)
    ensures
        fire_and_forget_count(Seq::new(k, |i: int| SendKind::FireAndForget)) == k,
    decreases k,
{
    if k > 0 {
        lemma_all_fire_and_forget_counted((k - 1) as nat);
        assert(Seq::new(k, |i: int| SendKind::FireAndForget).drop_last() =~= Seq::new(
            (k - 1) as nat,
            |i: int| SendKind::FireAndForget,
        ));
    }
}

/// A payload of `len` zero bytes.
pub fn zeros(len: usize) -> (r: Vec<u8>)
    ensures
        r@ == Seq::new(len as nat, |i: int| 0u8),
{
    let mut r: Vec<u8> = Vec::new();
    let mut i: usize = 0;
    while i < len
        invariant
            i <= len,
            r@ == Seq::new(i as nat, |j: int| 0u8),
        decreases len - i,
    {
        r.push(0u8);
        i = i + 1;
        assert(r@ =~= Seq::new(i as nat, |j: int| 0u8));
    }
    r
}

/// What a completed trial reports.
#[derive(Clone, Copy, Debug, PartialEq, Eq, Structural)]
pub struct TrialReport {
    /// Bytes of one message.
    pub payload_len: usize,
    /// Messages sent.
    pub count: usize,
    /// Bytes moved in all.
    pub bytes: u128,
    /// Nanoseconds from the first send to the final reply.
    pub elapsed_nanos: u64,
    /// Bytes in the unit the throughput is given in.
    pub divisor: u64,
    /// Throughput in hundredths of that unit per second; `None` where it
    /// cannot be computed (no time elapsed, or too many bytes).
    pub hundredths: Option<u128>,
}

/// Why a trial failed.
#[derive(Clone, Copy, Debug, PartialEq, Eq, Structural)]
pub enum TrialError {
    /// The message that followed the acked send was not a response.
    NoResponse,
}

/// `rep` reports a completed trial of `count` messages of `payload_len` bytes
/// that took `elapsed_nanos` nanoseconds.
pub open spec fn reports(rep: TrialReport, payload_len: usize, count: usize, elapsed_nanos: u64) -> bool {
    &&& rep.payload_len == payload_len
    &&& rep.count == count
    &&& rep.bytes as nat == payload_len as nat * count as nat
    &&& rep.elapsed_nanos == elapsed_nanos
    &&& rep.divisor as nat == divisor_spec(payload_len as nat)
    &&& (rep.hundredths is Some <==> (elapsed_nanos > 0 && scaled_fits(rep.bytes as nat)))
    &&& (rep.hundredths matches Some(v) ==> v as nat == hundredths_spec(
        rep.bytes as nat,
        elapsed_nanos as nat,
        rep.divisor as nat,
    ))
}

/// Reads the message that followed a trial's acked send. A response completes
/// the trial, after `elapsed_nanos` nanoseconds; anything else fails it.
pub fn finish_trial(reply: Inbound, payload_len: usize, count: usize, elapsed_nanos: u64) -> (r:
    Result<TrialReport, TrialError>)
    ensures
        r is Ok <==> reply == Inbound::Response,
        r is Err ==> r == Err::<TrialReport, TrialError>(TrialError::NoResponse),
        r matches Ok(rep) ==> reports(rep, payload_len, count, elapsed_nanos),
{
    match reply {
        Inbound::Response => {
            let bytes = crate::throughput::total_bytes(payload_len, count);
            let divisor = throughput_divisor(payload_len);
            let hundredths = trial_throughput(payload_len, count, elapsed_nanos);
            Ok(TrialReport { payload_len, count, bytes, elapsed_nanos, divisor, hundredths })
        },
        _ => Err(TrialError::NoResponse),
    }
}

/// Where a trial stands.
#[derive(Clone, Copy, Debug, PartialEq, Eq, Structural)]
pub enum TrialPhase {
    /// In the burst; `sent` messages have gone out.
    Sending { sent: usize },
    /// Every message has gone out; the reply to the last is awaited.
    AwaitingFinalAck,
    /// The reply came.
    Completed(TrialReport),
    /// Something other than the reply came.
    Failed(TrialError),
}

/// What the transport is to do next for a trial.
#[derive(Clone, Copy, Debug, PartialEq, Eq, Structural)]
pub enum TrialAction {
    /// Send one more message with the payload, in the given way.
    Send(SendKind),
    /// Wait for the next inbound message and hand it to `received`.
    AwaitReply,
    /// The trial is over.
    Finished,
}

/// The phase of a trial of `count` messages once `k` of them have been sent.
pub open spec fn phase_after_sends(count: nat, k: nat) -> TrialPhase {
    if k < count {
        TrialPhase::Sending { sent: k as usize }
    } else {
        TrialPhase::AwaitingFinalAck
    }
}

/// One bandwidth trial of `count` messages of `payload_len` bytes each. It
/// starts in the burst, waits for the final reply once all messages are out,
/// and ends completed or failed; it never goes back.
pub struct Trial {
    pub payload_len: usize,
    pub count: usize,
    pub phase: TrialPhase,
}

impl Trial {
    pub open spec fn wf(&self) -> bool {
        &&& self.count >= 1
        &&& (self.phase matches TrialPhase::Sending { sent } ==> sent < self.count)
    }

    /// The action for the trial's current phase.
    pub open spec fn action(&self) -> TrialAction {
        match self.phase {
            TrialPhase::Sending { sent } => TrialAction::Send(sends_spec(self.count as nat)[sent as int]),
            TrialPhase::AwaitingFinalAck => TrialAction::AwaitReply,
            _ => TrialAction::Finished,
        }
    }

    pub fn new(payload_len: usize, count: usize) -> (r: Trial)
        requires
            count >= 1,
        ensures
            r.wf(),
            r.payload_len == payload_len,
            r.count == count,
            r.phase == phase_after_sends(count as nat, 0),
    {
        Trial { payload_len, count, phase: TrialPhase::Sending { sent: 0 } }
    }

    /// What to do next: the next send of the burst, the wait for the reply,
    /// or nothing.
    pub fn next_action(&self) -> (r: TrialAction)
        requires
            self.wf(),
        ensures
            r == self.action(),
    {
        match self.phase {
            TrialPhase::Sending { sent } => {
                if sent < self.count - 1 {
                    TrialAction::Send(SendKind::FireAndForget)
                } else {
                    TrialAction::Send(SendKind::Acked)
                }
            },
            TrialPhase::AwaitingFinalAck => TrialAction::AwaitReply,
            _ => TrialAction::Finished,
        }
    }

    /// Records that the send asked for by `next_action` went out.
    pub fn sent(&mut self)
        requires
            old(self).wf(),
            old(self).phase is Sending,
        ensures
            final(self).wf(),
            final(self).payload_len == old(self).payload_len,
            final(self).count == old(self).count,
            final(self).phase == phase_after_sends(
                old(self).count as nat,
                (old(self).phase->sent + 1) as nat,
            ),
    {
        if let TrialPhase::Sending { sent } = self.phase {
            if sent + 1 < self.count {
                self.phase = TrialPhase::Sending { sent: sent + 1 };
            } else {
                self.phase = TrialPhase::AwaitingFinalAck;
            }
        }
    }

    /// Records the message that came after the final send, `elapsed_nanos`
    /// nanoseconds after the first send: a response completes the trial,
    /// anything else fails it.
    pub fn received(&mut self, reply: Inbound, elapsed_nanos: u64)
        requires
            old(self).wf(),
            old(self).phase is AwaitingFinalAck,
        ensures
            final(self).wf(),
            final(self).payload_len == old(self).payload_len,
            final(self).count == old(self).count,
            final(self).phase is Completed <==> reply == Inbound::Response,
            final(self).phase matches TrialPhase::Completed(rep) ==> reports(
                rep,
                old(self).payload_len,
                old(self).count,
                elapsed_nanos,
            ),
            !(final(self).phase is Completed) ==> final(self).phase == TrialPhase::Failed(
                TrialError::NoResponse,
            ),
    {
        self.phase = match finish_trial(reply, self.payload_len, self.count, elapsed_nanos) {
            Ok(rep) => TrialPhase::Completed(rep),
            Err(e) => TrialPhase::Failed(e),
        };
    }
}

/// Driven from its start, a trial of `n` messages asks for the sends of
/// `sends_spec(n)` one by one, in order, and then for the reply: `n - 1`
/// fire-and-forget sends, then exactly one acked send, then the wait.
pub proof fn lemma_trial_burst_then_ack(n: nat, payload_len: usize)
    requires
        1 <= n <= usize::MAX,
    ensures
        forall|k: nat|
            k < n ==> (Trial { payload_len, count: n as usize, phase: #[trigger] phase_after_sends(n, k) }).action()
                == TrialAction::Send(sends_spec(n)[k as int]),
        forall|k: nat|
            k < n - 1 ==> (Trial { payload_len, count: n as usize, phase: #[trigger] phase_after_sends(n, k) }).action()
                == TrialAction::Send(SendKind::FireAndForget),
        (Trial { payload_len, count: n as usize, phase: phase_after_sends(n, (n - 1) as nat) }).action()
            == TrialAction::Send(SendKind::Acked),
        (Trial { payload_len, count: n as usize, phase: phase_after_sends(n, n) }).action()
            == TrialAction::AwaitReply,
        fire_and_forget_count(sends_spec(n)) == n - 1,
{
    lemma_trial_sends_shape(n);
}

} // verus!
