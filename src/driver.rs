//! The driver: turns a test command into the steps to run against a peer's
//! responder, and keeps track of a run as the steps complete or fail.
use vstd::prelude::*;
use crate::trial::zeros;

verus! {

/// A test command, addressed to a peer by its node identifier.
#[derive(Clone, Debug)]
pub enum UserReq {
    /// Run the full speed test against the peer.
    Speedtest(String),
    /// Run one bandwidth trial with the given payload size and message count.
    BandwidthTest { node_id: String, message_bytes: usize, message_count: usize },
}

/// The peer a command is addressed to.
pub open spec fn peer_of(req: UserReq) -> Seq<char> {
    match req {
        UserReq::Speedtest(n) => n@,
        UserReq::BandwidthTest { node_id, .. } => node_id@,
    }
}

/// One step of a run.
#[derive(Clone, Debug)]
pub enum Step {
    /// An empty request that awaits a reply; `number` counts the pings from 1.
    Ping { number: u8 },
    /// A bandwidth trial of `count` messages each carrying `payload`.
    Bandwidth { payload: Vec<u8>, count: usize },
}

/// Which command was refused for naming the local node as its peer.
#[derive(Clone, Copy, Debug, PartialEq, Eq, Structural)]
pub enum TestKind {
    Speedtest,
    Bandwidth,
}

/// What the driver makes of a command.
#[derive(Clone, Debug)]
pub enum Plan {
    /// The command names the local node: nothing is sent.
    SelfTest(TestKind),
    /// A bandwidth trial of zero messages was asked for: nothing is sent.
    ZeroCount,
    /// Run `steps`, in order, against `peer`.
    Run { peer: String, steps: Vec<Step> },
}

/// The steps a plan runs; none unless it is a `Run`.
pub open spec fn steps_of(p: Plan) -> Seq<Step> {
    match p {
        Plan::Run { steps, .. } => steps@,
        _ => Seq::empty(),
    }
}

/// Seconds a ping waits for its reply.
pub const PING_TIMEOUT_SECS: u64 = 60;

/// Payload sizes of the speed test's trials, in order.
pub open spec fn speedtest_sizes() -> Seq<nat> {
    seq![24nat, 1024nat, 60_000nat, 102_400nat, 1_048_576nat]
}

/// Message counts of the speed test's trials, in order.
pub open spec fn speedtest_counts() -> Seq<nat> {
    seq![10_000nat, 1000nat, 1000nat, 100nat, 10nat]
}

/// The text the smallest trial of the speed test carries.
pub open spec fn greeting() -> Seq<u8> {
    seq![
        116u8, 104u8, 105u8, 115u8, 32u8, 105u8, 115u8, 32u8, 101u8, 120u8, 97u8, 99u8,
        116u8, 108u8, 121u8, 32u8, 50u8, 52u8, 32u8, 98u8, 121u8, 116u8, 101u8, 115u8,
    ]
}

/// The payload of the speed test's trial at position `i`: the greeting first,
/// zero bytes after it.
pub open spec fn speedtest_payload(i: int) -> Seq<u8> {
    if i == 0 {
        greeting()
    } else {
        Seq::new(speedtest_sizes()[i], |j: int| 0u8)
    }
}

pub open spec fn is_ping(s: Step, n: u8) -> bool {
    s matches Step::Ping { number } && number == n
}

pub open spec fn is_trial(s: Step, payload: Seq<u8>, count: nat) -> bool {
    s matches Step::Bandwidth { payload: p, count: c } && p@ == payload && c as nat == count
}

/// A trial of `count` messages of `size` bytes, whatever the bytes.
pub open spec fn has_shape(s: Step, size: nat, count: nat) -> bool {
    s matches Step::Bandwidth { payload, count: c } && payload@.len() == size && c as nat == count
}

/// The speed test: two pings, then the five trials in order.
pub open spec fn is_speedtest(steps: Seq<Step>) -> bool {
    &&& steps.len() == 7
    &&& is_ping(steps[0], 1)
    &&& is_ping(steps[1], 2)
    &&& forall|i: int|
        2 <= i < 7 ==> is_trial(
            #[trigger] steps[i],
            speedtest_payload(i - 2),
            speedtest_counts()[i - 2],
        )
}

fn greeting_bytes() -> (r: Vec<u8>)
    ensures
        r@ == greeting(),
{
    let r: Vec<u8> = vec![
        116u8, 104u8, 105u8, 115u8, 32u8, 105u8, 115u8, 32u8, 101u8, 120u8, 97u8, 99u8,
        116u8, 108u8, 121u8, 32u8, 50u8, 52u8, 32u8, 98u8, 121u8, 116u8, 101u8, 115u8,
    ];
    assert(r@ =~= greeting());
    r
}

/// The steps of the speed test: ping twice, then run trials of 24 bytes × 10,000,
/// 1024 × 1000, 60,000 × 1000, 102,400 × 100 and 1,048,576 × 10 messages.
pub fn speedtest_steps() -> (r: Vec<Step>)
    ensures
        is_speedtest(r@),
{
    let mut r: Vec<Step> = Vec::new();
    r.push(Step::Ping { number: 1 });
    r.push(Step::Ping { number: 2 });
    r.push(Step::Bandwidth { payload: greeting_bytes(), count: 10_000 });
    r.push(Step::Bandwidth { payload: zeros(1024), count: 1000 });
    r.push(Step::Bandwidth { payload: zeros(60_000), count: 1000 });
    r.push(Step::Bandwidth { payload: zeros(102_400), count: 100 });
    r.push(Step::Bandwidth { payload: zeros(1_048_576), count: 10 });
    assert forall|i: int| 2 <= i < 7 implies is_trial(
        #[trigger] r@[i],
        speedtest_payload(i - 2),
        speedtest_counts()[i - 2],
    ) by {
        if i > 2 {
            assert(r@[i]->payload@ =~= speedtest_payload(i - 2));
        }
    }
    r
}

/// The driver of one endpoint, configured with that endpoint's node.
pub struct Driver {
    pub our_node: String,
}

impl Driver {
    pub fn new(our_node: String) -> (r: Driver)
        ensures
            r.our_node == our_node,
    {
        Driver { our_node }
    }

    /// Whether a command from `source_node` is taken: only the local node
    /// may command the driver.
    pub fn accepts_source(&self, source_node: &String) -> (r: bool)
        ensures
            r == (source_node@ == self.our_node@),
    {
        *source_node == self.our_node
    }

    /// The plan for a command. A command naming the local node as its peer is
    /// refused and sends nothing; so is a trial of zero messages. A speed test
    /// runs `speedtest_steps`; a bandwidth test runs one trial of
    /// `message_count` messages of `message_bytes` zero bytes.
    pub fn handle_user_req(&self, req: &UserReq) -> (r: Plan)
        ensures
            peer_of(*req) == self.our_node@ ==> r == Plan::SelfTest(
                if req is Speedtest {
                    TestKind::Speedtest
                } else {
                    TestKind::Bandwidth
                },
            ),
            peer_of(*req) == self.our_node@ ==> steps_of(r).len() == 0,
            peer_of(*req) != self.our_node@ ==> match *req {
                UserReq::Speedtest(_) => r matches Plan::Run { peer, steps } && peer@ == peer_of(
                    *req,
                ) && is_speedtest(steps@),
                UserReq::BandwidthTest { message_bytes, message_count, .. } => if message_count
                    == 0 {
                    r == Plan::ZeroCount
                } else {
                    r matches Plan::Run { peer, steps } && peer@ == peer_of(*req) && steps@.len()
                        == 1 && is_trial(
                        steps@[0],
                        Seq::new(message_bytes as nat, |j: int| 0u8),
                        message_count as nat,
                    )
                },
            },
    {
        match req {
            UserReq::Speedtest(node_id) => {
                if *node_id == self.our_node {
                    return Plan::SelfTest(TestKind::Speedtest);
                }
                Plan::Run { peer: node_id.clone(), steps: speedtest_steps() }
            },
            UserReq::BandwidthTest { node_id, message_bytes, message_count } => {
                if *node_id == self.our_node {
                    return Plan::SelfTest(TestKind::Bandwidth);
                }
                if *message_count == 0 {
                    return Plan::ZeroCount;
                }
                let mut steps: Vec<Step> = Vec::new();
                steps.push(Step::Bandwidth { payload: zeros(*message_bytes), count: *message_count });
                Plan::Run { peer: node_id.clone(), steps }
            },
        }
    }
}

/// Progress of a run: the next step to attempt and the failures so far.
pub open spec fn advance(progress: (nat, nat), succeeded: bool) -> (nat, nat) {
    (progress.0 + 1, if succeeded {
        progress.1
    } else {
        progress.1 + 1
    })
}

/// Progress after the outcomes `outcomes`, in order, starting from nothing.
pub open spec fn replay(outcomes: Seq<bool>) -> (nat, nat)
    decreases outcomes.len(),
{
    if outcomes.len() == 0 {
        (0, 0)
    } else {
        advance(replay(outcomes.drop_last()), outcomes.last())
    }
}

/// Number of failed outcomes in `outcomes`.
pub open spec fn failures_in(outcomes: Seq<bool>) -> nat
    decreases outcomes.len(),
{
    if outcomes.len() == 0 {
        0
    } else {
        failures_in(outcomes.drop_last()) + if outcomes.last() {
            0nat
        } else {
            1nat
        }
    }
}

/// A run of a plan's steps. Steps are attempted strictly in order, one at a
/// time; a failed step is counted and the run goes on with the next.
pub struct Run {
    pub steps: Vec<Step>,
    pub next: usize,
    pub failures: usize,
}

impl Run {
    pub open spec fn wf(&self) -> bool {
        self.failures <= self.next <= self.steps@.len()
    }

    pub fn new(steps: Vec<Step>) -> (r: Run)
        ensures
            r.wf(),
            r.steps@ == steps@,
            r.next == 0,
            r.failures == 0,
    {
        Run { steps, next: 0, failures: 0 }
    }

    /// The step to attempt now; `None` once every step has been attempted.
    pub fn current(&self) -> (r: Option<&Step>)
        requires
            self.wf(),
        ensures
            r is Some <==> self.next < self.steps@.len(),
            r matches Some(s) ==> *s == self.steps@[self.next as int],
    {
        if self.next < self.steps.len() {
            Some(&self.steps[self.next])
        } else {
            None
        }
    }

    /// Records the outcome of the current step and moves to the next, whether
    /// the step succeeded or not.
    pub fn record(&mut self, succeeded: bool)
        requires
            old(self).wf(),
            old(self).next < old(self).steps@.len(),
        ensures
            final(self).wf(),
            final(self).steps@ == old(self).steps@,
            (final(self).next as nat, final(self).failures as nat) == advance(
                (old(self).next as nat, old(self).failures as nat),
                succeeded,
            ),
    {
        let len = self.steps.len();
        assert(self.next + 1 <= len);
        self.next = self.next + 1;
        if !succeeded {
            self.failures = self.failures + 1;
        }
    }
}

/// Whatever each step's outcome, a run attempts every step: after one outcome
/// per step it has reached the end, and it has counted exactly the failed ones.
pub proof fn lemma_every_step_attempted(outcomes: Seq<bool>)
    ensures
        replay(outcomes).0 == outcomes.len(),
        replay(outcomes).1 == failures_in(outcomes),
    decreases outcomes.len(),
{
    if outcomes.len() > 0 {
        lemma_every_step_attempted(outcomes.drop_last());
    }
}

/// Number of pings among `steps`.
pub open spec fn pings_in(steps: Seq<Step>) -> nat
    decreases steps.len(),
{
    if steps.len() == 0 {
        0
    } else {
        pings_in(steps.drop_last()) + if steps.last() is Ping {
            1nat
        } else {
            0nat
        }
    }
}

/// A speed test is run in full whatever its pings and trials give: two pings
/// and the five trials, in their fixed order, are each attempted.
pub proof fn lemma_speedtest_attempts_all(steps: Seq<Step>, outcomes: Seq<bool>)
    requires
        is_speedtest(steps),
        outcomes.len() == steps.len(),
    ensures
        replay(outcomes).0 == 7,
        pings_in(steps) == 2,
        steps[0] is Ping && steps[1] is Ping,
        forall|i: int|
            2 <= i < 7 ==> has_shape(
                #[trigger] steps[i],
                speedtest_sizes()[i - 2],
                speedtest_counts()[i - 2],
            ),
{
    lemma_every_step_attempted(outcomes);
    assert forall|i: int| 2 <= i < 7 implies has_shape(
        #[trigger] steps[i],
        speedtest_sizes()[i - 2],
        speedtest_counts()[i - 2],
    ) by {
        assert(is_trial(steps[i], speedtest_payload(i - 2), speedtest_counts()[i - 2]));
    }
    assert(!(steps[2] is Ping));
    assert(!(steps[3] is Ping));
    assert(!(steps[4] is Ping));
    assert(!(steps[5] is Ping));
    assert(!(steps[6] is Ping));
    let s6 = steps.drop_last();
    let s5 = s6.drop_last();
    let s4 = s5.drop_last();
    let s3 = s4.drop_last();
    let s2 = s3.drop_last();
    let s1 = s2.drop_last();
    let s0 = s1.drop_last();
    assert(pings_in(s0) == 0);
    assert(s1.last() == steps[0]);
    assert(pings_in(s1) == 1);
    assert(s2.last() == steps[1]);
    assert(pings_in(s2) == 2);
    assert(s3.last() == steps[2]);
    assert(pings_in(s3) == 2);
    assert(s4.last() == steps[3]);
    assert(pings_in(s4) == 2);
    assert(s5.last() == steps[4]);
    assert(pings_in(s5) == 2);
    assert(s6.last() == steps[5]);
    assert(pings_in(s6) == 2);
}

} // verus!
