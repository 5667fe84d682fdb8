//! The consumer client: the batch state machine behind the poll loop.
//!
//! The loop itself performs broker I/O and calls the user's handler, so it
//! lives outside the verified core.  Everything it decides is here: the
//! machine takes an event (a polled batch, a handler outcome, a finished
//! commit, a shutdown signal) and answers with the one action the loop must
//! perform next.  Decode failures are skipped and counted, never fatal to a
//! batch; the offset is committed only after every handler call of the batch
//! succeeded; a fatal handler outcome closes the loop with nothing
//! committed, so the broker redelivers the batch on restart; a shutdown
//! signal lets the in-flight batch finish before closing.
use vstd::prelude::*;

verus! {

use crate::codec::{decode, spec_decode};
use crate::event::{BillingEvent, EventModel};

/// What the user handler reports for one dispatched event.
#[derive(Clone, Copy, PartialEq, Eq, Structural, Debug)]
pub enum HandlerOutcome {
    /// Handled; go on with the batch.
    Success,
    /// Not handled, worth redelivering: the batch is abandoned uncommitted.
    Retryable,
    /// Not handled and hopeless: the loop terminates, nothing committed.
    Fatal,
}

/// Where the consumer stands.
#[derive(Clone, Copy, PartialEq, Eq, Structural, Debug)]
pub enum Phase {
    Polling,
    Dispatching,
    Committing,
    Closed,
}

/// Where a fresh consumer starts reading when the group has no offset yet.
#[derive(Clone, Copy, PartialEq, Eq, Structural, Debug)]
pub enum InitialOffset {
    Earliest,
    Latest,
}

/// What a consumer is connected with: the subscription the loop opens before
/// the machine takes over.
pub struct ConsumerConfig {
    pub topic: String,
    pub group_id: String,
    pub initial_offset: InitialOffset,
    pub max_wait_ms: u64,
}

impl ConsumerConfig {
    /// The stock subscription: the billing topic, the billing group,
    /// earliest-offset fallback, a one-second poll wait.
    pub fn new() -> (r: ConsumerConfig)
        ensures
            r.topic@ == "billing"@,
            r.group_id@ == "billing_group"@,
            r.initial_offset == InitialOffset::Earliest,
            r.max_wait_ms == 1000u64,
    {
        ConsumerConfig {
            topic: "billing".to_owned(),
            group_id: "billing_group".to_owned(),
            initial_offset: InitialOffset::Earliest,
            max_wait_ms: 1000,
        }
    }
}

/// What the poll loop feeds the machine.
pub enum ConsumerEvent {
    /// A batch of raw records came back from the broker.
    Polled(Vec<Vec<u8>>),
    /// The poll timed out with nothing; not an error.
    PolledEmpty,
    /// The handler returned for the event last dispatched.
    Handled(HandlerOutcome),
    /// The offset commit went through.
    Committed,
    /// The process asked to shut down.
    Shutdown,
}

/// What the loop must do next.
pub enum ConsumerAction {
    /// Issue the next poll.
    Poll,
    /// Hand this event to the handler.
    Dispatch(BillingEvent),
    /// Commit the consumed offset.
    Commit,
    /// Keep waiting: a shutdown was noted mid-batch and the batch finishes.
    Wait,
    /// Release the broker resources; the loop is over.
    Close,
}

/// The machine's state, as mathematics.
#[verifier::ext_equal]
pub struct ConsumerModel {
    pub phase: Phase,
    /// Decoded events of the current batch not yet dispatched.
    pub queue: Seq<EventModel>,
    /// Events handed to the handler, in all.
    pub dispatched: nat,
    /// Offsets committed, in all.
    pub commits: nat,
    /// Records skipped because they did not decode, in all.
    pub skipped: nat,
    /// A shutdown signal arrived and the loop stops after this batch.
    pub shutting_down: bool,
}

/// The machine's state.
pub struct Consumer {
    pub phase: Phase,
    pub queue: Vec<BillingEvent>,
    pub dispatched: u64,
    pub commits: u64,
    pub skipped: u64,
    pub shutting_down: bool,
}

impl View for Consumer {
    type V = ConsumerModel;

    open spec fn view(&self) -> ConsumerModel {
        ConsumerModel {
            phase: self.phase,
            queue: self.queue@.map_values(|e: BillingEvent| e@),
            dispatched: self.dispatched as nat,
            commits: self.commits as nat,
            skipped: self.skipped as nat,
            shutting_down: self.shutting_down,
        }
    }
}

/// The events of the machine, as mathematics.
pub enum ConsumerEventModel {
    Polled(Seq<Seq<u8>>),
    PolledEmpty,
    Handled(HandlerOutcome),
    Committed,
    Shutdown,
}

pub open spec fn cev_model(e: &ConsumerEvent) -> ConsumerEventModel {
    match e {
        ConsumerEvent::Polled(rs) => ConsumerEventModel::Polled(rs.deep_view()),
        ConsumerEvent::PolledEmpty => ConsumerEventModel::PolledEmpty,
        ConsumerEvent::Handled(o) => ConsumerEventModel::Handled(*o),
        ConsumerEvent::Committed => ConsumerEventModel::Committed,
        ConsumerEvent::Shutdown => ConsumerEventModel::Shutdown,
    }
}

/// The actions of the machine, as mathematics.
pub enum ConsumerActionModel {
    Poll,
    Dispatch(EventModel),
    Commit,
    Wait,
    Close,
}

pub open spec fn act_model(a: &ConsumerAction) -> ConsumerActionModel {
    match a {
        ConsumerAction::Poll => ConsumerActionModel::Poll,
        ConsumerAction::Dispatch(e) => ConsumerActionModel::Dispatch(e@),
        ConsumerAction::Commit => ConsumerActionModel::Commit,
        ConsumerAction::Wait => ConsumerActionModel::Wait,
        ConsumerAction::Close => ConsumerActionModel::Close,
    }
}

/// The events of a batch that decode, in arrival order.
pub open spec fn decoded_events(rs: Seq<Seq<u8>>) -> Seq<EventModel>
    decreases rs.len(),
{
    if rs.len() == 0 {
        Seq::empty()
    } else {
        (match spec_decode(rs[0]) {
            Ok(m) => seq![m],
            Err(_) => Seq::empty(),
        }) + decoded_events(rs.drop_first())
    }
}

/// How many records of a batch fail to decode.
pub open spec fn failed_count(rs: Seq<Seq<u8>>) -> nat
    decreases rs.len(),
{
    if rs.len() == 0 {
        0
    } else {
        (match spec_decode(rs[0]) {
            Ok(_) => 0nat,
            Err(_) => 1nat,
        }) + failed_count(rs.drop_first())
    }
}

/// The transition relation: from a state and an event to the next state and
/// the action the loop performs.  An event that cannot occur in the current
/// phase closes the machine.
pub open spec fn spec_step(s: ConsumerModel, e: ConsumerEventModel) -> (
    ConsumerModel,
    ConsumerActionModel,
) {
    let closed = ConsumerModel { phase: Phase::Closed, queue: Seq::empty(), ..s };
    match s.phase {
        Phase::Polling => match e {
            ConsumerEventModel::Polled(rs) => {
                let q = decoded_events(rs);
                let sk = s.skipped + failed_count(rs);
                if q.len() == 0 {
                    (
                        ConsumerModel {
                            phase: Phase::Committing,
                            queue: Seq::empty(),
                            skipped: sk,
                            ..s
                        },
                        ConsumerActionModel::Commit,
                    )
                } else {
                    (
                        ConsumerModel {
                            phase: Phase::Dispatching,
                            queue: q.drop_first(),
                            dispatched: s.dispatched + 1,
                            skipped: sk,
                            ..s
                        },
                        ConsumerActionModel::Dispatch(q[0]),
                    )
                }
            },
            ConsumerEventModel::PolledEmpty => (s, ConsumerActionModel::Poll),
            ConsumerEventModel::Shutdown => (closed, ConsumerActionModel::Close),
            _ => (closed, ConsumerActionModel::Close),
        },
        Phase::Dispatching => match e {
            ConsumerEventModel::Handled(HandlerOutcome::Success) => {
                if s.queue.len() == 0 {
                    (
                        ConsumerModel { phase: Phase::Committing, ..s },
                        ConsumerActionModel::Commit,
                    )
                } else {
                    (
                        ConsumerModel {
                            queue: s.queue.drop_first(),
                            dispatched: s.dispatched + 1,
                            ..s
                        },
                        ConsumerActionModel::Dispatch(s.queue[0]),
                    )
                }
            },
            ConsumerEventModel::Handled(HandlerOutcome::Retryable) => (
                ConsumerModel { phase: Phase::Polling, queue: Seq::empty(), ..s },
                if s.shutting_down {
                    ConsumerActionModel::Close
                } else {
                    ConsumerActionModel::Poll
                },
            ),
            ConsumerEventModel::Handled(HandlerOutcome::Fatal) => (
                closed,
                ConsumerActionModel::Close,
            ),
            ConsumerEventModel::Shutdown => (
                ConsumerModel { shutting_down: true, ..s },
                ConsumerActionModel::Wait,
            ),
            _ => (closed, ConsumerActionModel::Close),
        },
        Phase::Committing => match e {
            ConsumerEventModel::Committed => {
                let s2 = ConsumerModel { commits: s.commits + 1, ..s };
                if s.shutting_down {
                    (
                        ConsumerModel { phase: Phase::Closed, ..s2 },
                        ConsumerActionModel::Close,
                    )
                } else {
                    (ConsumerModel { phase: Phase::Polling, ..s2 }, ConsumerActionModel::Poll)
                }
            },
            ConsumerEventModel::Shutdown => (
                ConsumerModel { shutting_down: true, ..s },
                ConsumerActionModel::Wait,
            ),
            _ => (closed, ConsumerActionModel::Close),
        },
        Phase::Closed => (closed, ConsumerActionModel::Close),
    }
}

/// Retryable handler failures abandon the batch to redelivery: on the
/// Retryable transition above, the queue is dropped and nothing is
/// committed, so the broker serves the batch again.
impl Consumer {
    /// A consumer ready to poll.  Connecting and subscribing are the loop's
    /// I/O; the machine starts where the steady state begins.
    pub fn new() -> (r: Consumer)
        ensures
            r@ == (ConsumerModel {
                phase: Phase::Polling,
                queue: Seq::<EventModel>::empty(),
                dispatched: 0nat,
                commits: 0nat,
                skipped: 0nat,
                shutting_down: false,
            }),
    {
        let r = Consumer {
            phase: Phase::Polling,
            queue: Vec::new(),
            dispatched: 0,
            commits: 0,
            skipped: 0,
            shutting_down: false,
        };
        proof {
            assert(r@ =~= ConsumerModel {
                phase: Phase::Polling,
                queue: Seq::<EventModel>::empty(),
                dispatched: 0nat,
                commits: 0nat,
                skipped: 0nat,
                shutting_down: false,
            });
        }
        r
    }

    /// Decodes a whole batch: the events that decode, in arrival order, and
    /// how many records were skipped.
    fn decode_batch(records: &Vec<Vec<u8>>) -> (r: (Vec<BillingEvent>, u64))
        requires
            records@.len() <= 0xffff_ffff,
        ensures
            r.0@.map_values(|e: BillingEvent| e@) == decoded_events(records.deep_view()),
            r.1 as nat == failed_count(records.deep_view()),
            r.1 <= records@.len(),
    {
        let mut events: Vec<BillingEvent> = Vec::new();
        let mut skipped: u64 = 0;
        let mut i: usize = 0;
        let ghost rs = records.deep_view();
        proof {
            assert(rs.skip(0) =~= rs);
        }
        while i < records.len()
            invariant
                i <= records@.len() <= 0xffff_ffff,
                rs == records.deep_view(),
                rs.len() == records@.len(),
                forall|k: int| 0 <= k < rs.len() ==> rs[k] == #[trigger] records@[k]@,
                skipped <= i,
                events@.map_values(|e: BillingEvent| e@) + decoded_events(rs.skip(i as int))
                    == decoded_events(rs),
                skipped as nat + failed_count(rs.skip(i as int)) == failed_count(rs),
            decreases records@.len() - i,
        {
            let ghost pre = events@.map_values(|e: BillingEvent| e@);
            proof {
                assert(rs.skip(i as int).drop_first() =~= rs.skip(i as int + 1));
                assert(rs.skip(i as int)[0] == rs[i as int]);
            }
            match decode(&records[i]) {
                Ok(e) => {
                    events.push(e);
                    proof {
                        assert(events@.map_values(|e: BillingEvent| e@) =~= pre.push(
                            events@.last()@,
                        ));
                        assert(pre.push(events@.last()@) + decoded_events(rs.skip(i as int + 1))
                            =~= pre + decoded_events(rs.skip(i as int)));
                    }
                },
                Err(_) => {
                    skipped = skipped + 1;
                },
            }
            i = i + 1;
        }
        proof {
            assert(rs.skip(rs.len() as int) =~= Seq::<Seq<u8>>::empty());
        }
        (events, skipped)
    }

    /// One step of the machine: the exact executable mirror of `spec_step`.
    pub fn step(&mut self, e: ConsumerEvent) -> (r: ConsumerAction)
        requires
            old(self).dispatched < 0xffff_0000_0000_0000u64,
            old(self).commits < 0xffff_0000_0000_0000u64,
            old(self).skipped < 0xffff_0000_0000_0000u64,
            (e matches ConsumerEvent::Polled(rs) ==> rs@.len() <= 0xffff_ffff),
        ensures
            final(self)@ == spec_step(old(self)@, cev_model(&e)).0,
            act_model(&r) == spec_step(old(self)@, cev_model(&e)).1,
    {
        match self.phase {
            Phase::Polling => match e {
                ConsumerEvent::Polled(rs) => {
                    let (events, skipped) = Self::decode_batch(&rs);
                    self.skipped = self.skipped + skipped;
                    if events.len() == 0 {
                        self.phase = Phase::Committing;
                        self.queue = Vec::new();
                        proof {
                            assert(decoded_events(rs.deep_view()).len() == 0);
                            assert(self@.queue =~= Seq::<EventModel>::empty());
                        }
                        ConsumerAction::Commit
                    } else {
                        self.phase = Phase::Dispatching;
                        let mut q = events;
                        let first = q.remove(0);
                        self.queue = q;
                        self.dispatched = self.dispatched + 1;
                        proof {
                            let dq = decoded_events(rs.deep_view());
                            assert(self.queue@.map_values(|ev: BillingEvent| ev@)
                                =~= dq.drop_first());
                            assert(first@ == dq[0]);
                        }
                        ConsumerAction::Dispatch(first)
                    }
                },
                ConsumerEvent::PolledEmpty => ConsumerAction::Poll,
                _ => {
                    self.phase = Phase::Closed;
                    self.queue = Vec::new();
                    proof {
                        assert(self@.queue =~= Seq::<EventModel>::empty());
                    }
                    ConsumerAction::Close
                },
            },
            Phase::Dispatching => match e {
                ConsumerEvent::Handled(HandlerOutcome::Success) => {
                    if self.queue.len() == 0 {
                        self.phase = Phase::Committing;
                        ConsumerAction::Commit
                    } else {
                        let next = self.queue.remove(0);
                        self.dispatched = self.dispatched + 1;
                        proof {
                            assert(self.queue@.map_values(|ev: BillingEvent| ev@) =~= old(
                                self,
                            )@.queue.drop_first());
                        }
                        ConsumerAction::Dispatch(next)
                    }
                },
                ConsumerEvent::Handled(HandlerOutcome::Retryable) => {
                    self.phase = Phase::Polling;
                    self.queue = Vec::new();
                    proof {
                        assert(self@.queue =~= Seq::<EventModel>::empty());
                    }
                    if self.shutting_down {
                        ConsumerAction::Close
                    } else {
                        ConsumerAction::Poll
                    }
                },
                ConsumerEvent::Handled(HandlerOutcome::Fatal) => {
                    self.phase = Phase::Closed;
                    self.queue = Vec::new();
                    proof {
                        assert(self@.queue =~= Seq::<EventModel>::empty());
                    }
                    ConsumerAction::Close
                },
                ConsumerEvent::Shutdown => {
                    self.shutting_down = true;
                    ConsumerAction::Wait
                },
                _ => {
                    self.phase = Phase::Closed;
                    self.queue = Vec::new();
                    proof {
                        assert(self@.queue =~= Seq::<EventModel>::empty());
                    }
                    ConsumerAction::Close
                },
            },
            Phase::Committing => match e {
                ConsumerEvent::Committed => {
                    self.commits = self.commits + 1;
                    if self.shutting_down {
                        self.phase = Phase::Closed;
                        ConsumerAction::Close
                    } else {
                        self.phase = Phase::Polling;
                        ConsumerAction::Poll
                    }
                },
                ConsumerEvent::Shutdown => {
                    self.shutting_down = true;
                    ConsumerAction::Wait
                },
                _ => {
                    self.phase = Phase::Closed;
                    self.queue = Vec::new();
                    proof {
                        assert(self@.queue =~= Seq::<EventModel>::empty());
                    }
                    ConsumerAction::Close
                },
            },
            Phase::Closed => {
                self.phase = Phase::Closed;
                self.queue = Vec::new();
                proof {
                    assert(self@.queue =~= Seq::<EventModel>::empty());
                }
                ConsumerAction::Close
            },
        }
    }
}

// ---------------------------------------------------------------------------
// Laws of the batch cycle
// ---------------------------------------------------------------------------

/// The state after feeding `n` successful handler outcomes.
pub open spec fn drain(s: ConsumerModel, n: nat) -> ConsumerModel
    decreases n,
{
    if n == 0 {
        s
    } else {
        drain(spec_step(s, ConsumerEventModel::Handled(HandlerOutcome::Success)).0, (n - 1) as nat)
    }
}

/// The state after one whole batch cycle: the batch is polled, every decoded
/// event is dispatched and succeeds, and the offset commit returns.
pub open spec fn run_batch(s: ConsumerModel, rs: Seq<Seq<u8>>) -> ConsumerModel {
    let s1 = spec_step(s, ConsumerEventModel::Polled(rs)).0;
    let d = decoded_events(rs).len();
    let s2 = if d == 0 {
        s1
    } else {
        drain(s1, d)
    };
    spec_step(s2, ConsumerEventModel::Committed).0
}

proof fn lemma_drain_dispatches(s: ConsumerModel)
    requires
        s.phase == Phase::Dispatching,
    ensures
        drain(s, s.queue.len() + 1) == (ConsumerModel {
            phase: Phase::Committing,
            queue: Seq::<EventModel>::empty(),
            dispatched: s.dispatched + s.queue.len(),
            ..s
        }),
    decreases s.queue.len(),
{
    if s.queue.len() == 0 {
        let s2 = spec_step(s, ConsumerEventModel::Handled(HandlerOutcome::Success)).0;
        assert(drain(s2, 0) == s2);
        assert(drain(s, 1) == ConsumerModel { phase: Phase::Committing, ..s });
        assert(ConsumerModel { phase: Phase::Committing, ..s } =~= ConsumerModel {
            phase: Phase::Committing,
            queue: Seq::<EventModel>::empty(),
            dispatched: s.dispatched + s.queue.len(),
            ..s
        });
    } else {
        let s2 = spec_step(s, ConsumerEventModel::Handled(HandlerOutcome::Success)).0;
        lemma_drain_dispatches(s2);
        assert(drain(s, s.queue.len() + 1) == drain(s2, s2.queue.len() + 1));
        assert(drain(s2, s2.queue.len() + 1) =~= ConsumerModel {
            phase: Phase::Committing,
            queue: Seq::<EventModel>::empty(),
            dispatched: s.dispatched + s.queue.len(),
            ..s
        });
    }
}

/// Law: in a batch whose decoded events all succeed, the handler is called
/// exactly once per record that decodes, every record that does not decode
/// is skipped and counted, and the offset is committed exactly once —
/// whatever mix of good and bad records the batch holds.
pub proof fn lemma_batch_cycle(s: ConsumerModel, rs: Seq<Seq<u8>>)
    requires
        s.phase == Phase::Polling,
        !s.shutting_down,
    ensures
        run_batch(s, rs) == (ConsumerModel {
            phase: Phase::Polling,
            queue: Seq::<EventModel>::empty(),
            dispatched: s.dispatched + decoded_events(rs).len(),
            commits: s.commits + 1,
            skipped: s.skipped + failed_count(rs),
            shutting_down: false,
        }),
{
    let q = decoded_events(rs);
    let s1 = spec_step(s, ConsumerEventModel::Polled(rs)).0;
    if q.len() == 0 {
        assert(run_batch(s, rs) =~= ConsumerModel {
            phase: Phase::Polling,
            queue: Seq::<EventModel>::empty(),
            dispatched: s.dispatched + q.len(),
            commits: s.commits + 1,
            skipped: s.skipped + failed_count(rs),
            shutting_down: false,
        });
    } else {
        lemma_drain_dispatches(s1);
        assert(s1.queue.len() + 1 == q.len());
        assert(run_batch(s, rs) =~= ConsumerModel {
            phase: Phase::Polling,
            queue: Seq::<EventModel>::empty(),
            dispatched: s.dispatched + q.len(),
            commits: s.commits + 1,
            skipped: s.skipped + failed_count(rs),
            shutting_down: false,
        });
    }
}

/// Law: when exactly one record of the batch fails to decode, exactly
/// `N - 1` events are dispatched and the offset is still committed once.
pub proof fn lemma_isolated_decode_failure(s: ConsumerModel, rs: Seq<Seq<u8>>, k: int)
    requires
        s.phase == Phase::Polling,
        !s.shutting_down,
        0 <= k < rs.len(),
        spec_decode(rs[k]) is Err,
        forall|j: int| 0 <= j < rs.len() && j != k ==> spec_decode(#[trigger] rs[j]) is Ok,
    ensures
        run_batch(s, rs).dispatched == s.dispatched + rs.len() - 1,
        run_batch(s, rs).commits == s.commits + 1,
        run_batch(s, rs).skipped == s.skipped + 1,
{
    lemma_one_failure_counts(rs, k);
    lemma_batch_cycle(s, rs);
}

proof fn lemma_all_ok_counts(rs: Seq<Seq<u8>>)
    requires
        forall|j: int| 0 <= j < rs.len() ==> spec_decode(#[trigger] rs[j]) is Ok,
    ensures
        decoded_events(rs).len() == rs.len(),
        failed_count(rs) == 0,
    decreases rs.len(),
{
    if rs.len() > 0 {
        assert(forall|j: int|
            0 <= j < rs.drop_first().len() ==> #[trigger] rs.drop_first()[j] == rs[j + 1]);
        lemma_all_ok_counts(rs.drop_first());
    }
}

proof fn lemma_one_failure_counts(rs: Seq<Seq<u8>>, k: int)
    requires
        0 <= k < rs.len(),
        spec_decode(rs[k]) is Err,
        forall|j: int| 0 <= j < rs.len() && j != k ==> spec_decode(#[trigger] rs[j]) is Ok,
    ensures
        decoded_events(rs).len() == rs.len() - 1,
        failed_count(rs) == 1,
    decreases rs.len(),
{
    assert(forall|j: int|
        0 <= j < rs.drop_first().len() ==> #[trigger] rs.drop_first()[j] == rs[j + 1]);
    if k == 0 {
        lemma_all_ok_counts(rs.drop_first());
    } else {
        lemma_one_failure_counts(rs.drop_first(), k - 1);
    }
}

/// Law: a fatal handler outcome terminates the loop with the offset not
/// committed; the undelivered records stay with the broker for redelivery.
pub proof fn lemma_fatal_uncommitted(s: ConsumerModel)
    requires
        s.phase == Phase::Dispatching,
    ensures
        spec_step(s, ConsumerEventModel::Handled(HandlerOutcome::Fatal)).0.phase == Phase::Closed,
        spec_step(s, ConsumerEventModel::Handled(HandlerOutcome::Fatal)).0.commits == s.commits,
        spec_step(s, ConsumerEventModel::Handled(HandlerOutcome::Fatal)).1
            == ConsumerActionModel::Close,
{
}

} // verus!
