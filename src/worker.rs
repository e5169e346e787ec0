use vstd::prelude::*;
use crate::message::WorkerMessage;

verus! {

/// Most delivery attempts made for one message.
pub const MAX_RETRIES: u32 = 10;

/// Pause between two attempts at the same message, in milliseconds.
pub const BACKOFF_MILLIS: u64 = 100;

/// Where the delivery worker stands.
#[derive(Clone, Copy, Debug, PartialEq, Eq, Structural)]
pub enum Phase {
    /// Waiting for the next item of the queue.
    Idle,
    /// An attempt at the current message is due.
    Sending,
    /// Pausing before the next attempt at the current message.
    Backoff,
    /// The end-of-stream marker was seen; nothing more is done.
    Stopped,
}

/// What the loop around the worker reports to it.
#[derive(Clone, Copy, Debug, PartialEq, Eq, Structural)]
pub enum WorkerEvent {
    /// A message was taken from the queue.
    Received,
    /// The end-of-stream marker was taken from the queue.
    ShutdownSignal,
    /// The queue was closed: no producer is left.
    Closed,
    /// The attempt reached the endpoint (any response counts).
    Sent,
    /// The attempt failed at the transport level.
    Failed,
    /// The pause is over.
    Woke,
}

/// What the loop around the worker should do next.
#[derive(Clone, Copy, Debug, PartialEq, Eq, Structural)]
pub enum Action {
    /// Wait for the next item of the queue.
    Receive,
    /// Send the current message once.
    Post,
    /// Pause for the given number of milliseconds.
    Sleep(u64),
    /// End the worker.
    Stop,
}

/// What an event settled.
#[derive(Clone, Copy, Debug, PartialEq, Eq, Structural)]
pub enum Outcome {
    /// No message was settled.
    Nothing,
    /// The current message reached the endpoint.
    Delivered,
    /// The attempt failed; another one follows after a pause.
    Retrying,
    /// The last allowed attempt failed; the message is given up.
    Dropped,
}

/// The delivery worker's state. It handles one message at a time, in the
/// order the queue hands them out.
pub struct WorkerState {
    pub phase: Phase,
    /// Attempts made at the current message so far, this one included.
    pub attempts: u32,
    /// Messages taken from the queue so far.
    pub taken: Ghost<nat>,
    /// Messages delivered or given up so far.
    pub finished: Ghost<nat>,
}

impl WorkerState {
    pub open spec fn wf(&self) -> bool {
        match self.phase {
            Phase::Idle | Phase::Stopped => self.attempts == 0 && self.finished@ == self.taken@,
            Phase::Sending => 1 <= self.attempts <= MAX_RETRIES && self.finished@ + 1
                == self.taken@,
            Phase::Backoff => 1 <= self.attempts < MAX_RETRIES && self.finished@ + 1
                == self.taken@,
        }
    }
}

pub open spec fn with_phase(s: WorkerState, phase: Phase, attempts: u32) -> WorkerState {
    WorkerState { phase, attempts, taken: s.taken, finished: s.finished }
}

/// The state after an event, and what the event settled. An event that does
/// not fit the phase changes nothing.
pub open spec fn step(s: WorkerState, e: WorkerEvent) -> (WorkerState, Outcome) {
    match s.phase {
        Phase::Idle => match e {
            WorkerEvent::Received => (
                WorkerState {
                    phase: Phase::Sending,
                    attempts: 1,
                    taken: Ghost(s.taken@ + 1),
                    finished: s.finished,
                },
                Outcome::Nothing,
            ),
            WorkerEvent::ShutdownSignal | WorkerEvent::Closed => (
                with_phase(s, Phase::Stopped, 0),
                Outcome::Nothing,
            ),
            _ => (s, Outcome::Nothing),
        },
        Phase::Sending => match e {
            WorkerEvent::Sent => (
                WorkerState {
                    phase: Phase::Idle,
                    attempts: 0,
                    taken: s.taken,
                    finished: Ghost(s.finished@ + 1),
                },
                Outcome::Delivered,
            ),
            WorkerEvent::Failed => if s.attempts < MAX_RETRIES {
                (with_phase(s, Phase::Backoff, s.attempts), Outcome::Retrying)
            } else {
                (
                    WorkerState {
                        phase: Phase::Idle,
                        attempts: 0,
                        taken: s.taken,
                        finished: Ghost(s.finished@ + 1),
                    },
                    Outcome::Dropped,
                )
            },
            _ => (s, Outcome::Nothing),
        },
        Phase::Backoff => match e {
            WorkerEvent::Woke => if s.attempts < MAX_RETRIES {
                (with_phase(s, Phase::Sending, (s.attempts + 1) as u32), Outcome::Nothing)
            } else {
                (s, Outcome::Nothing)
            },
            _ => (s, Outcome::Nothing),
        },
        Phase::Stopped => (s, Outcome::Nothing),
    }
}

/// What the loop should do in a state.
pub open spec fn action_of(s: WorkerState) -> Action {
    match s.phase {
        Phase::Idle => Action::Receive,
        Phase::Sending => Action::Post,
        Phase::Backoff => Action::Sleep(BACKOFF_MILLIS),
        Phase::Stopped => Action::Stop,
    }
}

impl WorkerState {
    /// A worker waiting for its first message.
    pub fn new() -> (r: Self)
        ensures
            r.wf(),
            r.phase == Phase::Idle,
            r.taken@ == 0,
            r.finished@ == 0,
    {
        WorkerState { phase: Phase::Idle, attempts: 0, taken: Ghost(0), finished: Ghost(0) }
    }

    /// What the loop should do next.
    pub fn next_action(&self) -> (r: Action)
        ensures
            r == action_of(*self),
    {
        match self.phase {
            Phase::Idle => Action::Receive,
            Phase::Sending => Action::Post,
            Phase::Backoff => Action::Sleep(BACKOFF_MILLIS),
            Phase::Stopped => Action::Stop,
        }
    }

    /// Takes an event into account and says what it settled.
    pub fn handle(&mut self, e: WorkerEvent) -> (r: Outcome)
        requires
            old(self).wf(),
        ensures
            final(self).wf(),
            (*final(self), r) == step(*old(self), e),
    {
        match self.phase {
            Phase::Idle => match e {
                WorkerEvent::Received => {
                    self.phase = Phase::Sending;
                    self.attempts = 1;
                    self.taken = Ghost(self.taken@ + 1);
                    Outcome::Nothing
                },
                WorkerEvent::ShutdownSignal | WorkerEvent::Closed => {
                    self.phase = Phase::Stopped;
                    Outcome::Nothing
                },
                _ => Outcome::Nothing,
            },
            Phase::Sending => match e {
                WorkerEvent::Sent => {
                    self.phase = Phase::Idle;
                    self.attempts = 0;
                    self.finished = Ghost(self.finished@ + 1);
                    Outcome::Delivered
                },
                WorkerEvent::Failed => {
                    if self.attempts < MAX_RETRIES {
                        self.phase = Phase::Backoff;
                        Outcome::Retrying
                    } else {
                        self.phase = Phase::Idle;
                        self.attempts = 0;
                        self.finished = Ghost(self.finished@ + 1);
                        Outcome::Dropped
                    }
                },
                _ => Outcome::Nothing,
            },
            Phase::Backoff => match e {
                WorkerEvent::Woke => {
                    self.phase = Phase::Sending;
                    self.attempts = self.attempts + 1;
                    Outcome::Nothing
                },
                _ => Outcome::Nothing,
            },
            Phase::Stopped => Outcome::Nothing,
        }
    }
}


/// The event that taking `item` from the queue reports.
pub fn event_for(item: &WorkerMessage) -> (r: WorkerEvent)
    ensures
        r == match item {
            WorkerMessage::Data(_) => WorkerEvent::Received,
            WorkerMessage::Shutdown => WorkerEvent::ShutdownSignal,
        },
{
    match item {
        WorkerMessage::Data(_) => WorkerEvent::Received,
        WorkerMessage::Shutdown => WorkerEvent::ShutdownSignal,
    }
}

/// The state after a sequence of events.
pub open spec fn run(s: WorkerState, evs: Seq<WorkerEvent>) -> WorkerState
    decreases evs.len(),
{
    if evs.len() == 0 {
        s
    } else {
        run(step(s, evs[0]).0, evs.drop_first())
    }
}

/// Whether handling `e` in state `s` reports the result of one attempt.
pub open spec fn is_attempt(s: WorkerState, e: WorkerEvent) -> bool {
    s.phase == Phase::Sending && (e == WorkerEvent::Sent || e == WorkerEvent::Failed)
}

/// Number of delivery attempts along a sequence of events.
pub open spec fn attempts_in(s: WorkerState, evs: Seq<WorkerEvent>) -> nat
    decreases evs.len(),
{
    if evs.len() == 0 {
        0
    } else {
        (if is_attempt(s, evs[0]) {
            1nat
        } else {
            0nat
        }) + attempts_in(step(s, evs[0]).0, evs.drop_first())
    }
}

/// `k` failed attempts, each followed by the end of its pause.
pub open spec fn failing(k: nat) -> Seq<WorkerEvent>
    decreases k,
{
    if k == 0 {
        Seq::empty()
    } else {
        seq![WorkerEvent::Failed, WorkerEvent::Woke] + failing((k - 1) as nat)
    }
}

/// Every event keeps the state well formed.
pub proof fn lemma_step_wf(s: WorkerState, e: WorkerEvent)
    requires
        s.wf(),
    ensures
        step(s, e).0.wf(),
{
}

/// A run from a well-formed state stays well formed.
pub proof fn lemma_run_wf(s: WorkerState, evs: Seq<WorkerEvent>)
    requires
        s.wf(),
    ensures
        run(s, evs).wf(),
    decreases evs.len(),
{
    if evs.len() > 0 {
        lemma_run_wf(step(s, evs[0]).0, evs.drop_first());
    }
}

proof fn lemma_failing_run(s: WorkerState, k: nat)
    requires
        s.wf(),
        s.phase == Phase::Sending,
        s.attempts + k <= MAX_RETRIES,
    ensures
        run(s, failing(k)) == with_phase(s, Phase::Sending, (s.attempts + k) as u32),
        attempts_in(s, failing(k)) == k,
    decreases k,
{
    if k == 0 {
        assert(failing(0) =~= Seq::<WorkerEvent>::empty());
        assert(with_phase(s, Phase::Sending, s.attempts) == s);
    } else {
        let evs = failing(k);
        let rest = failing((k - 1) as nat);
        assert(evs[0] == WorkerEvent::Failed);
        assert(evs.drop_first() =~= seq![WorkerEvent::Woke] + rest);
        let b = step(s, WorkerEvent::Failed).0;
        assert(b == with_phase(s, Phase::Backoff, s.attempts));
        let evs2 = seq![WorkerEvent::Woke] + rest;
        assert(evs2[0] == WorkerEvent::Woke);
        assert(evs2.drop_first() =~= rest);
        let c = step(b, WorkerEvent::Woke).0;
        assert(c == with_phase(s, Phase::Sending, (s.attempts + 1) as u32));
        lemma_failing_run(c, (k - 1) as nat);
        assert(!is_attempt(b, WorkerEvent::Woke));
        assert(is_attempt(s, WorkerEvent::Failed));
        assert(run(s, evs) == run(b, evs2));
        assert(run(b, evs2) == run(c, rest));
        assert(attempts_in(s, evs) == 1 + attempts_in(b, evs2));
        assert(attempts_in(b, evs2) == attempts_in(c, rest));
    }
}

/// Against an endpoint that always fails, a message taken from the queue is
/// attempted exactly `MAX_RETRIES` times, with a pause of `BACKOFF_MILLIS`
/// after each failure but the last, and is then given up; the worker goes
/// back to waiting for the next item.
pub proof fn lemma_retry_bound(s: WorkerState)
    requires
        s.wf(),
        s.phase == Phase::Idle,
    ensures
        ({
            let evs = seq![WorkerEvent::Received] + failing((MAX_RETRIES - 1) as nat);
            let last = run(s, evs);
            &&& last.phase == Phase::Sending
            &&& last.attempts == MAX_RETRIES
            &&& attempts_in(s, evs) == MAX_RETRIES - 1
            &&& is_attempt(last, WorkerEvent::Failed)
            &&& step(last, WorkerEvent::Failed).1 == Outcome::Dropped
            &&& step(last, WorkerEvent::Failed).0.phase == Phase::Idle
            &&& step(last, WorkerEvent::Failed).0.finished@ == s.finished@ + 1
        }),
        forall|t: WorkerState|
            t.wf() && t.phase == Phase::Sending && t.attempts < MAX_RETRIES ==> step(
                t,
                WorkerEvent::Failed,
            ).1 == Outcome::Retrying && action_of(step(t, WorkerEvent::Failed).0) == Action::Sleep(
                BACKOFF_MILLIS,
            ),
{
    let evs = seq![WorkerEvent::Received] + failing((MAX_RETRIES - 1) as nat);
    assert(evs[0] == WorkerEvent::Received);
    assert(evs.drop_first() =~= failing((MAX_RETRIES - 1) as nat));
    let a = step(s, WorkerEvent::Received).0;
    lemma_failing_run(a, (MAX_RETRIES - 1) as nat);
}

/// The worker takes a new message only once every message it took before is
/// settled, and never goes back to an earlier one; with a first-in first-out
/// queue, attempts therefore follow the order in which messages were queued.
pub proof fn lemma_one_message_at_a_time(s: WorkerState, e: WorkerEvent)
    requires
        s.wf(),
    ensures
        step(s, e).0.taken@ == s.taken@ || step(s, e).0.taken@ == s.taken@ + 1,
        step(s, e).0.taken@ == s.taken@ + 1 ==> s.phase == Phase::Idle && s.finished@ == s.taken@,
        is_attempt(s, e) ==> s.finished@ + 1 == s.taken@,
{
}

/// Along any run, the counts of messages taken and settled never go down:
/// the message attempted later is never one taken before the message
/// attempted earlier.
pub proof fn lemma_attempt_order(s: WorkerState, evs: Seq<WorkerEvent>)
    requires
        s.wf(),
    ensures
        run(s, evs).taken@ >= s.taken@,
        run(s, evs).finished@ >= s.finished@,
    decreases evs.len(),
{
    if evs.len() > 0 {
        lemma_attempt_order(step(s, evs[0]).0, evs.drop_first());
    }
}

/// The worker stops only while no message is in flight, on the end-of-stream
/// marker or a closed queue; once it has stopped, every message it took was
/// attempted and settled, and it stays stopped.
pub proof fn lemma_drain_before_stop(s: WorkerState, evs: Seq<WorkerEvent>)
    requires
        s.wf(),
    ensures
        run(s, evs).phase == Phase::Stopped ==> run(s, evs).finished@ == run(s, evs).taken@,
        forall|e: WorkerEvent|
            s.phase != Phase::Stopped && #[trigger] step(s, e).0.phase == Phase::Stopped ==> s.phase
                == Phase::Idle && (e == WorkerEvent::ShutdownSignal || e == WorkerEvent::Closed),
        s.phase == Phase::Stopped ==> run(s, evs) == s,
    decreases evs.len(),
{
    lemma_run_wf(s, evs);
    if evs.len() > 0 {
        lemma_drain_before_stop(step(s, evs[0]).0, evs.drop_first());
    }
}


proof fn lemma_run_concat(s: WorkerState, a: Seq<WorkerEvent>, b: Seq<WorkerEvent>)
    ensures
        run(s, a + b) == run(run(s, a), b),
        attempts_in(s, a + b) == attempts_in(s, a) + attempts_in(run(s, a), b),
    decreases a.len(),
{
    if a.len() == 0 {
        assert(a + b =~= b);
    } else {
        assert((a + b)[0] == a[0]);
        assert((a + b).drop_first() =~= a.drop_first() + b);
        lemma_run_concat(step(s, a[0]).0, a.drop_first(), b);
    }
}

/// The events of one message: taken, `k` failed attempts each followed by a
/// pause, then a last attempt that succeeds (`ok`) or fails.
pub open spec fn message_events(k: nat, ok: bool) -> Seq<WorkerEvent> {
    seq![WorkerEvent::Received] + failing(k) + seq![
        if ok {
            WorkerEvent::Sent
        } else {
            WorkerEvent::Failed
        },
    ]
}

/// A message settles after its events when it succeeds within the allowed
/// attempts, or fails all of them.
pub open spec fn settles(k: nat, ok: bool) -> bool {
    if ok {
        k < MAX_RETRIES
    } else {
        k == MAX_RETRIES - 1
    }
}

/// The events of a queue of messages, one after the other.
pub open spec fn queue_events(msgs: Seq<(nat, bool)>) -> Seq<WorkerEvent>
    decreases msgs.len(),
{
    if msgs.len() == 0 {
        Seq::empty()
    } else {
        queue_events(msgs.drop_last()) + message_events(msgs.last().0, msgs.last().1)
    }
}

/// Total attempts that a queue of messages takes.
pub open spec fn total_attempts(msgs: Seq<(nat, bool)>) -> nat
    decreases msgs.len(),
{
    if msgs.len() == 0 {
        0
    } else {
        total_attempts(msgs.drop_last()) + msgs.last().0 + 1
    }
}

proof fn lemma_one_message(s: WorkerState, k: nat, ok: bool)
    requires
        s.wf(),
        s.phase == Phase::Idle,
        settles(k, ok),
    ensures
        run(s, message_events(k, ok)).phase == Phase::Idle,
        run(s, message_events(k, ok)).taken@ == s.taken@ + 1,
        run(s, message_events(k, ok)).finished@ == s.finished@ + 1,
        attempts_in(s, message_events(k, ok)) == k + 1,
{
    let last = seq![
        if ok {
            WorkerEvent::Sent
        } else {
            WorkerEvent::Failed
        },
    ];
    let head = seq![WorkerEvent::Received];
    lemma_run_concat(s, head + failing(k), last);
    lemma_run_concat(s, head, failing(k));
    let a = step(s, WorkerEvent::Received).0;
    assert(head.drop_first() =~= Seq::<WorkerEvent>::empty());
    assert(head[0] == WorkerEvent::Received);
    assert(run(a, head.drop_first()) == a);
    assert(attempts_in(a, head.drop_first()) == 0);
    assert(run(s, head) == a);
    assert(attempts_in(s, head) == 0);
    lemma_failing_run(a, k);
    let b = run(a, failing(k));
    assert(last.drop_first() =~= Seq::<WorkerEvent>::empty());
    assert(run(step(b, last[0]).0, last.drop_first()) == step(b, last[0]).0);
    assert(attempts_in(step(b, last[0]).0, last.drop_first()) == 0);
    assert(run(b, last) == step(b, last[0]).0);
    assert(attempts_in(b, last) == 1);
}

/// Draining: when `N` messages are queued before the end-of-stream marker,
/// and each of them is delivered within the allowed attempts or fails all of
/// them, the worker takes and settles all `N`, making every attempt they
/// call for, before it stops.
pub proof fn lemma_drain_queue(s: WorkerState, msgs: Seq<(nat, bool)>)
    requires
        s.wf(),
        s.phase == Phase::Idle,
        forall|i: int| 0 <= i < msgs.len() ==> settles(#[trigger] msgs[i].0, msgs[i].1),
    ensures
        ({
            let evs = queue_events(msgs) + seq![WorkerEvent::ShutdownSignal];
            &&& run(s, evs).phase == Phase::Stopped
            &&& run(s, evs).taken@ == s.taken@ + msgs.len()
            &&& run(s, evs).finished@ == run(s, evs).taken@
            &&& attempts_in(s, evs) == total_attempts(msgs)
        }),
    decreases msgs.len(),
{
    let stop = seq![WorkerEvent::ShutdownSignal];
    lemma_run_concat(s, queue_events(msgs), stop);
    lemma_queue_run(s, msgs);
    let t = run(s, queue_events(msgs));
    assert(stop.drop_first() =~= Seq::<WorkerEvent>::empty());
    assert(stop[0] == WorkerEvent::ShutdownSignal);
    assert(run(step(t, stop[0]).0, stop.drop_first()) == step(t, stop[0]).0);
    assert(attempts_in(step(t, stop[0]).0, stop.drop_first()) == 0);
    assert(run(t, stop) == step(t, WorkerEvent::ShutdownSignal).0);
    assert(attempts_in(t, stop) == 0);
}

proof fn lemma_queue_run(s: WorkerState, msgs: Seq<(nat, bool)>)
    requires
        s.wf(),
        s.phase == Phase::Idle,
        forall|i: int| 0 <= i < msgs.len() ==> settles(#[trigger] msgs[i].0, msgs[i].1),
    ensures
        run(s, queue_events(msgs)).wf(),
        run(s, queue_events(msgs)).phase == Phase::Idle,
        run(s, queue_events(msgs)).taken@ == s.taken@ + msgs.len(),
        run(s, queue_events(msgs)).finished@ == s.finished@ + msgs.len(),
        attempts_in(s, queue_events(msgs)) == total_attempts(msgs),
    decreases msgs.len(),
{
    if msgs.len() == 0 {
        assert(queue_events(msgs) =~= Seq::<WorkerEvent>::empty());
    } else {
        let front = msgs.drop_last();
        assert forall|i: int| 0 <= i < front.len() implies settles(
            #[trigger] front[i].0,
            front[i].1,
        ) by {
            assert(front[i] == msgs[i]);
        }
        lemma_queue_run(s, front);
        let t = run(s, queue_events(front));
        lemma_run_concat(s, queue_events(front), message_events(msgs.last().0, msgs.last().1));
        assert(settles(msgs[msgs.len() - 1].0, msgs[msgs.len() - 1].1));
        lemma_one_message(t, msgs.last().0, msgs.last().1);
        lemma_run_wf(s, queue_events(msgs));
    }
}

} // verus!
