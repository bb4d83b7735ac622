//! The worker supervisor's decisions. The dispatch loop takes one message at
//! a time from the outbound queue and asks the supervisor what to do next;
//! it performs that action (spawn the worker, open its pipe, write, wait) and
//! reports the outcome as the next event. The supervisor holds what is known
//! of the worker and of the write pipe, never the process or the pipe itself.
use vstd::prelude::*;

verus! {

/// How many failed attempts a message gets before it is dropped.
pub const MAX_ATTEMPTS: u32 = 5;

/// The wait after each failed attempt grows by this step, in milliseconds.
pub const BACKOFF_STEP_MS: u64 = 250;

/// The pause after each delivered message, in milliseconds.
pub const PACING_MS: u64 = 500;

/// What the supervisor knows of the worker process.
#[derive(Clone, Copy, Debug, PartialEq, Eq, Structural)]
pub enum WorkerStatus {
    /// No worker is alive: none was spawned yet, the last spawn failed, or
    /// the last worker was found to have exited.
    Absent,
    /// A worker was spawned and has not been seen to exit.
    Running,
}

/// The state of the relay's write handle on the worker's input pipe.
#[derive(Clone, Copy, Debug, PartialEq, Eq, Structural)]
pub enum PipeStatus {
    /// Never opened.
    Unopened,
    /// Open towards the current worker.
    Open,
    /// Opened once, but stale: the worker was respawned or a write failed.
    Invalid,
}

/// Which outcome the supervisor awaits.
#[derive(Clone, Copy, Debug, PartialEq, Eq, Structural)]
pub enum Phase {
    /// Between messages.
    Idle,
    Spawning,
    Opening,
    Writing,
    /// Waiting out a backoff before the next attempt.
    Waiting,
}

/// An outcome reported by the dispatch loop.
#[derive(Clone, Copy, Debug, PartialEq, Eq, Structural)]
pub enum Event {
    /// A message was taken from the queue; `exited` tells whether the
    /// liveness check found the worker exited.
    Message { exited: bool },
    /// A spawn was attempted; whether it succeeded.
    Spawned(bool),
    /// The write pipe was (re)opened; whether that succeeded.
    Opened(bool),
    /// The message was written and flushed; whether that succeeded.
    Wrote(bool),
    /// The backoff was waited out; `exited` as for `Message`.
    Waited { exited: bool },
}

/// What the dispatch loop is to do next.
#[derive(Clone, Copy, Debug, PartialEq, Eq, Structural)]
pub enum Action {
    /// Spawn a worker process.
    Spawn,
    /// Open the worker's input pipe for writing, replacing any handle held.
    OpenPipe,
    /// Write the current message, with a line terminator, and flush.
    Write,
    /// Wait this many milliseconds, then check liveness and report `Waited`.
    Backoff(u64),
    /// The message went out: pause, then take the next one.
    Delivered,
    /// The message was given up after too many failures: take the next one.
    Dropped,
    /// Take the next message from the queue.
    AwaitMessage,
}

/// The supervisor's state.
#[derive(Clone, Copy, Debug, PartialEq, Eq, Structural)]
pub struct Supervisor {
    pub worker: WorkerStatus,
    pub pipe: PipeStatus,
    pub phase: Phase,
    /// Failed attempts on the current message.
    pub failures: u32,
}

/// The wait after the `f`-th failed attempt.
pub open spec fn backoff_ms(f: u32) -> u64 {
    (BACKOFF_STEP_MS * f) as u64
}

/// What the liveness check leaves known of the worker.
pub open spec fn after_check(w: WorkerStatus, exited: bool) -> WorkerStatus {
    if exited { WorkerStatus::Absent } else { w }
}

/// The next attempt at sending the current message: spawn where no worker
/// is alive, else open the pipe where it is not open, else write.
pub open spec fn attempt(w: WorkerStatus, p: PipeStatus, failures: u32) -> (Supervisor, Action) {
    if w == WorkerStatus::Absent {
        (Supervisor { worker: w, pipe: p, phase: Phase::Spawning, failures }, Action::Spawn)
    } else if p != PipeStatus::Open {
        (Supervisor { worker: w, pipe: p, phase: Phase::Opening, failures }, Action::OpenPipe)
    } else {
        (Supervisor { worker: w, pipe: p, phase: Phase::Writing, failures }, Action::Write)
    }
}

/// After a failed attempt: back off, or drop the message once it has
/// failed `MAX_ATTEMPTS` times.
pub open spec fn failed(w: WorkerStatus, p: PipeStatus, failures: u32) -> (Supervisor, Action) {
    let f = failures + 1;
    if f >= MAX_ATTEMPTS {
        (Supervisor { worker: w, pipe: p, phase: Phase::Idle, failures: 0 }, Action::Dropped)
    } else {
        (
            Supervisor { worker: w, pipe: p, phase: Phase::Waiting, failures: f as u32 },
            Action::Backoff(backoff_ms(f as u32)),
        )
    }
}

/// The action awaited in a state; repeated when an event does not answer it.
pub open spec fn pending(s: Supervisor) -> Action {
    match s.phase {
        Phase::Idle => Action::AwaitMessage,
        Phase::Spawning => Action::Spawn,
        Phase::Opening => Action::OpenPipe,
        Phase::Writing => Action::Write,
        Phase::Waiting => Action::Backoff(backoff_ms(s.failures)),
    }
}

/// The state and action that follow the event `e` in the state `s`.
pub open spec fn next(s: Supervisor, e: Event) -> (Supervisor, Action) {
    match (s.phase, e) {
        (Phase::Idle, Event::Message { exited }) => attempt(after_check(s.worker, exited), s.pipe, 0),
        (Phase::Spawning, Event::Spawned(true)) => attempt(
            WorkerStatus::Running,
            if s.pipe == PipeStatus::Open { PipeStatus::Invalid } else { s.pipe },
            s.failures,
        ),
        (Phase::Spawning, Event::Spawned(false)) => failed(WorkerStatus::Absent, s.pipe, s.failures),
        (Phase::Opening, Event::Opened(true)) => attempt(s.worker, PipeStatus::Open, s.failures),
        (Phase::Opening, Event::Opened(false)) => failed(s.worker, s.pipe, s.failures),
        (Phase::Writing, Event::Wrote(true)) => (
            Supervisor { phase: Phase::Idle, failures: 0, ..s },
            Action::Delivered,
        ),
        (Phase::Writing, Event::Wrote(false)) => failed(s.worker, PipeStatus::Invalid, s.failures),
        (Phase::Waiting, Event::Waited { exited }) => attempt(
            after_check(s.worker, exited),
            s.pipe,
            s.failures,
        ),
        _ => (s, pending(s)),
    }
}

impl Supervisor {
    /// The supervisor's invariant: a spawn is awaited only while no worker
    /// is alive; the pipe is opened only towards a running worker whose
    /// pipe is not open; a write is made only through an open pipe to a
    /// running worker; and a message has failed fewer than `MAX_ATTEMPTS` times.
    pub open spec fn wf(&self) -> bool {
        &&& self.failures < MAX_ATTEMPTS
        &&& self.phase == Phase::Idle ==> self.failures == 0
        &&& self.phase == Phase::Spawning ==> self.worker == WorkerStatus::Absent
        &&& self.phase == Phase::Opening ==> self.worker == WorkerStatus::Running
            && self.pipe != PipeStatus::Open
        &&& self.phase == Phase::Writing ==> self.worker == WorkerStatus::Running
            && self.pipe == PipeStatus::Open
        &&& self.phase == Phase::Waiting ==> self.failures > 0
    }

    /// A supervisor with no worker and an unopened pipe, between messages.
    pub fn new() -> (r: Supervisor)
        ensures
            r.wf(),
            r == (Supervisor {
                worker: WorkerStatus::Absent,
                pipe: PipeStatus::Unopened,
                phase: Phase::Idle,
                failures: 0,
            }),
    {
        Supervisor {
            worker: WorkerStatus::Absent,
            pipe: PipeStatus::Unopened,
            phase: Phase::Idle,
            failures: 0,
        }
    }

    fn attempt(w: WorkerStatus, p: PipeStatus, failures: u32) -> (r: (Supervisor, Action))
        ensures
            r == attempt(w, p, failures),
    {
        if w == WorkerStatus::Absent {
            (Supervisor { worker: w, pipe: p, phase: Phase::Spawning, failures }, Action::Spawn)
        } else if p != PipeStatus::Open {
            (Supervisor { worker: w, pipe: p, phase: Phase::Opening, failures }, Action::OpenPipe)
        } else {
            (Supervisor { worker: w, pipe: p, phase: Phase::Writing, failures }, Action::Write)
        }
    }

    fn failed(w: WorkerStatus, p: PipeStatus, failures: u32) -> (r: (Supervisor, Action))
        requires
            failures < MAX_ATTEMPTS,
        ensures
            r == failed(w, p, failures),
    {
        let f = failures + 1;
        if f >= MAX_ATTEMPTS {
            (Supervisor { worker: w, pipe: p, phase: Phase::Idle, failures: 0 }, Action::Dropped)
        } else {
            (
                Supervisor { worker: w, pipe: p, phase: Phase::Waiting, failures: f },
                Action::Backoff(BACKOFF_STEP_MS * (f as u64)),
            )
        }
    }

    fn after_check(w: WorkerStatus, exited: bool) -> (r: WorkerStatus)
        ensures
            r == after_check(w, exited),
    {
        if exited { WorkerStatus::Absent } else { w }
    }

    fn pending(&self) -> (r: Action)
        requires
            self.wf(),
        ensures
            r == pending(*self),
    {
        match self.phase {
            Phase::Idle => Action::AwaitMessage,
            Phase::Spawning => Action::Spawn,
            Phase::Opening => Action::OpenPipe,
            Phase::Writing => Action::Write,
            Phase::Waiting => Action::Backoff(BACKOFF_STEP_MS * (self.failures as u64)),
        }
    }

    /// Takes in the outcome `e` and returns the next action. An event that
    /// does not answer the awaited action changes nothing, and the awaited
    /// action is asked for again.
    pub fn step(&mut self, e: Event) -> (a: Action)
        requires
            old(self).wf(),
        ensures
            final(self).wf(),
            (*final(self), a) == next(*old(self), e),
    {
        let s = *self;
        let (t, a) = match (s.phase, e) {
            (Phase::Idle, Event::Message { exited }) => Self::attempt(
                Self::after_check(s.worker, exited),
                s.pipe,
                0,
            ),
            (Phase::Spawning, Event::Spawned(true)) => Self::attempt(
                WorkerStatus::Running,
                if s.pipe == PipeStatus::Open { PipeStatus::Invalid } else { s.pipe },
                s.failures,
            ),
            (Phase::Spawning, Event::Spawned(false)) => Self::failed(
                WorkerStatus::Absent,
                s.pipe,
                s.failures,
            ),
            (Phase::Opening, Event::Opened(true)) => Self::attempt(
                s.worker,
                PipeStatus::Open,
                s.failures,
            ),
            (Phase::Opening, Event::Opened(false)) => Self::failed(s.worker, s.pipe, s.failures),
            (Phase::Writing, Event::Wrote(true)) => (
                Supervisor { phase: Phase::Idle, failures: 0, ..s },
                Action::Delivered,
            ),
            (Phase::Writing, Event::Wrote(false)) => Self::failed(
                s.worker,
                PipeStatus::Invalid,
                s.failures,
            ),
            (Phase::Waiting, Event::Waited { exited }) => Self::attempt(
                Self::after_check(s.worker, exited),
                s.pipe,
                s.failures,
            ),
            _ => (s, s.pending()),
        };
        *self = t;
        a
    }
}

} // verus!

verus! {

/// Whether the event reports that the worker was found exited.
pub open spec fn reports_exit(e: Event) -> bool {
    e == (Event::Message { exited: true }) || e == (Event::Waited { exited: true })
}

/// Whether the event, taken in the state `s`, is a successful spawn.
pub open spec fn spawns(s: Supervisor, e: Event) -> bool {
    s.phase == Phase::Spawning && e == Event::Spawned(true)
}

/// The state after the events `evs`, from `s`.
pub open spec fn run(s: Supervisor, evs: Seq<Event>) -> Supervisor
    decreases evs.len(),
{
    if evs.len() == 0 {
        s
    } else {
        run(next(s, evs[0]).0, evs.drop_first())
    }
}

/// How many workers are spawned along the events `evs`, from `s`.
pub open spec fn spawn_count(s: Supervisor, evs: Seq<Event>) -> nat
    decreases evs.len(),
{
    if evs.len() == 0 {
        0
    } else {
        (if spawns(s, evs[0]) { 1nat } else { 0nat }) + spawn_count(next(s, evs[0]).0, evs.drop_first())
    }
}

/// Whether a write to the worker is asked for along the events `evs`, from `s`.
pub open spec fn writes_along(s: Supervisor, evs: Seq<Event>) -> bool
    decreases evs.len(),
{
    if evs.len() == 0 {
        false
    } else {
        next(s, evs[0]).1 == Action::Write || writes_along(next(s, evs[0]).0, evs.drop_first())
    }
}

/// The invariant holds after every step.
pub proof fn lemma_step_keeps_wf(s: Supervisor, e: Event)
    requires
        s.wf(),
    ensures
        next(s, e).0.wf(),
{
}

/// A spawn is asked for only while no worker is alive, and a write only
/// through an open pipe to a running worker: at most one worker lives at a
/// time, and nothing is written to a stale pipe.
pub proof fn lemma_spawn_only_without_worker(s: Supervisor, e: Event)
    requires
        s.wf(),
    ensures
        next(s, e).1 == Action::Spawn ==> next(s, e).0.worker == WorkerStatus::Absent,
        next(s, e).1 == Action::Write ==> next(s, e).0.worker == WorkerStatus::Running
            && next(s, e).0.pipe == PipeStatus::Open,
        spawns(s, e) ==> s.worker == WorkerStatus::Absent,
{
}

proof fn lemma_running_stays(s: Supervisor, evs: Seq<Event>)
    requires
        s.wf(),
        s.worker == WorkerStatus::Running,
        forall|i: int| 0 <= i < evs.len() ==> !reports_exit(#[trigger] evs[i]),
    ensures
        spawn_count(s, evs) == 0,
        run(s, evs).worker == WorkerStatus::Running,
    decreases evs.len(),
{
    if evs.len() > 0 {
        let t = next(s, evs[0]).0;
        assert(!reports_exit(evs[0]));
        assert(t.worker == WorkerStatus::Running);
        assert forall|i: int| 0 <= i < evs.drop_first().len() implies !reports_exit(
            #[trigger] evs.drop_first()[i],
        ) by {
            assert(evs.drop_first()[i] == evs[i + 1]);
        }
        lemma_running_stays(t, evs.drop_first());
    }
}

/// After the worker's exit is detected (or before any worker was spawned),
/// and as long as no further exit is detected, exactly one worker is spawned
/// before a message is written to it, and never a second one; a worker is
/// running at the end exactly when one was spawned. (A further detected
/// exit starts the same count afresh from a state without a worker.)
pub proof fn lemma_one_spawn_per_exit(s: Supervisor, evs: Seq<Event>)
    requires
        s.wf(),
        s.worker == WorkerStatus::Absent,
        forall|i: int| 0 <= i < evs.len() ==> !reports_exit(#[trigger] evs[i]),
    ensures
        spawn_count(s, evs) <= 1,
        writes_along(s, evs) ==> spawn_count(s, evs) == 1,
        (run(s, evs).worker == WorkerStatus::Running) == (spawn_count(s, evs) == 1),
    decreases evs.len(),
{
    if evs.len() > 0 {
        let e = evs[0];
        let t = next(s, e).0;
        let rest = evs.drop_first();
        assert(!reports_exit(e));
        assert forall|i: int| 0 <= i < rest.len() implies !reports_exit(#[trigger] rest[i]) by {
            assert(rest[i] == evs[i + 1]);
        }
        if spawns(s, e) {
            lemma_running_stays(t, rest);
        } else {
            assert(t.worker == WorkerStatus::Absent);
            assert(next(s, e).1 != Action::Write);
            lemma_one_spawn_per_exit(t, rest);
        }
    }
}

/// One message at a time: while a message is under way, no further message
/// is taken; the event is ignored and the awaited action asked for again.
pub proof fn lemma_no_message_overtakes(s: Supervisor, exited: bool)
    requires
        s.wf(),
        s.phase != Phase::Idle,
    ensures
        next(s, Event::Message { exited }) == (s, pending(s)),
{
}

} // verus!
