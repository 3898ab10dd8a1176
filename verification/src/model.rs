use crate::run::{RunAction, RunEvent, RunPhase};
use crate::types::{FiberOutcome, PreemptiveMode};
use vstd::prelude::*;

verus! {

/// The scheduler as a mathematical value. `F` is a fiber, `K` the handle of
/// a ticker thread.
#[verifier::ext_equal]
pub struct Sched<F, K> {
    /// The fibers of the live threads, by thread.
    pub threads: Map<u32, F>,
    /// The threads in the order in which they are to run. A thread that has
    /// ended may still stand here; such an entry is stale.
    pub run_queue: Seq<u32>,
    /// The threads that wait in the run queue and must not be put there again.
    pub enqueued: Set<u32>,
    /// The thread that was picked last, unless it was requeued or ended since.
    pub current: Option<u32>,
    /// The identifier that the next thread gets.
    pub next_id: u32,
    /// The debug names of the live threads.
    pub names: Map<u32, Seq<char>>,
    /// The configured length of a slice, in fuel or in epoch ticks.
    pub timeslice: u64,
    /// What ends a slice.
    pub mode: PreemptiveMode,
    /// Whether the store has the epoch callback.
    pub epoch_installed: bool,
    /// The ticker thread, while there is one.
    pub ticker: Option<K>,
    /// Whether the scheduler was shut down.
    pub shutdown: bool,
}

/// How many entries at the head of `queue` are not in `live`.
pub open spec fn stale_prefix(queue: Seq<u32>, live: Set<u32>) -> nat
    decreases queue.len(),
{
    if queue.len() == 0 || live.contains(queue[0]) {
        0
    } else {
        1 + stale_prefix(queue.skip(1), live)
    }
}

/// The stale prefix ends at the first entry that is live.
pub proof fn lemma_stale_prefix(queue: Seq<u32>, live: Set<u32>)
    ensures
        stale_prefix(queue, live) <= queue.len(),
        forall|i: int| 0 <= i < stale_prefix(queue, live) ==> !live.contains(#[trigger] queue[i]),
        stale_prefix(queue, live) < queue.len() ==> live.contains(
            queue[stale_prefix(queue, live) as int],
        ),
    decreases queue.len(),
{
    if queue.len() > 0 && !live.contains(queue[0]) {
        let rest = queue.skip(1);
        lemma_stale_prefix(rest, live);
        assert forall|i: int| 0 <= i < stale_prefix(queue, live) implies !live.contains(
            #[trigger] queue[i],
        ) by {
            if i > 0 {
                assert(queue[i] == rest[i - 1]);
            }
        }
    }
}

/// The identifier after `id`: identifiers wrap around.
pub open spec fn following_id(id: u32) -> u32 {
    if id == u32::MAX {
        0
    } else {
        (id + 1) as u32
    }
}

impl FiberOutcome {
    /// Whether the fiber wants to run again.
    pub open spec fn yields(self) -> bool {
        self is Yielded
    }
}

impl<F, K> Sched<F, K> {
    /// A scheduler without threads.
    pub open spec fn empty(timeslice: u64, mode: PreemptiveMode) -> Self {
        Sched {
            threads: Map::empty(),
            run_queue: Seq::empty(),
            enqueued: Set::empty(),
            current: None,
            next_id: 0,
            names: Map::empty(),
            timeslice,
            mode,
            epoch_installed: false,
            ticker: None,
            shutdown: false,
        }
    }

    /// Whether `id` is the identifier of a live thread.
    #[verifier::inline]
    pub open spec fn live(self, id: u32) -> bool {
        self.threads.contains_key(id)
    }

    /// The live threads that wait, in the order in which they will run.
    pub open spec fn ready(self) -> Seq<u32> {
        self.run_queue.filter(|id: u32| self.live(id))
    }

    /// The length of a slice: never zero.
    pub open spec fn slice(self) -> u64 {
        if self.timeslice == 0 {
            1
        } else {
            self.timeslice
        }
    }

    /// The microseconds between two ticks of the epoch.
    pub open spec fn ticker_interval(self) -> int {
        self.slice() * 64
    }

    /// `id` waits at the back of the queue, unless it was waiting already.
    pub open spec fn enqueue(self, id: u32) -> Self {
        if self.enqueued.contains(id) {
            self
        } else {
            Sched {
                run_queue: self.run_queue.push(id),
                enqueued: self.enqueued.insert(id),
                ..self
            }
        }
    }

    /// The first thread in the queue that is live.
    pub open spec fn picked(self) -> Option<u32> {
        let n = stale_prefix(self.run_queue, self.threads.dom());
        if n < self.run_queue.len() {
            Some(self.run_queue[n as int])
        } else {
            None
        }
    }

    /// The picked thread has left the queue, with all that stood before it,
    /// and is current. Where nothing was picked, only the queue is emptied.
    pub open spec fn popped(self) -> Self {
        let n = stale_prefix(self.run_queue, self.threads.dom());
        match self.picked() {
            Some(id) => Sched {
                run_queue: self.run_queue.skip(n as int + 1),
                enqueued: self.enqueued.remove(id),
                current: Some(id),
                ..self
            },
            None => Sched { run_queue: Seq::empty(), ..self },
        }
    }

    /// Thread `id` is gone; a queue entry of it stays behind.
    pub open spec fn finished(self, id: u32) -> Self {
        Sched {
            threads: self.threads.remove(id),
            enqueued: self.enqueued.remove(id),
            names: self.names.remove(id),
            current: if self.current == Some(id) {
                None
            } else {
                self.current
            },
            ..self
        }
    }

    /// The fiber of `id` gave control back: the thread waits again, or it is
    /// gone.
    pub open spec fn settled(self, id: u32, outcome: FiberOutcome) -> Self {
        let next = if outcome.yields() {
            self.enqueue(id)
        } else {
            self.finished(id)
        };
        Sched { current: None, ..next }
    }

    /// An epoch tick came: the current thread waits again, and none is current.
    pub open spec fn ticked(self) -> Self {
        match self.current {
            Some(id) => Sched { current: None, ..self }.enqueue(id),
            None => self,
        }
    }

    /// An identifier was handed out.
    pub open spec fn claimed(self) -> Self {
        Sched { next_id: following_id(self.next_id), ..self }
    }

    /// A thread with this fiber and this name lives and waits.
    pub open spec fn spawned(self, fiber: F, name: Seq<char>) -> Self {
        let id = self.next_id;
        let next = self.claimed().enqueue(id);
        Sched {
            threads: next.threads.insert(id, fiber),
            names: next.names.insert(id, name),
            ..next
        }
    }

    /// Everything is gone but the configuration, and no run resumes a fiber
    /// from here on.
    pub open spec fn shut_down(self) -> Self {
        Sched {
            threads: Map::empty(),
            run_queue: Seq::empty(),
            enqueued: Set::empty(),
            current: None,
            names: Map::empty(),
            ticker: None,
            shutdown: true,
            ..self
        }
    }

    /// The store has the epoch callback.
    pub open spec fn installed(self) -> Self {
        Sched { epoch_installed: true, ..self }
    }

    /// A spawn may begin: in epoch mode the store has the epoch callback.
    pub open spec fn spawn_prepared(self) -> Self {
        if self.mode is Epoch {
            self.installed()
        } else {
            self
        }
    }

    /// The ticker `ticker` is running.
    pub open spec fn ticker_started(self, ticker: K) -> Self {
        Sched { ticker: Some(ticker), ..self }
    }

    /// The ticker, if there was one, was handed out to be stopped.
    pub open spec fn ticker_given_up(self) -> Self {
        Sched { ticker: None, ..self }
    }

    /// The run asks for a ticker if there is none, and else for a deadline.
    pub open spec fn ticking<E>(self) -> (Self, RunPhase, RunAction<K, E>) {
        match self.ticker {
            None => (
                self,
                RunPhase::StartingTicker,
                RunAction::StartTicker(self.ticker_interval() as u64),
            ),
            Some(_) => (self, RunPhase::SettingDeadline, RunAction::SetEpochDeadline(self.slice())),
        }
    }

    /// The run ends: in epoch mode it takes its ticker down first.
    pub open spec fn winding_down<E>(self) -> (Self, RunPhase, RunAction<K, E>) {
        match self.ticker {
            Some(ticker) if self.mode is Epoch => (
                self.ticker_given_up(),
                RunPhase::StoppingTicker,
                RunAction::StopTicker(ticker),
            ),
            _ => (self, RunPhase::Finished, RunAction::Finish),
        }
    }

    /// One step of a run of `duration` nanoseconds: the scheduler, the phase
    /// and the action that follow on `event`.
    pub open spec fn step<E>(self, phase: RunPhase, duration: u128, event: RunEvent<K, E>) -> (
        Self,
        RunPhase,
        RunAction<K, E>,
    ) {
        match (phase, event) {
            (RunPhase::Ready, _) => match self.mode {
                PreemptiveMode::Fuel => match self.ticker {
                    Some(ticker) => (
                        self.ticker_given_up(),
                        RunPhase::StoppingOldTicker,
                        RunAction::StopTicker(ticker),
                    ),
                    None => (
                        self,
                        RunPhase::SettingYieldInterval,
                        RunAction::SetFuelYieldInterval(self.slice()),
                    ),
                },
                PreemptiveMode::Epoch => if self.epoch_installed {
                    self.ticking()
                } else {
                    (
                        self.installed(),
                        RunPhase::InstallingCallback,
                        RunAction::InstallEpochCallback(self.slice()),
                    )
                },
            },
            (RunPhase::SettingYieldInterval | RunPhase::SettingFuel, RunEvent::Failed(error)) => (
                self,
                RunPhase::Finished,
                RunAction::Fail(error),
            ),
            (RunPhase::StoppingOldTicker, _) => (
                self,
                RunPhase::SettingYieldInterval,
                RunAction::SetFuelYieldInterval(self.slice()),
            ),
            (RunPhase::SettingYieldInterval, _) => (
                self,
                RunPhase::SettingFuel,
                RunAction::SetFuel(u64::MAX),
            ),
            (RunPhase::SettingFuel | RunPhase::SettingDeadline, _) => (
                self,
                RunPhase::ReadingClock,
                RunAction::ReadClock,
            ),
            (RunPhase::InstallingCallback, _) => self.ticking(),
            (RunPhase::StartingTicker, RunEvent::TickerStarted(ticker)) => (
                self.ticker_started(ticker),
                RunPhase::SettingDeadline,
                RunAction::SetEpochDeadline(self.slice()),
            ),
            (RunPhase::ReadingClock, RunEvent::Clock(elapsed)) => if self.shutdown || elapsed
                >= duration {
                self.winding_down()
            } else {
                match self.picked() {
                    Some(id) => (self.popped(), RunPhase::Resuming(id), RunAction::Resume(id)),
                    None => self.popped().winding_down(),
                }
            },
            (RunPhase::Resuming(id), RunEvent::Resumed(outcome)) => (
                self.settled(id, outcome),
                RunPhase::ReadingClock,
                RunAction::ReadClock,
            ),
            _ => (self, RunPhase::Finished, RunAction::Finish),
        }
    }

    /// Whether the next step works out the ticker's interval.
    pub open spec fn needs_interval(self, phase: RunPhase) -> bool {
        &&& self.ticker is None
        &&& phase is InstallingCallback || (phase is Ready && self.mode is Epoch
            && self.epoch_installed)
    }

    /// Whether a run in `phase` can take `event`: it is a reply to what the
    /// run asked for; no ticker is started beside another; and the ticker's
    /// interval, where it is needed, is a number of 64 bits.
    pub open spec fn can_step<E>(self, phase: RunPhase, event: RunEvent<K, E>) -> bool {
        &&& event.answers(phase)
        &&& phase is StartingTicker ==> self.ticker is None
        &&& self.needs_interval(phase) ==> self.ticker_interval() <= u64::MAX
    }
}

} // verus!
