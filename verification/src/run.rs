use crate::types::FiberOutcome;
use std::task::Waker;
use vstd::prelude::*;

verus! {

/// Where a run stands: which reply from the host it is waiting for.
#[derive(Debug, Clone, Copy, PartialEq, Eq, Structural)]
pub enum RunPhase {
    /// Nothing has happened yet.
    Ready,
    /// Fuel mode: a ticker left over from before is being stopped.
    StoppingOldTicker,
    /// Fuel mode: the yield interval is being configured.
    SettingYieldInterval,
    /// Fuel mode: the store is being given its fuel.
    SettingFuel,
    /// Epoch mode: the epoch callback is being installed.
    InstallingCallback,
    /// Epoch mode: the ticker thread is being started.
    StartingTicker,
    /// Epoch mode: the epoch deadline is being set.
    SettingDeadline,
    /// The host is reading how long the run has taken so far.
    ReadingClock,
    /// The fiber of this thread has control.
    Resuming(u32),
    /// Epoch mode: the run is over and its ticker is being stopped.
    StoppingTicker,
    /// The run has returned.
    Finished,
}

impl RunPhase {
    /// The thread whose fiber has control.
    pub open spec fn in_flight(self) -> Option<u32> {
        match self {
            RunPhase::Resuming(id) => Some(id),
            _ => None,
        }
    }
}

/// What the host reports back. `K` is the handle of a ticker thread, `E` the
/// error of a store operation.
#[derive(Debug, PartialEq, Eq)]
pub enum RunEvent<K, E> {
    /// The run shall start.
    Begin,
    /// The action was carried out.
    Done,
    /// The action was refused by the store.
    Failed(E),
    /// The ticker thread is running.
    TickerStarted(K),
    /// The nanoseconds since the run began.
    Clock(u128),
    /// The fiber gave control back.
    Resumed(FiberOutcome),
}

/// What the host has to do next.
#[derive(Debug, PartialEq, Eq)]
pub enum RunAction<K, E> {
    /// Raise the ticker's stop flag and join its thread.
    StopTicker(K),
    /// Make fibers yield each time they have burnt this much fuel.
    SetFuelYieldInterval(u64),
    /// Give the store this much fuel.
    SetFuel(u64),
    /// Install the epoch callback, which yields with this many ticks.
    InstallEpochCallback(u64),
    /// Start a thread that advances the epoch every so many microseconds.
    StartTicker(u64),
    /// Set the epoch deadline this many ticks ahead.
    SetEpochDeadline(u64),
    /// Report how long the run has taken.
    ReadClock,
    /// Resume the fiber of this thread, under the thread's debug name.
    Resume(u32),
    /// Return success to the embedder.
    Finish,
    /// Return this error to the embedder.
    Fail(E),
}

impl<K, E> RunEvent<K, E> {
    /// Whether this is a reply that a run in `phase` can receive.
    pub open spec fn answers(self, phase: RunPhase) -> bool {
        match phase {
            RunPhase::Ready => self is Begin,
            RunPhase::StoppingOldTicker => self is Done,
            RunPhase::SettingYieldInterval => self is Done || self is Failed,
            RunPhase::SettingFuel => self is Done || self is Failed,
            RunPhase::InstallingCallback => self is Done,
            RunPhase::StartingTicker => self is TickerStarted,
            RunPhase::SettingDeadline => self is Done,
            RunPhase::ReadingClock => self is Clock,
            RunPhase::Resuming(_) => self is Resumed,
            RunPhase::StoppingTicker => self is Done,
            RunPhase::Finished => false,
        }
    }
}

/// `std::task::Waker`, carried to the host unread.
#[verifier::external_type_specification]
#[verifier::external_body]
pub struct ExWaker(std::task::Waker);

/// `futures::task::noop_waker`: makes a waker. That waking it does nothing is
/// its documented purpose, but nothing in this crate wakes it, and nothing is
/// claimed of it here.
pub assume_specification[ futures::task::noop_waker ]() -> (waker: Waker)
;

/// A run as a mathematical value.
pub struct RunState {
    /// The reply that the run waits for.
    pub phase: RunPhase,
    /// How many nanoseconds the run may take before it resumes no more fibers.
    pub duration: u128,
    /// The waker under which fibers are polled.
    pub waker: Waker,
}

/// One run of the scheduler, limited in time.
pub struct Run {
    phase: RunPhase,
    duration: u128,
    waker: Waker,
}

impl View for Run {
    type V = RunState;

    closed spec fn view(&self) -> RunState {
        RunState { phase: self.phase, duration: self.duration, waker: self.waker }
    }
}

impl Run {
    /// A run that has not begun and may take `duration` nanoseconds. Its
    /// fibers are polled under a waker that does nothing: the scheduler asks
    /// each of them again in its turn.
    pub fn new(duration: u128) -> (run: Run)
        ensures
            run@.phase is Ready,
            run@.duration == duration,
    {
        Run { phase: RunPhase::Ready, duration, waker: futures::task::noop_waker() }
    }

    /// Where the run stands.
    pub fn phase(&self) -> (phase: RunPhase)
        ensures
            phase == self@.phase,
    {
        self.phase
    }

    /// How many nanoseconds the run may take.
    pub fn duration(&self) -> (duration: u128)
        ensures
            duration == self@.duration,
    {
        self.duration
    }

    /// The waker under which the run's fibers are polled.
    pub fn waker(&self) -> (waker: &Waker)
        ensures
            *waker == self@.waker,
    {
        &self.waker
    }

    /// Moves the run on to `phase`.
    pub(crate) fn enter(&mut self, phase: RunPhase)
        ensures
            final(self)@ == (RunState { phase, ..old(self)@ }),
    {
        self.phase = phase;
    }
}

impl<K, E> RunEvent<K, E> {
    /// Tells whether this is a reply that a run in `phase` can receive.
    pub fn is_answer(&self, phase: RunPhase) -> (answer: bool)
        ensures
            answer == self.answers(phase),
    {
        match (phase, self) {
            (RunPhase::Ready, RunEvent::Begin) => true,
            (RunPhase::StoppingOldTicker, RunEvent::Done) => true,
            (RunPhase::SettingYieldInterval, RunEvent::Done) => true,
            (RunPhase::SettingYieldInterval, RunEvent::Failed(_)) => true,
            (RunPhase::SettingFuel, RunEvent::Done) => true,
            (RunPhase::SettingFuel, RunEvent::Failed(_)) => true,
            (RunPhase::InstallingCallback, RunEvent::Done) => true,
            (RunPhase::StartingTicker, RunEvent::TickerStarted(_)) => true,
            (RunPhase::SettingDeadline, RunEvent::Done) => true,
            (RunPhase::ReadingClock, RunEvent::Clock(_)) => true,
            (RunPhase::Resuming(_), RunEvent::Resumed(_)) => true,
            (RunPhase::StoppingTicker, RunEvent::Done) => true,
            _ => false,
        }
    }
}

} // verus!
