use crate::model::Sched;
use crate::run::{Run, RunAction, RunEvent, RunPhase, RunState};
use crate::types::{
    FiberOutcome, PreemptiveMode, StoreFiberYield, UpdateDeadline, WasmThreadHandle,
};
use std::collections::{HashMap, HashSet, VecDeque};
use vstd::prelude::*;

verus! {

broadcast use vstd::std_specs::hash::group_hash_axioms;

/// Runs several wasm exports in turn on one host thread.
///
/// `F` is the fiber on which one export runs, `K` the handle of the thread
/// that advances the epoch. The scheduler keeps both and never looks inside.
pub struct PreemptiveThreads<F, K> {
    threads: HashMap<u32, F>,
    run_queue: VecDeque<u32>,
    enqueued: HashSet<u32>,
    current: Option<u32>,
    next_id: u32,
    names: HashMap<u32, String>,
    timeslice: u64,
    mode: PreemptiveMode,
    epoch_installed: bool,
    ticker: Option<K>,
    shutdown: bool,
}

impl<F, K> View for PreemptiveThreads<F, K> {
    type V = Sched<F, K>;

    closed spec fn view(&self) -> Sched<F, K> {
        Sched {
            threads: self.threads@,
            run_queue: self.run_queue@,
            enqueued: self.enqueued@,
            current: self.current,
            next_id: self.next_id,
            names: self.names@.map_values(|name: String| name@),
            timeslice: self.timeslice,
            mode: self.mode,
            epoch_installed: self.epoch_installed,
            ticker: self.ticker,
            shutdown: self.shutdown,
        }
    }
}

impl<F, K> PreemptiveThreads<F, K> {
    /// A scheduler without threads.
    pub fn new(timeslice: u64, mode: PreemptiveMode) -> (threads: Self)
        ensures
            threads@ == Sched::<F, K>::empty(timeslice, mode),
            threads@.wf(None),
    {
        PreemptiveThreads {
            timeslice,
            threads: HashMap::new(),
            run_queue: VecDeque::new(),
            enqueued: HashSet::new(),
            current: None,
            next_id: 0,
            names: HashMap::new(),
            mode,
            epoch_installed: false,
            ticker: None,
            shutdown: false,
        }
    }

    /// Puts `id` at the back of the run queue, unless it waits there already.
    pub(crate) fn enqueue(&mut self, id: u32)
        ensures
            final(self)@ == old(self)@.enqueue(id),
    {
        if self.enqueued.insert(id) {
            self.run_queue.push_back(id);
        } else {
            assert(self@.enqueued == old(self)@.enqueued);
        }
    }

    /// Takes the first live thread out of the run queue and makes it current.
    pub(crate) fn pop_next(&mut self) -> (id: Option<u32>)
        ensures
            id == old(self)@.picked(),
            final(self)@ == old(self)@.popped(),
            id matches Some(id) ==> final(self)@.live(id),
    {
        let ghost mut dropped: int = 0;
        loop
            invariant
                0 <= dropped <= old(self)@.run_queue.len(),
                self@ == (Sched { run_queue: old(self)@.run_queue.skip(dropped), ..old(self)@ }),
                crate::model::stale_prefix(old(self)@.run_queue, old(self)@.threads.dom())
                    == dropped + crate::model::stale_prefix(
                    self@.run_queue,
                    self@.threads.dom(),
                ),
            decreases self@.run_queue.len(),
        {
            match self.run_queue.pop_front() {
                Some(id) => {
                    proof {
                        assert(old(self)@.run_queue.skip(dropped).skip(1)
                            == old(self)@.run_queue.skip(dropped + 1));
                        assert(old(self)@.run_queue.skip(dropped)[0] == id);
                        dropped = dropped + 1;
                    }
                    if self.threads.contains_key(&id) {
                        self.enqueued.remove(&id);
                        self.current = Some(id);
                        return Some(id);
                    }
                },
                None => {
                    return None;
                },
            }
        }
    }

    /// Forgets thread `id`.
    pub(crate) fn finish(&mut self, id: u32)
        ensures
            final(self)@ == old(self)@.finished(id),
    {
        self.enqueued.remove(&id);
        self.threads.remove(&id);
        self.names.remove(&id);
        if self.current == Some(id) {
            self.current = None;
        }
    }

    /// The length of a slice: at least one unit, whatever was configured.
    fn slice(&self) -> (slice: u64)
        ensures
            slice == self@.slice(),
    {
        if self.timeslice == 0 {
            1
        } else {
            self.timeslice
        }
    }

    /// Hands out the slice for the epoch callback where the store does not
    /// have the callback yet. The caller installs it.
    pub(crate) fn install_epoch_callback(&mut self) -> (slice: Option<u64>)
        ensures
            final(self)@ == old(self)@.installed(),
            slice == (if old(self)@.epoch_installed {
                None
            } else {
                Some(old(self)@.slice())
            }),
    {
        if self.epoch_installed {
            return None;
        }
        let timeslice: u64 = self.slice();
        self.epoch_installed = true;
        Some(timeslice)
    }

    /// Hands out the interval of a new ticker, in microseconds, where none is
    /// running. The caller starts it.
    pub(crate) fn ensure_epoch_ticker(&self) -> (interval: Option<u64>)
        requires
            self@.ticker is None ==> self@.ticker_interval() <= u64::MAX,
        ensures
            interval == (if self@.ticker is Some {
                None
            } else {
                Some(self@.ticker_interval() as u64)
            }),
    {
        if self.ticker.is_some() {
            return None;
        }
        // Pace epoch increments to avoid thrashing.
        Some(self.slice() * 64)
    }

    /// Gives up the ticker, if there is one. The caller stops it.
    pub(crate) fn stop_epoch_ticker(&mut self) -> (ticker: Option<K>)
        ensures
            ticker == old(self)@.ticker,
            final(self)@ == old(self)@.ticker_given_up(),
    {
        self.ticker.take()
    }

    /// To be called before the fiber of a new thread is made. In epoch mode,
    /// where the store does not have the epoch callback yet, returns the slice
    /// with which the caller has to install it.
    pub fn prepare_spawn(&mut self) -> (slice: Option<u64>)
        ensures
            slice == (if old(self)@.mode is Epoch && !old(self)@.epoch_installed {
                Some(old(self)@.slice())
            } else {
                None
            }),
            final(self)@ == old(self)@.spawn_prepared(),
            forall|in_flight: Option<u32>| #[trigger]
                old(self)@.wf(in_flight) ==> final(self)@.wf(in_flight),
    {
        match self.mode {
            PreemptiveMode::Epoch => self.install_epoch_callback(),
            PreemptiveMode::Fuel => None,
        }
    }

    /// Adds a thread at the back of the run queue. `made` is what came of
    /// making its fiber: an error is handed back, and has used up an
    /// identifier all the same.
    ///
    /// Identifiers wrap around. A thread that still has the identifier which
    /// comes up is replaced.
    pub fn spawn<E>(&mut self, made: Result<F, E>, name: String) -> (handle: Result<
        WasmThreadHandle,
        E,
    >)
        ensures
            match made {
                Ok(fiber) => {
                    &&& handle matches Ok(h) && h@ == old(self)@.next_id
                    &&& final(self)@ == old(self)@.spawned(fiber, name@)
                },
                Err(error) => {
                    &&& handle == Err::<WasmThreadHandle, E>(error)
                    &&& final(self)@ == old(self)@.claimed()
                },
            },
            forall|in_flight: Option<u32>| #[trigger]
                old(self)@.wf(in_flight) ==> final(self)@.wf(in_flight),
    {
        proof {
            if made is Ok {
                let fiber = made->Ok_0;
                assert forall|in_flight: Option<u32>| #[trigger]
                    old(self)@.wf(in_flight) implies old(self)@.spawned(fiber, name@).wf(
                    in_flight,
                ) by {
                    crate::upkeep::law_spawned_keeps(old(self)@, in_flight, fiber, name@);
                }
            }
        }
        let id: u32 = self.next_id;
        self.next_id = self.next_id.wrapping_add(1);
        match made {
            Ok(fiber) => {
                self.enqueue(id);
                self.names.insert(id, name);
                self.threads.insert(id, fiber);
                Ok(WasmThreadHandle::new(id))
            },
            Err(error) => Err(error),
        }
    }

    /// The epoch moved on while a fiber had control: its thread waits again.
    pub fn on_epoch_tick(&mut self)
        ensures
            final(self)@ == old(self)@.ticked(),
            forall|in_flight: Option<u32>| #[trigger]
                old(self)@.wf(in_flight) ==> final(self)@.wf(in_flight),
    {
        proof {
            assert forall|in_flight: Option<u32>| #[trigger]
                old(self)@.wf(in_flight) implies old(self)@.ticked().wf(in_flight) by {
                crate::upkeep::law_ticked_keeps(old(self)@, in_flight);
            }
        }
        if let Some(id) = self.current.take() {
            self.enqueue(id);
        }
    }

    /// The epoch callback, as installed with `timeslice`: the thread that has
    /// control is requeued, suspended, and owed a fresh slice.
    pub fn epoch_callback(&mut self, timeslice: u64) -> (update: UpdateDeadline)
        ensures
            update == UpdateDeadline::Yield(timeslice),
            final(self)@ == old(self)@.ticked(),
            forall|in_flight: Option<u32>| #[trigger]
                old(self)@.wf(in_flight) ==> final(self)@.wf(in_flight),
    {
        self.on_epoch_tick();
        UpdateDeadline::Yield(timeslice)
    }

    /// Ends all threads for good. The caller disposes of the fibers, then
    /// stops the ticker.
    pub fn shutdown(&mut self) -> (remains: Remains<F, K>)
        ensures
            remains.fibers@ == old(self)@.threads,
            remains.ticker == old(self)@.ticker,
            final(self)@ == old(self)@.shut_down(),
            forall|in_flight: Option<u32>| #[trigger] final(self)@.wf(in_flight),
    {
        self.shutdown = true;
        let mut fibers: HashMap<u32, F> = HashMap::new();
        std::mem::swap(&mut fibers, &mut self.threads);
        let ticker = self.stop_epoch_ticker();
        self.run_queue.clear();
        self.enqueued.clear();
        self.current = None;
        self.names.clear();
        Remains { fibers, ticker }
    }

    /// The identifier that the next thread gets.
    pub fn next_id(&self) -> (id: u32)
        ensures
            id == self@.next_id,
    {
        self.next_id
    }

    /// The thread that was picked last, unless it was requeued or ended since.
    pub fn current(&self) -> (current: Option<u32>)
        ensures
            current == self@.current,
    {
        self.current
    }

    /// Whether the scheduler was shut down.
    pub fn is_shut_down(&self) -> (down: bool)
        ensures
            down == self@.shutdown,
    {
        self.shutdown
    }

    /// The fiber of a live thread.
    pub fn fiber(&self, id: u32) -> (fiber: Option<&F>)
        ensures
            fiber == (if self@.live(id) {
                Some(&self@.threads[id])
            } else {
                None
            }),
    {
        self.threads.get(&id)
    }

    /// The debug name of a live thread.
    pub fn debug_name(&self, id: u32) -> (name: Option<&str>)
        ensures
            name is Some <==> self@.names.contains_key(id),
            name matches Some(text) ==> text@ == self@.names[id],
    {
        match self.names.get(&id) {
            Some(name) => Some(name.as_str()),
            None => None,
        }
    }

    /// The fiber of `id` gave control back.
    fn settle(&mut self, id: u32, outcome: FiberOutcome)
        ensures
            final(self)@ == old(self)@.settled(id, outcome),
    {
        match outcome {
            FiberOutcome::Completed => self.finish(id),
            FiberOutcome::Failed => self.finish(id),
            FiberOutcome::Yielded(StoreFiberYield::KeepStore) => self.enqueue(id),
            FiberOutcome::Yielded(StoreFiberYield::ReleaseStore) => self.enqueue(id),
        }
        self.current = None;
    }

    /// Epoch mode: asks for a ticker if there is none, and else for a deadline.
    fn start_ticking<E>(&self) -> (next: (RunPhase, RunAction<K, E>))
        requires
            self@.ticker is None ==> self@.ticker_interval() <= u64::MAX,
        ensures
            (self@, next.0, next.1) == self@.ticking::<E>(),
    {
        match self.ensure_epoch_ticker() {
            Some(interval) => (RunPhase::StartingTicker, RunAction::StartTicker(interval)),
            None => (RunPhase::SettingDeadline, RunAction::SetEpochDeadline(self.slice())),
        }
    }

    /// Ends a run: in epoch mode its ticker comes down first.
    fn wind_down<E>(&mut self) -> (next: (RunPhase, RunAction<K, E>))
        ensures
            (final(self)@, next.0, next.1) == old(self)@.winding_down::<E>(),
    {
        match self.mode {
            PreemptiveMode::Epoch => match self.stop_epoch_ticker() {
                Some(ticker) => (RunPhase::StoppingTicker, RunAction::StopTicker(ticker)),
                None => (RunPhase::Finished, RunAction::Finish),
            },
            PreemptiveMode::Fuel => (RunPhase::Finished, RunAction::Finish),
        }
    }

    /// Starts a run: sets up what will end the slices.
    fn set_up<E>(&mut self) -> (next: (RunPhase, RunAction<K, E>))
        requires
            old(self)@.can_step(RunPhase::Ready, RunEvent::<K, E>::Begin),
        ensures
            (final(self)@, next.0, next.1) == old(self)@.step(
                RunPhase::Ready,
                0,
                RunEvent::<K, E>::Begin,
            ),
    {
        match self.mode {
            PreemptiveMode::Fuel => match self.stop_epoch_ticker() {
                Some(ticker) => (RunPhase::StoppingOldTicker, RunAction::StopTicker(ticker)),
                None => (
                    RunPhase::SettingYieldInterval,
                    RunAction::SetFuelYieldInterval(self.slice()),
                ),
            },
            PreemptiveMode::Epoch => match self.install_epoch_callback() {
                Some(slice) => (
                    RunPhase::InstallingCallback,
                    RunAction::InstallEpochCallback(slice),
                ),
                None => self.start_ticking(),
            },
        }
    }

    /// Schedules the next thread, unless the run is over.
    fn schedule<E>(&mut self, elapsed: u128, duration: u128) -> (next: (RunPhase, RunAction<K, E>))
        ensures
            (final(self)@, next.0, next.1) == old(self)@.step(
                RunPhase::ReadingClock,
                duration,
                RunEvent::<K, E>::Clock(elapsed),
            ),
            next.1 matches RunAction::Resume(id) ==> final(self)@.live(id),
    {
        if !self.shutdown && elapsed < duration {
            match self.pop_next() {
                Some(id) => (RunPhase::Resuming(id), RunAction::Resume(id)),
                None => self.wind_down(),
            }
        } else {
            self.wind_down()
        }
    }

    /// Tells whether `run` can take `event`.
    pub fn can_step<E>(&self, run: &Run, event: &RunEvent<K, E>) -> (able: bool)
        ensures
            able == self@.can_step(run@.phase, *event),
    {
        let needs_interval = self.ticker.is_none() && match run.phase() {
            RunPhase::InstallingCallback => true,
            RunPhase::Ready => self.epoch_installed && matches!(self.mode, PreemptiveMode::Epoch),
            _ => false,
        };
        let second_ticker = self.ticker.is_some() && matches!(
            run.phase(),
            RunPhase::StartingTicker
        );
        event.is_answer(run.phase()) && !second_ticker && (!needs_interval || self.slice() <= u64::MAX / 64)
    }

    /// Takes `run` one step on: given what the host reports, says what the
    /// host has to do next. A run starts with `RunEvent::Begin`, and is over
    /// with `RunAction::Finish` or `RunAction::Fail`.
    ///
    /// Until the time is up or the scheduler is shut down, the run resumes the
    /// live threads in the order of the run queue. One that yields goes to the
    /// back of the queue; one that ends, with or without an error, is
    /// forgotten. The run is over early when no live thread waits.
    pub fn run_for<E>(&mut self, run: &mut Run, event: RunEvent<K, E>) -> (action: RunAction<K, E>)
        requires
            old(self)@.can_step(old(run)@.phase, event),
        ensures
            (final(self)@, final(run)@.phase, action) == old(self)@.step(
                old(run)@.phase,
                old(run)@.duration,
                event,
            ),
            final(run)@ == (RunState { phase: final(run)@.phase, ..old(run)@ }),
            action matches RunAction::Resume(id) ==> final(self)@.live(id),
            action matches RunAction::Resume(id) ==> (old(self)@.wf(None)
                ==> final(self)@.names.contains_key(id)),
            old(self)@.wf(old(run)@.phase.in_flight()) ==> final(self)@.wf(
                final(run)@.phase.in_flight(),
            ),
    {
        proof {
            if self@.wf(run@.phase.in_flight()) {
                crate::upkeep::law_step_keeps(self@, run@.phase, run@.duration, event);
            }
        }
        let next: (RunPhase, RunAction<K, E>) = match (run.phase(), event) {
            (RunPhase::Ready, _) => self.set_up(),
            (RunPhase::SettingYieldInterval, RunEvent::Failed(error)) => (
                RunPhase::Finished,
                RunAction::Fail(error),
            ),
            (RunPhase::SettingFuel, RunEvent::Failed(error)) => (
                RunPhase::Finished,
                RunAction::Fail(error),
            ),
            (RunPhase::StoppingOldTicker, _) => (
                RunPhase::SettingYieldInterval,
                RunAction::SetFuelYieldInterval(self.slice()),
            ),
            (RunPhase::SettingYieldInterval, _) => (
                RunPhase::SettingFuel,
                RunAction::SetFuel(u64::MAX),
            ),
            (RunPhase::SettingFuel, _) => (RunPhase::ReadingClock, RunAction::ReadClock),
            (RunPhase::SettingDeadline, _) => (RunPhase::ReadingClock, RunAction::ReadClock),
            (RunPhase::InstallingCallback, _) => self.start_ticking(),
            (RunPhase::StartingTicker, RunEvent::TickerStarted(ticker)) => {
                self.ticker = Some(ticker);
                (RunPhase::SettingDeadline, RunAction::SetEpochDeadline(self.slice()))
            },
            (RunPhase::ReadingClock, RunEvent::Clock(elapsed)) => self.schedule(
                elapsed,
                run.duration(),
            ),
            (RunPhase::Resuming(id), RunEvent::Resumed(outcome)) => {
                self.settle(id, outcome);
                (RunPhase::ReadingClock, RunAction::ReadClock)
            },
            _ => (RunPhase::Finished, RunAction::Finish),
        };
        run.enter(next.0);
        next.1
    }
}

/// What is left of a scheduler that was shut down.
pub struct Remains<F, K> {
    /// The fibers of the threads that were live.
    pub fibers: HashMap<u32, F>,
    /// The ticker, if one was running.
    pub ticker: Option<K>,
}

} // verus!
