use crate::conduct::{
    law_pick_effect, law_pick_is_first_live, law_settle_effect, others_untouched, same_threads,
};
use crate::history::Call;
use crate::model::Sched;
use crate::run::{RunAction, RunEvent, RunPhase};
use crate::types::FiberOutcome;
use vstd::prelude::*;

verus! {

/// What a run waits for is the reply to what it asked for, and it is finished
/// just when it has told the host to return.
pub proof fn law_phase_fits_action<F, K, E>(
    s: Sched<F, K>,
    phase: RunPhase,
    duration: u128,
    event: RunEvent<K, E>,
)
    ensures
        ({
            let (_, after, action) = s.step(phase, duration, event);
            match action {
                RunAction::StopTicker(_) => if phase is Ready {
                    after is StoppingOldTicker
                } else {
                    after is StoppingTicker
                },
                RunAction::SetFuelYieldInterval(_) => after is SettingYieldInterval,
                RunAction::SetFuel(_) => after is SettingFuel,
                RunAction::InstallEpochCallback(_) => after is InstallingCallback,
                RunAction::StartTicker(_) => after is StartingTicker,
                RunAction::SetEpochDeadline(_) => after is SettingDeadline,
                RunAction::ReadClock => after is ReadingClock,
                RunAction::Resume(id) => after == RunPhase::Resuming(id),
                RunAction::Finish | RunAction::Fail(_) => after is Finished,
            }
        }),
        s.step(phase, duration, event).1 is Finished <==> s.step(phase, duration, event).2 is Finish
            || s.step(phase, duration, event).2 is Fail,
{
}

/// Which replies a run takes: to a start the beginning, to a clock its reading,
/// to a resumed fiber its outcome, to a started ticker the ticker, to all else
/// that it was done; the two fuel settings may fail; and a run that is finished
/// takes none.
pub proof fn law_answers<K, E>(phase: RunPhase, event: RunEvent<K, E>)
    ensures
        event is Begin ==> (event.answers(phase) <==> phase is Ready),
        event is Clock ==> (event.answers(phase) <==> phase is ReadingClock),
        event is Resumed ==> (event.answers(phase) <==> phase is Resuming),
        event is TickerStarted ==> (event.answers(phase) <==> phase is StartingTicker),
        event is Failed ==> (event.answers(phase) <==> phase is SettingYieldInterval
            || phase is SettingFuel),
        event is Done ==> (event.answers(phase) <==> !(phase is Ready || phase is ReadingClock
            || phase is Resuming || phase is StartingTicker || phase is Finished)),
{
}

/// A step is possible just on a reply that is due, where no ticker is started
/// beside another, and where an interval that has to be worked out fits in 64
/// bits.
pub proof fn law_when_steps_are_possible<F, K, E>(
    s: Sched<F, K>,
    phase: RunPhase,
    event: RunEvent<K, E>,
)
    ensures
        s.can_step(phase, event) ==> event.answers(phase),
        event is TickerStarted && phase is StartingTicker ==> (s.can_step(phase, event)
            <==> s.ticker is None),
        // Only the start of an epoch run, and the step behind its callback, can
        // ask for an interval: where there is no ticker yet.
        event is Begin && phase is Ready ==> (s.can_step(phase, event) <==> (s.mode is Fuel
            || !s.epoch_installed || s.ticker is Some || 64 * s.timeslice <= u64::MAX)),
        event is Done && phase is InstallingCallback ==> (s.can_step(phase, event) <==> (
        s.ticker is Some || 64 * s.timeslice <= u64::MAX)),
        event.answers(phase) && !(phase is Ready || phase is InstallingCallback
            || phase is StartingTicker) ==> s.can_step(phase, event),
{
}

/// Whatever the host is told to do, the run takes the reply to it and nothing
/// else: no run gets stuck before it is finished.
pub proof fn law_every_action_is_answered<F, K, E>(
    s: Sched<F, K>,
    phase: RunPhase,
    duration: u128,
    event: RunEvent<K, E>,
    reply: RunEvent<K, E>,
)
    requires
        s.can_step(phase, event),
    ensures
        ({
            let (t, after, action) = s.step(phase, duration, event);
            match action {
                RunAction::StopTicker(_) | RunAction::SetEpochDeadline(_) => t.can_step(
                    after,
                    reply,
                ) <==> reply is Done,
                RunAction::SetFuelYieldInterval(_) | RunAction::SetFuel(_) => t.can_step(
                    after,
                    reply,
                ) <==> reply is Done || reply is Failed,
                RunAction::InstallEpochCallback(_) => t.can_step(after, reply) <==> reply is Done
                    && (s.ticker is Some || 64 * s.timeslice <= u64::MAX),
                RunAction::StartTicker(_) => t.can_step(after, reply) <==> reply is TickerStarted,
                RunAction::ReadClock => t.can_step(after, reply) <==> reply is Clock,
                RunAction::Resume(_) => t.can_step(after, reply) <==> reply is Resumed,
                RunAction::Finish | RunAction::Fail(_) => !t.can_step(after, reply),
            }
        }),
{
}

/// How a run begins. By fuel: a ticker that is still there is stopped, and else
/// the yield interval is set to a slice. By epoch: the callback is installed
/// where it is not; else a ticker is started where there is none; else the
/// deadline is set. Never is a clock read or a fiber resumed.
pub proof fn law_begin<F, K, E>(s: Sched<F, K>, duration: u128)
    requires
        s.can_step(RunPhase::Ready, RunEvent::<K, E>::Begin),
    ensures
        ({
            let action = s.step(RunPhase::Ready, duration, RunEvent::<K, E>::Begin).2;
            let slice: u64 = if s.timeslice == 0 {
                1
            } else {
                s.timeslice
            };
            &&& s.mode is Fuel ==> match s.ticker {
                Some(ticker) => action == RunAction::<K, E>::StopTicker(ticker),
                None => action == RunAction::<K, E>::SetFuelYieldInterval(slice),
            }
            &&& s.mode is Epoch && !s.epoch_installed ==> action == RunAction::<
                K,
                E,
            >::InstallEpochCallback(slice)
            &&& s.mode is Epoch && s.epoch_installed ==> match s.ticker {
                Some(_) => action == RunAction::<K, E>::SetEpochDeadline(slice),
                None => action matches RunAction::StartTicker(micros) && micros == 64 * slice,
            }
            &&& !(action is ReadClock) && !(action is Resume) && !(action is Finish)
        }),
{
}

/// How a set-up goes on behind each reply, whatever the threads: the old ticker
/// is followed by the yield interval of a slice, that by fuel without limit,
/// that by the clock; the callback by the ticker, where there is none; the
/// ticker by the deadline of a slice, and that by the clock. A fuel setting that
/// failed ends the run with its error.
pub proof fn law_set_up_goes_on<F, K, E>(s: Sched<F, K>, duration: u128, ticker: K, error: E)
    ensures
        ({
            let done = RunEvent::<K, E>::Done;
            let failed = RunEvent::<K, E>::Failed(error);
            let started = RunEvent::<K, E>::TickerStarted(ticker);
            let slice: u64 = if s.timeslice == 0 {
                1
            } else {
                s.timeslice
            };
            let behind_callback = s.step(RunPhase::InstallingCallback, duration, done).2;
            &&& s.step(RunPhase::StoppingOldTicker, duration, done).2 == RunAction::<
                K,
                E,
            >::SetFuelYieldInterval(slice)
            &&& s.step(RunPhase::SettingYieldInterval, duration, done).2 == RunAction::<
                K,
                E,
            >::SetFuel(u64::MAX)
            &&& s.step(RunPhase::SettingFuel, duration, done).2 is ReadClock
            &&& s.step(RunPhase::SettingYieldInterval, duration, failed).2 == RunAction::<
                K,
                E,
            >::Fail(error)
            &&& s.step(RunPhase::SettingFuel, duration, failed).2 == RunAction::<K, E>::Fail(error)
            &&& s.ticker is Some ==> behind_callback == RunAction::<K, E>::SetEpochDeadline(slice)
            &&& s.ticker is None && 64 * slice <= u64::MAX ==> behind_callback == RunAction::<
                K,
                E,
            >::StartTicker((64 * slice) as u64)
            &&& s.step(RunPhase::StartingTicker, duration, started).2 == RunAction::<
                K,
                E,
            >::SetEpochDeadline(slice)
            &&& s.step(RunPhase::SettingDeadline, duration, done).2 is ReadClock
        }),
{
}

/// What follows on a reading of the clock. The run goes on just when the
/// scheduler is in service, time is left, and a live thread stands in the
/// queue: the first such thread is resumed. Else the run ends: in epoch mode a
/// ticker that is there is stopped first.
pub proof fn law_clock<F, K, E>(s: Sched<F, K>, duration: u128, elapsed: u128)
    ensures
        ({
            let action = s.step(
                RunPhase::ReadingClock,
                duration,
                RunEvent::<K, E>::Clock(elapsed),
            ).2;
            let goes_on = !s.shutdown && elapsed < duration && exists|i: int|
                0 <= i < s.run_queue.len() && s.threads.contains_key(#[trigger] s.run_queue[i]);
            &&& goes_on ==> action is Resume
            &&& action matches RunAction::Resume(id) ==> goes_on && s.threads.contains_key(id)
                && exists|i: int|
                #![trigger s.run_queue[i]]
                0 <= i < s.run_queue.len() && s.run_queue[i] == id && forall|j: int|
                    0 <= j < i ==> !s.threads.contains_key(#[trigger] s.run_queue[j])
            &&& !goes_on ==> match s.ticker {
                Some(ticker) => if s.mode is Epoch {
                    action == RunAction::<K, E>::StopTicker(ticker)
                } else {
                    action is Finish
                },
                None => action is Finish,
            }
        }),
{
    law_pick_is_first_live(s);
    if exists|i: int|
        0 <= i < s.run_queue.len() && s.threads.contains_key(#[trigger] s.run_queue[i]) {
        let i = choose|i: int|
            0 <= i < s.run_queue.len() && s.threads.contains_key(#[trigger] s.run_queue[i]);
        assert(s.threads.contains_key(s.run_queue[i]));
        assert(s.picked() is Some);
    }
}

/// When a fiber gave control back the clock is read again, however it fared;
/// and behind the last ticker the run returns success.
pub proof fn law_turn_ends<F, K, E>(
    s: Sched<F, K>,
    duration: u128,
    id: u32,
    outcome: FiberOutcome,
)
    ensures
        s.step(RunPhase::Resuming(id), duration, RunEvent::<K, E>::Resumed(outcome)).2 is ReadClock,
        s.step(RunPhase::StoppingTicker, duration, RunEvent::<K, E>::Done).2 is Finish,
        s.step(RunPhase::StoppingTicker, duration, RunEvent::<K, E>::Done).1 is Finished,
{
}

/// What a step can change. Never mode, slice, numbering, or whether the
/// scheduler is in service. The callback counts as installed from the step on
/// that asks for it. The ticker is the one that was handed over, none when the
/// host was told to stop it, and else what it was. A thread ends only with its
/// fiber, and only a clock reading or a fiber's return changes the order.
pub proof fn law_step_effect<F, K, E>(
    s: Sched<F, K>,
    phase: RunPhase,
    duration: u128,
    event: RunEvent<K, E>,
)
    requires
        event.answers(phase),
    ensures
        ({
            let (t, _, action) = s.step(phase, duration, event);
            &&& t.mode == s.mode
            &&& t.timeslice == s.timeslice
            &&& t.next_id == s.next_id
            &&& t.shutdown == s.shutdown
            &&& t.epoch_installed <==> s.epoch_installed || action is InstallEpochCallback
            &&& t.ticker == (match (phase, event) {
                (RunPhase::StartingTicker, RunEvent::TickerStarted(ticker)) => Some(ticker),
                _ => if action is StopTicker {
                    None
                } else {
                    s.ticker
                },
            })
            &&& !(phase is ReadingClock || phase is Resuming) ==> same_threads(s, t)
            &&& !(phase is Resuming) ==> t.threads == s.threads && t.names == s.names
        }),
{
}

/// What a reading of the clock does to the order. Where a thread is resumed, it
/// and the ended threads before it leave the queue, it is current, and it waits
/// no more; all others go on waiting. Where the run ends early nothing changes,
/// and where it ends for want of threads only ended ones leave the queue.
pub proof fn law_clock_effect<F, K, E>(s: Sched<F, K>, duration: u128, elapsed: u128)
    ensures
        ({
            let (t, _, action) = s.step(
                RunPhase::ReadingClock,
                duration,
                RunEvent::<K, E>::Clock(elapsed),
            );
            &&& action matches RunAction::Resume(id) ==> {
                &&& t.current == Some(id)
                &&& !t.enqueued.contains(id)
                &&& forall|x: u32|
                    x != id ==> (#[trigger] t.enqueued.contains(x) <==> s.enqueued.contains(x))
                &&& exists|i: int|
                    #![trigger s.run_queue[i]]
                    0 <= i < s.run_queue.len() && s.run_queue[i] == id && t.run_queue
                        == s.run_queue.skip(i + 1) && forall|j: int|
                        0 <= j < i ==> !s.threads.contains_key(#[trigger] s.run_queue[j])
            }
            &&& !(action is Resume) ==> t.current == s.current && t.enqueued == s.enqueued
            &&& s.shutdown || elapsed >= duration ==> t.run_queue == s.run_queue
            &&& !s.shutdown && elapsed < duration && !(action is Resume) ==> t.run_queue.len() == 0
                && forall|j: int|
                0 <= j < s.run_queue.len() ==> !s.threads.contains_key(#[trigger] s.run_queue[j])
        }),
{
    law_pick_is_first_live(s);
    law_pick_effect(s);
}

/// What a fiber's return does. One that suspended itself leaves its thread
/// alive and waiting, at the back where it did not wait; one that completed or
/// failed takes its thread with it. None is current then, and all other threads
/// keep what they have.
pub proof fn law_return_effect<F, K, E>(
    s: Sched<F, K>,
    duration: u128,
    id: u32,
    outcome: FiberOutcome,
)
    ensures
        ({
            let t = s.step(
                RunPhase::Resuming(id),
                duration,
                RunEvent::<K, E>::Resumed(outcome),
            ).0;
            &&& t.current is None
            &&& others_untouched(s, t, id)
            &&& match outcome {
                FiberOutcome::Completed | FiberOutcome::Failed => {
                    &&& !t.threads.contains_key(id) && !t.names.contains_key(id)
                    &&& !t.enqueued.contains(id)
                    &&& t.run_queue == s.run_queue
                },
                FiberOutcome::Yielded(_) => {
                    &&& t.threads == s.threads && t.names == s.names
                    &&& t.enqueued.contains(id)
                    &&& s.enqueued.contains(id) ==> t.run_queue == s.run_queue
                    &&& !s.enqueued.contains(id) ==> t.run_queue.len() == s.run_queue.len() + 1
                        && t.run_queue.last() == id && s.run_queue.is_prefix_of(t.run_queue)
                },
            }
        }),
{
    law_settle_effect(s, id, outcome);
}

/// What the host is told, whenever it is told it: fuel is without limit, each
/// slice is the configured one or one unit, an interval is 64 microseconds for
/// each unit of it, a ticker to stop is the scheduler's, one to start comes
/// where there is none, a deadline where there is one, and an error that ends a
/// run is the one that the store reported.
pub proof fn law_what_the_host_is_told<F, K, E>(
    s: Sched<F, K>,
    phase: RunPhase,
    duration: u128,
    event: RunEvent<K, E>,
)
    requires
        s.can_step(phase, event),
    ensures
        ({
            let (t, _, action) = s.step(phase, duration, event);
            let slice: u64 = if s.timeslice == 0 {
                1
            } else {
                s.timeslice
            };
            match action {
                RunAction::StopTicker(ticker) => s.ticker == Some(ticker) && t.ticker is None,
                RunAction::SetFuelYieldInterval(fuel) => fuel == slice,
                RunAction::SetFuel(fuel) => fuel == u64::MAX,
                RunAction::InstallEpochCallback(ticks) => ticks == slice && s.mode is Epoch
                    && !s.epoch_installed && t.epoch_installed,
                RunAction::StartTicker(micros) => micros == 64 * slice && t.ticker is None
                    && s.ticker is None,
                RunAction::SetEpochDeadline(ticks) => ticks == slice && t.ticker is Some,
                RunAction::ReadClock => phase is SettingFuel || phase is SettingDeadline
                    || phase is Resuming,
                RunAction::Resume(id) => phase is ReadingClock && !s.shutdown
                    && s.threads.contains_key(id) && t.threads.contains_key(id) && t.current
                    == Some(id),
                RunAction::Finish => phase is ReadingClock || phase is StoppingTicker,
                RunAction::Fail(error) => event == RunEvent::<K, E>::Failed(error),
            }
        }),
{
    law_pick_is_first_live(s);
    law_pick_effect(s);
}

/// The phase of a run of `duration` behind `steps`: what the scheduler was like
/// at each of them, and what the host reported. Between two steps anything may
/// have been called.
pub open spec fn phase_behind<F, K, E>(
    steps: Seq<(Sched<F, K>, RunEvent<K, E>)>,
    duration: u128,
) -> RunPhase
    decreases steps.len(),
{
    if steps.len() == 0 {
        RunPhase::Ready
    } else {
        let (s, event) = steps.last();
        s.step(phase_behind(steps.drop_last(), duration), duration, event).1
    }
}

/// What the host is told in step `i` of a run.
pub open spec fn action_in<F, K, E>(
    steps: Seq<(Sched<F, K>, RunEvent<K, E>)>,
    duration: u128,
    i: int,
) -> RunAction<K, E> {
    steps[i].0.step(phase_behind(steps.take(i), duration), duration, steps[i].1).2
}

/// The steps were possible, and all of them on a scheduler of this mode and
/// this timeslice.
pub open spec fn is_run<F, K, E>(
    steps: Seq<(Sched<F, K>, RunEvent<K, E>)>,
    duration: u128,
    epoch: bool,
    timeslice: u64,
) -> bool {
    forall|i: int|
        0 <= i < steps.len() ==> {
            let (s, event) = #[trigger] steps[i];
            &&& s.can_step(phase_behind(steps.take(i), duration), event)
            &&& s.mode is Epoch == epoch
            &&& s.timeslice == timeslice
        }
}

/// No fiber runs before it can be preempted. By epoch: in every run, before the
/// clock is first read or a fiber resumed, the host was told to set the
/// deadline, to a slice. By fuel: it was told to make fibers yield every slice,
/// and after that to give the store fuel without limit.
pub proof fn law_set_up_comes_first<F, K, E>(
    steps: Seq<(Sched<F, K>, RunEvent<K, E>)>,
    duration: u128,
    epoch: bool,
    timeslice: u64,
    i: int,
)
    requires
        is_run(steps, duration, epoch, timeslice),
        0 <= i < steps.len(),
        action_in(steps, duration, i) is ReadClock || action_in(steps, duration, i) is Resume,
    ensures
        ({
            let slice: u64 = if timeslice == 0 {
                1
            } else {
                timeslice
            };
            if epoch {
                exists|j: int|
                    0 <= j < i && #[trigger] action_in(steps, duration, j) == RunAction::<
                        K,
                        E,
                    >::SetEpochDeadline(slice)
            } else {
                exists|j: int, k: int|
                    0 <= j < k < i && #[trigger] action_in(steps, duration, j) == RunAction::<
                        K,
                        E,
                    >::SetFuelYieldInterval(slice) && #[trigger] action_in(steps, duration, k)
                        == RunAction::<K, E>::SetFuel(u64::MAX)
            }
        }),
{
    lemma_told_so_far(steps, duration, epoch, timeslice, i);
    let (s, event) = steps[i];
    law_what_the_host_is_told(s, phase_behind(steps.take(i), duration), duration, event);
}

/// What the host has been told behind `n` steps of a run, by the phase.
proof fn lemma_told_so_far<F, K, E>(
    steps: Seq<(Sched<F, K>, RunEvent<K, E>)>,
    duration: u128,
    epoch: bool,
    timeslice: u64,
    n: int,
)
    requires
        is_run(steps, duration, epoch, timeslice),
        0 <= n <= steps.len(),
    ensures
        ({
            let slice: u64 = if timeslice == 0 {
                1
            } else {
                timeslice
            };
            let phase = phase_behind(steps.take(n), duration);
            if epoch {
                &&& !(phase is StoppingOldTicker || phase is SettingYieldInterval
                    || phase is SettingFuel)
                &&& phase is SettingDeadline || phase is ReadingClock || phase is Resuming
                    ==> exists|j: int|
                    0 <= j < n && #[trigger] action_in(steps, duration, j) == RunAction::<
                        K,
                        E,
                    >::SetEpochDeadline(slice)
            } else {
                &&& !(phase is InstallingCallback || phase is StartingTicker
                    || phase is SettingDeadline)
                &&& phase is SettingYieldInterval ==> exists|j: int|
                    0 <= j < n && #[trigger] action_in(steps, duration, j) == RunAction::<
                        K,
                        E,
                    >::SetFuelYieldInterval(slice)
                &&& phase is SettingFuel || phase is ReadingClock || phase is Resuming
                    ==> exists|j: int, k: int|
                    0 <= j < k < n && #[trigger] action_in(steps, duration, j) == RunAction::<
                        K,
                        E,
                    >::SetFuelYieldInterval(slice) && #[trigger] action_in(steps, duration, k)
                        == RunAction::<K, E>::SetFuel(u64::MAX)
            }
        }),
    decreases n,
{
    if n > 0 {
        lemma_told_so_far(steps, duration, epoch, timeslice, n - 1);
        let (s, event) = steps[n - 1];
        let before = phase_behind(steps.take(n - 1), duration);
        assert(steps.take(n).drop_last() == steps.take(n - 1));
        assert(steps.take(n).last() == steps[n - 1]);
        assert(phase_behind(steps.take(n), duration) == s.step(before, duration, event).1);
        assert(s.can_step(before, event));
        let action = action_in(steps, duration, n - 1);
        assert(action == s.step(before, duration, event).2);
        law_phase_fits_action(s, before, duration, event);
        law_what_the_host_is_told(s, before, duration, event);
    }
}

/// Only a shutdown shuts the scheduler down: as long as none is called it stays
/// in service or out of it, whatever else is called.
pub proof fn law_only_shutdown_shuts_down<F, K, E>(s: Sched<F, K>, calls: Seq<Call<F, K, E>>)
    requires
        forall|i: int| 0 <= i < calls.len() ==> !(#[trigger] calls[i] is Shutdown),
    ensures
        s.called_all(calls).shutdown == s.shutdown,
    decreases calls.len(),
{
    if calls.len() > 0 {
        let before = calls.drop_last();
        assert forall|i: int| 0 <= i < before.len() implies !(#[trigger] before[i] is Shutdown) by {
            assert(before[i] == calls[i]);
        }
        law_only_shutdown_shuts_down(s, before);
        assert(!(calls[calls.len() - 1] is Shutdown));
    }
}

/// A scheduler that has run out of threads is not done for: a thread that is
/// spawned behind a run that ended for want of threads is the one that the next
/// run resumes.
pub proof fn law_spawn_behind_an_empty_run<F, K, E>(
    s: Sched<F, K>,
    first: (u128, u128),
    second: (u128, u128),
    fiber: F,
    name: Seq<char>,
)
    requires
        s.wf(None),
        !s.shutdown,
        first.1 < first.0,
        second.1 < second.0,
        forall|i: int|
            0 <= i < s.run_queue.len() ==> !s.threads.contains_key(#[trigger] s.run_queue[i]),
    ensures
        ({
            let t = s.step(RunPhase::ReadingClock, first.0, RunEvent::<K, E>::Clock(first.1)).0;
            let u = t.spawned(fiber, name);
            u.step(RunPhase::ReadingClock, second.0, RunEvent::<K, E>::Clock(second.1)).2
                == RunAction::<K, E>::Resume(s.next_id)
        }),
{
    let (t, _, action) = s.step(
        RunPhase::ReadingClock,
        first.0,
        RunEvent::<K, E>::Clock(first.1),
    );
    let u = t.spawned(fiber, name);
    law_clock_effect::<F, K, E>(s, first.0, first.1);
    law_clock::<F, K, E>(s, first.0, first.1);
    assert(!t.enqueued.contains(s.next_id)) by {
        if s.enqueued.contains(s.next_id) {
            let i = choose|i: int| 0 <= i < s.run_queue.len() && s.run_queue[i] == s.next_id;
            assert(!s.threads.contains_key(s.run_queue[i]));
        }
    }
    assert(u.run_queue == seq![s.next_id]);
    assert(u.threads.contains_key(u.run_queue[0]));
    law_clock::<F, K, E>(u, second.0, second.1);
}

/// The ready threads are the live ones of the queue in its order: a queue
/// without entries has none, and an entry more at its end is one more at theirs
/// just when its thread is live.
pub proof fn law_ready_follows_queue<F, K>(s: Sched<F, K>, id: u32)
    ensures
        s.run_queue.len() == 0 ==> s.ready().len() == 0,
        ({
            let longer = Sched { run_queue: s.run_queue.push(id), ..s };
            longer.ready() == (if s.threads.contains_key(id) {
                s.ready().push(id)
            } else {
                s.ready()
            })
        }),
{
    reveal(Seq::filter);
    let longer = Sched { run_queue: s.run_queue.push(id), ..s };
    assert(longer.run_queue.drop_last() == s.run_queue);
    assert((|x: u32| longer.live(x)) =~= (|x: u32| s.live(x)));
}

} // verus!
