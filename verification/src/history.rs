use crate::laws::{law_ids_distinct, nth_id, same_settings};
use crate::model::Sched;
use crate::run::{RunAction, RunEvent, RunPhase};
use vstd::prelude::*;

verus! {

/// A call on the scheduler, by the host or by the scheduler itself. Steps may
/// belong to any number of runs.
pub enum Call<F, K, E> {
    /// The epoch callback is asked for.
    InstallCallback,
    /// A spawn is prepared.
    PrepareSpawn,
    /// A thread with this fiber and this name is spawned.
    Spawn(F, Seq<char>),
    /// A thread could not be spawned.
    FailedSpawn,
    /// The epoch ticks.
    Tick,
    /// The ticker is given up.
    StopTicker,
    /// A run in this phase and of this duration takes this event.
    Step(RunPhase, u128, RunEvent<K, E>),
    /// The scheduler is shut down.
    Shutdown,
}

impl<F, K> Sched<F, K> {
    /// Whether `call` may be made.
    pub open spec fn admits<E>(self, call: Call<F, K, E>) -> bool {
        call matches Call::Step(phase, _, event) ==> self.can_step(phase, event)
    }

    /// The scheduler after `call`.
    pub open spec fn called<E>(self, call: Call<F, K, E>) -> Self {
        match call {
            Call::InstallCallback => self.installed(),
            Call::PrepareSpawn => self.spawn_prepared(),
            Call::Spawn(fiber, name) => self.spawned(fiber, name),
            Call::FailedSpawn => self.claimed(),
            Call::Tick => self.ticked(),
            Call::StopTicker => self.ticker_given_up(),
            Call::Step(phase, duration, event) => self.step(phase, duration, event).0,
            Call::Shutdown => self.shut_down(),
        }
    }

    /// Whether `call` has the host install the epoch callback.
    pub open spec fn installs<E>(self, call: Call<F, K, E>) -> bool {
        match call {
            Call::InstallCallback => !self.epoch_installed,
            Call::PrepareSpawn => self.mode is Epoch && !self.epoch_installed,
            Call::Step(phase, duration, event) => self.step(
                phase,
                duration,
                event,
            ).2 is InstallEpochCallback,
            _ => false,
        }
    }

    /// The ticker that the host hands over with `call`.
    pub open spec fn ticker_taken<E>(self, call: Call<F, K, E>) -> Option<K> {
        match call {
            Call::Step(RunPhase::StartingTicker, _, RunEvent::TickerStarted(ticker)) => Some(
                ticker,
            ),
            _ => None,
        }
    }

    /// The ticker that the host is handed to stop with `call`.
    pub open spec fn ticker_returned<E>(self, call: Call<F, K, E>) -> Option<K> {
        match call {
            Call::StopTicker | Call::Shutdown => self.ticker,
            Call::Step(phase, duration, event) => match self.step(phase, duration, event).2 {
                RunAction::StopTicker(ticker) => Some(ticker),
                _ => None,
            },
            _ => None,
        }
    }

    /// The scheduler after all of `calls`.
    pub open spec fn called_all<E>(self, calls: Seq<Call<F, K, E>>) -> Self
        decreases calls.len(),
    {
        if calls.len() == 0 {
            self
        } else {
            self.called_all(calls.drop_last()).called(calls.last())
        }
    }

    /// Whether each of `calls` may be made when it is made.
    pub open spec fn admits_all<E>(self, calls: Seq<Call<F, K, E>>) -> bool
        decreases calls.len(),
    {
        calls.len() > 0 ==> {
            &&& self.admits_all(calls.drop_last())
            &&& self.called_all(calls.drop_last()).admits(calls.last())
        }
    }

    /// How often `calls` have the host install the epoch callback.
    pub open spec fn installs_in<E>(self, calls: Seq<Call<F, K, E>>) -> nat
        decreases calls.len(),
    {
        if calls.len() == 0 {
            0
        } else {
            self.installs_in(calls.drop_last()) + if self.called_all(calls.drop_last()).installs(
                calls.last(),
            ) {
                1nat
            } else {
                0nat
            }
        }
    }

    /// How many tickers the host hands over in `calls`.
    pub open spec fn tickers_taken<E>(self, calls: Seq<Call<F, K, E>>) -> nat
        decreases calls.len(),
    {
        if calls.len() == 0 {
            0
        } else {
            self.tickers_taken(calls.drop_last()) + count(
                self.called_all(calls.drop_last()).ticker_taken(calls.last()),
            )
        }
    }

    /// How many tickers the host is handed to stop in `calls`.
    pub open spec fn tickers_returned<E>(self, calls: Seq<Call<F, K, E>>) -> nat
        decreases calls.len(),
    {
        if calls.len() == 0 {
            0
        } else {
            self.tickers_returned(calls.drop_last()) + count(
                self.called_all(calls.drop_last()).ticker_returned(calls.last()),
            )
        }
    }
}

/// How many values an option holds.
pub open spec fn count<T>(value: Option<T>) -> nat {
    if value is Some {
        1
    } else {
        0
    }
}

impl<F, K, E> Call<F, K, E> {
    /// Whether the call hands out an identifier: a failed spawn does so too.
    pub open spec fn claims(self) -> bool {
        self is Spawn || self is FailedSpawn
    }
}

/// How many identifiers `calls` hand out.
pub open spec fn claims_of<F, K, E>(calls: Seq<Call<F, K, E>>) -> nat
    decreases calls.len(),
{
    if calls.len() == 0 {
        0
    } else {
        claims_of(calls.drop_last()) + if calls.last().claims() {
            1nat
        } else {
            0nat
        }
    }
}

/// Whatever is called, the next identifier tells how many were handed out: a
/// scheduler that began at zero counts them, until they wrap around.
pub proof fn law_ids_count<F, K, E>(s: Sched<F, K>, calls: Seq<Call<F, K, E>>)
    ensures
        s.called_all(calls).next_id == nth_id(s.next_id, claims_of(calls)),
        s.next_id + claims_of(calls) <= u32::MAX ==> s.called_all(calls).next_id == s.next_id
            + claims_of(calls),
        s.next_id == 0 && claims_of(calls) <= u32::MAX ==> s.called_all(calls).next_id
            == claims_of(calls),
    decreases calls.len(),
{
    if calls.len() > 0 {
        law_ids_count(s, calls.drop_last());
    }
}

/// Of two spawns the earlier gets a different identifier than the later,
/// whatever is called before, between and after, unless the identifiers have
/// just come round to the same number; and it gets the smaller one as long as
/// they have not wrapped around.
pub proof fn law_spawns_differ<F, K, E>(s: Sched<F, K>, calls: Seq<Call<F, K, E>>, i: int, j: int)
    requires
        0 <= i < j < calls.len(),
        calls[i].claims(),
        calls[j].claims(),
    ensures
        claims_of(calls.take(i)) < claims_of(calls.take(j)),
        (claims_of(calls.take(j)) - claims_of(calls.take(i))) % 0x1_0000_0000 != 0 ==> s.called_all(
            calls.take(i),
        ).next_id != s.called_all(calls.take(j)).next_id,
        s.next_id + claims_of(calls.take(j)) <= u32::MAX ==> s.called_all(calls.take(i)).next_id
            < s.called_all(calls.take(j)).next_id,
{
    lemma_claims_grow(calls, i, j);
    law_ids_count(s, calls.take(i));
    law_ids_count(s, calls.take(j));
    if (claims_of(calls.take(j)) - claims_of(calls.take(i))) % 0x1_0000_0000 != 0 {
        law_ids_distinct(s.next_id, claims_of(calls.take(i)), claims_of(calls.take(j)));
    }
}

/// Behind a call that hands out an identifier, more have been handed out.
proof fn lemma_claims_grow<F, K, E>(calls: Seq<Call<F, K, E>>, i: int, j: int)
    requires
        0 <= i < j <= calls.len(),
        calls[i].claims(),
    ensures
        claims_of(calls.take(i)) < claims_of(calls.take(j)),
    decreases j,
{
    assert(calls.take(j).drop_last() == calls.take(j - 1));
    assert(calls.take(j).last() == calls[j - 1]);
    if j > i + 1 {
        lemma_claims_grow(calls, i, j - 1);
    }
}

/// Whatever is called, mode and slice stay what they were, and so do an
/// installed callback and a shutdown: no step behind a shutdown resumes a
/// fiber.
pub proof fn law_settings_last<F, K, E>(
    s: Sched<F, K>,
    calls: Seq<Call<F, K, E>>,
    phase: RunPhase,
    duration: u128,
    event: RunEvent<K, E>,
)
    ensures
        same_settings(s, s.called_all(calls)),
        s.shutdown ==> !(s.called_all(calls).step(phase, duration, event).2 is Resume),
    decreases calls.len(),
{
    if calls.len() > 0 {
        law_settings_last(s, calls.drop_last(), phase, duration, event);
    }
}

/// Whatever is called, and however often, the store is given the epoch
/// callback at most once: just when the scheduler comes to count it as
/// installed. It has been given it after a call that asks for it, and keeps it.
pub proof fn law_one_callback<F, K, E>(s: Sched<F, K>, calls: Seq<Call<F, K, E>>)
    ensures
        s.epoch_installed ==> s.called_all(calls).epoch_installed && s.installs_in(calls) == 0,
        !s.epoch_installed ==> s.installs_in(calls) == (if s.called_all(calls).epoch_installed {
            1nat
        } else {
            0nat
        }),
        calls.len() > 0 && calls.last() is InstallCallback ==> s.called_all(calls).epoch_installed,
    decreases calls.len(),
{
    if calls.len() > 0 {
        law_one_callback(s, calls.drop_last());
    }
}

/// The scheduler's ticker changes in two ways only: where there is none, it
/// becomes the one that the host hands over; and where there is one, it is
/// handed to the host to be stopped.
pub proof fn law_ticker_changes<F, K, E>(s: Sched<F, K>, call: Call<F, K, E>)
    requires
        s.admits(call),
    ensures
        s.ticker is None ==> s.called(call).ticker == s.ticker_taken(call) && s.ticker_returned(
            call,
        ) is None,
        s.ticker is Some ==> s.ticker_taken(call) is None,
        s.ticker is Some ==> s.called(call).ticker == s.ticker && s.ticker_returned(call) is None
            || s.called(call).ticker is None && s.ticker_returned(call) == s.ticker,
        call matches Call::Step(phase, duration, event) ==> (s.step(
            phase,
            duration,
            event,
        ).2 is StartTicker ==> s.ticker is None),
{
}

/// At most one ticker belongs to the scheduler, whatever is called and however
/// many runs there are: all that the host handed over were handed back to be
/// stopped, but for the one that the scheduler still has.
pub proof fn law_one_ticker<F, K, E>(s: Sched<F, K>, calls: Seq<Call<F, K, E>>)
    requires
        s.admits_all(calls),
    ensures
        count(s.ticker) + s.tickers_taken(calls) == s.tickers_returned(calls) + count(
            s.called_all(calls).ticker,
        ),
    decreases calls.len(),
{
    if calls.len() > 0 {
        law_one_ticker(s, calls.drop_last());
        law_ticker_changes(s.called_all(calls.drop_last()), calls.last());
    }
}

/// One call leaves a thread that lives through it its fiber and its name,
/// unless it hands out the thread's identifier again.
proof fn lemma_call_keeps_name<F, K, E>(s: Sched<F, K>, call: Call<F, K, E>, id: u32)
    requires
        s.live(id),
        s.called(call).live(id),
        s.names.contains_key(id),
        call is Spawn ==> s.next_id != id,
    ensures
        s.called(call).threads[id] == s.threads[id],
        s.called(call).names.contains_key(id),
        s.called(call).names[id] == s.names[id],
{
}

/// A thread has the same fiber and the same name for as long as it lives,
/// whatever is called, unless its identifier is handed out again.
pub proof fn law_thread_keeps_name<F, K, E>(s: Sched<F, K>, calls: Seq<Call<F, K, E>>, id: u32)
    requires
        s.names.contains_key(id),
        forall|k: int|
            0 <= k <= calls.len() ==> (#[trigger] s.called_all(calls.take(k))).live(id),
        forall|k: int|
            0 <= k < calls.len() && calls[k] is Spawn ==> (#[trigger] s.called_all(
                calls.take(k),
            )).next_id != id,
    ensures
        s.called_all(calls).threads[id] == s.threads[id],
        s.called_all(calls).names.contains_key(id),
        s.called_all(calls).names[id] == s.names[id],
    decreases calls.len(),
{
    if calls.len() > 0 {
        let before = calls.drop_last();
        let last = calls.len() - 1;
        assert forall|k: int| 0 <= k <= before.len() implies (#[trigger] s.called_all(
            before.take(k),
        )).live(id) by {
            assert(before.take(k) == calls.take(k));
        }
        assert forall|k: int| 0 <= k < before.len() && before[k] is Spawn implies (
        #[trigger] s.called_all(before.take(k))).next_id != id by {
            assert(before.take(k) == calls.take(k));
            assert(before[k] == calls[k]);
        }
        law_thread_keeps_name(s, before, id);
        assert(calls.take(last) == before);
        assert(calls.take(last + 1) == calls);
        assert(s.called_all(calls.take(last)).live(id));
        assert(s.called_all(calls.take(last + 1)).live(id));
        lemma_call_keeps_name(s.called_all(before), calls.last(), id);
    }
}

/// A spawned thread has the fiber and the name that it was spawned with.
pub proof fn law_spawn_gives_name<F, K>(s: Sched<F, K>, fiber: F, name: Seq<char>)
    ensures
        s.spawned(fiber, name).threads.contains_pair(s.next_id, fiber),
        s.spawned(fiber, name).names.contains_pair(s.next_id, name),
{
}

} // verus!
