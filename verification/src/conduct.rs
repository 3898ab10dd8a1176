use crate::model::{lemma_stale_prefix, stale_prefix, Sched};
use crate::run::{RunAction, RunEvent, RunPhase};
use crate::types::{FiberOutcome, PreemptiveMode};
use vstd::prelude::*;

verus! {

/// A new scheduler has no threads, no ticker and no callback, is in service,
/// and numbers its threads from zero.
pub proof fn law_starts_empty<F, K>(timeslice: u64, mode: PreemptiveMode)
    ensures
        ({
            let s = Sched::<F, K>::empty(timeslice, mode);
            &&& forall|id: u32| !(#[trigger] s.threads.contains_key(id))
            &&& forall|id: u32| !(#[trigger] s.names.contains_key(id))
            &&& forall|id: u32| !(#[trigger] s.enqueued.contains(id))
            &&& s.run_queue.len() == 0
            &&& s.current is None
            &&& s.next_id == 0
            &&& s.timeslice == timeslice
            &&& s.mode == mode
            &&& !s.epoch_installed
            &&& s.ticker is None
            &&& !s.shutdown
        }),
{
}

/// `t` differs from `s` at most in what waits and in what is current.
pub open spec fn only_order_differs<F, K>(s: Sched<F, K>, t: Sched<F, K>) -> bool {
    &&& t.threads == s.threads
    &&& t.names == s.names
    &&& t.next_id == s.next_id
    &&& t.timeslice == s.timeslice
    &&& t.mode == s.mode
    &&& t.epoch_installed == s.epoch_installed
    &&& t.ticker == s.ticker
    &&& t.shutdown == s.shutdown
}

/// `t` has the threads of `s`, and their order.
pub open spec fn same_threads<F, K>(s: Sched<F, K>, t: Sched<F, K>) -> bool {
    &&& t.threads == s.threads
    &&& t.names == s.names
    &&& t.run_queue == s.run_queue
    &&& t.enqueued == s.enqueued
    &&& t.current == s.current
}

/// Queueing a thread makes it wait. It gets a place at the back where it did
/// not wait, nobody else's place changes, and nothing else does.
pub proof fn law_enqueue_effect<F, K>(s: Sched<F, K>, id: u32)
    ensures
        ({
            let t = s.enqueue(id);
            &&& only_order_differs(s, t)
            &&& t.current == s.current
            &&& t.enqueued.contains(id)
            &&& forall|x: u32|
                x != id ==> (#[trigger] t.enqueued.contains(x) <==> s.enqueued.contains(x))
            &&& s.run_queue.is_prefix_of(t.run_queue)
            &&& s.enqueued.contains(id) ==> t.run_queue.len() == s.run_queue.len()
            &&& !s.enqueued.contains(id) ==> t.run_queue.len() == s.run_queue.len() + 1
                && t.run_queue[s.run_queue.len() as int] == id
        }),
{
}

/// The thread that is picked is live and stands in the queue with none but
/// ended threads before it; none is picked just when all in the queue have
/// ended.
pub proof fn law_pick_is_first_live<F, K>(s: Sched<F, K>)
    ensures
        match s.picked() {
            Some(id) => s.threads.contains_key(id) && exists|i: int|
                #![trigger s.run_queue[i]]
                0 <= i < s.run_queue.len() && s.run_queue[i] == id && s.popped().run_queue
                    == s.run_queue.skip(i + 1) && forall|j: int|
                    0 <= j < i ==> !s.threads.contains_key(#[trigger] s.run_queue[j]),
            None => s.popped().run_queue.len() == 0 && forall|j: int|
                0 <= j < s.run_queue.len() ==> !s.threads.contains_key(#[trigger] s.run_queue[j]),
        },
{
    let n = stale_prefix(s.run_queue, s.threads.dom()) as int;
    lemma_stale_prefix(s.run_queue, s.threads.dom());
    assert forall|j: int| 0 <= j < n implies !s.threads.contains_key(
        #[trigger] s.run_queue[j],
    ) by {
        assert(!s.threads.dom().contains(s.run_queue[j]));
    }
    if n < s.run_queue.len() {
        assert(s.threads.dom().contains(s.run_queue[n]));
        assert(s.run_queue[n] == s.picked()->0);
    }
}

/// The thread that is picked becomes current and waits no more, whoever else
/// waits goes on waiting, and nothing but the order changes. Where none is
/// picked, nobody's state changes.
pub proof fn law_pick_effect<F, K>(s: Sched<F, K>)
    ensures
        only_order_differs(s, s.popped()),
        s.picked() matches Some(id) ==> {
            &&& s.popped().current == Some(id)
            &&& !s.popped().enqueued.contains(id)
            &&& forall|x: u32|
                x != id ==> (#[trigger] s.popped().enqueued.contains(x) <==> s.enqueued.contains(x))
        },
        s.picked() is None ==> s.popped().current == s.current && s.popped().enqueued == s.enqueued,
{
}

/// A thread that is forgotten has no fiber, no name and no claim to wait, and
/// is not current. All others keep what they have; queue entries and settings
/// stay.
pub proof fn law_finish_effect<F, K>(s: Sched<F, K>, id: u32)
    ensures
        ({
            let t = s.finished(id);
            &&& !t.threads.contains_key(id) && !t.names.contains_key(id) && !t.enqueued.contains(id)
            &&& t.current == (if s.current == Some(id) {
                None
            } else {
                s.current
            })
            &&& others_untouched(s, t, id)
            &&& t.run_queue == s.run_queue
            &&& t.next_id == s.next_id && t.timeslice == s.timeslice && t.mode == s.mode
            &&& t.epoch_installed == s.epoch_installed
            &&& t.ticker == s.ticker && t.shutdown == s.shutdown
        }),
{
}

/// All threads but `id` have in `t` what they had in `s`.
pub open spec fn others_untouched<F, K>(s: Sched<F, K>, t: Sched<F, K>, id: u32) -> bool {
    &&& forall|x: u32|
        x != id ==> (#[trigger] t.threads.contains_key(x) <==> s.threads.contains_key(x))
    &&& forall|x: u32|
        x != id && s.threads.contains_key(x) ==> #[trigger] t.threads[x] == s.threads[x]
    &&& forall|x: u32|
        x != id ==> (#[trigger] t.names.contains_key(x) <==> s.names.contains_key(x))
    &&& forall|x: u32|
        x != id && s.names.contains_key(x) ==> #[trigger] t.names[x] == s.names[x]
    &&& forall|x: u32|
        x != id ==> (#[trigger] t.enqueued.contains(x) <==> s.enqueued.contains(x))
}

/// A thread whose fiber suspended itself, in whichever way, lives on and waits
/// at the back; one whose fiber completed or failed is gone. Either way none
/// is current, and all others keep what they have.
pub proof fn law_settle_effect<F, K>(s: Sched<F, K>, id: u32, outcome: FiberOutcome)
    ensures
        ({
            let t = s.settled(id, outcome);
            &&& t.current is None
            &&& others_untouched(s, t, id)
            &&& t.next_id == s.next_id && t.timeslice == s.timeslice && t.mode == s.mode
            &&& t.epoch_installed == s.epoch_installed
            &&& t.ticker == s.ticker && t.shutdown == s.shutdown
            &&& match outcome {
                FiberOutcome::Completed | FiberOutcome::Failed => {
                    &&& !t.threads.contains_key(id) && !t.names.contains_key(id)
                    &&& !t.enqueued.contains(id)
                    &&& t.run_queue == s.run_queue
                },
                FiberOutcome::Yielded(_) => {
                    &&& t.threads == s.threads && t.names == s.names
                    &&& t.enqueued.contains(id)
                    &&& s.enqueued.contains(id) ==> t.run_queue == s.run_queue
                    &&& !s.enqueued.contains(id) ==> t.run_queue.len() == s.run_queue.len() + 1
                        && t.run_queue.last() == id && s.run_queue.is_prefix_of(t.run_queue)
                },
            }
        }),
{
}

/// An epoch tick makes the current thread wait, at the back where it did not
/// wait, and leaves none current. Without a current thread it does nothing;
/// nothing but the order ever changes.
pub proof fn law_tick_effect<F, K>(s: Sched<F, K>)
    ensures
        ({
            let t = s.ticked();
            &&& only_order_differs(s, t)
            &&& t.current is None
            &&& s.current is None ==> t.run_queue == s.run_queue && t.enqueued == s.enqueued
            &&& s.current matches Some(id) ==> {
                &&& t.enqueued.contains(id)
                &&& forall|x: u32|
                    x != id ==> (#[trigger] t.enqueued.contains(x) <==> s.enqueued.contains(x))
                &&& s.enqueued.contains(id) ==> t.run_queue == s.run_queue
                &&& !s.enqueued.contains(id) ==> t.run_queue.len() == s.run_queue.len() + 1
                    && t.run_queue.last() == id && s.run_queue.is_prefix_of(t.run_queue)
            }
        }),
{
}

/// A spawned thread has the number that was due, its fiber and its name, and
/// waits, at the back where its number did not wait. The next number is due
/// then. All other threads, and all settings, stay.
pub proof fn law_spawn_effect<F, K>(s: Sched<F, K>, fiber: F, name: Seq<char>)
    ensures
        ({
            let t = s.spawned(fiber, name);
            let id = s.next_id;
            &&& t.threads.contains_key(id) && t.threads[id] == fiber
            &&& t.names.contains_key(id) && t.names[id] == name
            &&& t.enqueued.contains(id)
            &&& s.enqueued.contains(id) ==> t.run_queue == s.run_queue
            &&& !s.enqueued.contains(id) ==> t.run_queue.len() == s.run_queue.len() + 1
                && t.run_queue.last() == id && s.run_queue.is_prefix_of(t.run_queue)
            &&& others_untouched(s, t, id)
            &&& t.current == s.current
            &&& id < u32::MAX ==> t.next_id == id + 1
            &&& id == u32::MAX ==> t.next_id == 0
            &&& t.timeslice == s.timeslice && t.mode == s.mode
            &&& t.epoch_installed == s.epoch_installed
            &&& t.ticker == s.ticker && t.shutdown == s.shutdown
        }),
{
}

/// A failed spawn uses up a number and does nothing else.
pub proof fn law_failed_spawn_effect<F, K>(s: Sched<F, K>)
    ensures
        ({
            let t = s.claimed();
            &&& same_threads(s, t)
            &&& s.next_id < u32::MAX ==> t.next_id == s.next_id + 1
            &&& s.next_id == u32::MAX ==> t.next_id == 0
            &&& t.timeslice == s.timeslice && t.mode == s.mode
            &&& t.epoch_installed == s.epoch_installed
            &&& t.ticker == s.ticker && t.shutdown == s.shutdown
        }),
{
}

/// Preparing a spawn, or asking for the callback, can do no more than note
/// that the store has the callback: preparing notes it in epoch mode, and in
/// fuel mode does nothing.
pub proof fn law_prepare_effect<F, K>(s: Sched<F, K>)
    ensures
        only_order_differs(s, Sched { epoch_installed: s.epoch_installed, ..s.spawn_prepared() }),
        same_threads(s, s.spawn_prepared()),
        s.spawn_prepared().epoch_installed <==> s.epoch_installed || s.mode is Epoch,
        only_order_differs(s, Sched { epoch_installed: s.epoch_installed, ..s.installed() }),
        same_threads(s, s.installed()),
        s.installed().epoch_installed,
{
}

/// Starting and giving up the ticker changes the ticker alone.
pub proof fn law_ticker_effect<F, K>(s: Sched<F, K>, ticker: K)
    ensures
        s.ticker_started(ticker).ticker == Some(ticker),
        s.ticker_given_up().ticker is None,
        only_order_differs(s, Sched { ticker: s.ticker, ..s.ticker_started(ticker) }),
        only_order_differs(s, Sched { ticker: s.ticker, ..s.ticker_given_up() }),
        same_threads(s, s.ticker_started(ticker)),
        same_threads(s, s.ticker_given_up()),
{
}

/// A shutdown leaves no thread, no queue and no ticker, and the scheduler out
/// of service. The numbering, the settings and the callback stay.
pub proof fn law_shutdown_effect<F, K>(s: Sched<F, K>)
    ensures
        ({
            let t = s.shut_down();
            &&& t.shutdown
            &&& forall|id: u32| !(#[trigger] t.threads.contains_key(id))
            &&& forall|id: u32| !(#[trigger] t.names.contains_key(id))
            &&& forall|id: u32| !(#[trigger] t.enqueued.contains(id))
            &&& t.run_queue.len() == 0
            &&& t.current is None
            &&& t.ticker is None
            &&& t.next_id == s.next_id && t.timeslice == s.timeslice && t.mode == s.mode
            &&& t.epoch_installed == s.epoch_installed
        }),
{
}

/// A slice is the configured one, but at least one unit; the epoch advances
/// every 64 microseconds for each unit.
pub proof fn law_slice_and_interval<F, K>(s: Sched<F, K>)
    ensures
        s.slice() >= 1,
        s.slice() >= s.timeslice,
        s.slice() == s.timeslice || (s.timeslice == 0 && s.slice() == 1),
        s.timeslice >= 1 ==> s.ticker_interval() == 64 * s.timeslice,
        s.timeslice == 0 ==> s.ticker_interval() == 64,
{
}

} // verus!
