use crate::model::{lemma_stale_prefix, stale_prefix, Sched};
use crate::run::{RunAction, RunEvent, RunPhase};
use crate::types::{FiberOutcome, PreemptiveMode};
use crate::upkeep::{
    law_spawned_keeps, law_step_keeps, law_ticked_keeps, law_unwrapped_fresh, lemma_push_contains,
};
use vstd::prelude::*;

verus! {

impl<F, K> Sched<F, K> {
    /// `count` epoch ticks came.
    pub open spec fn ticked_times(self, count: nat) -> Self
        decreases count,
    {
        if count == 0 {
            self
        } else {
            self.ticked_times((count - 1) as nat).ticked()
        }
    }

    /// One slice: a thread is picked and resumed, `ticks` epoch ticks come
    /// while it has control, and it gives control back with `outcome`.
    pub open spec fn sliced(self, ticks: nat, outcome: FiberOutcome) -> Self {
        match self.picked() {
            Some(id) => self.popped().ticked_times(ticks).settled(id, outcome),
            None => self.popped(),
        }
    }

    /// The queue lists each thread that counts as waiting once, and no other.
    pub open spec fn exact_queue(self) -> bool {
        self.run_queue.no_duplicates() && self.enqueued == self.run_queue.to_set()
    }

    /// In service, with no fiber in control.
    pub open spec fn idle(self) -> bool {
        self.orderly(None) && !self.shutdown
    }
}

/// What can happen to a scheduler between runs of one and the same thread.
pub enum Happening<F> {
    /// A thread has a slice, with so many epoch ticks and this outcome.
    Slice(nat, FiberOutcome),
    /// A thread with this fiber and this name is spawned.
    Spawn(F, Seq<char>),
    /// A thread could not be spawned.
    FailedSpawn,
}

impl<F, K> Sched<F, K> {
    /// The scheduler after all of `history`.
    pub open spec fn after(self, history: Seq<Happening<F>>) -> Self
        decreases history.len(),
    {
        if history.len() == 0 {
            self
        } else {
            let s = self.after(history.drop_last());
            match history.last() {
                Happening::Slice(ticks, outcome) => s.sliced(ticks, outcome),
                Happening::Spawn(fiber, name) => s.spawned(fiber, name),
                Happening::FailedSpawn => s.claimed(),
            }
        }
    }
}

impl<F, K> Sched<F, K> {
    /// Whether each thread that is spawned in `history` gets a fresh
    /// identifier.
    pub open spec fn fresh_in(self, history: Seq<Happening<F>>) -> bool
        decreases history.len(),
    {
        history.len() > 0 ==> {
            &&& self.fresh_in(history.drop_last())
            &&& history.last() is Spawn ==> self.after(history.drop_last()).fresh(None)
        }
    }
}

/// How many slices there are in `history`.
pub open spec fn slices_in<F>(history: Seq<Happening<F>>) -> nat
    decreases history.len(),
{
    if history.len() == 0 {
        0
    } else {
        slices_in(history.drop_last()) + if history.last() is Slice {
            1nat
        } else {
            0nat
        }
    }
}

/// How many identifiers are handed out in `history`.
pub open spec fn claims_in<F>(history: Seq<Happening<F>>) -> nat
    decreases history.len(),
{
    if history.len() == 0 {
        0
    } else {
        claims_in(history.drop_last()) + if history.last() is Slice {
            0nat
        } else {
            1nat
        }
    }
}

/// The thread that is picked is the first that is ready, and picking takes it
/// off the ready threads and leaves the others in their order.
pub proof fn law_picks_first_ready<F, K>(s: Sched<F, K>)
    ensures
        s.picked() == (if s.ready().len() > 0 {
            Some(s.ready()[0])
        } else {
            None
        }),
        s.ready().len() > 0 ==> s.popped().ready() == s.ready().skip(1),
        s.ready().len() == 0 ==> s.popped().ready() == s.ready(),
{
    let live = |id: u32| s.live(id);
    let queue = s.run_queue;
    let n = stale_prefix(queue, s.threads.dom()) as int;
    lemma_stale_prefix(queue, s.threads.dom());
    let stale = queue.take(n);
    lemma_filter_none(stale, live);
    if n < queue.len() {
        let rest = queue.skip(n + 1);
        assert(queue == stale.push(queue[n]) + rest);
        lemma_filter_push(stale, queue[n], live);
        Seq::filter_distributes_over_add(stale.push(queue[n]), rest, live);
        assert(s.ready() == Seq::empty().push(queue[n]) + rest.filter(live));
        lemma_filter_agrees(rest, live, |id: u32| s.popped().live(id));
        assert(s.popped().ready() == rest.filter(live));
        assert(s.ready().skip(1) == rest.filter(live));
    } else {
        assert(queue == stale);
        lemma_filter_none(s.popped().run_queue, |id: u32| s.popped().live(id));
    }
}

/// No thread is lost: while no fiber has control, every live thread is ready,
/// once.
pub proof fn law_every_live_thread_ready<F, K>(s: Sched<F, K>)
    requires
        s.idle(),
    ensures
        forall|id: u32| #[trigger] s.ready().contains(id) <==> s.live(id),
        s.ready().no_duplicates(),
{
    let live = |id: u32| s.live(id);
    assert forall|id: u32| s.live(id) implies #[trigger] s.ready().contains(id) by {
        assert(s.enqueued.contains(id));
        let i = choose|i: int| 0 <= i < s.run_queue.len() && s.run_queue[i] == id;
        s.run_queue.lemma_filter_contains(live, i);
    }
    assert forall|id: u32| #[trigger] s.ready().contains(id) implies s.live(id) by {
        let i = choose|i: int| 0 <= i < s.ready().len() && s.ready()[i] == id;
        s.run_queue.lemma_filter_pred(live, i);
    }
    lemma_filter_no_duplicates(s.run_queue, live);
}

/// To put a thread in the queue a second time changes nothing, and the queue
/// stays a list without repetition of just the threads that wait.
pub proof fn law_enqueue_once<F, K>(s: Sched<F, K>, id: u32)
    ensures
        s.enqueue(id).enqueue(id) == s.enqueue(id),
        s.exact_queue() ==> s.enqueue(id).exact_queue(),
{
    if s.exact_queue() && !s.enqueued.contains(id) {
        assert(s.run_queue.to_set().contains(id) <==> s.run_queue.contains(id));
        lemma_push_contains(s.run_queue, id);
        assert(s.enqueue(id).enqueued =~= s.enqueue(id).run_queue.to_set());
    }
}

/// To forget a thread that is not known changes nothing, and so does
/// forgetting a thread a second time.
pub proof fn law_finish_once<F, K>(s: Sched<F, K>, id: u32)
    ensures
        !s.live(id) && !s.names.contains_key(id) && !s.enqueued.contains(id) && s.current != Some(
            id,
        ) ==> s.finished(id) == s,
        s.finished(id).finished(id) == s.finished(id),
{
    let t = s.finished(id);
    if !s.live(id) && !s.names.contains_key(id) && !s.enqueued.contains(id) && s.current != Some(
        id,
    ) {
        assert(s.threads.remove(id) =~= s.threads);
        assert(s.names.remove(id) =~= s.names);
        assert(s.enqueued.remove(id) =~= s.enqueued);
    }
    assert(t.threads.remove(id) =~= t.threads);
    assert(t.names.remove(id) =~= t.names);
    assert(t.enqueued.remove(id) =~= t.enqueued);
}

/// Where the queue lists just the live threads, the one at its head is picked.
/// The queue then lists all live threads but the current one.
pub proof fn law_pick_from_exact_queue<F, K>(s: Sched<F, K>)
    requires
        s.exact_queue(),
        forall|id: u32| #[trigger] s.run_queue.contains(id) <==> s.live(id),
        s.current is None,
    ensures
        s.picked() == (if s.run_queue.len() == 0 {
            None
        } else {
            Some(s.run_queue[0])
        }),
        s.popped().current == s.picked(),
        s.popped().exact_queue(),
        s.popped().threads == s.threads,
        forall|id: u32| #[trigger]
            s.popped().run_queue.contains(id) <==> s.live(id) && s.popped().current != Some(id),
{
    let queue = s.run_queue;
    let rest = s.popped().run_queue;
    if queue.len() > 0 {
        assert(queue.contains(queue[0]));
        assert(rest == queue.skip(1));
        assert forall|id: u32| #[trigger] rest.contains(id) implies queue.contains(id) && id
            != queue[0] by {
            let i = choose|i: int| 0 <= i < rest.len() && rest[i] == id;
            assert(queue[i + 1] == id);
        }
        assert forall|id: u32| queue.contains(id) && id != queue[0] implies #[trigger]
            rest.contains(id) by {
            let i = choose|i: int| 0 <= i < queue.len() && queue[i] == id;
            assert(rest[i - 1] == id);
        }
    }
    assert(s.popped().enqueued =~= rest.to_set()) by {
        assert forall|id: u32| #[trigger] s.popped().enqueued.contains(id) <==> rest.contains(
            id,
        ) by {
            assert(s.enqueued.contains(id) <==> queue.contains(id));
        }
    }
    assert forall|id: u32| #[trigger] rest.contains(id) <==> s.live(id) && s.popped().current
        != Some(id) by {
        assert(queue.contains(id) <==> s.live(id));
    }
}

/// A second tick in a slice changes nothing.
pub proof fn law_tick_idempotent<F, K>(s: Sched<F, K>, count: nat)
    requires
        count > 0,
    ensures
        s.ticked_times(count) == s.ticked(),
    decreases count,
{
    if count > 1 {
        law_tick_idempotent(s, (count - 1) as nat);
    } else {
        reveal_with_fuel(Sched::ticked_times, 2);
    }
}

/// Whether the epoch ticked during a slice makes no difference to a thread
/// that then yields: it waits once, at the back of the queue.
pub proof fn law_ticks_before_yield<F, K>(s: Sched<F, K>, ticks: nat, how: FiberOutcome)
    requires
        how.yields(),
    ensures
        s.sliced(ticks, how) == s.sliced(0, how),
{
    if s.picked() is Some && ticks > 0 {
        law_tick_idempotent(s.popped(), ticks);
        let id = s.picked()->0;
        assert(s.popped().ticked_times(0) == s.popped());
        assert(s.popped().ticked().settled(id, how) == s.popped().settled(id, how));
    }
}

/// A slice leaves the scheduler idle again.
proof fn lemma_sliced_keeps<F, K>(s: Sched<F, K>, ticks: nat, outcome: FiberOutcome)
    requires
        s.idle(),
    ensures
        s.sliced(ticks, outcome).idle(),
        s.unwrapped(None) ==> s.sliced(ticks, outcome).unwrapped(None),
        s.sliced(ticks, outcome).next_id == s.next_id,
{
    law_step_keeps(s, RunPhase::ReadingClock, 1, RunEvent::<K, ()>::Clock(0));
    if let Some(id) = s.picked() {
        let t = s.popped();
        let u = t.ticked_times(ticks);
        assert(t.orderly(Some(id)));
        if ticks > 0 {
            law_tick_idempotent(t, ticks);
            law_ticked_keeps(t, Some(id));
        }
        law_step_keeps(u, RunPhase::Resuming(id), 1, RunEvent::<K, ()>::Resumed(outcome));
    } else {
        assert(s.popped().orderly(None));
    }
}

/// Round robin, one slice: the thread at the head of the ready threads runs.
/// If it yields it goes to their back, and else it is gone; the others keep
/// their order and move up. Epoch ticks change nothing about that.
pub proof fn law_slice_rotates<F, K>(s: Sched<F, K>, ticks: nat, outcome: FiberOutcome)
    requires
        s.idle(),
        s.ready().len() > 0,
    ensures
        s.picked() == Some(s.ready()[0]),
        s.sliced(ticks, outcome).idle(),
        s.sliced(ticks, outcome).ready() == (if outcome.yields() {
            s.ready().skip(1).push(s.ready()[0])
        } else {
            s.ready().skip(1)
        }),
        s.sliced(ticks, outcome).threads == (if outcome.yields() {
            s.threads
        } else {
            s.threads.remove(s.ready()[0])
        }),
{
    law_picks_first_ready(s);
    let id = s.ready()[0];
    let t = s.popped();
    let v = s.sliced(ticks, outcome);
    lemma_sliced_keeps(s, ticks, outcome);
    law_step_keeps(s, RunPhase::ReadingClock, 1, RunEvent::<K, ()>::Clock(0));
    if ticks > 0 {
        law_tick_idempotent(t, ticks);
    }
    assert(t.live(id)) by {
        lemma_stale_prefix(s.run_queue, s.threads.dom());
    }
    assert(!t.run_queue.contains(id)) by {
        assert(t.run_queue.contains(id) ==> t.enqueued.contains(id));
    }
    let before = |x: u32| t.live(x);
    let after = |x: u32| v.live(x);
    assert forall|i: int| 0 <= i < t.run_queue.len() implies before(#[trigger] t.run_queue[i])
        == after(t.run_queue[i]) by {
        assert(t.run_queue.contains(t.run_queue[i]));
    }
    lemma_filter_agrees(t.run_queue, before, after);
    lemma_filter_push(t.run_queue, id, after);
}

/// No starvation: a thread that `n` others are ready before runs in slice `n`,
/// however these others fare and whatever is spawned meanwhile, as long as
/// fresh identifiers are handed out.
pub proof fn law_no_starvation<F, K>(s: Sched<F, K>, history: Seq<Happening<F>>)
    requires
        s.idle(),
        s.fresh_in(history),
        slices_in(history) < s.ready().len(),
    ensures
        s.after(history).picked() == Some(s.ready()[slices_in(history) as int]),
{
    lemma_waiting_move_up(s, history);
    law_picks_first_ready(s.after(history));
    assert(s.ready().skip(slices_in(history) as int)[0] == s.ready()[slices_in(history) as int]);
}

/// Until the identifiers wrap around, each new thread gets a fresh one.
pub proof fn law_fresh_until_wrapped<F, K>(s: Sched<F, K>, history: Seq<Happening<F>>)
    requires
        s.idle(),
        s.unwrapped(None),
        s.next_id + claims_in(history) <= u32::MAX,
    ensures
        s.fresh_in(history),
        s.after(history).idle(),
        s.after(history).unwrapped(None),
        s.after(history).next_id == s.next_id + claims_in(history),
    decreases history.len(),
{
    if history.len() > 0 {
        let t = s.after(history.drop_last());
        law_fresh_until_wrapped(s, history.drop_last());
        match history.last() {
            Happening::Slice(ticks, outcome) => lemma_sliced_keeps(t, ticks, outcome),
            Happening::Spawn(fiber, name) => {
                law_unwrapped_fresh(t, None, fiber, name);
                law_spawned_keeps(t, None, fiber, name);
            },
            Happening::FailedSpawn => {},
        }
    }
}

/// Whatever happened, the ready threads begin with those that have not run.
proof fn lemma_waiting_move_up<F, K>(s: Sched<F, K>, history: Seq<Happening<F>>)
    requires
        s.idle(),
        s.fresh_in(history),
        slices_in(history) <= s.ready().len(),
    ensures
        s.after(history).idle(),
        s.ready().skip(slices_in(history) as int).is_prefix_of(s.after(history).ready()),
    decreases history.len(),
{
    if history.len() > 0 {
        let before = history.drop_last();
        let t = s.after(before);
        let waiting = s.ready().skip(slices_in(before) as int);
        lemma_waiting_move_up(s, before);
        assert forall|i: int| 0 <= i < waiting.len() implies waiting[i] == t.ready()[i] by {}
        match history.last() {
            Happening::Slice(ticks, outcome) => {
                law_slice_rotates(t, ticks, outcome);
                assert(s.ready().skip(slices_in(history) as int) == waiting.skip(1));
            },
            Happening::Spawn(fiber, name) => {
                law_spawned_keeps(t, None, fiber, name);
                law_spawn_joins_back(t, None, fiber, name);
            },
            Happening::FailedSpawn => {
                lemma_filter_agrees(
                    t.run_queue,
                    |id: u32| t.live(id),
                    |id: u32| t.claimed().live(id),
                );
            },
        }
    }
}

/// `history` is slices alone, and in each of them the thread yields, or in each
/// of them it ends.
pub open spec fn slices_only<F>(history: Seq<Happening<F>>, yielding: bool) -> bool {
    forall|i: int|
        0 <= i < history.len() ==> (#[trigger] history[i] matches Happening::Slice(_, outcome)
            && outcome.yields() == yielding)
}

/// `queue` with its first `count` entries moved to its end, one by one.
pub open spec fn rotated(queue: Seq<u32>, count: nat) -> Seq<u32> {
    if queue.len() == 0 {
        queue
    } else {
        let n = count as int % queue.len() as int;
        queue.skip(n) + queue.take(n)
    }
}

/// Round robin, many slices: as long as all threads yield, each slice moves
/// one thread from the head to the back, so that the threads run over and over
/// in one order, and none is lost.
pub proof fn law_round_robin<F, K>(s: Sched<F, K>, history: Seq<Happening<F>>)
    requires
        s.idle(),
        slices_only(history, true),
    ensures
        s.after(history).idle(),
        s.after(history).ready() == rotated(s.ready(), history.len()),
        s.after(history).threads == s.threads,
        s.ready().len() > 0 ==> s.after(history).picked() == Some(
            s.ready()[history.len() as int % s.ready().len() as int],
        ),
    decreases history.len(),
{
    let count = s.ready().len() as int;
    if history.len() > 0 {
        let before = history.drop_last();
        let t = s.after(before);
        assert(slices_only(before, true)) by {
            assert forall|i: int| 0 <= i < before.len() implies (#[trigger] before[i] matches
                Happening::Slice(_, outcome) && outcome.yields()) by {
                assert(before[i] == history[i]);
            }
        }
        law_round_robin(s, before);
        assert(history[history.len() - 1] is Slice);
        if let Happening::Slice(ticks, outcome) = history.last() {
            lemma_sliced_keeps(t, ticks, outcome);
            if count > 0 {
                law_slice_rotates(t, ticks, outcome);
                lemma_next_mod(before.len() as int, count);
                let n = before.len() as int % count;
                assert(t.ready()[0] == s.ready()[n]);
                assert(t.ready().skip(1).push(t.ready()[0]) == rotated(
                    s.ready(),
                    history.len(),
                ));
            } else {
                law_picks_first_ready(t);
                assert(s.after(history).ready() == t.ready());
            }
        }
    } else if count > 0 {
        vstd::arithmetic::div_mod::lemma_small_mod(0, count as nat);
        assert(rotated(s.ready(), 0) == s.ready());
    }
    law_picks_first_ready(s.after(history));
    if count > 0 {
        lemma_mod_in_range(history.len() as int, count);
    }
}

/// A remainder is below the divisor.
proof fn lemma_mod_in_range(n: int, d: int)
    requires
        d > 0,
    ensures
        0 <= n % d < d,
{
    vstd::arithmetic::div_mod::lemma_mod_bound(n, d);
}

/// How the remainder goes on from one number to the next.
proof fn lemma_next_mod(n: int, d: int)
    requires
        n >= 0,
        d > 0,
    ensures
        0 <= n % d < d,
        (n + 1) % d == (if n % d + 1 == d {
            0
        } else {
            n % d + 1
        }),
{
    let q = n / d;
    let r = n % d;
    vstd::arithmetic::div_mod::lemma_fundamental_div_mod(n, d);
    lemma_mod_in_range(n, d);
    if r + 1 == d {
        assert(n + 1 == (q + 1) * d) by (nonlinear_arith)
            requires
                n == d * q + r,
                r + 1 == d,
        ;
        vstd::arithmetic::div_mod::lemma_fundamental_div_mod_converse(n + 1, d, q + 1, 0);
    } else {
        assert(n + 1 == q * d + (r + 1)) by (nonlinear_arith)
            requires
                n == d * q + r,
        ;
        vstd::arithmetic::div_mod::lemma_fundamental_div_mod_converse(n + 1, d, q, r + 1);
    }
}

/// When every thread ends in its first slice, none is left after as many
/// slices as there were threads.
pub proof fn law_all_end<F, K>(s: Sched<F, K>, history: Seq<Happening<F>>)
    requires
        s.idle(),
        slices_only(history, false),
        history.len() == s.ready().len(),
    ensures
        s.after(history).threads =~= Map::empty(),
        s.after(history).names =~= Map::empty(),
        s.after(history).picked() is None,
{
    lemma_ends_shorten(s, history);
    let t = s.after(history);
    law_every_live_thread_ready(t);
    law_picks_first_ready(t);
    assert forall|id: u32| !t.threads.contains_key(id) by {
        assert(!t.ready().contains(id));
    }
}

/// Slices in which threads end take the head off the ready threads.
proof fn lemma_ends_shorten<F, K>(s: Sched<F, K>, history: Seq<Happening<F>>)
    requires
        s.idle(),
        slices_only(history, false),
        history.len() <= s.ready().len(),
    ensures
        s.after(history).idle(),
        s.after(history).ready() == s.ready().skip(history.len() as int),
    decreases history.len(),
{
    let n = history.len() as int;
    if n > 0 {
        let before = history.drop_last();
        assert(slices_only(before, false)) by {
            assert forall|i: int| 0 <= i < before.len() implies (#[trigger] before[i] matches
                Happening::Slice(_, outcome) && !outcome.yields()) by {
                assert(before[i] == history[i]);
            }
        }
        lemma_ends_shorten(s, before);
        assert(history[n - 1] is Slice);
        if let Happening::Slice(ticks, outcome) = history.last() {
            law_slice_rotates(s.after(before), ticks, outcome);
        }
        assert(s.ready().skip(n - 1).skip(1) == s.ready().skip(n));
    } else {
        assert(s.ready().skip(0) == s.ready());
    }
}

/// A new thread is ready behind all others, so it delays none of them. One
/// that replaces a live thread stands where that one stood.
pub proof fn law_spawn_joins_back<F, K>(
    s: Sched<F, K>,
    in_flight: Option<u32>,
    fiber: F,
    name: Seq<char>,
)
    requires
        s.wf(in_flight),
        s.fresh(in_flight),
    ensures
        s.spawned(fiber, name).ready() == (if s.live(s.next_id) {
            s.ready()
        } else {
            s.ready().push(s.next_id)
        }),
{
    let t = s.spawned(fiber, name);
    let before = |x: u32| s.live(x);
    let after = |x: u32| t.live(x);
    assert forall|i: int| 0 <= i < s.run_queue.len() implies before(#[trigger] s.run_queue[i])
        == after(s.run_queue[i]) by {
        assert(s.run_queue.contains(s.run_queue[i]));
    }
    lemma_filter_agrees(s.run_queue, before, after);
    lemma_filter_push(s.run_queue, s.next_id, after);
}

/// An epoch tick puts the current thread behind all others that are ready.
pub proof fn law_tick_requeues<F, K>(s: Sched<F, K>, id: u32)
    requires
        s.orderly(Some(id)),
        s.current == Some(id),
    ensures
        s.ticked().ready() == s.ready().push(id),
        s.ticked().current is None,
{
    let before = |x: u32| s.live(x);
    let after = |x: u32| s.ticked().live(x);
    lemma_filter_agrees(s.run_queue, before, after);
    lemma_filter_push(s.run_queue, id, after);
}

/// A run resumes a fiber just when it has time left, the scheduler is in
/// service and a thread is ready: the first such thread.
pub proof fn law_resumes_iff<F, K, E>(s: Sched<F, K>, duration: u128, elapsed: u128)
    ensures
        ({
            let (_, after, action) = s.step(
                RunPhase::ReadingClock,
                duration,
                RunEvent::<K, E>::Clock(elapsed),
            );
            if !s.shutdown && elapsed < duration && s.ready().len() > 0 {
                after == RunPhase::Resuming(s.ready()[0]) && action == RunAction::<K, E>::Resume(
                    s.ready()[0],
                )
            } else {
                after is StoppingTicker || after is Finished
            }
        }),
{
    law_picks_first_ready(s);
}

/// What a run does between two looks at the clock is one slice.
pub proof fn law_run_goes_by_slices<F, K, E>(
    s: Sched<F, K>,
    duration: u128,
    elapsed: u128,
    ticks: nat,
    outcome: FiberOutcome,
)
    requires
        !s.shutdown,
        elapsed < duration,
        s.ready().len() > 0,
    ensures
        ({
            let id = s.ready()[0];
            let (resumed, phase, action) = s.step(
                RunPhase::ReadingClock,
                duration,
                RunEvent::<K, E>::Clock(elapsed),
            );
            &&& phase == RunPhase::Resuming(id)
            &&& action == RunAction::<K, E>::Resume(id)
            &&& resumed.ticked_times(ticks).step(
                phase,
                duration,
                RunEvent::<K, E>::Resumed(outcome),
            ) == (s.sliced(ticks, outcome), RunPhase::ReadingClock, RunAction::<K, E>::ReadClock)
        }),
{
    law_picks_first_ready(s);
}

/// Steps in which no fiber gets or gives back control leave the threads and
/// their order alone: a run takes up where the run before it stopped.
pub proof fn law_runs_take_up<F, K, E>(
    s: Sched<F, K>,
    phase: RunPhase,
    duration: u128,
    event: RunEvent<K, E>,
)
    requires
        !(phase is Resuming),
        !(s.step(phase, duration, event).2 is Resume),
    ensures
        s.step(phase, duration, event).0.threads == s.threads,
        s.step(phase, duration, event).0.names == s.names,
        s.step(phase, duration, event).0.ready() == s.ready(),
        s.step(phase, duration, event).0.current == s.current,
{
    let t = s.step(phase, duration, event).0;
    law_picks_first_ready(s);
    lemma_filter_agrees(t.run_queue, |id: u32| s.live(id), |id: u32| t.live(id));
    if phase is ReadingClock {
        lemma_filter_agrees(
            s.popped().run_queue,
            |id: u32| s.popped().live(id),
            |id: u32| s.live(id),
        );
    }
}

/// What the scheduler was made with never changes, identifiers are handed out
/// by spawning alone, and once the epoch callback is installed, or the
/// scheduler shut down, that stays so.
pub proof fn law_settings_stay<F, K, E>(
    s: Sched<F, K>,
    phase: RunPhase,
    duration: u128,
    event: RunEvent<K, E>,
    fiber: F,
    name: Seq<char>,
)
    ensures
        same_settings(s, s.ticked()),
        same_settings(s, s.shut_down()),
        same_settings(s, s.claimed()),
        same_settings(s, s.spawned(fiber, name)),
        same_settings(s, s.step(phase, duration, event).0),
        s.ticked().next_id == s.next_id,
        s.shut_down().next_id == s.next_id,
        s.step(phase, duration, event).0.next_id == s.next_id,
        s.claimed().next_id == crate::model::following_id(s.next_id),
        s.spawned(fiber, name).next_id == crate::model::following_id(s.next_id),
{
}

/// `t` has the mode and the slice of `s`, and has kept what stays for good.
pub open spec fn same_settings<F, K>(s: Sched<F, K>, t: Sched<F, K>) -> bool {
    &&& t.mode == s.mode
    &&& t.timeslice == s.timeslice
    &&& s.epoch_installed ==> t.epoch_installed
    &&& s.shutdown ==> t.shutdown
}

/// The epoch callback is installed once: only a run of a scheduler without it
/// asks for it, and has it from then on.
pub proof fn law_callback_installed_once<F, K, E>(
    s: Sched<F, K>,
    phase: RunPhase,
    duration: u128,
    event: RunEvent<K, E>,
)
    ensures
        s.step(phase, duration, event).2 is InstallEpochCallback ==> !s.epoch_installed && s.step(
            phase,
            duration,
            event,
        ).0.epoch_installed,
{
}

/// After a shutdown nothing is left of the threads, a second shutdown changes
/// nothing, and no run resumes a fiber, not even one that is spawned later.
pub proof fn law_shutdown_is_final<F, K, E>(
    s: Sched<F, K>,
    phase: RunPhase,
    duration: u128,
    event: RunEvent<K, E>,
)
    ensures
        s.shut_down().ready() == Seq::<u32>::empty(),
        s.shut_down().shut_down() == s.shut_down(),
        s.shutdown ==> !(s.step(phase, duration, event).2 is Resume),
{
    lemma_filter_none(s.shut_down().run_queue, |id: u32| s.shut_down().live(id));
}

impl<F, K> Sched<F, K> {
    /// What a run in `phase` knows of the ticker.
    pub open spec fn ticker_known(self, phase: RunPhase) -> bool {
        match phase {
            RunPhase::Ready => true,
            RunPhase::StoppingOldTicker
            | RunPhase::SettingYieldInterval
            | RunPhase::SettingFuel => self.mode is Fuel && self.ticker is None,
            RunPhase::InstallingCallback | RunPhase::SettingDeadline => self.mode is Epoch,
            RunPhase::StartingTicker => self.mode is Epoch && self.ticker is None,
            RunPhase::ReadingClock | RunPhase::Resuming(_) => self.mode is Fuel
                ==> self.ticker is None,
            RunPhase::StoppingTicker | RunPhase::Finished => self.ticker is None,
        }
    }
}

/// To start a ticker where there is none and to give it up again leaves
/// everything as it was; to give up once more changes nothing; and a run then
/// asks for a new ticker, as it did before.
pub proof fn law_ticker_round_trip<F, K, E>(s: Sched<F, K>, ticker: K)
    requires
        s.ticker is None,
    ensures
        s.ticker_started(ticker).ticker_given_up() == s,
        s.ticker_given_up() == s,
        s.ticking::<E>() == (
            s,
            RunPhase::StartingTicker,
            RunAction::<K, E>::StartTicker(s.ticker_interval() as u64),
        ),
        s.ticker_started(ticker).ticker_given_up().ticking::<E>() == s.ticking::<E>(),
{
}

/// A run that wants to tick has a ticker when it sets its deadline: the one
/// that was there, or else the one that the host started for it. Where there
/// is one, no other is asked for.
pub proof fn law_ticker_ensured<F, K, E>(s: Sched<F, K>, duration: u128, ticker: K)
    ensures
        ({
            let (t, phase, action) = s.ticking::<E>();
            let started = RunEvent::<K, E>::TickerStarted(ticker);
            if s.ticker is Some {
                t == s && phase is SettingDeadline && action == RunAction::<
                    K,
                    E,
                >::SetEpochDeadline(s.slice())
            } else {
                &&& t == s
                &&& phase is StartingTicker
                &&& s.can_step(phase, started)
                &&& s.step(phase, duration, started).0 == s.ticker_started(ticker)
                &&& s.step(phase, duration, started).1 is SettingDeadline
            }
        }),
{
}

/// No ticker outlives the run, whether it succeeds or fails, and a ticker that
/// the scheduler had is gone only when the host was told to stop it. What the
/// run knows of the ticker survives ticks, spawns and shutdowns.
pub proof fn law_no_ticker_left<F, K, E>(
    s: Sched<F, K>,
    phase: RunPhase,
    duration: u128,
    event: RunEvent<K, E>,
    fiber: F,
    name: Seq<char>,
)
    requires
        s.ticker_known(phase),
    ensures
        s.ticked().ticker_known(phase),
        s.shut_down().ticker_known(phase),
        s.claimed().ticker_known(phase),
        s.spawned(fiber, name).ticker_known(phase),
        event.answers(phase) ==> {
            let (t, after, action) = s.step(phase, duration, event);
            &&& t.ticker_known(after)
            &&& action is Finish || action is Fail ==> after is Finished && t.ticker is None
            &&& s.ticker is Some && t.ticker != s.ticker ==> action == RunAction::<
                K,
                E,
            >::StopTicker(s.ticker->0) && t.ticker is None
            &&& action is StartTicker ==> s.ticker is None
        },
{
}

/// The identifier that the `n`-th spawn from now on gets.
pub open spec fn nth_id(next: u32, n: nat) -> u32
    decreases n,
{
    if n == 0 {
        next
    } else {
        crate::model::following_id(nth_id(next, (n - 1) as nat))
    }
}

/// Threads get different identifiers, unless the identifiers have come round
/// to the same number between them.
pub proof fn law_ids_distinct(next: u32, i: nat, j: nat)
    requires
        i < j,
        (j - i) % 0x1_0000_0000 != 0,
    ensures
        nth_id(next, i) != nth_id(next, j),
{
    lemma_nth_id(next, i);
    lemma_nth_id(next, j);
}

/// Identifiers count up and wrap around.
proof fn lemma_nth_id(next: u32, n: nat)
    ensures
        nth_id(next, n) == (next + n) % 0x1_0000_0000,
    decreases n,
{
    if n > 0 {
        lemma_nth_id(next, (n - 1) as nat);
    }
}

/// What a filter leaves of distinct entries is distinct.
proof fn lemma_filter_no_duplicates(queue: Seq<u32>, pred: spec_fn(u32) -> bool)
    requires
        queue.no_duplicates(),
    ensures
        queue.filter(pred).no_duplicates(),
    decreases queue.len(),
{
    reveal(Seq::filter);
    if queue.len() > 0 {
        let rest = queue.drop_last();
        lemma_filter_no_duplicates(rest, pred);
        if rest.filter(pred).contains(queue.last()) {
            rest.lemma_filter_contains_rev(pred, queue.last());
        }
    }
}

/// What a filter makes of a longer sequence.
proof fn lemma_filter_push(queue: Seq<u32>, id: u32, pred: spec_fn(u32) -> bool)
    ensures
        queue.push(id).filter(pred) == (if pred(id) {
            queue.filter(pred).push(id)
        } else {
            queue.filter(pred)
        }),
{
    reveal(Seq::filter);
    assert(queue.push(id).drop_last() == queue);
}

/// A filter that nothing passes leaves nothing.
proof fn lemma_filter_none(queue: Seq<u32>, pred: spec_fn(u32) -> bool)
    requires
        forall|i: int| 0 <= i < queue.len() ==> !pred(#[trigger] queue[i]),
    ensures
        queue.filter(pred) == Seq::<u32>::empty(),
    decreases queue.len(),
{
    reveal(Seq::filter);
    if queue.len() > 0 {
        assert forall|i: int| 0 <= i < queue.drop_last().len() implies !pred(
            #[trigger] queue.drop_last()[i],
        ) by {
            assert(queue.drop_last()[i] == queue[i]);
        }
        lemma_filter_none(queue.drop_last(), pred);
    }
}

/// Two filters that agree on each entry leave the same.
proof fn lemma_filter_agrees(
    queue: Seq<u32>,
    first: spec_fn(u32) -> bool,
    second: spec_fn(u32) -> bool,
)
    requires
        forall|i: int| 0 <= i < queue.len() ==> first(#[trigger] queue[i]) == second(queue[i]),
    ensures
        queue.filter(first) == queue.filter(second),
    decreases queue.len(),
{
    reveal(Seq::filter);
    if queue.len() > 0 {
        assert forall|i: int| 0 <= i < queue.drop_last().len() implies first(
            #[trigger] queue.drop_last()[i],
        ) == second(queue.drop_last()[i]) by {
            assert(queue.drop_last()[i] == queue[i]);
        }
        lemma_filter_agrees(queue.drop_last(), first, second);
    }
}

} // verus!
