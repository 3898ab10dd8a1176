use crate::model::{lemma_stale_prefix, stale_prefix, Sched};
use crate::run::{RunEvent, RunPhase};
use crate::types::{FiberOutcome, PreemptiveMode};
use vstd::prelude::*;

verus! {

impl<F, K> Sched<F, K> {
    /// What holds of every scheduler while the fiber of `in_flight`, if any,
    /// has control.
    pub open spec fn wf(self, in_flight: Option<u32>) -> bool {
        // Names are kept for the live threads.
        &&& self.names.dom() =~= self.threads.dom()
        // What counts as waiting does stand in the queue.
        &&& forall|id: u32| #[trigger]
            self.enqueued.contains(id) ==> self.run_queue.contains(id)
        // What waits is live.
        &&& !self.shutdown ==> forall|id: u32| #[trigger]
            self.enqueued.contains(id) ==> self.live(id)
        // What has control is live.
        &&& !self.shutdown ==> (in_flight matches Some(id) ==> self.live(id))
        // No live thread is lost: it waits or it has control.
        &&& forall|id: u32| #[trigger]
            self.live(id) ==> self.enqueued.contains(id) || in_flight == Some(id)
        // Only the thread that has control is current, and none is after a shutdown.
        &&& self.current is Some ==> self.current == in_flight && !self.shutdown
    }

    /// What holds besides of a scheduler that is in service, as long as no
    /// identifier has been used twice.
    pub open spec fn orderly(self, in_flight: Option<u32>) -> bool {
        &&& self.wf(in_flight)
        // Each thread stands in the queue at most once.
        &&& !self.shutdown ==> self.run_queue.no_duplicates()
        // A live thread in the queue counts as waiting.
        &&& !self.shutdown ==> forall|id: u32| #[trigger]
            self.run_queue.contains(id) && self.live(id) ==> self.enqueued.contains(id)
        // The thread that has control is current until it waits again.
        &&& !self.shutdown ==> (in_flight matches Some(id) ==> (self.current == in_flight
            <==> !self.enqueued.contains(id)))
    }

    /// Whether the next identifier can be handed out without confusion: no
    /// stale entry of it stands in the queue, and if a thread that has it is in
    /// control, that thread waits again already.
    pub open spec fn fresh(self, in_flight: Option<u32>) -> bool {
        &&& self.run_queue.contains(self.next_id) ==> self.live(self.next_id)
        &&& in_flight == Some(self.next_id) ==> self.enqueued.contains(self.next_id)
    }

    /// Whether all identifiers in use are below the next one: so it is until
    /// they wrap around.
    pub open spec fn unwrapped(self, in_flight: Option<u32>) -> bool {
        &&& forall|id: u32| #[trigger] self.live(id) ==> id < self.next_id
        &&& forall|id: u32| #[trigger] self.run_queue.contains(id) ==> id < self.next_id
        &&& in_flight matches Some(id) ==> id < self.next_id
    }
}

/// A new scheduler is orderly.
pub proof fn law_empty_orderly<F, K>(timeslice: u64, mode: PreemptiveMode)
    ensures
        Sched::<F, K>::empty(timeslice, mode).orderly(None),
        Sched::<F, K>::empty(timeslice, mode).unwrapped(None),
{
}

/// Spawning keeps the scheduler well-formed, and orderly where the new
/// thread's identifier is fresh.
pub proof fn law_spawned_keeps<F, K>(
    s: Sched<F, K>,
    in_flight: Option<u32>,
    fiber: F,
    name: Seq<char>,
)
    requires
        s.wf(in_flight),
    ensures
        s.spawned(fiber, name).wf(in_flight),
        s.orderly(in_flight) && s.fresh(in_flight) ==> s.spawned(fiber, name).orderly(in_flight),
{
    let t = s.spawned(fiber, name);
    if !s.enqueued.contains(s.next_id) {
        lemma_push_contains(s.run_queue, s.next_id);
    }
    assert(t.names.dom() =~= t.threads.dom());
    assert forall|id: u32| #[trigger] t.live(id) implies t.enqueued.contains(id) || in_flight
        == Some(id) by {
        assert(id == s.next_id || s.live(id));
    }
    if s.orderly(in_flight) && s.fresh(in_flight) && !s.shutdown {
        assert forall|id: u32| #[trigger] t.run_queue.contains(id) && t.live(id) implies
            t.enqueued.contains(id) by {
            assert(id == s.next_id || (s.run_queue.contains(id) && s.live(id)));
            assert(s.live(s.next_id) ==> s.enqueued.contains(s.next_id));
        }
    }
}

/// An epoch tick keeps the scheduler well-formed and orderly.
pub proof fn law_ticked_keeps<F, K>(s: Sched<F, K>, in_flight: Option<u32>)
    requires
        s.wf(in_flight),
    ensures
        s.ticked().wf(in_flight),
        s.orderly(in_flight) ==> s.ticked().orderly(in_flight),
        s.unwrapped(in_flight) ==> s.ticked().unwrapped(in_flight),
{
    if let Some(id) = s.current {
        lemma_push_contains(s.run_queue, id);
    }
    assert forall|id: u32| #[trigger] s.ticked().live(id) implies s.ticked().enqueued.contains(id)
        || in_flight == Some(id) by {
        assert(s.live(id));
    }
    if s.orderly(in_flight) && !s.shutdown {
        assert forall|id: u32| #[trigger]
            s.ticked().run_queue.contains(id) && s.ticked().live(id) implies
            s.ticked().enqueued.contains(id) by {
            assert(s.current == Some(id) || (s.run_queue.contains(id) && s.live(id)));
        }
    }
}

/// Until the identifiers wrap around, the next one is fresh, and spawning
/// keeps it so.
pub proof fn law_unwrapped_fresh<F, K>(
    s: Sched<F, K>,
    in_flight: Option<u32>,
    fiber: F,
    name: Seq<char>,
)
    requires
        s.unwrapped(in_flight),
    ensures
        s.fresh(in_flight),
        s.next_id < u32::MAX ==> s.spawned(fiber, name).unwrapped(in_flight),
        s.next_id < u32::MAX ==> s.claimed().unwrapped(in_flight),
{
    lemma_push_contains(s.run_queue, s.next_id);
}

/// A shutdown leaves the scheduler well-formed and orderly.
pub proof fn law_shut_down_keeps<F, K>(s: Sched<F, K>, in_flight: Option<u32>)
    ensures
        s.shut_down().orderly(in_flight),
        s.unwrapped(in_flight) ==> s.shut_down().unwrapped(in_flight),
{
}

/// Picking a thread keeps the scheduler well-formed and orderly: the picked
/// thread has control then.
proof fn lemma_popped_keeps<F, K>(s: Sched<F, K>)
    requires
        s.wf(None),
        !s.shutdown,
    ensures
        s.popped().wf(s.picked()),
        s.orderly(None) ==> s.popped().orderly(s.picked()),
        s.unwrapped(None) ==> s.popped().unwrapped(s.picked()),
{
    let n = stale_prefix(s.run_queue, s.threads.dom()) as int;
    let t = s.popped();
    lemma_stale_prefix(s.run_queue, s.threads.dom());
    assert forall|id: u32| #[trigger] t.enqueued.contains(id) implies t.run_queue.contains(id) by {
        assert(s.enqueued.contains(id) && s.live(id));
        let i = choose|i: int| 0 <= i < s.run_queue.len() && s.run_queue[i] == id;
        assert(i > n);
        assert(t.run_queue[i - n - 1] == id);
    }
    assert forall|id: u32| #[trigger] t.live(id) implies t.enqueued.contains(id) || s.picked()
        == Some(id) by {
        assert(s.live(id));
        assert(s.enqueued.contains(id));
        let i = choose|i: int| 0 <= i < s.run_queue.len() && s.run_queue[i] == id;
    }
    assert forall|id: u32| #[trigger] t.run_queue.contains(id) implies s.run_queue.contains(id) by {
        let i = choose|i: int| 0 <= i < t.run_queue.len() && t.run_queue[i] == id;
        assert(s.run_queue[i + n + 1] == id);
    }
    if s.picked() is Some {
        assert(s.run_queue.contains(s.run_queue[n]));
    }
    if s.orderly(None) {
        assert forall|id: u32| #[trigger] t.run_queue.contains(id) && t.live(id) implies
            t.enqueued.contains(id) by {
            assert(s.run_queue.contains(id) && s.live(id));
            let i = choose|i: int| 0 <= i < t.run_queue.len() && t.run_queue[i] == id;
            assert(s.run_queue[i + n + 1] == id);
        }
    }
}

/// Settling the thread that had control keeps the scheduler well-formed and
/// orderly: no thread has control then.
proof fn lemma_settled_keeps<F, K>(s: Sched<F, K>, id: u32, outcome: FiberOutcome)
    requires
        s.wf(Some(id)),
    ensures
        s.settled(id, outcome).wf(None),
        s.orderly(Some(id)) ==> s.settled(id, outcome).orderly(None),
        s.unwrapped(Some(id)) ==> s.settled(id, outcome).unwrapped(None),
{
    let t = s.settled(id, outcome);
    lemma_push_contains(s.run_queue, id);
    assert(t.names.dom() =~= t.threads.dom());
    assert forall|x: u32| #[trigger] t.live(x) implies t.enqueued.contains(x) by {
        assert(s.live(x));
    }
    if s.orderly(Some(id)) && !s.shutdown {
        if outcome.yields() && !s.enqueued.contains(id) {
            assert(!(s.run_queue.contains(id) && s.live(id)));
        }
        assert forall|x: u32| #[trigger] t.run_queue.contains(x) && t.live(x) implies
            t.enqueued.contains(x) by {
            assert(x == id || (s.run_queue.contains(x) && s.live(x)));
        }
    }
}

/// Each step of a run keeps the scheduler well-formed, orderly and unwrapped.
pub proof fn law_step_keeps<F, K, E>(
    s: Sched<F, K>,
    phase: RunPhase,
    duration: u128,
    event: RunEvent<K, E>,
)
    requires
        s.wf(phase.in_flight()),
        event.answers(phase),
    ensures
        ({
            let (t, after, _) = s.step(phase, duration, event);
            &&& t.wf(after.in_flight())
            &&& s.orderly(phase.in_flight()) ==> t.orderly(after.in_flight())
            &&& s.unwrapped(phase.in_flight()) ==> t.unwrapped(after.in_flight())
        }),
{
    match (phase, event) {
        (RunPhase::ReadingClock, RunEvent::Clock(elapsed)) => {
            if !s.shutdown && elapsed < duration {
                lemma_popped_keeps(s);
            }
        },
        (RunPhase::Resuming(id), RunEvent::Resumed(outcome)) => {
            lemma_settled_keeps(s, id, outcome);
        },
        _ => {},
    }
}

/// What pushing an entry does to the entries of a queue.
pub proof fn lemma_push_contains(queue: Seq<u32>, id: u32)
    ensures
        forall|x: u32| #[trigger]
            queue.push(id).contains(x) <==> queue.contains(x) || x == id,
        queue.no_duplicates() && !queue.contains(id) ==> queue.push(id).no_duplicates(),
{
    let longer = queue.push(id);
    assert(longer[queue.len() as int] == id);
    assert forall|x: u32| queue.contains(x) implies #[trigger] longer.contains(x) by {
        let i = choose|i: int| 0 <= i < queue.len() && queue[i] == x;
        assert(longer[i] == x);
    }
}

} // verus!
