# preemptive_threads

Preemptive scheduling of several wasm exports on a single host thread, verified
with Verus.

Each export runs on a fiber of its own. A fiber is suspended when it has burnt
its slice of fuel, or when the epoch passes its deadline, and waits then at the
back of the run queue.

- `src/types.rs`, `src/run.rs`: handles, modes, outcomes, and the phases,
  events and actions of a run.
- `src/model.rs`: the scheduler as a mathematical value, and what each operation
  makes of it.
- `src/preemptive.rs`: the scheduler itself, each method with its contract.
- `src/upkeep.rs`: what holds of every scheduler, and that all operations keep it.
- `src/laws.rs`: round robin, absence of starvation, shutdown, ticker and
  identifiers.
- `src/history.rs`: what holds over any sequence of calls: one epoch callback,
  one ticker, threads that keep their names, and identifiers that differ.
- `app/lib.rs`: drives the scheduler against a wasm store.
- `tests/`: the scheduler at work on concrete values.

A host starts a `Run` with `RunEvent::Begin`, carries out each `RunAction` that
`PreemptiveThreads::run_for` returns, and reports back the event, until it is
told to return.
