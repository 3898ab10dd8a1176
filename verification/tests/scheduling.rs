use preemptive_threads::{
    FiberOutcome, PreemptiveMode, PreemptiveThreads, Run, RunAction, RunEvent, RunPhase,
    StoreFiberYield, UpdateDeadline,
};

type Threads = PreemptiveThreads<char, u8>;
type Event = RunEvent<u8, &'static str>;
type Action = RunAction<u8, &'static str>;

const KEEP: FiberOutcome = FiberOutcome::Yielded(StoreFiberYield::KeepStore);
const RELEASE: FiberOutcome = FiberOutcome::Yielded(StoreFiberYield::ReleaseStore);

fn step(threads: &mut Threads, run: &mut Run, event: Event) -> Action {
    assert!(threads.can_step(run, &event));
    threads.run_for(run, event)
}

fn fuel_threads(names: &[&str]) -> Threads {
    let mut threads = Threads::new(10, PreemptiveMode::Fuel);
    for name in names {
        let fiber = name.chars().next().unwrap();
        threads.spawn::<()>(Ok(fiber), name.to_string()).unwrap();
    }
    threads
}

/// Brings a fuel-mode run to its first look at the clock.
fn started(threads: &mut Threads, duration: u128) -> Run {
    let mut run = Run::new(duration);
    assert_eq!(step(threads, &mut run, Event::Begin), Action::SetFuelYieldInterval(10));
    assert_eq!(step(threads, &mut run, Event::Done), Action::SetFuel(u64::MAX));
    assert_eq!(step(threads, &mut run, Event::Done), Action::ReadClock);
    run
}

/// Runs one slice and tells which thread had it.
fn slice(threads: &mut Threads, run: &mut Run, ticks: usize, outcome: FiberOutcome) -> u32 {
    let id = match step(threads, run, Event::Clock(0)) {
        Action::Resume(id) => id,
        other => panic!("no thread was resumed: {other:?}"),
    };
    assert!(threads.fiber(id).is_some());
    for _ in 0..ticks {
        threads.on_epoch_tick();
    }
    assert_eq!(step(threads, run, Event::Resumed(outcome)), Action::ReadClock);
    id
}

#[test]
fn handles_count_up_and_are_opaque_numbers() {
    let mut threads = Threads::new(10, PreemptiveMode::Fuel);
    let first = threads.spawn::<()>(Ok('a'), "a".to_string()).unwrap();
    let second = threads.spawn::<()>(Ok('b'), "b".to_string()).unwrap();
    assert_eq!(format!("{first:?}"), "WasmThreadHandle { id: 0 }");
    assert_eq!(format!("{second:?}"), "WasmThreadHandle { id: 1 }");
    assert_ne!(first, second);
    let copy = first;
    assert_eq!(copy, first);
}

#[test]
fn failed_spawn_returns_the_error_and_uses_up_an_id() {
    let mut threads = Threads::new(10, PreemptiveMode::Fuel);
    let failed = threads.spawn(Err("no stack"), "a".to_string());
    assert_eq!(failed, Err("no stack"));
    assert_eq!(threads.fiber(0), None);
    assert_eq!(threads.debug_name(0), None);
    let handle = threads.spawn::<()>(Ok('b'), "b".to_string()).unwrap();
    assert_eq!(format!("{handle:?}"), "WasmThreadHandle { id: 1 }");
    let mut run = started(&mut threads, 5);
    assert_eq!(slice(&mut threads, &mut run, 0, RELEASE), 1);
}

#[test]
fn fibers_and_names_are_found_by_id() {
    let threads = fuel_threads(&["alpha", "beta"]);
    assert_eq!(threads.fiber(0), Some(&'a'));
    assert_eq!(threads.fiber(1), Some(&'b'));
    assert_eq!(threads.fiber(2), None);
    assert_eq!(threads.debug_name(0), Some("alpha"));
    assert_eq!(threads.debug_name(1), Some("beta"));
    assert_eq!(threads.debug_name(2), None);
}

#[test]
fn yielding_threads_take_turns() {
    let mut threads = fuel_threads(&["a", "b", "c"]);
    let mut run = started(&mut threads, 5);
    let mut order: Vec<u32> = Vec::new();
    for n in 0..7 {
        let outcome = if n % 2 == 0 { KEEP } else { RELEASE };
        order.push(slice(&mut threads, &mut run, 0, outcome));
    }
    assert_eq!(order, vec![0, 1, 2, 0, 1, 2, 0]);
}

#[test]
fn ticks_do_not_change_the_turns() {
    let mut threads = fuel_threads(&["a", "b", "c"]);
    let mut run = started(&mut threads, 5);
    let mut order: Vec<u32> = Vec::new();
    for ticks in [1, 0, 3, 2, 1, 0, 1] {
        order.push(slice(&mut threads, &mut run, ticks, RELEASE));
    }
    assert_eq!(order, vec![0, 1, 2, 0, 1, 2, 0]);
}

#[test]
fn tick_without_a_current_thread_does_nothing() {
    let mut threads = fuel_threads(&["a", "b"]);
    threads.on_epoch_tick();
    let mut run = started(&mut threads, 5);
    assert_eq!(slice(&mut threads, &mut run, 0, KEEP), 0);
    threads.on_epoch_tick();
    assert_eq!(slice(&mut threads, &mut run, 0, KEEP), 1);
    assert_eq!(slice(&mut threads, &mut run, 0, KEEP), 0);
}

#[test]
fn ended_threads_are_forgotten() {
    let mut threads = fuel_threads(&["a", "b", "c"]);
    let mut run = started(&mut threads, 5);
    assert_eq!(slice(&mut threads, &mut run, 0, FiberOutcome::Completed), 0);
    assert_eq!(threads.fiber(0), None);
    assert_eq!(threads.debug_name(0), None);
    assert_eq!(slice(&mut threads, &mut run, 0, FiberOutcome::Failed), 1);
    assert_eq!(threads.fiber(1), None);
    assert_eq!(slice(&mut threads, &mut run, 0, KEEP), 2);
    assert_eq!(slice(&mut threads, &mut run, 0, FiberOutcome::Completed), 2);
    assert_eq!(step(&mut threads, &mut run, Event::Clock(0)), Action::Finish);
    assert_eq!(run.phase(), RunPhase::Finished);
}

#[test]
fn stale_queue_entries_are_skipped() {
    let mut threads = fuel_threads(&["a", "b"]);
    let mut run = started(&mut threads, 5);
    // The tick requeues thread 0, which then ends and leaves its entry behind.
    assert_eq!(slice(&mut threads, &mut run, 1, FiberOutcome::Completed), 0);
    assert_eq!(slice(&mut threads, &mut run, 0, KEEP), 1);
    assert_eq!(slice(&mut threads, &mut run, 1, FiberOutcome::Failed), 1);
    assert_eq!(step(&mut threads, &mut run, Event::Clock(0)), Action::Finish);
}

#[test]
fn new_threads_wait_behind_the_others() {
    let mut threads = fuel_threads(&["a", "b"]);
    let mut run = started(&mut threads, 5);
    assert_eq!(slice(&mut threads, &mut run, 0, KEEP), 0);
    threads.spawn::<()>(Ok('c'), "c".to_string()).unwrap();
    let mut order: Vec<u32> = Vec::new();
    for _ in 0..4 {
        order.push(slice(&mut threads, &mut run, 0, KEEP));
    }
    assert_eq!(order, vec![1, 0, 2, 1]);
}

#[test]
fn run_stops_when_the_time_is_up() {
    let mut threads = fuel_threads(&["a", "b"]);
    let mut run = started(&mut threads, 100);
    assert_eq!(step(&mut threads, &mut run, Event::Clock(99)), Action::Resume(0));
    assert_eq!(step(&mut threads, &mut run, Event::Resumed(KEEP)), Action::ReadClock);
    assert_eq!(step(&mut threads, &mut run, Event::Clock(100)), Action::Finish);
    // The next run takes up where this one stopped.
    let mut next = started(&mut threads, 100);
    assert_eq!(slice(&mut threads, &mut next, 0, KEEP), 1);
    assert_eq!(slice(&mut threads, &mut next, 0, KEEP), 0);
}

#[test]
fn run_without_time_resumes_nothing() {
    let mut threads = fuel_threads(&["a"]);
    let mut run = started(&mut threads, 0);
    assert_eq!(step(&mut threads, &mut run, Event::Clock(0)), Action::Finish);
    assert_eq!(threads.fiber(0), Some(&'a'));
}

#[test]
fn run_without_threads_finishes_at_once() {
    let mut threads = fuel_threads(&[]);
    let mut run = started(&mut threads, 100);
    assert_eq!(step(&mut threads, &mut run, Event::Clock(0)), Action::Finish);
}

#[test]
fn fuel_setup_errors_end_the_run() {
    let mut threads = fuel_threads(&["a"]);
    let mut run = Run::new(100);
    assert_eq!(step(&mut threads, &mut run, Event::Begin), Action::SetFuelYieldInterval(10));
    assert_eq!(
        step(&mut threads, &mut run, Event::Failed("no async support")),
        Action::Fail("no async support")
    );
    assert_eq!(run.phase(), RunPhase::Finished);

    let mut run = Run::new(100);
    assert_eq!(step(&mut threads, &mut run, Event::Begin), Action::SetFuelYieldInterval(10));
    assert_eq!(step(&mut threads, &mut run, Event::Done), Action::SetFuel(u64::MAX));
    assert_eq!(
        step(&mut threads, &mut run, Event::Failed("fuel is off")),
        Action::Fail("fuel is off")
    );
    assert_eq!(threads.fiber(0), Some(&'a'));
}

#[test]
fn zero_timeslice_counts_as_one() {
    let mut threads = Threads::new(0, PreemptiveMode::Fuel);
    let mut run = Run::new(100);
    assert_eq!(step(&mut threads, &mut run, Event::Begin), Action::SetFuelYieldInterval(1));

    let mut threads = Threads::new(0, PreemptiveMode::Epoch);
    let mut run = Run::new(100);
    assert_eq!(step(&mut threads, &mut run, Event::Begin), Action::InstallEpochCallback(1));
    assert_eq!(step(&mut threads, &mut run, Event::Done), Action::StartTicker(64));
    assert_eq!(step(&mut threads, &mut run, Event::TickerStarted(7)), Action::SetEpochDeadline(1));
}

#[test]
fn epoch_run_brings_its_ticker_up_and_down() {
    let mut threads = Threads::new(5, PreemptiveMode::Epoch);
    threads.spawn::<()>(Ok('a'), "a".to_string()).unwrap();
    let mut run = Run::new(100);
    assert_eq!(step(&mut threads, &mut run, Event::Begin), Action::InstallEpochCallback(5));
    assert_eq!(step(&mut threads, &mut run, Event::Done), Action::StartTicker(320));
    assert_eq!(step(&mut threads, &mut run, Event::TickerStarted(7)), Action::SetEpochDeadline(5));
    assert_eq!(step(&mut threads, &mut run, Event::Done), Action::ReadClock);
    assert_eq!(step(&mut threads, &mut run, Event::Clock(0)), Action::Resume(0));
    assert_eq!(threads.epoch_callback(5), UpdateDeadline::Yield(5));
    assert_eq!(step(&mut threads, &mut run, Event::Resumed(RELEASE)), Action::ReadClock);
    assert_eq!(step(&mut threads, &mut run, Event::Clock(200)), Action::StopTicker(7));
    assert_eq!(run.phase(), RunPhase::StoppingTicker);
    assert_eq!(step(&mut threads, &mut run, Event::Done), Action::Finish);

    // The callback stays installed, the ticker does not stay.
    let mut run = Run::new(100);
    assert_eq!(step(&mut threads, &mut run, Event::Begin), Action::StartTicker(320));
    assert_eq!(step(&mut threads, &mut run, Event::TickerStarted(8)), Action::SetEpochDeadline(5));
    assert_eq!(step(&mut threads, &mut run, Event::Done), Action::ReadClock);
    assert_eq!(step(&mut threads, &mut run, Event::Clock(0)), Action::Resume(0));
    assert_eq!(
        step(&mut threads, &mut run, Event::Resumed(FiberOutcome::Completed)),
        Action::ReadClock
    );
    assert_eq!(step(&mut threads, &mut run, Event::Clock(0)), Action::StopTicker(8));
    assert_eq!(step(&mut threads, &mut run, Event::Done), Action::Finish);
}

#[test]
fn spawning_asks_for_the_epoch_callback_once() {
    let mut threads = Threads::new(5, PreemptiveMode::Epoch);
    assert_eq!(threads.prepare_spawn(), Some(5));
    assert_eq!(threads.prepare_spawn(), None);
    let mut run = Run::new(100);
    assert_eq!(step(&mut threads, &mut run, Event::Begin), Action::StartTicker(320));

    let mut threads = Threads::new(5, PreemptiveMode::Fuel);
    assert_eq!(threads.prepare_spawn(), None);
}

#[test]
fn ticker_interval_has_to_fit() {
    let most = u64::MAX / 64;
    let mut threads = Threads::new(most, PreemptiveMode::Epoch);
    threads.prepare_spawn();
    let mut run = Run::new(100);
    assert!(threads.can_step(&run, &Event::Begin));
    assert_eq!(step(&mut threads, &mut run, Event::Begin), Action::StartTicker(most * 64));

    let mut threads = Threads::new(most + 1, PreemptiveMode::Epoch);
    let mut run = Run::new(100);
    assert_eq!(step(&mut threads, &mut run, Event::Begin), Action::InstallEpochCallback(most + 1));
    assert!(!threads.can_step(&run, &Event::Done));
    let fresh = Run::new(100);
    assert!(!threads.can_step(&fresh, &Event::Begin));

    let threads = Threads::new(most + 1, PreemptiveMode::Fuel);
    assert!(threads.can_step(&fresh, &Event::Begin));
}

#[test]
fn only_answers_are_taken() {
    let mut threads = fuel_threads(&["a"]);
    let mut run = Run::new(100);
    assert!(!threads.can_step(&run, &Event::Done));
    assert!(threads.can_step(&run, &Event::Begin));
    assert_eq!(step(&mut threads, &mut run, Event::Begin), Action::SetFuelYieldInterval(10));
    assert!(threads.can_step(&run, &Event::Done));
    assert!(threads.can_step(&run, &Event::Failed("x")));
    assert!(!threads.can_step(&run, &Event::Clock(1)));
    assert!(!threads.can_step(&run, &Event::Resumed(KEEP)));
    assert!(!threads.can_step(&run, &Event::TickerStarted(1)));
}

#[test]
fn shutdown_hands_out_what_is_left() {
    let mut threads = fuel_threads(&["a", "b"]);
    let remains = threads.shutdown();
    assert_eq!(remains.ticker, None);
    assert_eq!(remains.fibers.len(), 2);
    assert_eq!(remains.fibers.get(&0), Some(&'a'));
    assert_eq!(remains.fibers.get(&1), Some(&'b'));
    assert_eq!(threads.fiber(0), None);
    assert_eq!(threads.debug_name(0), None);
    // A second shutdown finds nothing.
    assert!(threads.shutdown().fibers.is_empty());
    // Threads that are spawned later are kept, but no run resumes them.
    let late = threads.spawn::<()>(Ok('c'), "c".to_string()).unwrap();
    assert_eq!(format!("{late:?}"), "WasmThreadHandle { id: 2 }");
    let mut run = started(&mut threads, 100);
    assert_eq!(step(&mut threads, &mut run, Event::Clock(0)), Action::Finish);
    assert_eq!(threads.fiber(2), Some(&'c'));
}

#[test]
fn shutdown_during_a_run_stops_it() {
    let mut threads = Threads::new(5, PreemptiveMode::Epoch);
    threads.spawn::<()>(Ok('a'), "a".to_string()).unwrap();
    let mut run = Run::new(100);
    step(&mut threads, &mut run, Event::Begin);
    step(&mut threads, &mut run, Event::Done);
    step(&mut threads, &mut run, Event::TickerStarted(7));
    step(&mut threads, &mut run, Event::Done);
    assert_eq!(step(&mut threads, &mut run, Event::Clock(0)), Action::Resume(0));
    let remains = threads.shutdown();
    assert_eq!(remains.ticker, Some(7));
    assert_eq!(remains.fibers.get(&0), Some(&'a'));
    assert_eq!(step(&mut threads, &mut run, Event::Resumed(KEEP)), Action::ReadClock);
    assert_eq!(step(&mut threads, &mut run, Event::Clock(0)), Action::Finish);
}

#[test]
fn waker_of_a_run_can_be_woken() {
    let run = Run::new(1_000_000_000);
    assert_eq!(run.duration(), 1_000_000_000);
    assert_eq!(run.phase(), RunPhase::Ready);
    run.waker().wake_by_ref();
    let waker = run.waker().clone();
    waker.wake();
}

#[test]
fn endless_loops_interleave_until_the_time_is_up() {
    let mut threads = fuel_threads(&["thread0", "thread1"]);
    let mut run = started(&mut threads, 1_000_000_000);
    let mut order: Vec<String> = Vec::new();
    let mut now: u128 = 0;
    loop {
        match step(&mut threads, &mut run, Event::Clock(now)) {
            Action::Resume(id) => order.push(threads.debug_name(id).unwrap().to_string()),
            action => {
                assert_eq!(action, Action::Finish);
                break;
            }
        }
        now += 250_000_000;
        assert_eq!(step(&mut threads, &mut run, Event::Resumed(RELEASE)), Action::ReadClock);
    }
    assert_eq!(order, vec!["thread0", "thread1", "thread0", "thread1"]);
    assert_eq!(threads.shutdown().fibers.len(), 2);
}

#[test]
fn waiting_thread_runs_in_its_turn_whatever_the_others_do() {
    let mut threads = fuel_threads(&["a", "b", "c", "d"]);
    let mut run = started(&mut threads, 5);
    assert_eq!(slice(&mut threads, &mut run, 0, KEEP), 0);
    threads.spawn::<()>(Ok('e'), "e".to_string()).unwrap();
    assert_eq!(slice(&mut threads, &mut run, 2, FiberOutcome::Failed), 1);
    assert!(threads.spawn(Err("full"), "f".to_string()).is_err());
    assert_eq!(slice(&mut threads, &mut run, 1, RELEASE), 2);
    assert_eq!(slice(&mut threads, &mut run, 0, KEEP), 3);
    assert_eq!(slice(&mut threads, &mut run, 0, KEEP), 0);
    assert_eq!(slice(&mut threads, &mut run, 0, KEEP), 4);
}

#[test]
fn thread_spawned_while_another_has_control_waits() {
    let mut threads = fuel_threads(&["a"]);
    let mut run = started(&mut threads, 5);
    assert_eq!(step(&mut threads, &mut run, Event::Clock(0)), Action::Resume(0));
    threads.spawn::<()>(Ok('b'), "b".to_string()).unwrap();
    threads.on_epoch_tick();
    assert_eq!(step(&mut threads, &mut run, Event::Resumed(KEEP)), Action::ReadClock);
    assert_eq!(slice(&mut threads, &mut run, 0, KEEP), 1);
    assert_eq!(slice(&mut threads, &mut run, 0, KEEP), 0);
}

#[test]
fn running_ticker_is_not_started_again() {
    // A ticker of an epoch run that was given up half way is found and kept.
    let mut threads = Threads::new(5, PreemptiveMode::Epoch);
    let mut first = Run::new(100);
    step(&mut threads, &mut first, Event::Begin);
    step(&mut threads, &mut first, Event::Done);
    step(&mut threads, &mut first, Event::TickerStarted(7));
    let mut second = Run::new(100);
    assert_eq!(step(&mut threads, &mut second, Event::Begin), Action::SetEpochDeadline(5));
    assert_eq!(step(&mut threads, &mut second, Event::Done), Action::ReadClock);
    assert_eq!(step(&mut threads, &mut second, Event::Clock(0)), Action::StopTicker(7));
    assert_eq!(threads.shutdown().ticker, None);
}

#[test]
fn fuel_run_stops_a_ticker_that_is_still_there() {
    let mut epoch = Threads::new(5, PreemptiveMode::Epoch);
    let mut run = Run::new(100);
    step(&mut epoch, &mut run, Event::Begin);
    assert_eq!(step(&mut epoch, &mut run, Event::Done), Action::StartTicker(320));
    // The ticker ends up with a scheduler that goes by fuel.
    let mut threads = fuel_threads(&["a"]);
    assert_eq!(step(&mut threads, &mut run, Event::TickerStarted(7)), Action::SetEpochDeadline(10));
    let mut run = Run::new(100);
    assert_eq!(step(&mut threads, &mut run, Event::Begin), Action::StopTicker(7));
    assert_eq!(run.phase(), RunPhase::StoppingOldTicker);
    assert_eq!(step(&mut threads, &mut run, Event::Done), Action::SetFuelYieldInterval(10));
    assert_eq!(step(&mut threads, &mut run, Event::Done), Action::SetFuel(u64::MAX));
}

#[test]
fn second_ticker_is_refused() {
    let mut threads = Threads::new(5, PreemptiveMode::Epoch);
    threads.prepare_spawn();
    let mut first = Run::new(100);
    let mut second = Run::new(100);
    assert_eq!(step(&mut threads, &mut first, Event::Begin), Action::StartTicker(320));
    assert_eq!(step(&mut threads, &mut second, Event::Begin), Action::StartTicker(320));
    assert!(threads.can_step(&second, &Event::TickerStarted(8)));
    assert_eq!(
        step(&mut threads, &mut first, Event::TickerStarted(7)),
        Action::SetEpochDeadline(5)
    );
    assert!(!threads.can_step(&second, &Event::TickerStarted(8)));
    assert_eq!(threads.shutdown().ticker, Some(7));
    assert!(threads.can_step(&second, &Event::TickerStarted(8)));
}

#[test]
fn ticker_comes_and_goes_without_a_trace() {
    let mut threads = Threads::new(5, PreemptiveMode::Epoch);
    threads.prepare_spawn();
    for ticker in [7, 8, 9] {
        let mut run = Run::new(0);
        assert_eq!(step(&mut threads, &mut run, Event::Begin), Action::StartTicker(320));
        step(&mut threads, &mut run, Event::TickerStarted(ticker));
        step(&mut threads, &mut run, Event::Done);
        assert_eq!(step(&mut threads, &mut run, Event::Clock(0)), Action::StopTicker(ticker));
        assert_eq!(step(&mut threads, &mut run, Event::Done), Action::Finish);
    }
    assert_eq!(threads.shutdown().ticker, None);
}

#[test]
fn observers_follow_the_scheduler() {
    let mut threads = fuel_threads(&["a", "b"]);
    assert_eq!(threads.next_id(), 2);
    assert_eq!(threads.current(), None);
    let mut run = started(&mut threads, 5);
    assert_eq!(step(&mut threads, &mut run, Event::Clock(0)), Action::Resume(0));
    assert_eq!(threads.current(), Some(0));
    threads.on_epoch_tick();
    assert_eq!(threads.current(), None);
    assert_eq!(step(&mut threads, &mut run, Event::Resumed(KEEP)), Action::ReadClock);
    assert_eq!(step(&mut threads, &mut run, Event::Clock(0)), Action::Resume(1));
    assert_eq!(threads.current(), Some(1));
    assert_eq!(step(&mut threads, &mut run, Event::Resumed(KEEP)), Action::ReadClock);
    assert_eq!(threads.current(), None);
    assert!(!threads.is_shut_down());
    threads.shutdown();
    assert!(threads.is_shut_down());
    assert_eq!(threads.next_id(), 2);
}

#[test]
fn names_stay_while_threads_live() {
    let mut threads = fuel_threads(&["alpha", "beta"]);
    let mut run = started(&mut threads, 5);
    slice(&mut threads, &mut run, 1, KEEP);
    slice(&mut threads, &mut run, 0, FiberOutcome::Completed);
    threads.spawn::<()>(Ok('g'), "gamma".to_string()).unwrap();
    assert_eq!(threads.debug_name(0), Some("alpha"));
    assert_eq!(threads.fiber(0), Some(&'a'));
    assert_eq!(threads.debug_name(1), None);
    assert_eq!(threads.debug_name(2), Some("gamma"));
}

#[test]
fn identifiers_count_spawns_whatever_else_happens() {
    let mut threads = Threads::new(10, PreemptiveMode::Fuel);
    let first = threads.spawn::<()>(Ok('a'), "a".to_string()).unwrap();
    let mut run = started(&mut threads, 5);
    slice(&mut threads, &mut run, 2, FiberOutcome::Completed);
    assert!(threads.spawn(Err("full"), "b".to_string()).is_err());
    threads.on_epoch_tick();
    assert_eq!(threads.next_id(), 2);
    threads.shutdown();
    threads.prepare_spawn();
    let second = threads.spawn::<()>(Ok('c'), "c".to_string()).unwrap();
    assert_eq!(threads.next_id(), 3);
    assert_eq!(format!("{first:?}"), "WasmThreadHandle { id: 0 }");
    assert_eq!(format!("{second:?}"), "WasmThreadHandle { id: 2 }");
}
