//! Preemptive scheduling of several wasm exports on a single host thread.
//!
//! Each export runs on a fiber of its own. [`PreemptiveThreads`] decides which
//! fiber runs when; the host resumes fibers, reads the clock and configures
//! the store, as [`PreemptiveThreads::run_for`] tells it to.
pub mod conduct;
pub mod history;
pub mod laws;
pub mod model;
pub mod preemptive;
pub mod protocol;
pub mod run;
pub mod types;
pub mod upkeep;

pub use preemptive::{PreemptiveThreads, Remains};
pub use run::{Run, RunAction, RunEvent, RunPhase};
pub use types::{FiberOutcome, PreemptiveMode, StoreFiberYield, UpdateDeadline, WasmThreadHandle};
