use vstd::prelude::*;

verus! {

/// Opaque handle returned to the embedder for spawned wasm threads.
#[derive(Debug, Clone, Copy, PartialEq, Eq, Hash, Structural)]
pub struct WasmThreadHandle {
    pub(crate) id: u32,
}

impl View for WasmThreadHandle {
    type V = u32;

    /// The identifier that the scheduler knows the thread by.
    closed spec fn view(&self) -> u32 {
        self.id
    }
}

impl WasmThreadHandle {
    /// Wraps the identifier of a spawned thread.
    pub(crate) fn new(id: u32) -> (handle: WasmThreadHandle)
        ensures
            handle@ == id,
            handle.id == id,
    {
        WasmThreadHandle { id }
    }
}

/// What forces a running wasm thread to give up the host thread.
#[derive(Debug, Clone, Copy, PartialEq, Eq, Structural)]
pub enum PreemptiveMode {
    /// The thread yields whenever it has burnt a slice of fuel.
    Fuel,
    /// The thread yields when the engine's epoch passes the store's deadline.
    Epoch,
}

/// How a fiber that has not finished gave control back.
#[derive(Debug, Clone, Copy, PartialEq, Eq, Structural)]
pub enum StoreFiberYield {
    /// The fiber still needs exclusive use of the store.
    KeepStore,
    /// The fiber lets others use the store until it is resumed.
    ReleaseStore,
}

/// Why `resume` on a fiber came back.
#[derive(Debug, Clone, Copy, PartialEq, Eq, Structural)]
pub enum FiberOutcome {
    /// The wasm export ran to its end.
    Completed,
    /// The wasm export ended with an error.
    Failed,
    /// The fiber suspended itself and can be resumed again.
    Yielded(StoreFiberYield),
}

/// What the epoch callback tells the store to do with the running fiber.
#[derive(Debug, Clone, Copy, PartialEq, Eq, Structural)]
pub enum UpdateDeadline {
    /// Suspend the fiber, and move the deadline this many ticks ahead.
    Yield(u64),
}

} // verus!
