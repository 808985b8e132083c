use vstd::prelude::*;

verus! {

/// The operations that can be part of a native event.
#[derive(Debug, PartialEq, Eq, Structural, Clone, Copy)]
pub enum Op {
    /// A read of `n` bytes beginning at address `addr`.
    Read { addr: u32, n: u32 },
    /// A write of `n` bytes beginning at address `addr`.
    Write { addr: u32, n: u32 },
    /// The mutex with id `lock` was acquired.
    Aquire { lock: u32 },
    /// The mutex with id `lock` was requested.
    Request { lock: u32 },
    /// The mutex with id `lock` was released.
    Release { lock: u32 },
    /// The thread with id `tid` was spawned.
    Fork { tid: u32 },
    /// The thread with id `tid` was joined.
    Join { tid: u32 },
}

/// A single event of a native execution trace.
#[derive(Debug, PartialEq, Eq, Clone, Copy)]
pub struct Event {
    /// Id of the executing thread.
    pub t: u32,
    /// The executed operation.
    pub op: Op,
    /// Location in the program: (function index, instruction index).
    pub loc: (u32, u32),
}

} // verus!
