use vstd::prelude::*;
use crate::tracing::representation::Op;
use crate::errno::{
    NO_ERROR, RT_ERROR_MEMORY_OUT_OF_BOUNDS_ACCESS, RT_ERROR_THREAD_JOIN_FAILURE,
    RT_ERROR_THREAD_NOT_FOUND, RT_ERROR_THREAD_RUNTIME_FAILURE, RT_ERROR_TMGMT_LOCK_POISONED,
};

verus! {

/// How an attempt to join a guest thread ended, as the host saw it.
#[derive(Debug, PartialEq, Eq, Structural, Clone, Copy)]
pub enum JoinOutcome {
    /// The lock of the thread registry was poisoned.
    LockPoisoned,
    /// No thread with the requested id was registered.
    NotFound,
    /// Joining the host thread failed.
    JoinFailed,
    /// The thread ran, but instantiating or running its routine failed.
    ThreadFailed,
    /// The thread ran to completion.
    Finished,
}

/// The error code `thread_join` returns to the guest for each outcome.
pub open spec fn join_code(o: JoinOutcome) -> i32 {
    match o {
        JoinOutcome::LockPoisoned => RT_ERROR_TMGMT_LOCK_POISONED,
        JoinOutcome::NotFound => RT_ERROR_THREAD_NOT_FOUND,
        JoinOutcome::JoinFailed => RT_ERROR_THREAD_JOIN_FAILURE,
        JoinOutcome::ThreadFailed => RT_ERROR_THREAD_RUNTIME_FAILURE,
        JoinOutcome::Finished => NO_ERROR,
    }
}

/// The error code for a join outcome, and whether a `Join` event is recorded:
/// only a thread that ran to completion is recorded as joined.
pub fn join_result(o: JoinOutcome) -> (r: (i32, bool))
    ensures
        r.0 == join_code(o),
        r.1 == (o == JoinOutcome::Finished),
{
    match o {
        JoinOutcome::LockPoisoned => (RT_ERROR_TMGMT_LOCK_POISONED, false),
        JoinOutcome::NotFound => (RT_ERROR_THREAD_NOT_FOUND, false),
        JoinOutcome::JoinFailed => (RT_ERROR_THREAD_JOIN_FAILURE, false),
        JoinOutcome::ThreadFailed => (RT_ERROR_THREAD_RUNTIME_FAILURE, false),
        JoinOutcome::Finished => (NO_ERROR, true),
    }
}

/// The little-endian bytes of a 32-bit word, as guest memory holds it.
pub open spec fn le_u32(x: u32) -> Seq<u8> {
    seq![x as u8, (x >> 8u32) as u8, (x >> 16u32) as u8, (x >> 24u32) as u8]
}

/// Where and what `thread_create` writes into guest memory of `memory_len`
/// bytes to hand the new thread id `tid` to the guest at `tid_ptr`: the offset
/// and the bytes, or `RT_ERROR_MEMORY_OUT_OF_BOUNDS_ACCESS` where the four
/// bytes do not fit into the memory.
pub fn tid_store(memory_len: usize, tid_ptr: u32, tid: u32) -> (r: Result<(usize, Vec<u8>), i32>)
    ensures
        r is Ok <==> tid_ptr as int + 4 <= memory_len,
        r is Ok ==> r->Ok_0.0 == tid_ptr as usize && r->Ok_0.1@ == le_u32(tid),
        r is Err ==> r->Err_0 == RT_ERROR_MEMORY_OUT_OF_BOUNDS_ACCESS,
{
    let offset = tid_ptr as usize;
    if memory_len < 4 || offset > memory_len - 4 {
        return Err(RT_ERROR_MEMORY_OUT_OF_BOUNDS_ACCESS);
    }
    let mut bytes: Vec<u8> = Vec::new();
    bytes.push(tid as u8);
    bytes.push((tid >> 8u32) as u8);
    bytes.push((tid >> 16u32) as u8);
    bytes.push((tid >> 24u32) as u8);
    assert(bytes@ =~= le_u32(tid));
    Ok((offset, bytes))
}

/// The host functions through which an instrumented guest reports what it does.
#[derive(Debug, PartialEq, Eq, Structural, Clone, Copy)]
pub enum Hook {
    /// `start_lock(lock, fidx, iidx)`: the guest asks for a lock.
    StartLock,
    /// `finish_lock(lock, fidx, iidx)`: the guest holds the lock.
    FinishLock,
    /// `start_unlock(lock, fidx, iidx)`: the guest begins to release a lock.
    StartUnlock,
    /// `finish_unlock(lock, fidx, iidx)`: the guest has released the lock.
    FinishUnlock,
    /// `read_hook(addr, width, fidx, iidx)`.
    Read,
    /// `write_hook(addr, width, fidx, iidx)`.
    Write,
}

/// The operation a hook records, given its first two arguments: a lock id
/// (the second is then unused), or an address and an access width. Beginning
/// to release a lock records nothing; the release is recorded when it is done.
pub fn hook_op(hook: Hook, a: u32, b: u32) -> (r: Option<Op>)
    ensures
        hook == Hook::StartLock ==> r == Some(Op::Request { lock: a }),
        hook == Hook::FinishLock ==> r == Some(Op::Aquire { lock: a }),
        hook == Hook::StartUnlock ==> r is None,
        hook == Hook::FinishUnlock ==> r == Some(Op::Release { lock: a }),
        hook == Hook::Read ==> r == Some(Op::Read { addr: a, n: b }),
        hook == Hook::Write ==> r == Some(Op::Write { addr: a, n: b }),
{
    match hook {
        Hook::StartLock => Some(Op::Request { lock: a }),
        Hook::FinishLock => Some(Op::Aquire { lock: a }),
        Hook::StartUnlock => None,
        Hook::FinishUnlock => Some(Op::Release { lock: a }),
        Hook::Read => Some(Op::Read { addr: a, n: b }),
        Hook::Write => Some(Op::Write { addr: a, n: b }),
    }
}

} // verus!
