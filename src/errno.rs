use vstd::prelude::*;

verus! {

/// Function returned without error.
pub const NO_ERROR: i32 = 0;

/// The thread with the requested id did not exist.
pub const RT_ERROR_THREAD_NOT_FOUND: i32 = 1;

/// The attempt to join the host thread failed.
pub const RT_ERROR_THREAD_JOIN_FAILURE: i32 = 2;

/// A failure occurred while instantiating or running the thread's closure.
pub const RT_ERROR_THREAD_RUNTIME_FAILURE: i32 = 3;

/// Shared memory would have been accessed outside of its valid range.
pub const RT_ERROR_MEMORY_OUT_OF_BOUNDS_ACCESS: i32 = 4;

/// The thread-id pointer could not be converted to a host address.
pub const RT_ERROR_TID_POINTER_CONVERSION_FAILED: i32 = 5;

/// The lock guarding the thread management was poisoned.
pub const RT_ERROR_TMGMT_LOCK_POISONED: i32 = 6;

/// A thread was joined, but its result was not set.
pub const LIB_ERROR_NO_RESULT_AFTER_JOIN: i32 = 7;

/// A thread was joined, but several references to its result still existed.
pub const LIB_ERROR_MULTIPLE_REFS_AFTER_JOIN: i32 = 8;

/// The text that describes each error code.
pub open spec fn errno_text(errno: i32) -> Seq<char> {
    if errno == 0 {
        "No Error"@
    } else if errno == 1 {
        "Runtime Error: Thread not found"@
    } else if errno == 2 {
        "Runtime Error: Thread join failed"@
    } else if errno == 3 {
        "Runtime Error: Thread failed in runtime context"@
    } else if errno == 4 {
        "Runtime Error: Thread tried to access shared memory out of bounds"@
    } else if errno == 5 {
        "Runtime Error: Could not convert u32 to pointer-sized type (usize)"@
    } else if errno == 6 {
        "Runtime Error: ThreadManagement lock was poisoned"@
    } else if errno == 7 {
        "Library Error: Result was not available after thread join"@
    } else if errno == 8 {
        "Library Error: Multiple references to the result after thread join"@
    } else {
        "Unknown error!"@
    }
}

/// Returns a string describing the error with code `errno`.
pub fn errno_description(errno: i32) -> (r: String)
    ensures
        r@ == errno_text(errno),
{
    let s: &str = match errno {
        0 => "No Error",
        1 => "Runtime Error: Thread not found",
        2 => "Runtime Error: Thread join failed",
        3 => "Runtime Error: Thread failed in runtime context",
        4 => "Runtime Error: Thread tried to access shared memory out of bounds",
        5 => "Runtime Error: Could not convert u32 to pointer-sized type (usize)",
        6 => "Runtime Error: ThreadManagement lock was poisoned",
        7 => "Library Error: Result was not available after thread join",
        8 => "Library Error: Multiple references to the result after thread join",
        _ => "Unknown error!",
    };
    s.to_string()
}

} // verus!
