use wasmgrind::errno::{
    errno_description, LIB_ERROR_MULTIPLE_REFS_AFTER_JOIN, NO_ERROR, RT_ERROR_THREAD_NOT_FOUND,
    RT_ERROR_TMGMT_LOCK_POISONED,
};

#[test]
fn error_codes_are_stable() {
    assert_eq!(NO_ERROR, 0);
    assert_eq!(RT_ERROR_THREAD_NOT_FOUND, 1);
    assert_eq!(RT_ERROR_TMGMT_LOCK_POISONED, 6);
    assert_eq!(LIB_ERROR_MULTIPLE_REFS_AFTER_JOIN, 8);
}

#[test]
fn describes_known_and_unknown_codes() {
    assert_eq!(errno_description(0), "No Error");
    assert_eq!(errno_description(1), "Runtime Error: Thread not found");
    assert_eq!(
        errno_description(8),
        "Library Error: Multiple references to the result after thread join"
    );
    assert_eq!(errno_description(9), "Unknown error!");
    assert_eq!(errno_description(-1), "Unknown error!");
}
