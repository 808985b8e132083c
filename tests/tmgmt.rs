use wasmgrind::threadlink::{hook_op, join_result, tid_store, Hook, JoinOutcome};
use wasmgrind::tracing::Op;
use wasmgrind::tmgmt::{
    next_available_thread_id, set_thread_id, thread_id, ConditionalHandle, Delivery, Handover,
    Pickup,
    JsThreadManagement, Retrieval, ThreadIds, ThreadManagement, TmgmtError,
};

#[test]
fn thread_ids_are_unique_and_increasing() {
    let mut ids = ThreadIds::new();
    let a = next_available_thread_id(&mut ids).unwrap();
    let b = next_available_thread_id(&mut ids).unwrap();
    let c = next_available_thread_id(&mut ids).unwrap();
    assert_eq!((a, b, c), (0, 1, 2));
}

#[test]
fn main_thread_gets_an_id_once() {
    let mut ids = ThreadIds::new();
    let mut initialized = false;
    let mut main_local = None;
    assert_eq!(thread_id(&mut main_local, &mut initialized, &mut ids), Ok(0));
    assert_eq!(thread_id(&mut main_local, &mut initialized, &mut ids), Ok(0));
    let mut other_local = None;
    assert_eq!(
        thread_id(&mut other_local, &mut initialized, &mut ids),
        Err(TmgmtError::MainInitializedTwice)
    );
    assert_eq!(set_thread_id(&mut other_local, 7), Ok(()));
    assert_eq!(set_thread_id(&mut other_local, 8), Err(TmgmtError::AlreadyInitialized));
    assert_eq!(thread_id(&mut other_local, &mut initialized, &mut ids), Ok(7));
}

#[test]
fn conditional_handle_hands_over_the_value() {
    let mut handle = ConditionalHandle::new();
    assert!(!handle.is_ready());
    assert_eq!(handle.take_when_ready(), Err(TmgmtError::NoValue));
    handle.set_and_notify(41);
    assert!(handle.is_ready());
    assert_eq!(handle.take_when_ready(), Ok(41));
    let mut ready = ConditionalHandle::with_value("done");
    assert_eq!(ready.take_when_ready(), Ok("done"));
}

#[test]
fn join_handle_reaches_the_joiner() {
    let mut ids = ThreadIds::new();
    let mut tm: ThreadManagement<&str> = ThreadManagement::new();
    let t1 = tm.register_thread(&mut ids).unwrap();
    let t2 = tm.register_thread(&mut ids).unwrap();
    assert_ne!(t1, t2);
    // handle first, joiner second
    assert_eq!(tm.set_join_handle(t1, "first"), Ok(Handover::Kept));
    assert_eq!(tm.set_join_handle(99, "nobody"), Err(TmgmtError::UnknownThread));
    assert_eq!(tm.retrieve_thread(t1), Some(Pickup::Ready("first")));
    assert_eq!(tm.retrieve_thread(t1), None);
    // joiner first, handle second
    assert_eq!(tm.retrieve_thread(t2), Some(Pickup::Wait));
    assert_eq!(tm.retrieve_thread(t2), None);
    assert_eq!(tm.set_join_handle(t2, "second"), Ok(Handover::Deliver("second")));
    assert_eq!(tm.retrieve_thread(t2), None);
    assert_eq!(tm.set_join_handle(t2, "again"), Err(TmgmtError::UnknownThread));
}

#[test]
fn js_join_in_either_order() {
    let mut ids = ThreadIds::new();
    let mut tm = JsThreadManagement::new();
    let early = tm.register_thread(&mut ids).unwrap();
    let late = tm.register_thread(&mut ids).unwrap();
    assert_eq!(tm.set_return_val(early, 5), Ok(Delivery::Stored));
    assert_eq!(tm.retrieve_thread(early), Some(Retrieval::Ready(5)));
    assert_eq!(tm.retrieve_thread(late), Some(Retrieval::Wait));
    assert_eq!(tm.set_return_val(late, 6), Ok(Delivery::Notify(6)));
    assert_eq!(tm.retrieve_thread(late), None);
    assert_eq!(tm.set_return_val(late, 7), Err(TmgmtError::UnknownThread));
}

#[test]
fn join_outcomes_map_to_error_codes() {
    assert_eq!(join_result(JoinOutcome::Finished), (0, true));
    assert_eq!(join_result(JoinOutcome::NotFound), (1, false));
    assert_eq!(join_result(JoinOutcome::JoinFailed), (2, false));
    assert_eq!(join_result(JoinOutcome::ThreadFailed), (3, false));
    assert_eq!(join_result(JoinOutcome::LockPoisoned), (6, false));
}

#[test]
fn thread_id_is_stored_little_endian_within_bounds() {
    assert_eq!(tid_store(16, 12, 0x0102_0304), Ok((12, vec![4, 3, 2, 1])));
    assert_eq!(tid_store(16, 13, 1), Err(4));
    assert_eq!(tid_store(2, 0, 1), Err(4));
}

#[test]
fn hooks_record_the_native_operations() {
    assert_eq!(hook_op(Hook::StartLock, 3, 0), Some(Op::Request { lock: 3 }));
    assert_eq!(hook_op(Hook::FinishLock, 3, 0), Some(Op::Aquire { lock: 3 }));
    assert_eq!(hook_op(Hook::StartUnlock, 3, 0), None);
    assert_eq!(hook_op(Hook::FinishUnlock, 3, 0), Some(Op::Release { lock: 3 }));
    assert_eq!(hook_op(Hook::Read, 64, 4), Some(Op::Read { addr: 64, n: 4 }));
    assert_eq!(hook_op(Hook::Write, 64, 8), Some(Op::Write { addr: 64, n: 8 }));
}
