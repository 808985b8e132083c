use std::collections::{HashMap, HashSet};
use vstd::prelude::*;

verus! {

broadcast use vstd::std_specs::hash::group_hash_axioms;

/// What can go wrong in the bookkeeping of threads.
#[derive(Debug, PartialEq, Eq, Structural, Clone, Copy)]
pub enum TmgmtError {
    /// Every 32-bit thread id has been handed out.
    IdsExhausted,
    /// A second thread without an id asked for one.
    MainInitializedTwice,
    /// The thread's id was already set.
    AlreadyInitialized,
    /// No thread with the given id is registered.
    UnknownThread,
    /// A handle was taken before a value was put into it.
    NoValue,
}

/// The process-wide source of thread ids: each id is handed out at most once,
/// in increasing order.
pub struct ThreadIds {
    next: u64,
}

impl View for ThreadIds {
    type V = Set<u32>;

    /// The ids handed out so far.
    closed spec fn view(&self) -> Set<u32> {
        Set::new(|i: u32| (i as u64) < self.next)
    }
}

impl ThreadIds {
    pub closed spec fn wf(&self) -> bool {
        self.next <= 0x1_0000_0000
    }

    /// The id the next call hands out, if any is left.
    pub closed spec fn spec_next(&self) -> u64 {
        self.next
    }

    pub fn new() -> (r: ThreadIds)
        ensures
            r.wf(),
            r@ == Set::<u32>::empty(),
            r.spec_next() == 0,
    {
        let r = ThreadIds { next: 0 };
        assert(r@ =~= Set::<u32>::empty());
        r
    }
}

/// Hands out a new thread id, never one handed out before.
///
/// Fails with `IdsExhausted`, changing nothing, once all 32-bit ids are used.
pub fn next_available_thread_id(ids: &mut ThreadIds) -> (r: Result<u32, TmgmtError>)
    requires
        old(ids).wf(),
    ensures
        final(ids).wf(),
        r is Err <==> old(ids).spec_next() == 0x1_0000_0000,
        r is Err ==> r->Err_0 == TmgmtError::IdsExhausted && final(ids)@ == old(ids)@ && final(ids).spec_next() == old(ids).spec_next(),
        r is Ok ==> r->Ok_0 as u64 == old(ids).spec_next() && !old(ids)@.contains(r->Ok_0)
            && final(ids)@ == old(ids)@.insert(r->Ok_0) && final(ids).spec_next() == old(ids).spec_next() + 1,
{
    if ids.next == 0x1_0000_0000 {
        return Err(TmgmtError::IdsExhausted);
    }
    let id = ids.next as u32;
    ids.next = ids.next + 1;
    assert(ids@ =~= old(ids)@.insert(id));
    Ok(id)
}

/// Thread-id uniqueness: two ids handed out one after the other differ, and
/// neither was handed out before.
pub proof fn lemma_ids_unique(ids0: ThreadIds, ids1: ThreadIds, ids2: ThreadIds, a: u32, b: u32)
    requires
        ids0.wf(),
        a as u64 == ids0.spec_next() && !ids0@.contains(a) && ids1@ == ids0@.insert(a),
        b as u64 == ids1.spec_next() && !ids1@.contains(b) && ids2@ == ids1@.insert(b),
    ensures
        a != b,
        !ids0@.contains(b),
{
}

/// The id of the calling thread, held in `local`.
///
/// A thread without an id gets a fresh one, and `main_initialized` is set;
/// this happens once per process, for the main thread. Any later thread
/// without an id fails with `MainInitializedTwice`.
pub fn thread_id(local: &mut Option<u32>, main_initialized: &mut bool, ids: &mut ThreadIds) -> (r:
    Result<u32, TmgmtError>)
    requires
        old(ids).wf(),
    ensures
        final(ids).wf(),
        (*old(local)) is Some ==> r == Ok::<u32, TmgmtError>((*old(local))->Some_0) && *final(local)
            == *old(local) && *final(main_initialized) == *old(main_initialized) && final(ids)@
            == old(ids)@,
        (*old(local)) is None && *old(main_initialized) ==> r == Err::<u32, TmgmtError>(
            TmgmtError::MainInitializedTwice,
        ) && *final(local) == *old(local) && final(ids)@ == old(ids)@,
        (*old(local)) is None && !*old(main_initialized) && old(ids).spec_next() < 0x1_0000_0000
            ==> r is Ok && r->Ok_0 as u64 == old(ids).spec_next() && !old(ids)@.contains(r->Ok_0)
            && final(ids)@ == old(ids)@.insert(r->Ok_0) && *final(local) == Some(r->Ok_0)
            && *final(main_initialized),
        (*old(local)) is None && !*old(main_initialized) && old(ids).spec_next() == 0x1_0000_0000
            ==> r == Err::<u32, TmgmtError>(TmgmtError::IdsExhausted) && *final(local) == *old(local),
{
    match *local {
        Some(id) => Ok(id),
        None => {
            if *main_initialized {
                return Err(TmgmtError::MainInitializedTwice);
            }
            let id = match next_available_thread_id(ids) {
                Ok(id) => id,
                Err(e) => return Err(e),
            };
            *local = Some(id);
            *main_initialized = true;
            Ok(id)
        },
    }
}

/// Sets the id of the calling thread; allowed once per thread.
pub fn set_thread_id(local: &mut Option<u32>, id: u32) -> (r: Result<(), TmgmtError>)
    ensures
        (*old(local)) is Some ==> r == Err::<(), TmgmtError>(TmgmtError::AlreadyInitialized) && *final(local) == *old(local),
        (*old(local)) is None ==> r is Ok && *final(local) == Some(id),
{
    if local.is_some() {
        Err(TmgmtError::AlreadyInitialized)
    } else {
        *local = Some(id);
        Ok(())
    }
}

/// A one-shot slot that hands a value from a producer to a consumer.
///
/// This is the state of the rendezvous; waiting and waking are up to the
/// caller, which guards the slot with a lock and a condition variable.
pub struct ConditionalHandle<T> {
    value: Option<T>,
}

impl<T> View for ConditionalHandle<T> {
    type V = Option<T>;

    closed spec fn view(&self) -> Option<T> {
        self.value
    }
}

impl<T> ConditionalHandle<T> {
    /// An empty handle.
    pub fn new() -> (r: ConditionalHandle<T>)
        ensures
            r@ is None,
    {
        ConditionalHandle { value: None }
    }

    /// A handle that already holds `val`.
    pub fn with_value(val: T) -> (r: ConditionalHandle<T>)
        ensures
            r@ == Some(val),
    {
        ConditionalHandle { value: Some(val) }
    }

    /// Puts `val` into the handle, replacing what it held.
    pub fn set_and_notify(&mut self, val: T)
        ensures
            final(self)@ == Some(val),
    {
        self.value = Some(val);
    }

    /// Whether a value is ready to be taken.
    pub fn is_ready(&self) -> (r: bool)
        ensures
            r == self@ is Some,
    {
        self.value.is_some()
    }

    /// Takes the value out, leaving the handle empty; `NoValue` where none was put in.
    pub fn take_when_ready(&mut self) -> (r: Result<T, TmgmtError>)
        ensures
            final(self)@ is None,
            old(self)@ is Some ==> r == Ok::<T, TmgmtError>(old(self)@->Some_0),
            old(self)@ is None ==> r == Err::<T, TmgmtError>(TmgmtError::NoValue),
    {
        match self.value.take() {
            Some(v) => Ok(v),
            None => Err(TmgmtError::NoValue),
        }
    }
}

/// Where the join handle of a registered thread stands.
#[derive(Debug, PartialEq, Eq, Structural)]
pub enum Slot<H> {
    /// Neither the handle nor a joiner has come yet.
    Empty,
    /// A joiner came first and waits for the handle.
    Awaited,
    /// The handle came first and waits for a joiner.
    Ready(H),
}

/// What setting a join handle does: hand it to the joiner already waiting, or keep it.
#[derive(Debug, PartialEq, Eq, Structural)]
pub enum Handover<H> {
    /// A joiner is waiting: give it this handle.
    Deliver(H),
    /// No joiner yet: the handle is kept until one comes.
    Kept,
}

/// What a joiner finds: the handle, or a wait until it is set.
#[derive(Debug, PartialEq, Eq, Structural)]
pub enum Pickup<H> {
    /// The handle was already set.
    Ready(H),
    /// The handle is not set yet: it will be delivered when it is.
    Wait,
}

/// The effect of setting the join handle of thread `tid`.
pub open spec fn tm_set<H>(m: Map<u32, Slot<H>>, tid: u32, h: H) -> (Map<u32, Slot<H>>, Result<
    Handover<H>,
    TmgmtError,
>) {
    if !m.contains_key(tid) {
        (m, Err(TmgmtError::UnknownThread))
    } else if m[tid] == Slot::<H>::Awaited {
        (m.remove(tid), Ok(Handover::Deliver(h)))
    } else {
        (m.insert(tid, Slot::Ready(h)), Ok(Handover::Kept))
    }
}

/// The effect of a joiner asking for thread `tid`.
pub open spec fn tm_retrieve<H>(m: Map<u32, Slot<H>>, tid: u32) -> (Map<u32, Slot<H>>, Option<
    Pickup<H>,
>) {
    if !m.contains_key(tid) {
        (m, None)
    } else {
        match m[tid] {
            Slot::Ready(h) => (m.remove(tid), Some(Pickup::Ready(h))),
            Slot::Empty => (m.insert(tid, Slot::Awaited), Some(Pickup::Wait)),
            Slot::Awaited => (m, None),
        }
    }
}

/// The registry of spawned threads: for each id, where the join handle `H`
/// stands on its way from the spawning thread to the joining one.
///
/// The spawning side and the joining side may come in either order; waiting
/// and waking are up to the caller.
pub struct ThreadManagement<H> {
    threads: HashMap<u32, Slot<H>>,
}

impl<H> View for ThreadManagement<H> {
    type V = Map<u32, Slot<H>>;

    closed spec fn view(&self) -> Map<u32, Slot<H>> {
        self.threads@
    }
}

impl<H> ThreadManagement<H> {
    pub fn new() -> (r: ThreadManagement<H>)
        ensures
            r@ == Map::<u32, Slot<H>>::empty(),
    {
        ThreadManagement { threads: HashMap::new() }
    }

    /// Registers a new thread under a fresh id, never handed out before.
    pub fn register_thread(&mut self, ids: &mut ThreadIds) -> (r: Result<u32, TmgmtError>)
        requires
            old(ids).wf(),
            forall|t: u32| old(self)@.contains_key(t) ==> old(ids)@.contains(t),
        ensures
            final(ids).wf(),
            forall|t: u32| final(self)@.contains_key(t) ==> final(ids)@.contains(t),
            r is Err <==> old(ids).spec_next() == 0x1_0000_0000,
            r is Err ==> r->Err_0 == TmgmtError::IdsExhausted && final(self)@ == old(self)@,
            r is Ok ==> !old(ids)@.contains(r->Ok_0) && !old(self)@.contains_key(r->Ok_0)
                && final(self)@ == old(self)@.insert(r->Ok_0, Slot::Empty) && final(ids)@ == old(
                ids)@.insert(r->Ok_0),
    {
        let tid = match next_available_thread_id(ids) {
            Ok(t) => t,
            Err(e) => return Err(e),
        };
        self.threads.insert(tid, Slot::Empty);
        Ok(tid)
    }

    /// Sets the join handle of thread `thread_id`: it goes to a joiner already
    /// waiting, or is kept for the next one; `UnknownThread` where no such
    /// thread is registered.
    pub fn set_join_handle(&mut self, thread_id: u32, handle: H) -> (r: Result<
        Handover<H>,
        TmgmtError,
    >)
        ensures
            (final(self)@, r) == tm_set(old(self)@, thread_id, handle),
    {
        match self.threads.remove(&thread_id) {
            Some(Slot::Awaited) => Ok(Handover::Deliver(handle)),
            Some(_) => {
                self.threads.insert(thread_id, Slot::Ready(handle));
                assert(self@ =~= old(self)@.insert(thread_id, Slot::Ready(handle)));
                Ok(Handover::Kept)
            },
            None => {
                assert(self@ =~= old(self)@);
                Err(TmgmtError::UnknownThread)
            },
        }
    }

    /// A joiner asks for thread `thread_id`: the handle if it is set (the
    /// thread then leaves the registry), else a wait for it; `None` where the
    /// thread is unknown or already awaited.
    pub fn retrieve_thread(&mut self, thread_id: u32) -> (r: Option<Pickup<H>>)
        ensures
            (final(self)@, r) == tm_retrieve(old(self)@, thread_id),
    {
        match self.threads.remove(&thread_id) {
            Some(Slot::Ready(h)) => Some(Pickup::Ready(h)),
            Some(Slot::Empty) => {
                self.threads.insert(thread_id, Slot::Awaited);
                assert(self@ =~= old(self)@.insert(thread_id, Slot::Awaited));
                Some(Pickup::Wait)
            },
            Some(Slot::Awaited) => {
                self.threads.insert(thread_id, Slot::Awaited);
                assert(self@ =~= old(self)@);
                None
            },
            None => {
                assert(self@ =~= old(self)@);
                None
            },
        }
    }
}

/// Join rendezvous in either order: for a freshly registered thread, whether
/// its join handle is set before or after the joiner asks for it, the joiner
/// receives exactly that handle, and the thread then leaves the registry.
pub proof fn lemma_join_rendezvous<H>(m: Map<u32, Slot<H>>, tid: u32, handle: H)
    requires
        m.contains_key(tid),
        m[tid] == Slot::<H>::Empty,
    ensures
        tm_set(m, tid, handle).1 == Ok::<Handover<H>, TmgmtError>(Handover::Kept),
        tm_retrieve(tm_set(m, tid, handle).0, tid).1 == Some(Pickup::Ready(handle)),
        !tm_retrieve(tm_set(m, tid, handle).0, tid).0.contains_key(tid),
        tm_retrieve(m, tid).1 == Some(Pickup::<H>::Wait),
        tm_set(tm_retrieve(m, tid).0, tid, handle).1 == Ok::<Handover<H>, TmgmtError>(
            Handover::Deliver(handle),
        ),
        !tm_set(tm_retrieve(m, tid).0, tid, handle).0.contains_key(tid),
{
}

/// What a finishing thread's result does: wake a joiner already waiting, or
/// wait for one.
#[derive(Debug, PartialEq, Eq, Structural, Clone, Copy)]
pub enum Delivery {
    /// A joiner is waiting: hand it this value.
    Notify(i32),
    /// No joiner yet: the value is kept until one comes.
    Stored,
}

/// What a joiner finds: the result, or a wait for it.
#[derive(Debug, PartialEq, Eq, Structural, Clone, Copy)]
pub enum Retrieval {
    /// The thread has finished with this value.
    Ready(i32),
    /// The thread is still running: wait until its value is handed over.
    Wait,
}

/// The threads of the browser runtime: those running, those a joiner waits
/// for, and the results of finished threads nobody has joined yet.
pub struct JsState {
    pub running: Set<u32>,
    pub pending: Set<u32>,
    pub done: Map<u32, i32>,
}

/// The effect of thread `tid` finishing with `v`.
pub open spec fn js_set(st: JsState, tid: u32, v: i32) -> (JsState, Result<Delivery, TmgmtError>) {
    if !st.running.contains(tid) {
        (st, Err(TmgmtError::UnknownThread))
    } else if st.pending.contains(tid) {
        (
            JsState { running: st.running.remove(tid), pending: st.pending.remove(tid), done: st.done },
            Ok(Delivery::Notify(v)),
        )
    } else {
        (
            JsState { running: st.running.remove(tid), pending: st.pending, done: st.done.insert(tid, v) },
            Ok(Delivery::Stored),
        )
    }
}

/// The effect of a joiner asking for thread `tid`.
pub open spec fn js_retrieve(st: JsState, tid: u32) -> (JsState, Option<Retrieval>) {
    if st.done.contains_key(tid) {
        (
            JsState { running: st.running, pending: st.pending, done: st.done.remove(tid) },
            Some(Retrieval::Ready(st.done[tid])),
        )
    } else if st.running.contains(tid) {
        (
            JsState { running: st.running, pending: st.pending.insert(tid), done: st.done },
            Some(Retrieval::Wait),
        )
    } else {
        (st, None)
    }
}

/// Join rendezvous in either order: whether the thread finishes before or
/// after its joiner asks for it, the joiner receives exactly the value the
/// thread finished with.
pub proof fn lemma_js_rendezvous(st: JsState, tid: u32, v: i32)
    requires
        st.running.contains(tid),
        !st.pending.contains(tid),
        !st.done.contains_key(tid),
    ensures
        js_set(st, tid, v).1 == Ok::<Delivery, TmgmtError>(Delivery::Stored),
        js_retrieve(js_set(st, tid, v).0, tid).1 == Some(Retrieval::Ready(v)),
        js_retrieve(st, tid).1 == Some(Retrieval::Wait),
        js_set(js_retrieve(st, tid).0, tid, v).1 == Ok::<Delivery, TmgmtError>(Delivery::Notify(v)),
{
}

/// The thread registry of the browser runtime, where a thread reports its result
/// and a joiner may come before or after that.
pub struct JsThreadManagement {
    running: HashSet<u32>,
    pending: HashSet<u32>,
    done: HashMap<u32, i32>,
}

impl View for JsThreadManagement {
    type V = JsState;

    closed spec fn view(&self) -> JsState {
        JsState { running: self.running@, pending: self.pending@, done: self.done@ }
    }
}

impl JsThreadManagement {
    pub fn new() -> (r: JsThreadManagement)
        ensures
            r@.running == Set::<u32>::empty(),
            r@.pending == Set::<u32>::empty(),
            r@.done == Map::<u32, i32>::empty(),
    {
        JsThreadManagement { running: HashSet::new(), pending: HashSet::new(), done: HashMap::new() }
    }

    /// Registers a new running thread under a fresh id.
    pub fn register_thread(&mut self, ids: &mut ThreadIds) -> (r: Result<u32, TmgmtError>)
        requires
            old(ids).wf(),
        ensures
            final(ids).wf(),
            r is Err <==> old(ids).spec_next() == 0x1_0000_0000,
            r is Err ==> r->Err_0 == TmgmtError::IdsExhausted && final(self)@ == old(self)@,
            r is Ok ==> final(self)@ == (JsState {
                running: old(self)@.running.insert(r->Ok_0),
                pending: old(self)@.pending,
                done: old(self)@.done,
            }) && !old(ids)@.contains(r->Ok_0) && final(ids)@ == old(ids)@.insert(r->Ok_0),
    {
        let tid = match next_available_thread_id(ids) {
            Ok(t) => t,
            Err(e) => return Err(e),
        };
        self.running.insert(tid);
        Ok(tid)
    }

    /// Thread `thread_id` finished with `return_val`.
    pub fn set_return_val(&mut self, thread_id: u32, return_val: i32) -> (r: Result<
        Delivery,
        TmgmtError,
    >)
        ensures
            (final(self)@, r) == js_set(old(self)@, thread_id, return_val),
    {
        if self.running.remove(&thread_id) {
            if self.pending.remove(&thread_id) {
                Ok(Delivery::Notify(return_val))
            } else {
                assert(self.pending@ =~= old(self).pending@);
                self.done.insert(thread_id, return_val);
                Ok(Delivery::Stored)
            }
        } else {
            assert(self.running@ =~= old(self).running@);
            Err(TmgmtError::UnknownThread)
        }
    }

    /// A joiner asks for thread `thread_id`; `None` where no such thread is known.
    pub fn retrieve_thread(&mut self, thread_id: u32) -> (r: Option<Retrieval>)
        ensures
            (final(self)@, r) == js_retrieve(old(self)@, thread_id),
    {
        match self.done.remove(&thread_id) {
            Some(v) => Some(Retrieval::Ready(v)),
            None => {
                assert(self.done@ =~= old(self).done@);
                if self.running.contains(&thread_id) {
                    self.pending.insert(thread_id);
                    Some(Retrieval::Wait)
                } else {
                    None
                }
            },
        }
    }
}

} // verus!
