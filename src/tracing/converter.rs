use std::collections::HashMap;
use vstd::prelude::*;
use crate::generic;
use crate::tracing::representation::{Event, Op};
use crate::tracing::metadata::{
    key_high, key_low, shared_prefix, shared_view, LocationIdentifier, LocationRecord, LockRecord,
    MemoryIdentifier, MemoryRecord, ThreadRecord, WasmgrindTraceMetadata,
};

verus! {

broadcast use vstd::std_specs::hash::group_hash_axioms;

/// The key of a pair of 32-bit values: the first in the high half, the second in the low half.
pub open spec fn pair_key(a: u32, b: u32) -> u64 {
    (a as int * 0x1_0000_0000 + b as int) as u64
}

/// The key of the pair `(a, b)`.
pub fn make_pair_key(a: u32, b: u32) -> (r: u64)
    ensures
        r == pair_key(a, b),
{
    (a as u64) * 0x1_0000_0000u64 + (b as u64)
}

/// The keys after one more is seen: unchanged if known, else extended by it.
pub open spec fn add_key(s: Seq<u64>, k: u64) -> Seq<u64> {
    if s.contains(k) {
        s
    } else {
        s.push(k)
    }
}

/// Assigns a dense id to each distinct key, in the order keys are first seen.
///
/// The key with id `i` is the `i`-th distinct key seen; an id, once assigned,
/// never changes.
pub struct WasmgrindToGeneric {
    map: HashMap<u64, u64>,
    keys: Vec<u64>,
}

impl View for WasmgrindToGeneric {
    type V = Seq<u64>;

    /// The keys in the order of their ids.
    closed spec fn view(&self) -> Seq<u64> {
        self.keys@
    }
}

impl WasmgrindToGeneric {
    pub closed spec fn wf(&self) -> bool {
        &&& self.keys@.no_duplicates()
        &&& forall|k: u64| self.map@.contains_key(k) <==> self.keys@.contains(k)
        &&& forall|i: int|
            0 <= i < self.keys@.len() ==> self.map@[#[trigger] self.keys@[i]] as int == i
    }

    pub fn new() -> (r: WasmgrindToGeneric)
        ensures
            r.wf(),
            r@ == Seq::<u64>::empty(),
    {
        WasmgrindToGeneric { map: HashMap::new(), keys: Vec::new() }
    }

    /// The id of `value`: its existing one, or the next free one if it is new.
    pub fn get_identifier(&mut self, value: u64) -> (r: u64)
        requires
            old(self).wf(),
        ensures
            final(self).wf(),
            final(self)@ == add_key(old(self)@, value),
            old(self)@.is_prefix_of(final(self)@),
            (r as int) < final(self)@.len(),
            final(self)@[r as int] == value,
    {
        match self.map.get(&value) {
            Some(id) => {
                let id = *id;
                proof {
                    assert(self.map@.contains_key(value));
                    assert(self.keys@.contains(value));
                    let i = choose|i: int| 0 <= i < self.keys@.len() && self.keys@[i] == value;
                    assert(self.map@[self.keys@[i]] as int == i);
                    assert(self.keys@ =~= add_key(self.keys@, value));
                }
                id
            },
            None => {
                let id = self.keys.len() as u64;
                self.map.insert(value, id);
                self.keys.push(value);
                proof {
                    assert(!old(self).keys@.contains(value));
                    assert forall|k: u64| self.map@.contains_key(k) <==> self.keys@.contains(k) by {
                        if k == value {
                            assert(self.keys@[id as int] == value);
                        } else {
                            if self.keys@.contains(k) {
                                let j = choose|j: int|
                                    0 <= j < self.keys@.len() && self.keys@[j] == k;
                                assert(j < old(self).keys@.len());
                                assert(old(self).keys@[j] == k);
                                assert(old(self).keys@.contains(k));
                            }
                            if old(self).keys@.contains(k) {
                                let j = choose|j: int|
                                    0 <= j < old(self).keys@.len() && old(self).keys@[j] == k;
                                assert(self.keys@[j] == k);
                            }
                        }
                    }
                    assert forall|i: int| 0 <= i < self.keys@.len() implies self.map@[
                        #[trigger] self.keys@[i]] as int == i by {
                        if i < old(self).keys@.len() {
                            assert(self.keys@[i] == old(self).keys@[i]);
                            assert(old(self).keys@.contains(self.keys@[i]));
                        }
                    }
                    assert forall|a: int, b: int|
                        0 <= a < b < self.keys@.len() implies self.keys@[a] != self.keys@[b] by {
                        if b == old(self).keys@.len() {
                            assert(self.keys@[a] == old(self).keys@[a]);
                        } else {
                            assert(old(self).keys@[a] != old(self).keys@[b]);
                        }
                    }
                    assert(old(self)@.is_prefix_of(self.keys@));
                }
                id
            },
        }
    }

    /// The keys in the order of their ids: the key with id `i` stands at `i`.
    pub fn get_map(&self) -> (r: &Vec<u64>)
        ensures
            r@ == self@,
    {
        &self.keys
    }
}

/// What a converter has assigned so far: the keys of each kind in id order, and
/// for each variable id the thread ids that accessed it, in first-access order.
pub struct ConverterState {
    pub threads: Seq<u64>,
    pub variables: Seq<u64>,
    pub locks: Seq<u64>,
    pub locations: Seq<u64>,
    pub accessors: Seq<Seq<u64>>,
}

/// The thread keys after converting `e`: its thread, then the target of a fork or join.
pub open spec fn thread_after(st: ConverterState, e: Event) -> Seq<u64> {
    let first = add_key(st.threads, e.t as u64);
    match e.op {
        Op::Fork { tid } => add_key(first, tid as u64),
        Op::Join { tid } => add_key(first, tid as u64),
        _ => first,
    }
}

/// The variable key a memory access names, if any.
pub open spec fn access_key(op: Op) -> Option<u64> {
    match op {
        Op::Read { addr, n } => Some(pair_key(addr, n)),
        Op::Write { addr, n } => Some(pair_key(addr, n)),
        _ => None,
    }
}

/// The lock key an operation names, if any.
pub open spec fn lock_key(op: Op) -> Option<u64> {
    match op {
        Op::Aquire { lock } => Some(lock as u64),
        Op::Request { lock } => Some(lock as u64),
        Op::Release { lock } => Some(lock as u64),
        _ => None,
    }
}

/// The generic event for `e` under the ids of `st`, the state after converting it.
pub open spec fn generic_event(st: ConverterState, e: Event) -> generic::Event {
    generic::Event {
        thread_id: st.threads.index_of(e.t as u64) as u64,
        operation: match e.op {
            Op::Read { addr, n } => generic::Operation::Read {
                memory: st.variables.index_of(pair_key(addr, n)) as u64,
            },
            Op::Write { addr, n } => generic::Operation::Write {
                memory: st.variables.index_of(pair_key(addr, n)) as u64,
            },
            Op::Aquire { lock } => generic::Operation::Aquire {
                lock: st.locks.index_of(lock as u64) as u64,
            },
            Op::Request { lock } => generic::Operation::Request {
                lock: st.locks.index_of(lock as u64) as u64,
            },
            Op::Release { lock } => generic::Operation::Release {
                lock: st.locks.index_of(lock as u64) as u64,
            },
            Op::Fork { tid } => generic::Operation::Fork {
                tid: st.threads.index_of(tid as u64) as u64,
            },
            Op::Join { tid } => generic::Operation::Join {
                tid: st.threads.index_of(tid as u64) as u64,
            },
        },
        location: st.locations.index_of(pair_key(e.loc.0, e.loc.1)) as u64,
    }
}

/// The state of a converter that has converted nothing.
pub open spec fn initial_state() -> ConverterState {
    ConverterState {
        threads: Seq::empty(),
        variables: Seq::empty(),
        locks: Seq::empty(),
        locations: Seq::empty(),
        accessors: Seq::empty(),
    }
}

/// The state after converting a whole trace, and the generic trace.
pub open spec fn convert_trace(s: Seq<Event>) -> (ConverterState, Seq<generic::Event>)
    decreases s.len(),
{
    if s.len() == 0 {
        (initial_state(), Seq::empty())
    } else {
        let (st, g) = convert_trace(s.drop_last());
        let next = state_after(st, s.last());
        (next, g.push(generic_event(next, s.last())))
    }
}

/// The state of a converter after it converted `e`.
pub open spec fn state_after(st: ConverterState, e: Event) -> ConverterState {
    let threads = thread_after(st, e);
    let tid = add_key(st.threads, e.t as u64).index_of(e.t as u64);
    let variables = match access_key(e.op) {
        Some(k) => add_key(st.variables, k),
        None => st.variables,
    };
    let accessors = match access_key(e.op) {
        Some(k) => if st.variables.contains(k) {
            let v = st.variables.index_of(k);
            st.accessors.update(v, add_key(st.accessors[v], tid as u64))
        } else {
            st.accessors.push(seq![tid as u64])
        },
        None => st.accessors,
    };
    ConverterState {
        threads,
        variables,
        locks: match lock_key(e.op) {
            Some(k) => add_key(st.locks, k),
            None => st.locks,
        },
        locations: add_key(st.locations, pair_key(e.loc.0, e.loc.1)),
        accessors,
    }
}

/// Whether the generic event `g` names, through the ids of `st`, what the native event `e` names.
pub open spec fn names_same(st: ConverterState, e: Event, g: generic::Event) -> bool {
    &&& (g.thread_id as int) < st.threads.len() && st.threads[g.thread_id as int] == e.t as u64
    &&& (g.location as int) < st.locations.len() && st.locations[g.location as int]
        == pair_key(e.loc.0, e.loc.1)
    &&& {
        let d = g.operation.spec_decor() as int;
        match e.op {
            Op::Read { addr, n } => g.operation is Read && d < st.variables.len()
                && st.variables[d] == pair_key(addr, n),
            Op::Write { addr, n } => g.operation is Write && d < st.variables.len()
                && st.variables[d] == pair_key(addr, n),
            Op::Aquire { lock } => g.operation is Aquire && d < st.locks.len() && st.locks[d]
                == lock as u64,
            Op::Request { lock } => g.operation is Request && d < st.locks.len() && st.locks[d]
                == lock as u64,
            Op::Release { lock } => g.operation is Release && d < st.locks.len() && st.locks[d]
                == lock as u64,
            Op::Fork { tid } => g.operation is Fork && d < st.threads.len() && st.threads[d]
                == tid as u64,
            Op::Join { tid } => g.operation is Join && d < st.threads.len() && st.threads[d]
                == tid as u64,
        }
    }
}

/// A copy of `v`.
pub fn copy_ids(v: &Vec<u64>) -> (r: Vec<u64>)
    ensures
        r@ == v@,
{
    let mut r: Vec<u64> = Vec::new();
    let mut i: usize = 0;
    while i < v.len()
        invariant
            i <= v@.len(),
            r@ == v@.take(i as int),
        decreases v@.len() - i,
    {
        r.push(v[i]);
        i = i + 1;
        assert(r@ =~= v@.take(i as int));
    }
    assert(v@.take(i as int) =~= v@);
    r
}

/// Whether `v` holds `x`.
pub fn vec_contains(v: &Vec<u64>, x: u64) -> (r: bool)
    ensures
        r == v@.contains(x),
{
    let mut i: usize = 0;
    while i < v.len()
        invariant
            i <= v@.len(),
            forall|j: int| 0 <= j < i ==> v@[j] != x,
        decreases v@.len() - i,
    {
        if v[i] == x {
            return true;
        }
        i = i + 1;
    }
    false
}

/// Converts native events into generic ones, assigning ids to threads, memory
/// variables, locks and locations in the order they are first seen, and noting
/// which threads accessed each variable.
pub struct WasmgrindTraceConverter {
    threads: WasmgrindToGeneric,
    variables: WasmgrindToGeneric,
    locks: WasmgrindToGeneric,
    locations: WasmgrindToGeneric,
    shared_variables: Vec<Vec<u64>>,
}

impl View for WasmgrindTraceConverter {
    type V = ConverterState;

    closed spec fn view(&self) -> ConverterState {
        ConverterState {
            threads: self.threads@,
            variables: self.variables@,
            locks: self.locks@,
            locations: self.locations@,
            accessors: self.shared_variables@.map_values(|v: Vec<u64>| v@),
        }
    }
}

/// Whether every key of `s` is a 32-bit value.
pub open spec fn keys_32(s: Seq<u64>) -> bool {
    forall|i: int| 0 <= i < s.len() ==> #[trigger] s[i] <= u32::MAX
}

/// Whether the assignment is consistent: accessor lists, one per variable, each without repeats,
/// and the thread and lock keys 32-bit values.
pub open spec fn state_wf(st: ConverterState) -> bool {
    &&& st.threads.no_duplicates()
    &&& st.variables.no_duplicates()
    &&& st.locks.no_duplicates()
    &&& st.locations.no_duplicates()
    &&& st.accessors.len() == st.variables.len()
    &&& forall|v: int| 0 <= v < st.accessors.len() ==> (#[trigger] st.accessors[v]).no_duplicates()
    &&& keys_32(st.threads)
    &&& keys_32(st.locks)
}

impl WasmgrindTraceConverter {
    pub closed spec fn wf(&self) -> bool {
        &&& self.threads.wf()
        &&& self.variables.wf()
        &&& self.locks.wf()
        &&& self.locations.wf()
        &&& state_wf(self@)
    }

    pub fn new() -> (r: WasmgrindTraceConverter)
        ensures
            r.wf(),
            r@.threads.len() == 0,
            r@.variables.len() == 0,
            r@.locks.len() == 0,
            r@.locations.len() == 0,
            r@.accessors.len() == 0,
    {
        let r = WasmgrindTraceConverter {
            threads: WasmgrindToGeneric::new(),
            variables: WasmgrindToGeneric::new(),
            locks: WasmgrindToGeneric::new(),
            locations: WasmgrindToGeneric::new(),
            shared_variables: Vec::new(),
        };
        assert(r@.accessors =~= Seq::<Seq<u64>>::empty());
        r
    }

    fn note_access(&mut self, variable_id: u64, thread_id: u64, is_new: bool)
        requires
            old(self).wf() || (is_new && old(self).shared_variables@.len() + 1
                == old(self).variables@.len()),
            is_new ==> old(self).shared_variables@.len() == variable_id,
            !is_new ==> variable_id < old(self).shared_variables@.len(),
        ensures
            final(self).threads == old(self).threads,
            final(self).variables == old(self).variables,
            final(self).locks == old(self).locks,
            final(self).locations == old(self).locations,
            is_new ==> final(self)@.accessors == old(self)@.accessors.push(seq![thread_id]),
            !is_new ==> final(self)@.accessors == old(self)@.accessors.update(
                variable_id as int,
                add_key(old(self)@.accessors[variable_id as int], thread_id),
            ),
    {
        if is_new {
            let mut fresh: Vec<u64> = Vec::new();
            fresh.push(thread_id);
            assert(fresh@ =~= seq![thread_id]);
            self.shared_variables.push(fresh);
            assert(self@.accessors =~= old(self)@.accessors.push(seq![thread_id]));
        } else {
            let len = self.shared_variables.len();
            assert(variable_id < len);
            let v = variable_id as usize;
            let ghost target = add_key(old(self)@.accessors[variable_id as int], thread_id);
            assert(old(self)@.accessors[v as int] == old(self).shared_variables@[v as int]@);
            let present = vec_contains(&self.shared_variables[v], thread_id);
            assert(present == old(self)@.accessors[v as int].contains(thread_id));
            if !present {
                let mut inner = copy_ids(&self.shared_variables[v]);
                inner.push(thread_id);
                assert(inner@ == target);
                self.shared_variables.set(v, inner);
            } else {
                assert(old(self).shared_variables@[v as int]@ == target);
            }
            assert forall|i: int| 0 <= i < self@.accessors.len() implies self@.accessors[i]
                == old(self)@.accessors.update(variable_id as int, target)[i] by {
                if i != v as int {
                    assert(self.shared_variables@[i] == old(self).shared_variables@[i]);
                }
            }
            assert(self@.accessors =~= old(self)@.accessors.update(variable_id as int, target));
        }
    }

    /// Converts one native event, assigning ids to what it names for the first time.
    pub fn convert_event(&mut self, event: &Event) -> (r: generic::Event)
        requires
            old(self).wf(),
        ensures
            final(self).wf(),
            final(self)@ == state_after(old(self)@, *event),
            names_same(final(self)@, *event, r),
            r == generic_event(final(self)@, *event),
    {
        let thread_id = self.threads.get_identifier(event.t as u64);
        let ghost first = self.threads@;
        proof {
            assert(first.index_of(event.t as u64) == thread_id as int);
        }
        let operation = match event.op {
            Op::Read { addr, n } => {
                let key = make_pair_key(addr, n);
                let ghost known = self.variables@.contains(key);
                let before = self.variables.get_map().len();
                let variable_id = self.variables.get_identifier(key);
                let is_new = self.variables.get_map().len() > before;
                proof {
                    if known {
                        assert(self.variables@.index_of(key) == variable_id as int);
                    }
                }
                self.note_access(variable_id, thread_id, is_new);
                generic::Operation::Read { memory: variable_id }
            },
            Op::Write { addr, n } => {
                let key = make_pair_key(addr, n);
                let ghost known = self.variables@.contains(key);
                let before = self.variables.get_map().len();
                let variable_id = self.variables.get_identifier(key);
                let is_new = self.variables.get_map().len() > before;
                proof {
                    if known {
                        assert(self.variables@.index_of(key) == variable_id as int);
                    }
                }
                self.note_access(variable_id, thread_id, is_new);
                generic::Operation::Write { memory: variable_id }
            },
            Op::Aquire { lock } => generic::Operation::Aquire {
                lock: self.locks.get_identifier(lock as u64),
            },
            Op::Request { lock } => generic::Operation::Request {
                lock: self.locks.get_identifier(lock as u64),
            },
            Op::Release { lock } => generic::Operation::Release {
                lock: self.locks.get_identifier(lock as u64),
            },
            Op::Fork { tid } => generic::Operation::Fork {
                tid: self.threads.get_identifier(tid as u64),
            },
            Op::Join { tid } => generic::Operation::Join {
                tid: self.threads.get_identifier(tid as u64),
            },
        };
        let location = self.locations.get_identifier(make_pair_key(event.loc.0, event.loc.1));
        proof {
            assert(first.is_prefix_of(self.threads@));
            assert(self.threads@[thread_id as int] == first[thread_id as int]);
            assert(keys_32(self@.threads));
            assert(keys_32(self@.locks));
            assert(self@ == state_after(old(self)@, *event));
        }
        let r = generic::Event::new(thread_id, operation, location);
        proof {
            let st = self@;
            assert(st.threads.index_of(event.t as u64) == thread_id as int);
            assert(st.locations.index_of(pair_key(event.loc.0, event.loc.1)) == location as int);
            let d = operation.spec_decor() as int;
            match event.op {
                Op::Read { addr, n } => assert(st.variables.index_of(pair_key(addr, n)) == d),
                Op::Write { addr, n } => assert(st.variables.index_of(pair_key(addr, n)) == d),
                Op::Aquire { lock } => assert(st.locks.index_of(lock as u64) == d),
                Op::Request { lock } => assert(st.locks.index_of(lock as u64) == d),
                Op::Release { lock } => assert(st.locks.index_of(lock as u64) == d),
                Op::Fork { tid } => assert(st.threads.index_of(tid as u64) == d),
                Op::Join { tid } => assert(st.threads.index_of(tid as u64) == d),
            }
        }
        r
    }
}

/// Ids are assigned in first-seen order and never reassigned: converting an
/// event keeps every assigned key at its id, and appends only keys that were
/// not seen before, each at most once.
pub proof fn lemma_ids_first_seen(st: ConverterState, e: Event)
    ensures
        st.threads.is_prefix_of(state_after(st, e).threads),
        st.variables.is_prefix_of(state_after(st, e).variables),
        st.locks.is_prefix_of(state_after(st, e).locks),
        st.locations.is_prefix_of(state_after(st, e).locations),
        forall|i: int|
            st.threads.len() <= i < state_after(st, e).threads.len() ==> !st.threads.contains(
                #[trigger] state_after(st, e).threads[i],
            ),
        forall|i: int|
            st.variables.len() <= i < state_after(st, e).variables.len() ==> !st.variables.contains(
                #[trigger] state_after(st, e).variables[i],
            ),
        forall|i: int|
            st.locks.len() <= i < state_after(st, e).locks.len() ==> !st.locks.contains(
                #[trigger] state_after(st, e).locks[i],
            ),
        forall|i: int|
            st.locations.len() <= i < state_after(st, e).locations.len() ==> !st.locations.contains(
                #[trigger] state_after(st, e).locations[i],
            ),
{
    let first = add_key(st.threads, e.t as u64);
    assert(st.threads.is_prefix_of(first));
    assert forall|i: int|
        st.threads.len() <= i < state_after(st, e).threads.len() implies !st.threads.contains(
        #[trigger] state_after(st, e).threads[i],
    ) by {
        let f = state_after(st, e).threads;
        if i == st.threads.len() && f.len() > st.threads.len() {
            if first.len() > st.threads.len() {
                assert(f[i] == first[i]);
            }
        }
    }
}

/// Whether `md` records exactly the assignment `st`: one record per key at the
/// position of its id, and the variables accessed by at least two threads.
pub open spec fn describes(md: WasmgrindTraceMetadata, st: ConverterState) -> bool {
    &&& md.thread_records@.len() == st.threads.len()
    &&& forall|i: int|
        0 <= i < st.threads.len() ==> #[trigger] md.thread_records@[i] == (ThreadRecord {
            wasm_id: st.threads[i] as u32,
            trace_id: i as u64,
        })
    &&& md.lock_records@.len() == st.locks.len()
    &&& forall|i: int|
        0 <= i < st.locks.len() ==> #[trigger] md.lock_records@[i] == (LockRecord {
            wasm_id: st.locks[i] as u32,
            trace_id: i as u64,
        })
    &&& md.memory_records@.len() == st.variables.len()
    &&& forall|i: int|
        0 <= i < st.variables.len() ==> #[trigger] md.memory_records@[i] == (MemoryRecord {
            wasm_id: MemoryIdentifier {
                address: key_high(st.variables[i]),
                access_width: key_low(st.variables[i]),
            },
            trace_id: i as u64,
        })
    &&& md.location_records@.len() == st.locations.len()
    &&& forall|i: int|
        0 <= i < st.locations.len() ==> #[trigger] md.location_records@[i] == (LocationRecord {
            wasm_id: LocationIdentifier {
                fidx: key_high(st.locations[i]),
                iidx: key_low(st.locations[i]),
            },
            trace_id: i as u64,
        })
    &&& shared_view(md.shared_variables@) == shared_prefix(st.accessors, st.accessors.len() as int)
}

impl WasmgrindTraceConverter {
    /// The metadata of everything converted so far; the converter is left as it is.
    pub fn generate_metadata(&self) -> (r: WasmgrindTraceMetadata)
        requires
            self.wf(),
        ensures
            describes(r, self@),
    {
        let mut metadata = WasmgrindTraceMetadata::new();
        metadata.fill_thread_records(self.threads.get_map());
        metadata.fill_memory_records(self.variables.get_map());
        metadata.fill_lock_records(self.locks.get_map());
        metadata.fill_location_records(self.locations.get_map());
        metadata.fill_shared_variables(&self.shared_variables);
        metadata
    }
}

/// Adding a key keeps the keys distinct and in place, and the key is then known.
pub proof fn lemma_add_key(s: Seq<u64>, k: u64)
    requires
        s.no_duplicates(),
    ensures
        add_key(s, k).no_duplicates(),
        add_key(s, k).contains(k),
        s.is_prefix_of(add_key(s, k)),
        add_key(s, k).len() <= s.len() + 1,
        keys_32(s) && k <= u32::MAX ==> keys_32(add_key(s, k)),
{
    if !s.contains(k) {
        let t = s.push(k);
        assert(t[s.len() as int] == k);
        assert forall|a: int, b: int| 0 <= a < t.len() && 0 <= b < t.len() && a != b implies t[a]
            != t[b] by {
            if a < s.len() && b < s.len() {
            } else if a == s.len() {
                assert(!s.contains(t[b]) || t[b] != k);
                if b < s.len() {
                    assert(s.contains(s[b]));
                }
            } else {
                if a < s.len() {
                    assert(s.contains(s[a]));
                }
            }
        }
        assert(t.contains(k));
    }
}

/// The key stands at the position `index_of` picks, and at no other.
pub proof fn lemma_index_of(s: Seq<u64>, k: u64)
    requires
        s.no_duplicates(),
        s.contains(k),
    ensures
        0 <= s.index_of(k) < s.len(),
        s[s.index_of(k)] == k,
        forall|i: int| 0 <= i < s.len() && s[i] == k ==> i == s.index_of(k),
{
}

/// Converting an event keeps the assignment consistent, and the generic event
/// names, through the new ids, what the native event names.
pub proof fn lemma_state_after(st: ConverterState, e: Event)
    requires
        state_wf(st),
        st.threads.len() <= 0xFFFF_FFFF_FFFF_0000,
        st.variables.len() <= 0xFFFF_FFFF_FFFF_0000,
        st.locks.len() <= 0xFFFF_FFFF_FFFF_0000,
        st.locations.len() <= 0xFFFF_FFFF_FFFF_0000,
    ensures
        state_wf(state_after(st, e)),
        names_same(state_after(st, e), e, generic_event(state_after(st, e), e)),
        state_after(st, e).threads.len() <= st.threads.len() + 2,
        state_after(st, e).variables.len() <= st.variables.len() + 1,
        state_after(st, e).locks.len() <= st.locks.len() + 1,
        state_after(st, e).locations.len() <= st.locations.len() + 1,
{
    let n = state_after(st, e);
    let first = add_key(st.threads, e.t as u64);
    lemma_add_key(st.threads, e.t as u64);
    lemma_ids_first_seen(st, e);
    match e.op {
        Op::Fork { tid } => lemma_add_key(first, tid as u64),
        Op::Join { tid } => lemma_add_key(first, tid as u64),
        _ => {},
    }
    assert(n.threads.contains(e.t as u64)) by {
        let i = first.index_of(e.t as u64);
        lemma_index_of(first, e.t as u64);
        assert(n.threads[i] == first[i]);
    }
    lemma_index_of(n.threads, e.t as u64);
    let tid = first.index_of(e.t as u64);
    lemma_index_of(first, e.t as u64);
    lemma_add_key(st.locations, pair_key(e.loc.0, e.loc.1));
    lemma_index_of(n.locations, pair_key(e.loc.0, e.loc.1));
    match lock_key(e.op) {
        Some(k) => {
            lemma_add_key(st.locks, k);
            lemma_index_of(n.locks, k);
        },
        None => {},
    }
    match e.op {
        Op::Fork { tid } => lemma_index_of(n.threads, tid as u64),
        Op::Join { tid } => lemma_index_of(n.threads, tid as u64),
        _ => {},
    }
    match access_key(e.op) {
        Some(k) => {
            lemma_add_key(st.variables, k);
            lemma_index_of(n.variables, k);
            if st.variables.contains(k) {
                let v = st.variables.index_of(k);
                lemma_index_of(st.variables, k);
                lemma_add_key(st.accessors[v], tid as u64);
                assert forall|w: int| 0 <= w < n.accessors.len() implies (
                #[trigger] n.accessors[w]).no_duplicates() by {
                    if w != v {
                        assert(n.accessors[w] == st.accessors[w]);
                    }
                }
            } else {
                assert forall|w: int| 0 <= w < n.accessors.len() implies (
                #[trigger] n.accessors[w]).no_duplicates() by {
                    if w < st.accessors.len() {
                        assert(n.accessors[w] == st.accessors[w]);
                    } else {
                        assert(n.accessors[w] == seq![tid as u64]);
                    }
                }
            }
        },
        None => {},
    }
}

/// What an assignment names stays named by any assignment that extends it.
pub proof fn lemma_names_same_extends(a: ConverterState, b: ConverterState, e: Event, g: generic::Event)
    requires
        names_same(a, e, g),
        a.threads.is_prefix_of(b.threads),
        a.variables.is_prefix_of(b.variables),
        a.locks.is_prefix_of(b.locks),
        a.locations.is_prefix_of(b.locations),
    ensures
        names_same(b, e, g),
{
}

/// Converting a trace keeps the assignment consistent; each generic event
/// names, through the final ids, what its native event names.
pub proof fn lemma_convert_trace(s: Seq<Event>)
    requires
        s.len() <= 0x1000_0000_0000_0000,
    ensures
        state_wf(convert_trace(s).0),
        convert_trace(s).0.threads.len() <= 2 * s.len(),
        convert_trace(s).0.variables.len() <= s.len(),
        convert_trace(s).0.locks.len() <= s.len(),
        convert_trace(s).0.locations.len() <= s.len(),
        convert_trace(s).1.len() == s.len(),
        forall|k: int|
            0 <= k < s.len() ==> names_same(convert_trace(s).0, s[k], #[trigger] convert_trace(
                s,
            ).1[k]),
    decreases s.len(),
{
    if s.len() == 0 {
        assert(state_wf(initial_state()));
    } else {
        let p = s.drop_last();
        lemma_convert_trace(p);
        let (st, g) = convert_trace(p);
        let e = s.last();
        lemma_state_after(st, e);
        lemma_ids_first_seen(st, e);
        let next = state_after(st, e);
        assert forall|k: int| 0 <= k < s.len() implies names_same(
            convert_trace(s).0,
            s[k],
            #[trigger] convert_trace(s).1[k],
        ) by {
            if k < p.len() {
                assert(s[k] == p[k]);
                assert(convert_trace(s).1[k] == g[k]);
                lemma_names_same_extends(st, next, p[k], g[k]);
            }
        }
    }
}

} // verus!
