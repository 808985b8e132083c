use std::collections::HashMap;
use vstd::prelude::*;
use crate::generic::{self, TraceError};
use crate::tracing::analysis::{line_sweep_algorithm, ranges_overlap};
use vstd::std_specs::iter::IteratorSpec;
use crate::tracing::converter::{copy_ids, describes, pair_key};
use crate::tracing::representation::{Event, Op};

verus! {

broadcast use vstd::std_specs::hash::group_hash_axioms;

/// A memory access: its start address and the number of bytes accessed.
#[derive(Debug, PartialEq, Eq, Structural, Clone, Copy)]
pub struct MemoryIdentifier {
    pub address: u32,
    pub access_width: u32,
}

/// A native thread id and the id it has in the trace.
#[derive(Debug, PartialEq, Eq, Structural, Clone, Copy)]
pub struct ThreadRecord {
    pub wasm_id: u32,
    pub trace_id: u64,
}

impl ThreadRecord {
    pub fn into_fields(self) -> (r: (u32, u64))
        ensures
            r == (self.wasm_id, self.trace_id),
    {
        (self.wasm_id, self.trace_id)
    }
}

/// A memory access and the variable id it has in the trace.
#[derive(Debug, PartialEq, Eq, Structural, Clone, Copy)]
pub struct MemoryRecord {
    pub wasm_id: MemoryIdentifier,
    pub trace_id: u64,
}

impl MemoryRecord {
    pub fn into_fields(self) -> (r: ((u32, u32), u64))
        ensures
            r == ((self.wasm_id.address, self.wasm_id.access_width), self.trace_id),
    {
        ((self.wasm_id.address, self.wasm_id.access_width), self.trace_id)
    }
}

/// A native lock id and the id it has in the trace.
#[derive(Debug, PartialEq, Eq, Structural, Clone, Copy)]
pub struct LockRecord {
    pub wasm_id: u32,
    pub trace_id: u64,
}

impl LockRecord {
    pub fn into_fields(self) -> (r: (u32, u64))
        ensures
            r == (self.wasm_id, self.trace_id),
    {
        (self.wasm_id, self.trace_id)
    }
}

/// A location in the program: function index and instruction index.
#[derive(Debug, PartialEq, Eq, Structural, Clone, Copy)]
pub struct LocationIdentifier {
    pub fidx: u32,
    pub iidx: u32,
}

/// A location and the id it has in the trace.
#[derive(Debug, PartialEq, Eq, Structural, Clone, Copy)]
pub struct LocationRecord {
    pub wasm_id: LocationIdentifier,
    pub trace_id: u64,
}

impl LocationRecord {
    pub fn into_fields(self) -> (r: ((u32, u32), u64))
        ensures
            r == ((self.wasm_id.fidx, self.wasm_id.iidx), self.trace_id),
    {
        ((self.wasm_id.fidx, self.wasm_id.iidx), self.trace_id)
    }
}

/// A variable accessed by at least two threads, and the ids of those threads.
#[derive(Debug, PartialEq, Eq)]
pub struct SharedVariable {
    pub trace_id: u64,
    pub threads: Vec<u64>,
}

/// The metadata of a trace: what each id of the generic trace stands for, and
/// which variables more than one thread accessed.
#[derive(Debug, PartialEq, Eq)]
pub struct WasmgrindTraceMetadata {
    pub thread_records: Vec<ThreadRecord>,
    pub memory_records: Vec<MemoryRecord>,
    pub lock_records: Vec<LockRecord>,
    pub location_records: Vec<LocationRecord>,
    pub shared_variables: Vec<SharedVariable>,
}

/// The first half of a pair key.
pub open spec fn key_high(k: u64) -> u32 {
    (k / 0x1_0000_0000) as u32
}

/// The second half of a pair key.
pub open spec fn key_low(k: u64) -> u32 {
    (k % 0x1_0000_0000) as u32
}

pub proof fn lemma_pair_key(a: u32, b: u32)
    ensures
        key_high(pair_key(a, b)) == a,
        key_low(pair_key(a, b)) == b,
{
    let k = a as int * 0x1_0000_0000 + b as int;
    assert(k / 0x1_0000_0000 == a as int) by (nonlinear_arith)
        requires
            k == a as int * 0x1_0000_0000 + b as int,
            0 <= b < 0x1_0000_0000,
            0 <= a,
    ;
    assert(k % 0x1_0000_0000 == b as int) by (nonlinear_arith)
        requires
            k == a as int * 0x1_0000_0000 + b as int,
            0 <= b < 0x1_0000_0000,
            0 <= a,
    ;
}

/// The variables accessed by at least two threads among the first `n`, with their threads.
pub open spec fn shared_prefix(acc: Seq<Seq<u64>>, n: int) -> Seq<(int, Seq<u64>)>
    decreases n,
{
    if n <= 0 {
        Seq::empty()
    } else if acc[n - 1].len() > 1 {
        shared_prefix(acc, n - 1).push((n - 1, acc[n - 1]))
    } else {
        shared_prefix(acc, n - 1)
    }
}

/// The shared variables of the metadata, each as its id and its threads.
pub open spec fn shared_view(s: Seq<SharedVariable>) -> Seq<(int, Seq<u64>)> {
    s.map_values(|v: SharedVariable| (v.trace_id as int, v.threads@))
}

/// The entry with the given id, the last one where several have it.
pub open spec fn shared_entry(s: Seq<SharedVariable>, id: u64) -> Option<Seq<u64>>
    decreases s.len(),
{
    if s.len() == 0 {
        None
    } else if s.last().trace_id == id {
        Some(s.last().threads@)
    } else {
        shared_entry(s.drop_last(), id)
    }
}

/// The maps of the converter that `md.into_converter()` builds.
pub open spec fn back_maps(md: WasmgrindTraceMetadata) -> BackMaps {
    BackMaps {
        threads: records_map(thread_pairs(md.thread_records@)),
        variables: records_map(memory_pairs(md.memory_records@)),
        locks: records_map(lock_pairs(md.lock_records@)),
        locations: records_map(location_pairs(md.location_records@)),
    }
}

/// The map built by inserting each pair in order: a later pair wins.
pub open spec fn records_map<V>(s: Seq<(u64, V)>) -> Map<u64, V>
    decreases s.len(),
{
    if s.len() == 0 {
        Map::empty()
    } else {
        records_map(s.drop_last()).insert(s.last().0, s.last().1)
    }
}

pub open spec fn thread_pairs(s: Seq<ThreadRecord>) -> Seq<(u64, u32)> {
    s.map_values(|r: ThreadRecord| (r.trace_id, r.wasm_id))
}

pub open spec fn lock_pairs(s: Seq<LockRecord>) -> Seq<(u64, u32)> {
    s.map_values(|r: LockRecord| (r.trace_id, r.wasm_id))
}

pub open spec fn memory_pairs(s: Seq<MemoryRecord>) -> Seq<(u64, (u32, u32))> {
    s.map_values(|r: MemoryRecord| (r.trace_id, (r.wasm_id.address, r.wasm_id.access_width)))
}

pub open spec fn location_pairs(s: Seq<LocationRecord>) -> Seq<(u64, (u32, u32))> {
    s.map_values(|r: LocationRecord| (r.trace_id, (r.wasm_id.fidx, r.wasm_id.iidx)))
}

impl WasmgrindTraceMetadata {
    pub fn new() -> (r: WasmgrindTraceMetadata)
        ensures
            r.thread_records@.len() == 0,
            r.memory_records@.len() == 0,
            r.lock_records@.len() == 0,
            r.location_records@.len() == 0,
            r.shared_variables@.len() == 0,
    {
        WasmgrindTraceMetadata {
            thread_records: Vec::new(),
            memory_records: Vec::new(),
            lock_records: Vec::new(),
            location_records: Vec::new(),
            shared_variables: Vec::new(),
        }
    }

    /// One thread record per key, the key with id `i` at position `i`.
    pub fn fill_thread_records(&mut self, keys: &Vec<u64>)
        requires
            forall|i: int| 0 <= i < keys@.len() ==> #[trigger] keys@[i] <= u32::MAX,
        ensures
            final(self).thread_records@.len() == keys@.len(),
            forall|i: int|
                0 <= i < keys@.len() ==> #[trigger] final(self).thread_records@[i] == (ThreadRecord {
                    wasm_id: keys@[i] as u32,
                    trace_id: i as u64,
                }),
            final(self).memory_records == old(self).memory_records,
            final(self).lock_records == old(self).lock_records,
            final(self).location_records == old(self).location_records,
            final(self).shared_variables == old(self).shared_variables,
    {
        let mut records: Vec<ThreadRecord> = Vec::new();
        let mut i: usize = 0;
        while i < keys.len()
            invariant
                i <= keys@.len(),
                forall|j: int| 0 <= j < keys@.len() ==> #[trigger] keys@[j] <= u32::MAX,
                records@.len() == i,
                forall|j: int|
                    0 <= j < i ==> #[trigger] records@[j] == (ThreadRecord {
                        wasm_id: keys@[j] as u32,
                        trace_id: j as u64,
                    }),
            decreases keys@.len() - i,
        {
            records.push(ThreadRecord { wasm_id: keys[i] as u32, trace_id: i as u64 });
            i = i + 1;
        }
        self.thread_records = records;
    }

    /// One lock record per key, the key with id `i` at position `i`.
    pub fn fill_lock_records(&mut self, keys: &Vec<u64>)
        requires
            forall|i: int| 0 <= i < keys@.len() ==> #[trigger] keys@[i] <= u32::MAX,
        ensures
            final(self).lock_records@.len() == keys@.len(),
            forall|i: int|
                0 <= i < keys@.len() ==> #[trigger] final(self).lock_records@[i] == (LockRecord {
                    wasm_id: keys@[i] as u32,
                    trace_id: i as u64,
                }),
            final(self).thread_records == old(self).thread_records,
            final(self).memory_records == old(self).memory_records,
            final(self).location_records == old(self).location_records,
            final(self).shared_variables == old(self).shared_variables,
    {
        let mut records: Vec<LockRecord> = Vec::new();
        let mut i: usize = 0;
        while i < keys.len()
            invariant
                i <= keys@.len(),
                forall|j: int| 0 <= j < keys@.len() ==> #[trigger] keys@[j] <= u32::MAX,
                records@.len() == i,
                forall|j: int|
                    0 <= j < i ==> #[trigger] records@[j] == (LockRecord {
                        wasm_id: keys@[j] as u32,
                        trace_id: j as u64,
                    }),
            decreases keys@.len() - i,
        {
            records.push(LockRecord { wasm_id: keys[i] as u32, trace_id: i as u64 });
            i = i + 1;
        }
        self.lock_records = records;
    }

    /// One memory record per variable key, the key with id `i` at position `i`.
    pub fn fill_memory_records(&mut self, keys: &Vec<u64>)
        ensures
            final(self).memory_records@.len() == keys@.len(),
            forall|i: int|
                0 <= i < keys@.len() ==> #[trigger] final(self).memory_records@[i] == (MemoryRecord {
                    wasm_id: MemoryIdentifier {
                        address: key_high(keys@[i]),
                        access_width: key_low(keys@[i]),
                    },
                    trace_id: i as u64,
                }),
            final(self).thread_records == old(self).thread_records,
            final(self).lock_records == old(self).lock_records,
            final(self).location_records == old(self).location_records,
            final(self).shared_variables == old(self).shared_variables,
    {
        let mut records: Vec<MemoryRecord> = Vec::new();
        let mut i: usize = 0;
        while i < keys.len()
            invariant
                i <= keys@.len(),
                records@.len() == i,
                forall|j: int|
                    0 <= j < i ==> #[trigger] records@[j] == (MemoryRecord {
                        wasm_id: MemoryIdentifier {
                            address: key_high(keys@[j]),
                            access_width: key_low(keys@[j]),
                        },
                        trace_id: j as u64,
                    }),
            decreases keys@.len() - i,
        {
            let k = keys[i];
            records.push(
                MemoryRecord {
                    wasm_id: MemoryIdentifier {
                        address: (k / 0x1_0000_0000u64) as u32,
                        access_width: (k % 0x1_0000_0000u64) as u32,
                    },
                    trace_id: i as u64,
                },
            );
            i = i + 1;
        }
        self.memory_records = records;
    }

    /// One location record per location key, the key with id `i` at position `i`.
    pub fn fill_location_records(&mut self, keys: &Vec<u64>)
        ensures
            final(self).location_records@.len() == keys@.len(),
            forall|i: int|
                0 <= i < keys@.len() ==> #[trigger] final(self).location_records@[i] == (
                LocationRecord {
                    wasm_id: LocationIdentifier { fidx: key_high(keys@[i]), iidx: key_low(keys@[i]) },
                    trace_id: i as u64,
                }),
            final(self).thread_records == old(self).thread_records,
            final(self).memory_records == old(self).memory_records,
            final(self).lock_records == old(self).lock_records,
            final(self).shared_variables == old(self).shared_variables,
    {
        let mut records: Vec<LocationRecord> = Vec::new();
        let mut i: usize = 0;
        while i < keys.len()
            invariant
                i <= keys@.len(),
                records@.len() == i,
                forall|j: int|
                    0 <= j < i ==> #[trigger] records@[j] == (LocationRecord {
                        wasm_id: LocationIdentifier {
                            fidx: key_high(keys@[j]),
                            iidx: key_low(keys@[j]),
                        },
                        trace_id: j as u64,
                    }),
            decreases keys@.len() - i,
        {
            let k = keys[i];
            records.push(
                LocationRecord {
                    wasm_id: LocationIdentifier {
                        fidx: (k / 0x1_0000_0000u64) as u32,
                        iidx: (k % 0x1_0000_0000u64) as u32,
                    },
                    trace_id: i as u64,
                },
            );
            i = i + 1;
        }
        self.location_records = records;
    }

    /// Keeps the variables that at least two threads accessed, in id order.
    pub fn fill_shared_variables(&mut self, accessors: &Vec<Vec<u64>>)
        ensures
            shared_view(final(self).shared_variables@) == shared_prefix(
                accessors@.map_values(|v: Vec<u64>| v@),
                accessors@.len() as int,
            ),
            final(self).thread_records == old(self).thread_records,
            final(self).memory_records == old(self).memory_records,
            final(self).lock_records == old(self).lock_records,
            final(self).location_records == old(self).location_records,
    {
        let ghost acc = accessors@.map_values(|v: Vec<u64>| v@);
        let mut shared: Vec<SharedVariable> = Vec::new();
        let mut i: usize = 0;
        while i < accessors.len()
            invariant
                i <= accessors@.len(),
                acc == accessors@.map_values(|v: Vec<u64>| v@),
                shared_view(shared@) == shared_prefix(acc, i as int),
            decreases accessors@.len() - i,
        {
            if accessors[i].len() > 1 {
                let threads = crate::tracing::converter::copy_ids(&accessors[i]);
                shared.push(SharedVariable { trace_id: i as u64, threads });
                assert(shared_view(shared@) =~= shared_prefix(acc, i + 1));
            }
            i = i + 1;
        }
        self.shared_variables = shared;
    }
}

/// Maps the ids of a generic trace back to native keys.
pub struct GenericTraceConverter {
    threads: HashMap<u64, u32>,
    variables: HashMap<u64, (u32, u32)>,
    locks: HashMap<u64, u32>,
    locations: HashMap<u64, (u32, u32)>,
}

/// The four maps of a generic-to-native converter.
pub struct BackMaps {
    pub threads: Map<u64, u32>,
    pub variables: Map<u64, (u32, u32)>,
    pub locks: Map<u64, u32>,
    pub locations: Map<u64, (u32, u32)>,
}

impl View for GenericTraceConverter {
    type V = BackMaps;

    closed spec fn view(&self) -> BackMaps {
        BackMaps {
            threads: self.threads@,
            variables: self.variables@,
            locks: self.locks@,
            locations: self.locations@,
        }
    }
}

/// The native operation that `op` stands for, if the maps know its payload.
pub open spec fn back_op(m: BackMaps, op: generic::Operation) -> Option<Op> {
    match op {
        generic::Operation::Aquire { lock } => if m.locks.contains_key(lock) {
            Some(Op::Aquire { lock: m.locks[lock] })
        } else {
            None
        },
        generic::Operation::Release { lock } => if m.locks.contains_key(lock) {
            Some(Op::Release { lock: m.locks[lock] })
        } else {
            None
        },
        generic::Operation::Request { lock } => if m.locks.contains_key(lock) {
            Some(Op::Request { lock: m.locks[lock] })
        } else {
            None
        },
        generic::Operation::Read { memory } => if m.variables.contains_key(memory) {
            Some(Op::Read { addr: m.variables[memory].0, n: m.variables[memory].1 })
        } else {
            None
        },
        generic::Operation::Write { memory } => if m.variables.contains_key(memory) {
            Some(Op::Write { addr: m.variables[memory].0, n: m.variables[memory].1 })
        } else {
            None
        },
        generic::Operation::Fork { tid } => if m.threads.contains_key(tid) {
            Some(Op::Fork { tid: m.threads[tid] })
        } else {
            None
        },
        generic::Operation::Join { tid } => if m.threads.contains_key(tid) {
            Some(Op::Join { tid: m.threads[tid] })
        } else {
            None
        },
    }
}

/// The native event that `g` stands for, if the maps know every id it names.
pub open spec fn back_event(m: BackMaps, g: generic::Event) -> Option<Event> {
    if m.threads.contains_key(g.thread_id) && m.locations.contains_key(g.location) && back_op(
        m,
        g.operation,
    ) is Some {
        Some(
            Event {
                t: m.threads[g.thread_id],
                op: back_op(m, g.operation)->Some_0,
                loc: m.locations[g.location],
            },
        )
    } else {
        None
    }
}

impl WasmgrindTraceMetadata {
    /// A converter from the ids of the trace back to native keys; where records
    /// share an id, the later one wins.
    pub fn into_converter(self) -> (r: GenericTraceConverter)
        ensures
            r@ == back_maps(self),
            r@.threads == records_map(thread_pairs(self.thread_records@)),
            r@.variables == records_map(memory_pairs(self.memory_records@)),
            r@.locks == records_map(lock_pairs(self.lock_records@)),
            r@.locations == records_map(location_pairs(self.location_records@)),
    {
        let mut threads: HashMap<u64, u32> = HashMap::new();
        let mut i: usize = 0;
        while i < self.thread_records.len()
            invariant
                i <= self.thread_records@.len(),
                threads@ == records_map(thread_pairs(self.thread_records@.take(i as int))),
            decreases self.thread_records@.len() - i,
        {
            let (wasm_id, trace_id) = self.thread_records[i].into_fields();
            threads.insert(trace_id, wasm_id);
            assert(thread_pairs(self.thread_records@.take(i + 1)).drop_last() =~= thread_pairs(
                self.thread_records@.take(i as int),
            ));
            i = i + 1;
        }
        assert(self.thread_records@.take(i as int) =~= self.thread_records@);
        let mut locks: HashMap<u64, u32> = HashMap::new();
        let mut i: usize = 0;
        while i < self.lock_records.len()
            invariant
                i <= self.lock_records@.len(),
                locks@ == records_map(lock_pairs(self.lock_records@.take(i as int))),
            decreases self.lock_records@.len() - i,
        {
            let (wasm_id, trace_id) = self.lock_records[i].into_fields();
            locks.insert(trace_id, wasm_id);
            assert(lock_pairs(self.lock_records@.take(i + 1)).drop_last() =~= lock_pairs(
                self.lock_records@.take(i as int),
            ));
            i = i + 1;
        }
        assert(self.lock_records@.take(i as int) =~= self.lock_records@);
        let mut variables: HashMap<u64, (u32, u32)> = HashMap::new();
        let mut i: usize = 0;
        while i < self.memory_records.len()
            invariant
                i <= self.memory_records@.len(),
                variables@ == records_map(memory_pairs(self.memory_records@.take(i as int))),
            decreases self.memory_records@.len() - i,
        {
            let (key, trace_id) = self.memory_records[i].into_fields();
            variables.insert(trace_id, key);
            assert(memory_pairs(self.memory_records@.take(i + 1)).drop_last() =~= memory_pairs(
                self.memory_records@.take(i as int),
            ));
            i = i + 1;
        }
        assert(self.memory_records@.take(i as int) =~= self.memory_records@);
        let mut locations: HashMap<u64, (u32, u32)> = HashMap::new();
        let mut i: usize = 0;
        while i < self.location_records.len()
            invariant
                i <= self.location_records@.len(),
                locations@ == records_map(location_pairs(self.location_records@.take(i as int))),
            decreases self.location_records@.len() - i,
        {
            let (key, trace_id) = self.location_records[i].into_fields();
            locations.insert(trace_id, key);
            assert(location_pairs(self.location_records@.take(i + 1)).drop_last()
                =~= location_pairs(self.location_records@.take(i as int)));
            i = i + 1;
        }
        assert(self.location_records@.take(i as int) =~= self.location_records@);
        GenericTraceConverter { threads, variables, locks, locations }
    }
}

impl GenericTraceConverter {
    fn thread(&self, id: u64) -> (r: Result<u32, TraceError>)
        ensures
            self@.threads.contains_key(id) ==> r == Ok::<u32, TraceError>(self@.threads[id]),
            !self@.threads.contains_key(id) ==> r == Err::<u32, TraceError>(TraceError::MissingId),
    {
        match self.threads.get(&id) {
            Some(v) => Ok(*v),
            None => Err(TraceError::MissingId),
        }
    }

    fn lock(&self, id: u64) -> (r: Result<u32, TraceError>)
        ensures
            self@.locks.contains_key(id) ==> r == Ok::<u32, TraceError>(self@.locks[id]),
            !self@.locks.contains_key(id) ==> r == Err::<u32, TraceError>(TraceError::MissingId),
    {
        match self.locks.get(&id) {
            Some(v) => Ok(*v),
            None => Err(TraceError::MissingId),
        }
    }

    fn variable(&self, id: u64) -> (r: Result<(u32, u32), TraceError>)
        ensures
            self@.variables.contains_key(id) ==> r == Ok::<(u32, u32), TraceError>(
                self@.variables[id],
            ),
            !self@.variables.contains_key(id) ==> r == Err::<(u32, u32), TraceError>(
                TraceError::MissingId,
            ),
    {
        match self.variables.get(&id) {
            Some(v) => Ok(*v),
            None => Err(TraceError::MissingId),
        }
    }

    /// The native event that a generic event stands for; `MissingId` where an
    /// id it names has no record.
    pub fn convert_event(&self, event: &generic::Event) -> (r: Result<Event, TraceError>)
        ensures
            r is Ok <==> back_event(self@, *event) is Some,
            r is Ok ==> r->Ok_0 == back_event(self@, *event)->Some_0,
            r is Err ==> r->Err_0 == TraceError::MissingId,
    {
        let (tid, operation, loc) = event.get_fields();
        let thread = match self.thread(*tid) {
            Ok(t) => t,
            Err(e) => return Err(e),
        };
        let location = match self.locations.get(loc) {
            Some(l) => *l,
            None => return Err(TraceError::MissingId),
        };
        let op = match *operation {
            generic::Operation::Aquire { lock } => match self.lock(lock) {
                Ok(l) => Op::Aquire { lock: l },
                Err(e) => return Err(e),
            },
            generic::Operation::Release { lock } => match self.lock(lock) {
                Ok(l) => Op::Release { lock: l },
                Err(e) => return Err(e),
            },
            generic::Operation::Request { lock } => match self.lock(lock) {
                Ok(l) => Op::Request { lock: l },
                Err(e) => return Err(e),
            },
            generic::Operation::Read { memory } => match self.variable(memory) {
                Ok((addr, n)) => Op::Read { addr, n },
                Err(e) => return Err(e),
            },
            generic::Operation::Write { memory } => match self.variable(memory) {
                Ok((addr, n)) => Op::Write { addr, n },
                Err(e) => return Err(e),
            },
            generic::Operation::Fork { tid } => match self.thread(tid) {
                Ok(t) => Op::Fork { tid: t },
                Err(e) => return Err(e),
            },
            generic::Operation::Join { tid } => match self.thread(tid) {
                Ok(t) => Op::Join { tid: t },
                Err(e) => return Err(e),
            },
        };
        Ok(Event { t: thread, op, loc: location })
    }
}

/// Two memory accesses that overlap, with the threads that accessed each.
#[derive(Debug, PartialEq, Eq)]
pub struct Overlap {
    pub threads_x: Vec<u64>,
    pub access_x: MemoryRecord,
    pub threads_y: Vec<u64>,
    pub access_y: MemoryRecord,
}

/// How two overlapping accesses lie to each other.
#[derive(Debug, PartialEq, Eq, Structural, Clone, Copy)]
pub enum OverlapKind {
    /// Each access holds bytes the other does not.
    Intersection,
    /// The first access holds every byte of the second, and more.
    FirstContainsSecond,
    /// The second access holds every byte of the first, and more.
    SecondContainsFirst,
    /// Both accesses cover the same bytes.
    Equal,
}

impl Overlap {
    /// Whether the overlap concerns the variable with id `memory_access`.
    pub fn contains(&self, memory_access: u64) -> (r: bool)
        ensures
            r == (self.access_x.trace_id == memory_access || self.access_y.trace_id
                == memory_access),
    {
        self.access_x.trace_id == memory_access || self.access_y.trace_id == memory_access
    }

    /// Whether the accesses start at different addresses and neither holds the other.
    pub fn is_intersection(&self) -> (r: bool)
        requires
            ranges_overlap(self.access_x, self.access_y),
        ensures
            r == (self.access_x.wasm_id.address != self.access_y.wasm_id.address && !(
            range_end_le(self.access_x, self.access_y) && self.access_y.wasm_id.address
                <= self.access_x.wasm_id.address) && !(range_end_le(self.access_y, self.access_x)
                && self.access_x.wasm_id.address <= self.access_y.wasm_id.address)),
    {
        let start_x = self.access_x.wasm_id.address as u64;
        let start_y = self.access_y.wasm_id.address as u64;
        let end_x = start_x + self.access_x.wasm_id.access_width as u64;
        let end_y = start_y + self.access_y.wasm_id.access_width as u64;
        if start_x == start_y {
            false
        } else if start_x < start_y {
            end_x < end_y
        } else {
            end_y < end_x
        }
    }

    /// How the two accesses lie to each other.
    pub fn kind(&self) -> (r: OverlapKind)
        requires
            ranges_overlap(self.access_x, self.access_y),
        ensures
            r == OverlapKind::Intersection <==> (self.access_x.wasm_id.address
                != self.access_y.wasm_id.address && !(range_end_le(self.access_x, self.access_y)
                && self.access_y.wasm_id.address <= self.access_x.wasm_id.address) && !(
            range_end_le(self.access_y, self.access_x) && self.access_x.wasm_id.address
                <= self.access_y.wasm_id.address)),
            r == OverlapKind::FirstContainsSecond ==> range_end_le(self.access_y, self.access_x)
                && self.access_x.wasm_id.address <= self.access_y.wasm_id.address
                && self.access_x.wasm_id.access_width > self.access_y.wasm_id.access_width,
            r == OverlapKind::SecondContainsFirst ==> range_end_le(self.access_x, self.access_y)
                && self.access_y.wasm_id.address <= self.access_x.wasm_id.address
                && self.access_y.wasm_id.access_width > self.access_x.wasm_id.access_width,
            r == OverlapKind::Equal ==> self.access_x.wasm_id == self.access_y.wasm_id,
    {
        if self.is_intersection() {
            OverlapKind::Intersection
        } else if self.access_x.wasm_id.access_width > self.access_y.wasm_id.access_width {
            OverlapKind::FirstContainsSecond
        } else if self.access_x.wasm_id.access_width < self.access_y.wasm_id.access_width {
            OverlapKind::SecondContainsFirst
        } else {
            OverlapKind::Equal
        }
    }
}

/// Whether the range of `a` ends no later than that of `b`.
pub open spec fn range_end_le(a: MemoryRecord, b: MemoryRecord) -> bool {
    crate::tracing::analysis::range_end(a) <= crate::tracing::analysis::range_end(b)
}

/// Whether two sequences of thread ids share one.
pub open spec fn share_thread(a: Seq<u64>, b: Seq<u64>) -> bool {
    exists|t: u64| a.contains(t) && b.contains(t)
}

/// Whether `x` and `y` are distinct accesses that threads share, whose byte
/// ranges overlap and whose sets of accessing threads intersect.
pub open spec fn shared_overlap(md: WasmgrindTraceMetadata, x: MemoryRecord, y: MemoryRecord) -> bool {
    &&& shared_entry(md.shared_variables@, x.trace_id) is Some
    &&& shared_entry(md.shared_variables@, y.trace_id) is Some
    &&& x != y
    &&& ranges_overlap(x, y)
    &&& share_thread(
        shared_entry(md.shared_variables@, x.trace_id)->Some_0,
        shared_entry(md.shared_variables@, y.trace_id)->Some_0,
    )
}

/// Whether `o` is an overlap of two accesses of `md`, with their threads as `md` records them.
pub open spec fn valid_overlap(md: WasmgrindTraceMetadata, o: Overlap) -> bool {
    &&& md.memory_records@.contains(o.access_x)
    &&& md.memory_records@.contains(o.access_y)
    &&& shared_overlap(md, o.access_x, o.access_y)
    &&& o.threads_x@ == shared_entry(md.shared_variables@, o.access_x.trace_id)->Some_0
    &&& o.threads_y@ == shared_entry(md.shared_variables@, o.access_y.trace_id)->Some_0
}

/// Whether two overlaps concern the same two accesses, in either order.
pub open spec fn same_pair(a: Overlap, b: Overlap) -> bool {
    (a.access_x == b.access_x && a.access_y == b.access_y) || (a.access_x == b.access_y
        && a.access_y == b.access_x)
}

/// Whether `ovs` holds exactly the overlaps of `md`: each is one, the access
/// that starts no later first, and each overlapping unordered pair appears; where
/// the memory records are distinct, it appears once.
pub open spec fn overlaps_of(md: WasmgrindTraceMetadata, ovs: Seq<Overlap>) -> bool {
    &&& forall|k: int|
        0 <= k < ovs.len() ==> (#[trigger] ovs[k]).access_x.wasm_id.address
            <= ovs[k].access_y.wasm_id.address
    &&& md.memory_records@.no_duplicates() ==> forall|k: int, l: int|
        0 <= k < l < ovs.len() ==> !same_pair(#[trigger] ovs[k], #[trigger] ovs[l])
    &&& forall|k: int| 0 <= k < ovs.len() ==> valid_overlap(md, #[trigger] ovs[k])
    &&& forall|i: int, j: int|
        0 <= i < md.memory_records@.len() && 0 <= j < md.memory_records@.len() && shared_overlap(
            md,
            md.memory_records@[i],
            md.memory_records@[j],
        ) ==> exists|k: int|
            0 <= k < ovs.len() && ((#[trigger] ovs[k].access_x == md.memory_records@[i]
                && ovs[k].access_y == md.memory_records@[j]) || (ovs[k].access_x
                == md.memory_records@[j] && ovs[k].access_y == md.memory_records@[i]))
}

/// Whether `a` and `b` share a thread id.
pub fn intersects(a: &Vec<u64>, b: &Vec<u64>) -> (r: bool)
    ensures
        r == share_thread(a@, b@),
{
    let mut i: usize = 0;
    while i < a.len()
        invariant
            i <= a@.len(),
            forall|k: int| 0 <= k < i ==> !b@.contains(#[trigger] a@[k]),
        decreases a@.len() - i,
    {
        if crate::tracing::converter::vec_contains(b, a[i]) {
            assert(a@.contains(a@[i as int]));
            return true;
        }
        i = i + 1;
    }
    proof {
        if share_thread(a@, b@) {
            let t = choose|t: u64| a@.contains(t) && b@.contains(t);
            let k = choose|k: int| 0 <= k < a@.len() && a@[k] == t;
            assert(!b@.contains(a@[k]));
        }
    }
    false
}

impl WasmgrindTraceMetadata {
    /// Where each shared variable's entry stands, by id; the last entry wins.
    fn shared_index(&self) -> (r: HashMap<u64, usize>)
        ensures
            forall|id: u64|
                #![trigger r@.contains_key(id)]
                r@.contains_key(id) <==> shared_entry(self.shared_variables@, id) is Some,
            forall|id: u64|
                #![trigger r@.contains_key(id)]
                r@.contains_key(id) ==> r@[id] < self.shared_variables@.len()
                    && self.shared_variables@[r@[id] as int].threads@ == shared_entry(
                    self.shared_variables@,
                    id,
                )->Some_0,
    {
        let s = &self.shared_variables;
        let mut index: HashMap<u64, usize> = HashMap::new();
        let mut k: usize = 0;
        while k < s.len()
            invariant
                k <= s@.len(),
                forall|id: u64|
                    #![trigger index@.contains_key(id)]
                    index@.contains_key(id) <==> shared_entry(s@.take(k as int), id) is Some,
                forall|id: u64|
                    #![trigger index@.contains_key(id)]
                    index@.contains_key(id) ==> index@[id] < k && s@[index@[id] as int].threads@
                        == shared_entry(s@.take(k as int), id)->Some_0,
            decreases s@.len() - k,
        {
            index.insert(s[k].trace_id, k);
            proof {
                assert(s@.take(k + 1).drop_last() =~= s@.take(k as int));
                assert(s@.take(k + 1).last() == s@[k as int]);
            }
            k = k + 1;
        }
        assert(s@.take(k as int) =~= s@);
        index
    }

    /// All overlaps of distinct shared memory accesses whose accessing threads intersect.
    ///
    /// Only variables accessed by at least two threads take part. Each
    /// overlapping unordered pair comes out at least once.
    pub fn find_overlaps(&self) -> (r: Vec<Overlap>)
        ensures
            overlaps_of(*self, r@),
            forall|k: int|
                0 <= k < r@.len() ==> valid_overlap(*self, #[trigger] r@[k]),
            forall|i: int, j: int|
                0 <= i < self.memory_records@.len() && 0 <= j < self.memory_records@.len()
                    && shared_overlap(*self, self.memory_records@[i], self.memory_records@[j])
                    ==> exists|k: int|
                    0 <= k < r@.len() && ((#[trigger] r@[k].access_x == self.memory_records@[i]
                        && r@[k].access_y == self.memory_records@[j]) || (r@[k].access_x
                        == self.memory_records@[j] && r@[k].access_y == self.memory_records@[i])),
    {
        let index = self.shared_index();
        let recs = &self.memory_records;
        let mut candidates: Vec<MemoryRecord> = Vec::new();
        let mut i: usize = 0;
        while i < recs.len()
            invariant
                i <= recs@.len(),
                recs@ == self.memory_records@,
                forall|c: int|
                    0 <= c < candidates@.len() ==> recs@.contains(#[trigger] candidates@[c])
                        && index@.contains_key(candidates@[c].trace_id),
                forall|j: int|
                    0 <= j < i && index@.contains_key(recs@[j].trace_id) ==> candidates@.contains(
                        #[trigger] recs@[j],
                    ),
                forall|c: int|
                    0 <= c < candidates@.len() ==> recs@.take(i as int).contains(
                        #[trigger] candidates@[c],
                    ),
                recs@.no_duplicates() ==> candidates@.no_duplicates(),
            decreases recs@.len() - i,
        {
            if index.contains_key(&recs[i].trace_id) {
                let ghost before = candidates@;
                candidates.push(recs[i]);
                proof {
                    assert(candidates@[candidates@.len() - 1] == recs@[i as int]);
                    assert forall|x: MemoryRecord| before.contains(x) implies candidates@.contains(
                        x,
                    ) by {
                        let c = choose|c: int| 0 <= c < before.len() && before[c] == x;
                        assert(candidates@[c] == x);
                    }
                    assert(recs@.take(i + 1).contains(recs@[i as int])) by {
                        assert(recs@.take(i + 1)[i as int] == recs@[i as int]);
                    }
                    assert forall|c: int| 0 <= c < before.len() implies recs@.take(i + 1).contains(
                        #[trigger] before[c],
                    ) by {
                        assert(recs@.take(i as int).contains(before[c]));
                        let j = choose|j: int|
                            0 <= j < i && recs@.take(i as int)[j] == before[c];
                        assert(recs@.take(i + 1)[j] == before[c]);
                    }
                    if recs@.no_duplicates() {
                        assert forall|c: int| 0 <= c < before.len() implies before[c] != recs@[
                            i as int] by {
                            let j = choose|j: int|
                                0 <= j < i && recs@.take(i as int)[j] == before[c];
                            assert(recs@[j] == before[c]);
                        }
                        assert forall|a: int, b: int|
                            0 <= a < candidates@.len() && 0 <= b < candidates@.len() && a != b
                                implies candidates@[a] != candidates@[b] by {
                            if a < before.len() && b < before.len() {
                                assert(candidates@[a] == before[a]);
                                assert(candidates@[b] == before[b]);
                            } else if a < before.len() {
                                assert(candidates@[a] == before[a]);
                            } else {
                                assert(candidates@[b] == before[b]);
                            }
                        }
                    }
                    assert(recs@.contains(recs@[i as int]));
                }
            }
            i = i + 1;
        }
        let pairs = line_sweep_algorithm(&candidates);
        let ghost mut src: Seq<int> = Seq::empty();
        let mut result: Vec<Overlap> = Vec::new();
        let mut k: usize = 0;
        while k < pairs.len()
            invariant
                k <= pairs@.len(),
                recs@ == self.memory_records@,
                forall|c: int|
                    0 <= c < candidates@.len() ==> recs@.contains(#[trigger] candidates@[c])
                        && index@.contains_key(candidates@[c].trace_id),
                forall|id: u64|
                    #![trigger index@.contains_key(id)]
                    index@.contains_key(id) <==> shared_entry(self.shared_variables@, id) is Some,
                forall|id: u64|
                    #![trigger index@.contains_key(id)]
                    index@.contains_key(id) ==> index@[id] < self.shared_variables@.len()
                        && self.shared_variables@[index@[id] as int].threads@ == shared_entry(
                        self.shared_variables@,
                        id,
                    )->Some_0,
                forall|m: int|
                    0 <= m < pairs@.len() ==> {
                        let (a, b) = #[trigger] pairs@[m];
                        &&& a < candidates@.len()
                        &&& b < candidates@.len()
                        &&& candidates@[a as int] != candidates@[b as int]
                        &&& ranges_overlap(candidates@[a as int], candidates@[b as int])
                    },
                forall|q: int|
                    0 <= q < result@.len() ==> valid_overlap(*self, #[trigger] result@[q]),
                recs@.no_duplicates() ==> candidates@.no_duplicates(),
                forall|m: int|
                    0 <= m < pairs@.len() ==> candidates@[(#[trigger] pairs@[m]).0 as int].wasm_id.address
                        <= candidates@[pairs@[m].1 as int].wasm_id.address,
                forall|m: int, l: int| 0 <= m < l < pairs@.len() ==> #[trigger] pairs@[m] != #[trigger] pairs@[l],
                forall|m: int, l: int|
                    0 <= m < pairs@.len() && 0 <= l < pairs@.len() ==> #[trigger] pairs@[m] != (
                        (#[trigger] pairs@[l]).1,
                        pairs@[l].0,
                    ),
                src.len() == result@.len(),
                forall|q: int|
                    0 <= q < src.len() ==> 0 <= #[trigger] src[q] < k && result@[q].access_x
                        == candidates@[pairs@[src[q]].0 as int] && result@[q].access_y
                        == candidates@[pairs@[src[q]].1 as int],
                forall|q: int, l: int| 0 <= q < l < src.len() ==> src[q] < src[l],
                forall|m: int|
                    0 <= m < k && shared_overlap(
                        *self,
                        candidates@[(#[trigger] pairs@[m]).0 as int],
                        candidates@[pairs@[m].1 as int],
                    ) ==> exists|q: int|
                        0 <= q < result@.len() && result@[q].access_x == candidates@[pairs@[
                            m].0 as int] && result@[q].access_y == candidates@[pairs@[m].1 as int],
            decreases pairs@.len() - k,
        {
            let (a, b) = pairs[k];
            let x = candidates[a];
            let y = candidates[b];
            let ix = *index.get(&x.trace_id).unwrap();
            let iy = *index.get(&y.trace_id).unwrap();
            let tx = &self.shared_variables[ix].threads;
            let ty = &self.shared_variables[iy].threads;
            if intersects(tx, ty) {
                let ghost before = result@;
                result.push(
                    Overlap { threads_x: copy_ids(tx), access_x: x, threads_y: copy_ids(ty), access_y: y },
                );
                proof {
                    src = src.push(k as int);
                    assert forall|m: int|
                        0 <= m < k && shared_overlap(
                            *self,
                            candidates@[(#[trigger] pairs@[m]).0 as int],
                            candidates@[pairs@[m].1 as int],
                        ) implies exists|q: int|
                        0 <= q < result@.len() && result@[q].access_x == candidates@[pairs@[
                            m].0 as int] && result@[q].access_y == candidates@[pairs@[m].1 as int] by {
                        let q = choose|q: int|
                            0 <= q < before.len() && before[q].access_x == candidates@[pairs@[
                                m].0 as int] && before[q].access_y == candidates@[pairs@[m].1 as int];
                        assert(result@[q] == before[q]);
                    }
                    let last = result@.len() - 1;
                    assert(result@[last].access_x == x && result@[last].access_y == y);
                    assert(ix == index@[x.trace_id] && iy == index@[y.trace_id]);
                    assert(recs@.contains(candidates@[a as int]));
                    assert(recs@.contains(candidates@[b as int]));
                    assert forall|q: int| 0 <= q < last implies result@[q] == before[q] by {}
                }
            }
            k = k + 1;
        }
        proof {
            assert forall|q: int| 0 <= q < result@.len() implies (#[trigger] result@[q]).access_x.wasm_id.address
                <= result@[q].access_y.wasm_id.address by {
                assert(pairs@[src[q]] == pairs@[src[q]]);
            }
            if recs@.no_duplicates() {
                assert forall|q: int, l: int| 0 <= q < l < result@.len() implies !same_pair(
                    #[trigger] result@[q],
                    #[trigger] result@[l],
                ) by {
                    let (m, n) = (src[q], src[l]);
                    assert(m < n);
                    let (pm, pn) = (pairs@[m], pairs@[n]);
                    assert(pm.0 < candidates@.len() && pm.1 < candidates@.len());
                    assert(pn.0 < candidates@.len() && pn.1 < candidates@.len());
                    if result@[q].access_x == result@[l].access_x && result@[q].access_y
                        == result@[l].access_y {
                        assert(pm.0 == pn.0 && pm.1 == pn.1);
                        assert(pm == pn);
                    }
                    if result@[q].access_x == result@[l].access_y && result@[q].access_y
                        == result@[l].access_x {
                        assert(pm.0 == pn.1 && pm.1 == pn.0);
                        assert(pm == (pn.1, pn.0));
                    }
                }
            }
            assert forall|i: int, j: int|
                0 <= i < self.memory_records@.len() && 0 <= j < self.memory_records@.len()
                    && shared_overlap(*self, self.memory_records@[i], self.memory_records@[j])
                    implies exists|q: int|
                0 <= q < result@.len() && ((#[trigger] result@[q].access_x
                    == self.memory_records@[i] && result@[q].access_y == self.memory_records@[j])
                    || (result@[q].access_x == self.memory_records@[j] && result@[q].access_y
                    == self.memory_records@[i])) by {
                let ri = self.memory_records@[i];
                let rj = self.memory_records@[j];
                assert(index@.contains_key(ri.trace_id));
                assert(index@.contains_key(rj.trace_id));
                assert(candidates@.contains(recs@[i]));
                assert(candidates@.contains(recs@[j]));
                let ci = choose|c: int| 0 <= c < candidates@.len() && candidates@[c] == ri;
                let cj = choose|c: int| 0 <= c < candidates@.len() && candidates@[c] == rj;
                assert(pairs@.contains((ci as usize, cj as usize)) || pairs@.contains(
                    (cj as usize, ci as usize),
                ));
                if pairs@.contains((ci as usize, cj as usize)) {
                    let m = choose|m: int| 0 <= m < pairs@.len() && pairs@[m] == (ci as usize, cj as usize);
                    assert(shared_overlap(*self, candidates@[pairs@[m].0 as int], candidates@[pairs@[m].1 as int]));
                } else {
                    let m = choose|m: int| 0 <= m < pairs@.len() && pairs@[m] == (cj as usize, ci as usize);
                    assert(shared_overlap(*self, rj, ri));
                    assert(shared_overlap(*self, candidates@[pairs@[m].0 as int], candidates@[pairs@[m].1 as int]));
                }
            }
        }
        result
    }
}

/// Pairs whose keys are their positions build the map from each position to its value.
pub proof fn lemma_records_map_dense<V>(p: Seq<(u64, V)>)
    requires
        forall|i: int| 0 <= i < p.len() ==> (#[trigger] p[i]).0 as int == i,
    ensures
        forall|id: u64| #[trigger] records_map(p).contains_key(id) <==> (id as int) < p.len(),
        forall|id: u64| (id as int) < p.len() ==> #[trigger] records_map(p)[id] == p[id as int].1,
    decreases p.len(),
{
    if p.len() > 0 {
        let q = p.drop_last();
        assert forall|i: int| 0 <= i < q.len() implies (#[trigger] q[i]).0 as int == i by {
            assert(q[i] == p[i]);
        }
        lemma_records_map_dense(q);
        assert(records_map(p) == records_map(q).insert(p.last().0, p.last().1));
        assert(p.last().0 as int == p.len() - 1);
        assert forall|id: u64| #[trigger] records_map(p).contains_key(id) <==> (id as int) < p.len() by {
            if (id as int) < q.len() {
                assert(records_map(q).contains_key(id));
            }
            if id as int == q.len() {
                assert(id == p.last().0);
            }
        }
        assert forall|id: u64| (id as int) < p.len() implies #[trigger] records_map(p)[id]
            == p[id as int].1 by {
            if (id as int) < q.len() {
                assert(q[id as int] == p[id as int]);
                assert(id != p.last().0);
            } else {
                assert(id == p.last().0);
            }
        }
    }
}

/// The metadata of an assignment maps each id back to the key it was assigned to.
pub proof fn lemma_back_maps(md: WasmgrindTraceMetadata, st: crate::tracing::converter::ConverterState)
    requires
        describes(md, st),
        st.threads.len() <= u64::MAX,
        st.variables.len() <= u64::MAX,
        st.locks.len() <= u64::MAX,
        st.locations.len() <= u64::MAX,
    ensures
        forall|id: u64| #[trigger] back_maps(md).threads.contains_key(id) <==> (id as int) < st.threads.len(),
        forall|id: u64| (id as int) < st.threads.len() ==> #[trigger] back_maps(md).threads[id] == st.threads[id as int] as u32,
        forall|id: u64| #[trigger] back_maps(md).locks.contains_key(id) <==> (id as int) < st.locks.len(),
        forall|id: u64| (id as int) < st.locks.len() ==> #[trigger] back_maps(md).locks[id] == st.locks[id as int] as u32,
        forall|id: u64| #[trigger] back_maps(md).variables.contains_key(id) <==> (id as int) < st.variables.len(),
        forall|id: u64| (id as int) < st.variables.len() ==> #[trigger] back_maps(md).variables[id] == (key_high(st.variables[id as int]), key_low(st.variables[id as int])),
        forall|id: u64| #[trigger] back_maps(md).locations.contains_key(id) <==> (id as int) < st.locations.len(),
        forall|id: u64| (id as int) < st.locations.len() ==> #[trigger] back_maps(md).locations[id] == (key_high(st.locations[id as int]), key_low(st.locations[id as int])),
{
    let tp = thread_pairs(md.thread_records@);
    assert forall|i: int| 0 <= i < tp.len() implies (#[trigger] tp[i]).0 as int == i by {
        assert(md.thread_records@[i].trace_id == i as u64);
    }
    lemma_records_map_dense(tp);
    let lp = lock_pairs(md.lock_records@);
    assert forall|i: int| 0 <= i < lp.len() implies (#[trigger] lp[i]).0 as int == i by {
        assert(md.lock_records@[i].trace_id == i as u64);
    }
    lemma_records_map_dense(lp);
    let mp = memory_pairs(md.memory_records@);
    assert forall|i: int| 0 <= i < mp.len() implies (#[trigger] mp[i]).0 as int == i by {
        assert(md.memory_records@[i].trace_id == i as u64);
    }
    lemma_records_map_dense(mp);
    let cp = location_pairs(md.location_records@);
    assert forall|i: int| 0 <= i < cp.len() implies (#[trigger] cp[i]).0 as int == i by {
        assert(md.location_records@[i].trace_id == i as u64);
    }
    lemma_records_map_dense(cp);
    assert forall|id: u64| (id as int) < st.threads.len() implies #[trigger] back_maps(md).threads[id]
        == st.threads[id as int] as u32 by {
        assert(md.thread_records@[id as int].wasm_id == st.threads[id as int] as u32);
    }
    assert forall|id: u64| (id as int) < st.locks.len() implies #[trigger] back_maps(md).locks[id]
        == st.locks[id as int] as u32 by {
        assert(md.lock_records@[id as int].wasm_id == st.locks[id as int] as u32);
    }
    assert forall|id: u64| (id as int) < st.variables.len() implies #[trigger] back_maps(md).variables[id]
        == (key_high(st.variables[id as int]), key_low(st.variables[id as int])) by {
        assert(md.memory_records@[id as int].wasm_id.address == key_high(st.variables[id as int]));
    }
    assert forall|id: u64| (id as int) < st.locations.len() implies #[trigger] back_maps(md).locations[id]
        == (key_high(st.locations[id as int]), key_low(st.locations[id as int])) by {
        assert(md.location_records@[id as int].wasm_id.fidx == key_high(st.locations[id as int]));
    }
}

/// The decimal digits of `n`, most significant first.
pub open spec fn decimal_chars(n: nat) -> Seq<char>
    decreases n,
{
    if n < 10 {
        seq![((n + 48) as u8) as char]
    } else {
        decimal_chars(n / 10).push((((n % 10) + 48) as u8) as char)
    }
}

/// Thread ids in decimal, separated by `", "`.
pub open spec fn ids_text(ids: Seq<u64>) -> Seq<char>
    decreases ids.len(),
{
    if ids.len() == 0 {
        Seq::empty()
    } else if ids.len() == 1 {
        decimal_chars(ids[0] as nat)
    } else {
        ids_text(ids.drop_last()) + ", "@ + decimal_chars(ids.last() as nat)
    }
}

/// `<id> at <address> of length <width>`.
pub open spec fn access_text(r: MemoryRecord) -> Seq<char> {
    decimal_chars(r.trace_id as nat) + " at "@ + decimal_chars(r.wasm_id.address as nat)
        + " of length "@ + decimal_chars(r.wasm_id.access_width as nat)
}

/// `Access <a> <verb> access <b>`.
pub open spec fn relation_text(a: MemoryRecord, verb: Seq<char>, b: MemoryRecord) -> Seq<char> {
    "Access "@ + access_text(a) + " "@ + verb + " access "@ + access_text(b)
}

/// The sentence that reports an overlap.
pub open spec fn description_text(o: Overlap, kind: OverlapKind) -> Seq<char> {
    "Memory access "@ + decimal_chars(o.access_x.trace_id as nat) + " (threads: "@ + ids_text(
        o.threads_x@,
    ) + ") overlaps with memory access "@ + decimal_chars(o.access_y.trace_id as nat)
        + " (threads: "@ + ids_text(o.threads_y@) + ") - "@ + match kind {
        OverlapKind::Intersection => relation_text(o.access_x, "intersects with"@, o.access_y),
        OverlapKind::FirstContainsSecond => relation_text(o.access_x, "contains"@, o.access_y),
        OverlapKind::SecondContainsFirst => relation_text(o.access_y, "contains"@, o.access_x),
        OverlapKind::Equal => "Equal memory accesses obviously overlap."@,
    }
}

/// Relies on `String::from_iter` over `char`s: the string holds exactly those characters, in order.
#[verifier::external_body]
fn string_of(chars: Vec<char>) -> (r: String)
    ensures
        r@ == chars@,
{
    String::from_iter(chars)
}

/// Appends the characters of `s`.
fn push_str(out: &mut Vec<char>, s: &str)
    ensures
        final(out)@ == old(out)@ + s@,
{
    broadcast use vstd::string::axiom_spec_iter, vstd::string::next_postcondition;

    let ghost start = out@;
    let mut it = s.chars();
    loop
        invariant
            out@ + IteratorSpec::remaining(&it) == start + s@,
            IteratorSpec::decrease(&it) is Some,
        ensures
            out@ == start + s@,
        decreases IteratorSpec::decrease(&it)->0,
    {
        let ghost before = IteratorSpec::remaining(&it);
        match it.next() {
            Some(c) => {
                assert(out@.push(c) + IteratorSpec::remaining(&it) =~= out@ + before);
                out.push(c);
            },
            None => {
                assert(out@ =~= start + s@);
                break;
            },
        }
    }
}

/// Appends the decimal digits of `n`.
fn push_decimal_chars(out: &mut Vec<char>, n: u64)
    ensures
        final(out)@ == old(out)@ + decimal_chars(n as nat),
    decreases n,
{
    if n >= 10 {
        push_decimal_chars(out, n / 10);
    }
    out.push((((n % 10) as u8) + 48) as char);
    proof {
        if n >= 10 {
            assert(decimal_chars(n as nat) == decimal_chars((n / 10) as nat).push(
                (((n % 10) + 48) as u8) as char,
            ));
        }
        assert(final(out)@ =~= old(out)@ + decimal_chars(n as nat));
    }
}

fn push_ids(out: &mut Vec<char>, ids: &Vec<u64>)
    ensures
        final(out)@ == old(out)@ + ids_text(ids@),
{
    let ghost start = out@;
    let mut i: usize = 0;
    while i < ids.len()
        invariant
            i <= ids@.len(),
            out@ == start + ids_text(ids@.take(i as int)),
        decreases ids@.len() - i,
    {
        let ghost before = out@;
        if i > 0 {
            push_str(out, ", ");
        }
        push_decimal_chars(out, ids[i]);
        proof {
            let t = ids@.take(i + 1);
            assert(t.drop_last() =~= ids@.take(i as int));
            if i > 0 {
                assert(out@ =~= start + ids_text(t));
            } else {
                assert(ids@.take(0) =~= Seq::<u64>::empty());
                assert(out@ =~= start + ids_text(t));
            }
        }
        i = i + 1;
    }
    assert(ids@.take(i as int) =~= ids@);
}

fn push_access(out: &mut Vec<char>, r: MemoryRecord)
    ensures
        final(out)@ == old(out)@ + access_text(r),
{
    let ghost start = out@;
    push_decimal_chars(out, r.trace_id);
    push_str(out, " at ");
    push_decimal_chars(out, r.wasm_id.address as u64);
    push_str(out, " of length ");
    push_decimal_chars(out, r.wasm_id.access_width as u64);
    assert(out@ =~= start + access_text(r));
}

fn push_relation(out: &mut Vec<char>, a: MemoryRecord, verb: &str, b: MemoryRecord)
    ensures
        final(out)@ == old(out)@ + relation_text(a, verb@, b),
{
    let ghost start = out@;
    push_str(out, "Access ");
    push_access(out, a);
    push_str(out, " ");
    push_str(out, verb);
    push_str(out, " access ");
    push_access(out, b);
    assert(out@ =~= start + relation_text(a, verb@, b));
}

impl Overlap {
    /// A sentence that reports the overlap: both accesses with their threads,
    /// then how they lie to each other.
    pub fn description(&self) -> (r: String)
        requires
            ranges_overlap(self.access_x, self.access_y),
        ensures
            exists|k: OverlapKind| #[trigger] description_text(*self, k) == r@ && (k
                == OverlapKind::Intersection <==> (self.access_x.wasm_id.address
                != self.access_y.wasm_id.address && !(range_end_le(self.access_x, self.access_y)
                && self.access_y.wasm_id.address <= self.access_x.wasm_id.address) && !(
            range_end_le(self.access_y, self.access_x) && self.access_x.wasm_id.address
                <= self.access_y.wasm_id.address))) && (k == OverlapKind::FirstContainsSecond
                ==> self.access_x.wasm_id.access_width > self.access_y.wasm_id.access_width) && (k
                == OverlapKind::SecondContainsFirst ==> self.access_y.wasm_id.access_width
                > self.access_x.wasm_id.access_width) && (k == OverlapKind::Equal
                ==> self.access_x.wasm_id == self.access_y.wasm_id),
    {
        let kind = self.kind();
        let mut out: Vec<char> = Vec::new();
        push_str(&mut out, "Memory access ");
        push_decimal_chars(&mut out, self.access_x.trace_id);
        push_str(&mut out, " (threads: ");
        push_ids(&mut out, &self.threads_x);
        push_str(&mut out, ") overlaps with memory access ");
        push_decimal_chars(&mut out, self.access_y.trace_id);
        push_str(&mut out, " (threads: ");
        push_ids(&mut out, &self.threads_y);
        push_str(&mut out, ") - ");
        let ghost head = out@;
        match kind {
            OverlapKind::Intersection => push_relation(
                &mut out,
                self.access_x,
                "intersects with",
                self.access_y,
            ),
            OverlapKind::FirstContainsSecond => push_relation(
                &mut out,
                self.access_x,
                "contains",
                self.access_y,
            ),
            OverlapKind::SecondContainsFirst => push_relation(
                &mut out,
                self.access_y,
                "contains",
                self.access_x,
            ),
            OverlapKind::Equal => push_str(&mut out, "Equal memory accesses obviously overlap."),
        }
        assert(out@ =~= description_text(*self, kind));
        string_of(out)
    }
}

impl Default for WasmgrindTraceMetadata {
    fn default() -> (r: WasmgrindTraceMetadata)
        ensures
            r.thread_records@.len() == 0,
            r.memory_records@.len() == 0,
            r.lock_records@.len() == 0,
            r.location_records@.len() == 0,
            r.shared_variables@.len() == 0,
    {
        WasmgrindTraceMetadata::new()
    }
}

} // verus!
