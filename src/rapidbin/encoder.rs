use std::collections::HashSet;
use vstd::prelude::*;
use crate::generic::{Encoder, Event, Operation, TraceError};
use crate::rapidbin::{
    event_locks, event_threads, event_variables, event_word, encodable, encode_spec,
    header_bytes, lemma_unpack, locks_of, masked, masked_seq, pack, payload, push_be_u16,
    push_be_u32, push_be_u64, threads_of, variables_of, all_encodable, counts_fit, DECOR_LIMIT,
    MAX_I16, MAX_I32,
};

verus! {

broadcast use vstd::std_specs::hash::group_hash_axioms;

/// An encoder that emits execution traces in RapidBin format.
///
/// It records the distinct threads, locks and variables of the events it has
/// packed, from which the header's counts are taken.
pub struct RapidBinEncoder {
    threads: HashSet<u64>,
    locks: HashSet<u64>,
    variables: HashSet<u64>,
}

impl RapidBinEncoder {
    /// The threads seen so far.
    pub closed spec fn seen_threads(&self) -> Set<u64> {
        self.threads@
    }

    /// The locks seen so far.
    pub closed spec fn seen_locks(&self) -> Set<u64> {
        self.locks@
    }

    /// The memory variables seen so far.
    pub closed spec fn seen_variables(&self) -> Set<u64> {
        self.variables@
    }

    pub fn new() -> (r: RapidBinEncoder)
        ensures
            r.seen_threads() == Set::<u64>::empty(),
            r.seen_locks() == Set::<u64>::empty(),
            r.seen_variables() == Set::<u64>::empty(),
    {
        RapidBinEncoder { threads: HashSet::new(), locks: HashSet::new(), variables: HashSet::new() }
    }

    fn get_n_threads(&self) -> (r: Result<i16, TraceError>)
        ensures
            r is Ok <==> self.seen_threads().len() <= MAX_I16,
            r is Ok ==> r->Ok_0 as int == self.seen_threads().len(),
            r is Err ==> r->Err_0 == TraceError::OutOfRange,
    {
        let n = self.threads.len();
        if n <= 0x7FFF {
            Ok(n as i16)
        } else {
            Err(TraceError::OutOfRange)
        }
    }

    fn get_n_locks(&self) -> (r: Result<i32, TraceError>)
        ensures
            r is Ok <==> self.seen_locks().len() <= MAX_I32,
            r is Ok ==> r->Ok_0 as int == self.seen_locks().len(),
            r is Err ==> r->Err_0 == TraceError::OutOfRange,
    {
        let n = self.locks.len();
        if n <= 0x7FFF_FFFF {
            Ok(n as i32)
        } else {
            Err(TraceError::OutOfRange)
        }
    }

    fn get_n_variables(&self) -> (r: Result<i32, TraceError>)
        ensures
            r is Ok <==> self.seen_variables().len() <= MAX_I32,
            r is Ok ==> r->Ok_0 as int == self.seen_variables().len(),
            r is Err ==> r->Err_0 == TraceError::OutOfRange,
    {
        let n = self.variables.len();
        if n <= 0x7FFF_FFFF {
            Ok(n as i32)
        } else {
            Err(TraceError::OutOfRange)
        }
    }

    /// Packs one event into a record and notes the ids it names.
    ///
    /// Fails with `OutOfRange`, changing nothing, where the thread id or the
    /// location exceeds `i16::MAX` or the payload needs more than 34 bits.
    pub fn encode_event(&mut self, event: Event) -> (r: Result<i64, TraceError>)
        ensures
            r is Ok <==> encodable(event),
            r is Ok ==> r->Ok_0 == event_word(event) as i64,
            r is Ok ==> event_word(event) < 0x8000_0000_0000_0000u64,
            r is Ok ==> final(self).seen_threads() == old(self).seen_threads().union(
                event_threads(masked(event)),
            ),
            r is Ok ==> final(self).seen_locks() == old(self).seen_locks().union(
                event_locks(masked(event)),
            ),
            r is Ok ==> final(self).seen_variables() == old(self).seen_variables().union(
                event_variables(masked(event)),
            ),
            r is Err ==> r->Err_0 == TraceError::OutOfRange && *final(self) == *old(self),
    {
        let (thread_id, operation, location) = event.into_fields();
        if thread_id > MAX_I16 || location > MAX_I16 {
            return Err(TraceError::OutOfRange);
        }
        let decor = operation.decor();
        if decor >= DECOR_LIMIT {
            return Err(TraceError::OutOfRange);
        }
        let tid = thread_id % 1024;
        let oid = operation.id() as u64;
        match operation {
            Operation::Aquire { .. } | Operation::Request { .. } | Operation::Release { .. } => {
                self.locks.insert(decor);
            },
            Operation::Read { .. } | Operation::Write { .. } => {
                self.variables.insert(decor);
            },
            Operation::Fork { .. } | Operation::Join { .. } => {
                self.threads.insert(decor);
            },
        }
        self.threads.insert(tid);
        proof {
            lemma_unpack(tid, oid, decor, location);
            assert(self.threads@ =~= old(self).threads@.union(event_threads(masked(event))));
            assert(self.locks@ =~= old(self).locks@.union(event_locks(masked(event))));
            assert(self.variables@ =~= old(self).variables@.union(event_variables(masked(event))));
        }
        let word = tid | (oid << 10u64) | (decor << 14u64) | (location << 48u64);
        Ok(word as i64)
    }

    /// Encodes a whole trace: the header, then one record per event.
    ///
    /// The counts of the header are those of this trace alone. Fails with
    /// `OutOfRange` where an event cannot be packed or a count exceeds its field.
    pub fn encode_trace(&mut self, input: &Vec<Event>) -> (r: Result<Vec<u8>, TraceError>)
        requires
            input@.len() <= 0x1FFF_FFFF_FFFF_FFFF,
        ensures
            r is Ok <==> encode_spec(input@) is Some,
            r is Ok ==> r->Ok_0@ == encode_spec(input@)->Some_0,
            r is Err ==> r->Err_0 == TraceError::OutOfRange,
    {
        self.threads = HashSet::new();
        self.locks = HashSet::new();
        self.variables = HashSet::new();
        let mut records: Vec<u8> = Vec::new();
        let n = input.len();
        let mut i: usize = 0;
        while i < n
            invariant
                n == input@.len(),
                i <= n,
                forall|j: int| 0 <= j < i ==> encodable(#[trigger] input@[j]),
                self.threads@ == threads_of(masked_seq(input@.take(i as int))),
                self.locks@ == locks_of(masked_seq(input@.take(i as int))),
                self.variables@ == variables_of(masked_seq(input@.take(i as int))),
                records@ == payload(input@.take(i as int)),
            decreases n - i,
        {
            let ghost prev = input@.take(i as int);
            let ghost next = input@.take(i + 1);
            let word = match self.encode_event(input[i]) {
                Ok(w) => w,
                Err(e) => {
                    proof {
                        assert(!all_encodable(input@));
                    }
                    return Err(e);
                },
            };
            push_be_u64(&mut records, word as u64);
            proof {
                assert(next.drop_last() =~= prev);
                assert(masked_seq(next).drop_last() =~= masked_seq(prev));
                assert(masked_seq(next).last() == masked(input@[i as int]));
                assert(next.last() == input@[i as int]);
                assert(word as u64 == event_word(input@[i as int]));
                assert(payload(next) == payload(prev) + crate::rapidbin::be_u64(
                    event_word(input@[i as int]),
                ));
            }
            i = i + 1;
        }
        proof {
            assert(input@.take(n as int) =~= input@);
        }
        let nt = match self.get_n_threads() {
            Ok(v) => v,
            Err(e) => return Err(e),
        };
        let nl = match self.get_n_locks() {
            Ok(v) => v,
            Err(e) => return Err(e),
        };
        let nv = match self.get_n_variables() {
            Ok(v) => v,
            Err(e) => return Err(e),
        };
        let mut out: Vec<u8> = Vec::new();
        push_be_u16(&mut out, nt as u16);
        push_be_u32(&mut out, nl as u32);
        push_be_u32(&mut out, nv as u32);
        push_be_u64(&mut out, n as u64);
        out.append(&mut records);
        Ok(out)
    }
}

impl Encoder for RapidBinEncoder {
    open spec fn encoded(input: Seq<Event>) -> Option<Seq<u8>> {
        encode_spec(input)
    }

    fn encode(&mut self, input: &Vec<Event>) -> (r: Result<Vec<u8>, TraceError>) {
        self.encode_trace(input)
    }

    fn format(&self) -> &'static str {
        "RapidBin"
    }
}

impl Default for RapidBinEncoder {
    fn default() -> (r: RapidBinEncoder)
        ensures
            r.seen_threads() == Set::<u64>::empty(),
            r.seen_locks() == Set::<u64>::empty(),
            r.seen_variables() == Set::<u64>::empty(),
    {
        RapidBinEncoder::new()
    }
}

} // verus!
