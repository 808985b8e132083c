use std::collections::HashSet;
use vstd::prelude::*;
use vstd::slice::{slice_subrange, slice_to_vec};
use crate::generic::{Event, Operation, Parser, TraceError};
use crate::rapidbin::{
    all_encodable, be_u16, be_u32, be_u64, counts_fit, encode_spec, encodable, header_bytes,
    lemma_be_u16, lemma_be_u32, lemma_be_u64, lemma_decode_event_word, lemma_ids_prefix,
    lemma_masked_take_step, lemma_payload_len, lemma_payload_record, locks_of, masked, masked_seq,
    payload, threads_of, variables_of, decode_word, event_locks, event_threads, event_variables, read_be_u16, read_be_u32,
    read_be_u64, u16_at, u32_at, u64_at, word_decor, word_location, word_op, word_thread,
    HEADER_LEN, RECORD_LEN,
};

verus! {

broadcast use vstd::std_specs::hash::group_hash_axioms;

/// What a decoder holds between two records.
pub struct DecoderState {
    /// The bytes after the header.
    pub payload: Seq<u8>,
    /// The offset of the next record.
    pub pos: int,
    /// Declared counts of threads, locks, variables and events.
    pub declared: (int, int, int, int),
    /// Events decoded so far.
    pub n_events: int,
    pub threads: Set<u64>,
    pub locks: Set<u64>,
    pub variables: Set<u64>,
}

/// Whether no running count exceeds its declared count.
pub open spec fn within_header(st: DecoderState) -> bool {
    &&& st.threads.len() <= st.declared.0
    &&& st.locks.len() <= st.declared.1
    &&& st.variables.len() <= st.declared.2
    &&& st.n_events <= st.declared.3
}

/// Whether every running count equals its declared count.
pub open spec fn matches_header(st: DecoderState) -> bool {
    &&& st.threads.len() == st.declared.0
    &&& st.locks.len() == st.declared.1
    &&& st.variables.len() == st.declared.2
    &&& st.n_events == st.declared.3
}

/// One step of the decoder: the next state and what it yields.
///
/// At the end of the input it yields `None` when every count matches the
/// header; a record cut short or fewer events than declared is an
/// `UnexpectedEof`, other differences a `CountMismatch`. Otherwise it consumes
/// one record: an unknown tag is an `InvalidTag`; a known one is registered and
/// yields its event, or a `CountMismatch` where a count now exceeds the header.
pub open spec fn step(st: DecoderState) -> (DecoderState, Result<Option<Event>, TraceError>) {
    let rem = st.payload.len() - st.pos;
    if rem < 8 {
        if rem == 0 && matches_header(st) {
            (st, Ok(None))
        } else if rem != 0 || st.n_events < st.declared.3 {
            (st, Err(TraceError::UnexpectedEof))
        } else {
            (st, Err(TraceError::CountMismatch))
        }
    } else {
        let w = u64_at(st.payload, st.pos);
        let moved = DecoderState {
            payload: st.payload,
            pos: st.pos + 8,
            declared: st.declared,
            n_events: st.n_events,
            threads: st.threads,
            locks: st.locks,
            variables: st.variables,
        };
        match decode_word(w) {
            None => (moved, Err(TraceError::InvalidTag)),
            Some(e) => {
                let next = DecoderState {
                    payload: st.payload,
                    pos: st.pos + 8,
                    declared: st.declared,
                    n_events: st.n_events + 1,
                    threads: st.threads.union(event_threads(e)),
                    locks: st.locks.union(event_locks(e)),
                    variables: st.variables.union(event_variables(e)),
                };
                if within_header(next) {
                    (next, Ok(Some(e)))
                } else {
                    (next, Err(TraceError::CountMismatch))
                }
            },
        }
    }
}

/// Prepends decoded events to the outcome of the rest of the input.
pub open spec fn prepend(s: Seq<Event>, r: Result<Seq<Event>, TraceError>) -> Result<
    Seq<Event>,
    TraceError,
> {
    match r {
        Ok(t) => Ok(s + t),
        Err(e) => Err(e),
    }
}

/// Steps until the end of the input or the first failure.
pub open spec fn run(st: DecoderState) -> Result<Seq<Event>, TraceError>
    decreases st.payload.len() - st.pos,
{
    let (next, r) = step(st);
    match r {
        Err(e) => Err(e),
        Ok(None) => Ok(Seq::empty()),
        Ok(Some(e)) => {
            if st.payload.len() - st.pos >= 8 {
                prepend(seq![e], run(next))
            } else {
                Err(TraceError::UnexpectedEof)
            }
        },
    }
}

/// The state right after reading the header of `b`, each count with its sign bit cleared.
pub open spec fn header_state(b: Seq<u8>) -> DecoderState {
    DecoderState {
        payload: b.subrange(HEADER_LEN as int, b.len() as int),
        pos: 0,
        declared: (
            (u16_at(b, 0) & 0x7FFFu16) as int,
            (u32_at(b, 2) & 0x7FFF_FFFFu32) as int,
            (u32_at(b, 6) & 0x7FFF_FFFFu32) as int,
            (u64_at(b, 10) & 0x7FFF_FFFF_FFFF_FFFFu64) as int,
        ),
        n_events: 0,
        threads: Set::empty(),
        locks: Set::empty(),
        variables: Set::empty(),
    }
}

/// The outcome of decoding a whole RapidBin stream.
pub open spec fn decode_spec(b: Seq<u8>) -> Result<Seq<Event>, TraceError> {
    if b.len() < HEADER_LEN {
        Err(TraceError::UnexpectedEof)
    } else {
        run(header_state(b))
    }
}

/// A parser for execution traces in RapidBin format.
pub struct RapidBinParser;

impl RapidBinParser {
    pub fn new() -> (r: RapidBinParser) {
        RapidBinParser
    }

    /// Reads the header and returns a decoder positioned at the first record.
    pub fn iter(&mut self, input: &[u8]) -> (r: Result<RapidBinIterator, TraceError>)
        ensures
            r is Ok <==> input@.len() >= HEADER_LEN,
            r is Ok ==> r->Ok_0.wf() && r->Ok_0@ == header_state(input@),
            r is Err ==> r->Err_0 == TraceError::UnexpectedEof,
    {
        if input.len() < HEADER_LEN {
            return Err(TraceError::UnexpectedEof);
        }
        let all = slice_to_vec(input);
        let t0 = read_be_u16(&all, 0);
        let l0 = read_be_u32(&all, 2);
        let v0 = read_be_u32(&all, 6);
        let n0 = read_be_u64(&all, 10);
        let t = t0 & 0x7FFFu16;
        let l = l0 & 0x7FFF_FFFFu32;
        let v = v0 & 0x7FFF_FFFFu32;
        let n = n0 & 0x7FFF_FFFF_FFFF_FFFFu64;
        assert(t0 & 0x7FFFu16 <= 0x7FFFu16) by (bit_vector);
        assert(l0 & 0x7FFF_FFFFu32 <= 0x7FFF_FFFFu32) by (bit_vector);
        assert(v0 & 0x7FFF_FFFFu32 <= 0x7FFF_FFFFu32) by (bit_vector);
        assert(n0 & 0x7FFF_FFFF_FFFF_FFFFu64 <= 0x7FFF_FFFF_FFFF_FFFFu64) by (bit_vector);
        let n_threads = t as i16;
        let n_locks = l as i32;
        let n_vars = v as i32;
        let n_events = n as i64;
        let rest = slice_subrange(input, HEADER_LEN, input.len());
        Ok(RapidBinIterator::new(rest, n_threads, n_locks, n_vars, n_events))
    }

    /// Decodes a whole stream, stopping at the first failure.
    pub fn parse_all(&mut self, input: &[u8]) -> (r: Result<Vec<Event>, TraceError>)
        ensures
            r is Ok ==> r->Ok_0@.len() * 8 <= input@.len(),
            r is Ok <==> decode_spec(input@) is Ok,
            r is Ok ==> r->Ok_0@ == decode_spec(input@)->Ok_0,
            r is Err ==> r->Err_0 == decode_spec(input@)->Err_0,
    {
        let mut iter = match self.iter(input) {
            Ok(it) => it,
            Err(e) => return Err(e),
        };
        let mut out: Vec<Event> = Vec::new();
        loop
            invariant
                iter.wf(),
                decode_spec(input@) == prepend(out@, run(iter@)),
            decreases iter@.payload.len() - iter@.pos,
        {
            let ghost before = iter@;
            match iter.inner_next() {
                Ok(Some(e)) => {
                    proof {
                        assert(out@.push(e) =~= out@ + seq![e]);
                        match run(iter@) {
                            Ok(t) => assert(out@ + (seq![e] + t) =~= out@.push(e) + t),
                            Err(_) => {},
                        }
                    }
                    out.push(e);
                },
                Ok(None) => {
                    proof {
                        assert(out@ + Seq::<Event>::empty() =~= out@);
                        lemma_decoded_len(input@);
                    }
                    return Ok(out);
                },
                Err(e) => {
                    return Err(e);
                },
            }
        }
    }
}

/// A lazy decoder of RapidBin records.
///
/// It checks after each record that no count exceeds the header, and at the
/// end of the input that every count matches it.
pub struct RapidBinIterator {
    input: Vec<u8>,
    pos: usize,
    n_threads: i16,
    n_locks: i32,
    n_variables: i32,
    n_events: i64,
    event_counter: i64,
    threads: HashSet<u64>,
    locks: HashSet<u64>,
    variables: HashSet<u64>,
}

impl View for RapidBinIterator {
    type V = DecoderState;

    closed spec fn view(&self) -> DecoderState {
        DecoderState {
            payload: self.input@,
            pos: self.pos as int,
            declared: (
                self.n_threads as int,
                self.n_locks as int,
                self.n_variables as int,
                self.n_events as int,
            ),
            n_events: self.event_counter as int,
            threads: self.threads@,
            locks: self.locks@,
            variables: self.variables@,
        }
    }
}

impl RapidBinIterator {
    pub closed spec fn wf(&self) -> bool {
        &&& self.pos <= self.input@.len()
        &&& 0 <= self.event_counter
        &&& self.event_counter * 8 <= self.pos
    }

    /// A decoder of the records in `input` against the given declared counts.
    pub fn new(input: &[u8], n_threads: i16, n_locks: i32, n_variables: i32, n_events: i64) -> (r:
        RapidBinIterator)
        ensures
            r.wf(),
            r@ == (DecoderState {
                payload: input@,
                pos: 0,
                declared: (n_threads as int, n_locks as int, n_variables as int, n_events as int),
                n_events: 0,
                threads: Set::empty(),
                locks: Set::empty(),
                variables: Set::empty(),
            }),
    {
        RapidBinIterator {
            input: slice_to_vec(input),
            pos: 0,
            n_threads,
            n_locks,
            n_variables,
            n_events,
            event_counter: 0,
            threads: HashSet::new(),
            locks: HashSet::new(),
            variables: HashSet::new(),
        }
    }

    fn counts_within(&self) -> (r: bool)
        ensures
            r == within_header(self@),
    {
        self.n_threads >= 0 && self.threads.len() <= self.n_threads as usize && self.n_locks >= 0
            && self.locks.len() <= self.n_locks as usize && self.n_variables >= 0
            && self.variables.len() <= self.n_variables as usize && self.event_counter
            <= self.n_events
    }

    fn counts_match(&self) -> (r: bool)
        ensures
            r == matches_header(self@),
    {
        self.n_threads >= 0 && self.threads.len() == self.n_threads as usize && self.n_locks >= 0
            && self.locks.len() == self.n_locks as usize && self.n_variables >= 0
            && self.variables.len() == self.n_variables as usize && self.event_counter
            == self.n_events
    }

    /// Decodes the next record, or reports the end of the input.
    pub fn inner_next(&mut self) -> (r: Result<Option<Event>, TraceError>)
        requires
            old(self).wf(),
        ensures
            final(self).wf(),
            (final(self)@, r) == step(old(self)@),
    {
        let rem = self.input.len() - self.pos;
        if rem < RECORD_LEN {
            if rem == 0 && self.counts_match() {
                return Ok(None);
            } else if rem != 0 || self.event_counter < self.n_events {
                return Err(TraceError::UnexpectedEof);
            } else {
                return Err(TraceError::CountMismatch);
            }
        }
        let w = read_be_u64(&self.input, self.pos);
        self.pos = self.pos + RECORD_LEN;
        let t = w & 0x3FFu64;
        let op = (w >> 10u64) & 0xFu64;
        let decor = (w >> 14u64) & 0x3_FFFF_FFFFu64;
        let loc = (w >> 48u64) & 0x7FFFu64;
        assert(t == word_thread(w) && op == word_op(w) && decor == word_decor(w) && loc
            == word_location(w));
        assert(op < 16) by (bit_vector)
            requires
                op == (w >> 10u64) & 0xFu64,
        ;
        let operation = match Operation::try_from_id(op as i64, decor) {
            Ok(o) => o,
            Err(e) => return Err(e),
        };
        self.threads.insert(t);
        match operation {
            Operation::Aquire { lock } | Operation::Request { lock } | Operation::Release {
                lock,
            } => {
                self.locks.insert(lock);
            },
            Operation::Read { memory } | Operation::Write { memory } => {
                self.variables.insert(memory);
            },
            Operation::Fork { tid } | Operation::Join { tid } => {
                self.threads.insert(tid);
            },
        }
        let event = Event::new(t, operation, loc);
        self.event_counter = self.event_counter + 1;
        proof {
            assert(self.threads@ =~= old(self).threads@.union(event_threads(event)));
            assert(self.locks@ =~= old(self).locks@.union(event_locks(event)));
            assert(self.variables@ =~= old(self).variables@.union(event_variables(event)));
        }
        if self.counts_within() {
            Ok(Some(event))
        } else {
            Err(TraceError::CountMismatch)
        }
    }

    /// The next event, a failure, or `None` at a clean end of the input.
    pub fn next(&mut self) -> (r: Option<Result<Event, TraceError>>)
        requires
            old(self).wf(),
        ensures
            final(self).wf(),
            final(self)@ == step(old(self)@).0,
            match step(old(self)@).1 {
                Ok(Some(e)) => r == Some(Ok::<Event, TraceError>(e)),
                Ok(None) => r is None,
                Err(e) => r == Some(Err::<Event, TraceError>(e)),
            },
    {
        match self.inner_next() {
            Ok(Some(e)) => Some(Ok(e)),
            Ok(None) => None,
            Err(e) => Some(Err(e)),
        }
    }
}

/// Decoding resumed after `k` records of an encoded trace yields the rest of it.
proof fn lemma_run_encoded(s: Seq<Event>, k: int, st: DecoderState)
    requires
        all_encodable(s),
        0 <= k <= s.len(),
        st.payload == payload(s),
        st.pos == 8 * k,
        st.n_events == k,
        st.threads == threads_of(masked_seq(s.take(k))),
        st.locks == locks_of(masked_seq(s.take(k))),
        st.variables == variables_of(masked_seq(s.take(k))),
        st.declared == (
            threads_of(masked_seq(s)).len() as int,
            locks_of(masked_seq(s)).len() as int,
            variables_of(masked_seq(s)).len() as int,
            s.len() as int,
        ),
    ensures
        run(st) == Ok::<Seq<Event>, TraceError>(masked_seq(s).skip(k)),
    decreases s.len() - k,
{
    let m = masked_seq(s);
    lemma_payload_len(s);
    assert(m.take(k) =~= masked_seq(s.take(k)));
    if k == s.len() {
        assert(s.take(k) =~= s);
        assert(m.skip(k) =~= Seq::<Event>::empty());
    } else {
        lemma_payload_record(s, k);
        assert(encodable(s[k]));
        lemma_decode_event_word(s[k]);
        lemma_masked_take_step(s, k);
        assert(m.take(k + 1) =~= masked_seq(s.take(k + 1)));
        lemma_ids_prefix(m, k + 1);
        let e = masked(s[k]);
        let next = DecoderState {
            payload: st.payload,
            pos: st.pos + 8,
            declared: st.declared,
            n_events: st.n_events + 1,
            threads: st.threads.union(crate::rapidbin::event_threads(e)),
            locks: st.locks.union(crate::rapidbin::event_locks(e)),
            variables: st.variables.union(crate::rapidbin::event_variables(e)),
        };
        vstd::set_lib::lemma_len_subset(next.threads, threads_of(m));
        vstd::set_lib::lemma_len_subset(next.locks, locks_of(m));
        vstd::set_lib::lemma_len_subset(next.variables, variables_of(m));
        assert(step(st) == (next, Ok::<Option<Event>, TraceError>(Some(e))));
        lemma_run_encoded(s, k + 1, next);
        assert(seq![e] + m.skip(k + 1) =~= m.skip(k));
    }
}

/// Round trip: decoding the RapidBin bytes of a trace gives the trace back,
/// each thread id cut to the ten bits of its field; a trace whose thread ids
/// are below 1024 comes back unchanged. The header read back holds the counts
/// of distinct threads, locks and variables and the number of events.
pub proof fn lemma_round_trip(s: Seq<Event>)
    requires
        encode_spec(s) is Some,
        s.len() <= 0x0FFF_FFFF_FFFF_FFFF,
    ensures
        decode_spec(encode_spec(s)->Some_0) == Ok::<Seq<Event>, TraceError>(masked_seq(s)),
        header_state(encode_spec(s)->Some_0).declared == (
            threads_of(masked_seq(s)).len() as int,
            locks_of(masked_seq(s)).len() as int,
            variables_of(masked_seq(s)).len() as int,
            s.len() as int,
        ),
        (forall|i: int| 0 <= i < s.len() ==> #[trigger] s[i].thread_id < 1024) ==> decode_spec(
            encode_spec(s)->Some_0,
        ) == Ok::<Seq<Event>, TraceError>(s),
{
    let m = masked_seq(s);
    let nt = threads_of(m).len();
    let nl = locks_of(m).len();
    let nv = variables_of(m).len();
    let b = encode_spec(s)->Some_0;
    let h = header_bytes(nt, nl, nv, s.len());
    lemma_payload_len(s);
    assert(b == h + payload(s));
    assert(b.subrange(18, b.len() as int) =~= payload(s));
    let x16 = nt as u16;
    let x32a = nl as u32;
    let x32b = nv as u32;
    let x64 = s.len() as u64;
    lemma_be_u16(x16);
    lemma_be_u32(x32a);
    lemma_be_u32(x32b);
    lemma_be_u64(x64);
    assert(crate::rapidbin::u16_at(b, 0) == x16);
    assert(crate::rapidbin::u32_at(b, 2) == crate::rapidbin::u32_at(be_u32(x32a), 0));
    assert(crate::rapidbin::u32_at(b, 6) == crate::rapidbin::u32_at(be_u32(x32b), 0));
    assert(crate::rapidbin::u64_at(b, 10) == crate::rapidbin::u64_at(be_u64(x64), 0));
    assert(x16 <= 0x7FFF ==> x16 & 0x7FFFu16 == x16) by (bit_vector);
    assert(x32a <= 0x7FFF_FFFF ==> x32a & 0x7FFF_FFFFu32 == x32a) by (bit_vector);
    assert(x32b <= 0x7FFF_FFFF ==> x32b & 0x7FFF_FFFFu32 == x32b) by (bit_vector);
    assert(x64 <= 0x7FFF_FFFF_FFFF_FFFF ==> x64 & 0x7FFF_FFFF_FFFF_FFFFu64 == x64) by (bit_vector);
    assert(s.take(0) =~= Seq::<Event>::empty());
    assert(masked_seq(s.take(0)) =~= Seq::<Event>::empty());
    lemma_run_encoded(s, 0, header_state(b));
    assert(m.skip(0) =~= m);
    if forall|i: int| 0 <= i < s.len() ==> #[trigger] s[i].thread_id < 1024 {
        assert(m =~= s);
    }
}

/// The ids of two sequences of events together are those of their concatenation.
pub proof fn lemma_ids_concat(a: Seq<Event>, b: Seq<Event>)
    ensures
        threads_of(a + b) == threads_of(a).union(threads_of(b)),
        locks_of(a + b) == locks_of(a).union(locks_of(b)),
        variables_of(a + b) == variables_of(a).union(variables_of(b)),
    decreases b.len(),
{
    if b.len() == 0 {
        assert(a + b =~= a);
        assert(threads_of(a).union(Set::empty()) =~= threads_of(a));
        assert(locks_of(a).union(Set::empty()) =~= locks_of(a));
        assert(variables_of(a).union(Set::empty()) =~= variables_of(a));
    } else {
        lemma_ids_concat(a, b.drop_last());
        assert((a + b).drop_last() =~= a + b.drop_last());
        assert(threads_of(a + b) =~= threads_of(a).union(threads_of(b)));
        assert(locks_of(a + b) =~= locks_of(a).union(locks_of(b)));
        assert(variables_of(a + b) =~= variables_of(a).union(variables_of(b)));
    }
}

/// What a successful run yields brings every running count up to its declared count.
proof fn lemma_run_ok_counts(st: DecoderState)
    requires
        run(st) is Ok,
    ensures
        st.threads.union(threads_of(run(st)->Ok_0)).len() == st.declared.0,
        st.locks.union(locks_of(run(st)->Ok_0)).len() == st.declared.1,
        st.variables.union(variables_of(run(st)->Ok_0)).len() == st.declared.2,
        st.n_events + run(st)->Ok_0.len() == st.declared.3,
    decreases st.payload.len() - st.pos,
{
    let (next, r) = step(st);
    match r {
        Ok(None) => {
            assert(st.threads.union(Set::empty()) =~= st.threads);
            assert(st.locks.union(Set::empty()) =~= st.locks);
            assert(st.variables.union(Set::empty()) =~= st.variables);
        },
        Ok(Some(e)) => {
            lemma_run_ok_counts(next);
            let t = run(next)->Ok_0;
            lemma_ids_concat(seq![e], t);
            assert(seq![e].drop_last() =~= Seq::<Event>::empty());
            assert(seq![e].last() == e);
            assert(threads_of(seq![e].drop_last()) == Set::<u64>::empty());
            assert(locks_of(seq![e].drop_last()) == Set::<u64>::empty());
            assert(variables_of(seq![e].drop_last()) == Set::<u64>::empty());
            assert(threads_of(seq![e]) =~= crate::rapidbin::event_threads(e));
            assert(locks_of(seq![e]) =~= crate::rapidbin::event_locks(e));
            assert(variables_of(seq![e]) =~= crate::rapidbin::event_variables(e));
            assert(st.threads.union(threads_of(seq![e] + t)) =~= next.threads.union(threads_of(t)));
            assert(st.locks.union(locks_of(seq![e] + t)) =~= next.locks.union(locks_of(t)));
            assert(st.variables.union(variables_of(seq![e] + t)) =~= next.variables.union(
                variables_of(t),
            ));
        },
        Err(_) => {},
    }
}

/// Header enforcement: a stream decodes successfully only if its distinct
/// threads, locks and variables and its events number exactly what the header
/// declares. Any other stream fails: as soon as a count exceeds the header
/// (see `step`), or at the end of the input where one falls short.
pub proof fn lemma_decoded_counts_match_header(b: Seq<u8>)
    requires
        decode_spec(b) is Ok,
    ensures
        threads_of(decode_spec(b)->Ok_0).len() == header_state(b).declared.0,
        locks_of(decode_spec(b)->Ok_0).len() == header_state(b).declared.1,
        variables_of(decode_spec(b)->Ok_0).len() == header_state(b).declared.2,
        decode_spec(b)->Ok_0.len() == header_state(b).declared.3,
{
    let st = header_state(b);
    lemma_run_ok_counts(st);
    let s = run(st)->Ok_0;
    assert(Set::<u64>::empty().union(threads_of(s)) =~= threads_of(s));
    assert(Set::<u64>::empty().union(locks_of(s)) =~= locks_of(s));
    assert(Set::<u64>::empty().union(variables_of(s)) =~= variables_of(s));
}

impl Parser for RapidBinParser {
    open spec fn decoded(input: Seq<u8>) -> Result<Seq<Event>, TraceError> {
        decode_spec(input)
    }

    fn parse(&mut self, input: &[u8]) -> (r: Result<Vec<Event>, TraceError>) {
        self.parse_all(input)
    }

    fn format(&self) -> &'static str {
        "RapidBin"
    }
}

/// A run yields at most one event per eight bytes left.
proof fn lemma_run_len(st: DecoderState)
    requires
        run(st) is Ok,
    ensures
        run(st)->Ok_0.len() * 8 <= st.payload.len() - st.pos,
    decreases st.payload.len() - st.pos,
{
    let (next, r) = step(st);
    if let Ok(Some(e)) = r {
        lemma_run_len(next);
    }
}

/// A decoded stream holds at most one event per eight bytes.
pub proof fn lemma_decoded_len(b: Seq<u8>)
    requires
        decode_spec(b) is Ok,
    ensures
        decode_spec(b)->Ok_0.len() * 8 <= b.len(),
{
    lemma_run_len(header_state(b));
}

impl Default for RapidBinParser {
    fn default() -> (r: RapidBinParser) {
        RapidBinParser::new()
    }
}

/// A whole record left at the decoder's position fails with `InvalidTag`
/// exactly when its tag is unknown.
pub proof fn lemma_step_rejects_unknown_tags(st: DecoderState)
    requires
        st.payload.len() - st.pos >= 8,
    ensures
        step(st).1 == Err::<Option<Event>, TraceError>(TraceError::InvalidTag) <==> !(
        word_op(u64_at(st.payload, st.pos)) <= 5 || word_op(u64_at(st.payload, st.pos)) == 8),
{
    crate::rapidbin::lemma_op_tags(u64_at(st.payload, st.pos));
}

} // verus!
