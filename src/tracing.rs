//! Execution traces as the runtime records them, and their conversion into
//! generic traces, RapidBin bytes and metadata.

/// Assignment of dense ids to native keys, and the native-to-generic converter.
/// Detection of overlapping memory accesses.
pub mod analysis;
pub mod converter;
/// The metadata of a trace: what its ids stand for.
pub mod metadata;
/// Native events as the runtime records them.
pub mod representation;

use vstd::prelude::*;
use crate::generic::{self, TraceError};
use crate::rapidbin::encode_spec;
use crate::rapidbin::encoder::RapidBinEncoder;
use crate::rapidbin::parser::{decode_spec, RapidBinParser};
use crate::tracing::converter::{
    convert_trace, describes, lemma_convert_trace, names_same, state_wf, ConverterState,
    WasmgrindTraceConverter,
};
use crate::tracing::metadata::{
    back_event, back_maps, key_high, key_low, lemma_back_maps, lemma_pair_key, overlaps_of, BackMaps,
    Overlap, WasmgrindTraceMetadata,
};
use crate::rapidbin::parser::lemma_round_trip;

pub use crate::tracing::representation::{Event, Op};

verus! {

/// An execution trace: the native events in the order they were recorded.
///
/// Callers that record from several threads keep it behind a lock.
pub struct Tracing {
    events: Vec<Event>,
}

impl View for Tracing {
    type V = Seq<Event>;

    closed spec fn view(&self) -> Seq<Event> {
        self.events@
    }
}

/// The native events that a generic trace stands for under `m`, if every id is known.
pub open spec fn back_trace(m: BackMaps, s: Seq<generic::Event>) -> Option<Seq<Event>>
    decreases s.len(),
{
    if s.len() == 0 {
        Some(Seq::empty())
    } else {
        match (back_trace(m, s.drop_last()), back_event(m, s.last())) {
            (Some(t), Some(e)) => Some(t.push(e)),
            _ => None,
        }
    }
}

/// The number of memory accesses among the events.
pub open spec fn count_memory(s: Seq<generic::Event>) -> nat
    decreases s.len(),
{
    if s.len() == 0 {
        0
    } else {
        count_memory(s.drop_last()) + if s.last().operation is Read || s.last().operation is Write {
            1nat
        } else {
            0nat
        }
    }
}

/// Whether some overlap concerns the variable with id `m`.
pub open spec fn in_some_overlap(ovs: Seq<Overlap>, m: u64) -> bool {
    exists|k: int|
        0 <= k < ovs.len() && ((#[trigger] ovs[k]).access_x.trace_id == m || ovs[k].access_y.trace_id
            == m)
}

/// The number of memory accesses among the events whose variable some overlap concerns.
pub open spec fn count_overlapping(s: Seq<generic::Event>, ovs: Seq<Overlap>) -> nat
    decreases s.len(),
{
    if s.len() == 0 {
        0
    } else {
        count_overlapping(s.drop_last(), ovs) + if (s.last().operation is Read
            || s.last().operation is Write) && in_some_overlap(ovs, s.last().operation.spec_decor()) {
            1nat
        } else {
            0nat
        }
    }
}

impl Tracing {
    /// An empty execution trace.
    pub fn new() -> (r: Tracing)
        ensures
            r@ == Seq::<Event>::empty(),
    {
        Tracing { events: Vec::new() }
    }

    /// Appends the event of thread `tid` executing `op` at `loc`.
    pub fn add_event(&mut self, tid: u32, op: Op, loc: (u32, u32))
        ensures
            final(self)@ == old(self)@.push(Event { t: tid, op, loc }),
    {
        self.events.push(Event { t: tid, op, loc });
    }

    /// The events recorded so far.
    pub fn events(&self) -> (r: &Vec<Event>)
        ensures
            r@ == self@,
    {
        &self.events
    }

    /// The trace in RapidBin format, with the metadata that maps its ids back
    /// to native keys. The trace itself is left as it is.
    ///
    /// Fails with `OutOfRange` where the generic trace cannot be encoded.
    pub fn generate_binary_trace(&self) -> (r: Result<BinaryTraceOutput, TraceError>)
        requires
            self@.len() <= 0x1FFF_FFFF_FFFF_FFFF,
        ensures
            r is Ok <==> encode_spec(convert_trace(self@).1) is Some,
            r is Ok ==> r->Ok_0.trace@ == encode_spec(convert_trace(self@).1)->Some_0,
            r is Ok ==> describes(r->Ok_0.metadata, convert_trace(self@).0),
            r is Err ==> r->Err_0 == TraceError::OutOfRange,
    {
        let mut converter = WasmgrindTraceConverter::new();
        let mut generic_events: Vec<generic::Event> = Vec::new();
        proof {
            assert(self@.take(0) =~= Seq::<Event>::empty());
            assert(converter@.threads =~= Seq::<u64>::empty());
            assert(converter@.variables =~= Seq::<u64>::empty());
            assert(converter@.locks =~= Seq::<u64>::empty());
            assert(converter@.locations =~= Seq::<u64>::empty());
            assert(converter@.accessors =~= Seq::<Seq<u64>>::empty());
            assert(generic_events@ =~= Seq::<generic::Event>::empty());
        }
        let mut i: usize = 0;
        while i < self.events.len()
            invariant
                i <= self@.len(),
                converter.wf(),
                (converter@, generic_events@) == convert_trace(self@.take(i as int)),
                generic_events@.len() == i,
            decreases self@.len() - i,
        {
            let g = converter.convert_event(&self.events[i]);
            generic_events.push(g);
            proof {
                assert(self@.take(i + 1).drop_last() =~= self@.take(i as int));
            }
            i = i + 1;
        }
        proof {
            assert(self@.take(i as int) =~= self@);
        }
        let mut encoder = RapidBinEncoder::new();
        let trace = match encoder.encode_trace(&generic_events) {
            Ok(t) => t,
            Err(e) => return Err(e),
        };
        Ok(BinaryTraceOutput { trace, metadata: converter.generate_metadata() })
    }

    /// The native trace that a RapidBin trace and its metadata stand for.
    ///
    /// Decoding failures of the trace come first; then `MissingId` where an id
    /// has no record in the metadata.
    pub fn try_from(value: BinaryTraceOutput) -> (r: Result<Tracing, TraceError>)
        ensures
            decode_spec(value.trace@) is Err ==> r == Err::<Tracing, TraceError>(
                decode_spec(value.trace@)->Err_0,
            ),
            decode_spec(value.trace@) is Ok ==> match back_trace(
                back_maps(value.metadata),
                decode_spec(value.trace@)->Ok_0,
            ) {
                Some(t) => r is Ok && r->Ok_0@ == t,
                None => r == Err::<Tracing, TraceError>(TraceError::MissingId),
            },
    {
        let BinaryTraceOutput { trace, metadata } = value;
        let converter = metadata.into_converter();
        let mut parser = RapidBinParser::new();
        let bytes = trace.as_slice();
        assert(bytes@ == value.trace@);
        let events = match parser.parse_all(bytes) {
            Ok(ev) => ev,
            Err(e) => return Err(e),
        };
        let ghost m = back_maps(metadata);
        let mut out: Vec<Event> = Vec::new();
        let mut i: usize = 0;
        proof {
            assert(events@.take(0) =~= Seq::<generic::Event>::empty());
        }
        while i < events.len()
            invariant
                i <= events@.len(),
                converter@ == m,
                m == back_maps(value.metadata),
                decode_spec(value.trace@) == Ok::<Seq<generic::Event>, TraceError>(events@),
                back_trace(m, events@.take(i as int)) == Some(out@),
            decreases events@.len() - i,
        {
            proof {
                assert(events@.take(i + 1).drop_last() =~= events@.take(i as int));
            }
            match converter.convert_event(&events[i]) {
                Ok(e) => out.push(e),
                Err(err) => {
                    proof {
                        lemma_back_trace_none(m, events@, i as int + 1);
                    }
                    return Err(err);
                },
            }
            i = i + 1;
        }
        proof {
            assert(events@.take(i as int) =~= events@);
        }
        Ok(Tracing { events: out })
    }
}

/// A trace that misses an id in a prefix misses it as a whole.
proof fn lemma_back_trace_none(m: BackMaps, s: Seq<generic::Event>, k: int)
    requires
        0 <= k <= s.len(),
        back_trace(m, s.take(k)) is None,
    ensures
        back_trace(m, s) is None,
    decreases s.len() - k,
{
    if k < s.len() {
        assert(s.take(k + 1).drop_last() =~= s.take(k));
        lemma_back_trace_none(m, s, k + 1);
    } else {
        assert(s.take(k) =~= s);
    }
}

/// A trace in RapidBin format and its metadata.
pub struct BinaryTraceOutput {
    /// The binary execution trace.
    pub trace: Vec<u8>,
    /// The trace metadata.
    pub metadata: WasmgrindTraceMetadata,
}

/// The overlapping memory accesses of one trace, with how many of its memory
/// events concern them.
pub struct Overlaps {
    overlaps: Vec<Overlap>,
    n_memory_events: usize,
    n_overlap_events: usize,
}

impl Overlaps {
    pub closed spec fn spec_overlaps(&self) -> Seq<Overlap> {
        self.overlaps@
    }

    pub closed spec fn spec_ratio(&self) -> (usize, usize) {
        (self.n_overlap_events, self.n_memory_events)
    }

    /// All pairwise overlaps of distinct memory accesses shared among threads.
    pub fn get_overlaps(&self) -> (r: &Vec<Overlap>)
        ensures
            r@ == self.spec_overlaps(),
    {
        &self.overlaps
    }

    /// The number of memory events whose variable overlaps another, and the
    /// number of all memory events.
    pub fn get_overlap_ratio(&self) -> (r: (usize, usize))
        ensures
            r == self.spec_ratio(),
    {
        (self.n_overlap_events, self.n_memory_events)
    }
}

impl BinaryTraceOutput {
    /// The overlaps of the metadata's shared memory accesses, and how many
    /// memory events of the trace concern them; fails where the trace does not decode.
    pub fn find_overlaps(&self) -> (r: Result<Overlaps, TraceError>)
        ensures
            r is Ok <==> decode_spec(self.trace@) is Ok,
            r is Err ==> r->Err_0 == decode_spec(self.trace@)->Err_0,
            r is Ok ==> overlaps_of(self.metadata, r->Ok_0.spec_overlaps()),
            r is Ok ==> r->Ok_0.spec_ratio().1 == count_memory(decode_spec(self.trace@)->Ok_0),
            r is Ok ==> r->Ok_0.spec_ratio().0 == count_overlapping(
                decode_spec(self.trace@)->Ok_0,
                r->Ok_0.spec_overlaps(),
            ),
    {
        let overlaps = self.metadata.find_overlaps();
        let mut parser = RapidBinParser::new();
        let events = match parser.parse_all(self.trace.as_slice()) {
            Ok(ev) => ev,
            Err(e) => return Err(e),
        };
        let mut n_memory_events: usize = 0;
        let mut n_overlap_events: usize = 0;
        let mut i: usize = 0;
        while i < events.len()
            invariant
                i <= events@.len(),
                n_memory_events == count_memory(events@.take(i as int)),
                n_overlap_events == count_overlapping(events@.take(i as int), overlaps@),
                n_overlap_events <= n_memory_events <= i,
            decreases events@.len() - i,
        {
            proof {
                assert(events@.take(i + 1).drop_last() =~= events@.take(i as int));
            }
            match events[i].operation {
                generic::Operation::Read { memory } | generic::Operation::Write { memory } => {
                    n_memory_events = n_memory_events + 1;
                    if any_contains(&overlaps, memory) {
                        n_overlap_events = n_overlap_events + 1;
                    }
                },
                _ => {},
            }
            i = i + 1;
        }
        proof {
            assert(events@.take(i as int) =~= events@);
        }
        Ok(Overlaps { overlaps, n_memory_events, n_overlap_events })
    }
}

fn any_contains(overlaps: &Vec<Overlap>, memory: u64) -> (r: bool)
    ensures
        r == in_some_overlap(overlaps@, memory),
{
    let mut k: usize = 0;
    while k < overlaps.len()
        invariant
            k <= overlaps@.len(),
            forall|j: int|
                0 <= j < k ==> !((#[trigger] overlaps@[j]).access_x.trace_id == memory
                    || overlaps@[j].access_y.trace_id == memory),
        decreases overlaps@.len() - k,
    {
        if overlaps[k].contains(memory) {
            return true;
        }
        k = k + 1;
    }
    false
}

/// Through the metadata of an assignment, a generic event that names what a
/// native event names turns back into that native event.
pub proof fn lemma_back_event(md: WasmgrindTraceMetadata, st: ConverterState, e: Event, g: generic::Event)
    requires
        describes(md, st),
        state_wf(st),
        names_same(st, e, g),
        st.threads.len() <= u64::MAX,
        st.variables.len() <= u64::MAX,
        st.locks.len() <= u64::MAX,
        st.locations.len() <= u64::MAX,
    ensures
        back_event(back_maps(md), g) == Some(e),
{
    lemma_back_maps(md, st);
    lemma_pair_key(e.loc.0, e.loc.1);
    let m = back_maps(md);
    assert(m.threads[g.thread_id] == e.t);
    assert(m.locations[g.location] == (key_high(st.locations[g.location as int]), key_low(st.locations[g.location as int])));
    match e.op {
        Op::Read { addr, n } => lemma_pair_key(addr, n),
        Op::Write { addr, n } => lemma_pair_key(addr, n),
        _ => {},
    }
}

/// A generic trace each of whose events turns back into the native one turns back whole.
proof fn lemma_back_trace(m: BackMaps, g: Seq<generic::Event>, s: Seq<Event>)
    requires
        g.len() == s.len(),
        forall|k: int| 0 <= k < g.len() ==> back_event(m, #[trigger] g[k]) == Some(s[k]),
    ensures
        back_trace(m, g) == Some(s),
    decreases g.len(),
{
    if g.len() > 0 {
        let (gp, sp) = (g.drop_last(), s.drop_last());
        assert forall|k: int| 0 <= k < gp.len() implies back_event(m, #[trigger] gp[k]) == Some(sp[k]) by {
            assert(gp[k] == g[k]);
        }
        lemma_back_trace(m, gp, sp);
        assert(back_event(m, g.last()) == Some(s.last()));
        assert(sp.push(s.last()) =~= s);
    }
}

/// Trace round trip: a trace with fewer than 1024 distinct threads whose
/// generic form encodes decodes to that generic form, and the metadata of its
/// conversion turns it back into the very same native trace.
pub proof fn lemma_trace_round_trip(s: Seq<Event>, md: WasmgrindTraceMetadata)
    requires
        s.len() <= 0x0FFF_FFFF_FFFF_FFFF,
        encode_spec(convert_trace(s).1) is Some,
        convert_trace(s).0.threads.len() <= 1024,
        describes(md, convert_trace(s).0),
    ensures
        decode_spec(encode_spec(convert_trace(s).1)->Some_0) == Ok::<
            Seq<generic::Event>,
            TraceError,
        >(convert_trace(s).1),
        back_trace(back_maps(md), convert_trace(s).1) == Some(s),
{
    let (st, g) = convert_trace(s);
    lemma_convert_trace(s);
    assert forall|k: int| 0 <= k < g.len() implies #[trigger] g[k].thread_id < 1024 by {
        assert(names_same(st, s[k], g[k]));
    }
    lemma_round_trip(g);
    assert forall|k: int| 0 <= k < g.len() implies back_event(back_maps(md), #[trigger] g[k]) == Some(s[k]) by {
        assert(names_same(st, s[k], g[k]));
        lemma_back_event(md, st, s[k], g[k]);
    }
    lemma_back_trace(back_maps(md), g, s);
}

impl Default for Tracing {
    fn default() -> (r: Tracing)
        ensures
            r@ == Seq::<Event>::empty(),
    {
        Tracing::new()
    }
}

} // verus!
