//! The RapidBin binary trace format: a header of four big-endian counts
//! followed by one big-endian 64-bit packed record per event.

/// Encoding of generic traces into RapidBin.
pub mod encoder;
/// Decoding of RapidBin into generic traces.
pub mod parser;

use vstd::prelude::*;
use crate::generic::{Event, Operation};

verus! {

/// Length of the header: an `i16`, two `i32` and an `i64`.
pub const HEADER_LEN: usize = 18;

/// Number of bytes of one packed record.
pub const RECORD_LEN: usize = 8;

/// Largest thread id, location and thread count the format admits.
pub const MAX_I16: u64 = 0x7FFF;

/// Largest lock and variable count the format admits.
pub const MAX_I32: u64 = 0x7FFF_FFFF;

/// Payloads must stay below this bound (34 bits).
pub const DECOR_LIMIT: u64 = 0x4_0000_0000;

/// The packed record: `[thread:10][op:4][decor:34][location:15][reserved:1]`, LSB first.
pub open spec fn pack(t: u64, o: u64, d: u64, l: u64) -> u64 {
    t | (o << 10u64) | (d << 14u64) | (l << 48u64)
}

pub open spec fn word_thread(w: u64) -> u64 {
    w & 0x3FFu64
}

pub open spec fn word_op(w: u64) -> u64 {
    (w >> 10u64) & 0xFu64
}

pub open spec fn word_decor(w: u64) -> u64 {
    (w >> 14u64) & 0x3_FFFF_FFFFu64
}

pub open spec fn word_location(w: u64) -> u64 {
    (w >> 48u64) & 0x7FFFu64
}

/// The fields of a packed record read back unchanged when each fits its width.
pub proof fn lemma_unpack(t: u64, o: u64, d: u64, l: u64)
    requires
        t < 1024,
        o < 16,
        d < 0x4_0000_0000,
        l < 0x8000,
    ensures
        word_thread(pack(t, o, d, l)) == t,
        word_op(pack(t, o, d, l)) == o,
        word_decor(pack(t, o, d, l)) == d,
        word_location(pack(t, o, d, l)) == l,
        pack(t, o, d, l) < 0x8000_0000_0000_0000u64,
{
    assert((t | (o << 10u64) | (d << 14u64) | (l << 48u64)) & 0x3FFu64 == t) by (bit_vector)
        requires t < 1024u64, o < 16u64, d < 0x4_0000_0000u64, l < 0x8000u64;
    assert(((t | (o << 10u64) | (d << 14u64) | (l << 48u64)) >> 10u64) & 0xFu64 == o)
        by (bit_vector)
        requires t < 1024u64, o < 16u64, d < 0x4_0000_0000u64, l < 0x8000u64;
    assert(((t | (o << 10u64) | (d << 14u64) | (l << 48u64)) >> 14u64) & 0x3_FFFF_FFFFu64 == d)
        by (bit_vector)
        requires t < 1024u64, o < 16u64, d < 0x4_0000_0000u64, l < 0x8000u64;
    assert(((t | (o << 10u64) | (d << 14u64) | (l << 48u64)) >> 48u64) & 0x7FFFu64 == l)
        by (bit_vector)
        requires t < 1024u64, o < 16u64, d < 0x4_0000_0000u64, l < 0x8000u64;
    assert((t | (o << 10u64) | (d << 14u64) | (l << 48u64)) < 0x8000_0000_0000_0000u64)
        by (bit_vector)
        requires t < 1024u64, o < 16u64, d < 0x4_0000_0000u64, l < 0x8000u64;
}

/// The big-endian bytes of a 64-bit word.
pub open spec fn be_u64(x: u64) -> Seq<u8> {
    seq![
        (x >> 56u64) as u8,
        (x >> 48u64) as u8,
        (x >> 40u64) as u8,
        (x >> 32u64) as u8,
        (x >> 24u64) as u8,
        (x >> 16u64) as u8,
        (x >> 8u64) as u8,
        x as u8,
    ]
}

/// The big-endian bytes of a 32-bit word.
pub open spec fn be_u32(x: u32) -> Seq<u8> {
    seq![(x >> 24u32) as u8, (x >> 16u32) as u8, (x >> 8u32) as u8, x as u8]
}

/// The big-endian bytes of a 16-bit word.
pub open spec fn be_u16(x: u16) -> Seq<u8> {
    seq![(x >> 8u16) as u8, x as u8]
}

/// The 64-bit word whose big-endian bytes start at `i`.
pub open spec fn u64_at(b: Seq<u8>, i: int) -> u64 {
    ((b[i] as u64) << 56u64) | ((b[i + 1] as u64) << 48u64) | ((b[i + 2] as u64) << 40u64)
        | ((b[i + 3] as u64) << 32u64) | ((b[i + 4] as u64) << 24u64) | ((b[i + 5] as u64)
        << 16u64) | ((b[i + 6] as u64) << 8u64) | (b[i + 7] as u64)
}

/// The 32-bit word whose big-endian bytes start at `i`.
pub open spec fn u32_at(b: Seq<u8>, i: int) -> u32 {
    ((b[i] as u32) << 24u32) | ((b[i + 1] as u32) << 16u32) | ((b[i + 2] as u32) << 8u32) | (b[i
        + 3] as u32)
}

/// The 16-bit word whose big-endian bytes start at `i`.
pub open spec fn u16_at(b: Seq<u8>, i: int) -> u16 {
    ((b[i] as u16) << 8u16) | (b[i + 1] as u16)
}

pub proof fn lemma_be_u64(x: u64)
    ensures
        u64_at(be_u64(x), 0) == x,
{
    let b0 = (x >> 56u64) as u8;
    let b1 = (x >> 48u64) as u8;
    let b2 = (x >> 40u64) as u8;
    let b3 = (x >> 32u64) as u8;
    let b4 = (x >> 24u64) as u8;
    let b5 = (x >> 16u64) as u8;
    let b6 = (x >> 8u64) as u8;
    let b7 = x as u8;
    assert(((b0 as u64) << 56u64) | ((b1 as u64) << 48u64) | ((b2 as u64) << 40u64) | ((
    b3 as u64) << 32u64) | ((b4 as u64) << 24u64) | ((b5 as u64) << 16u64) | ((b6 as u64)
        << 8u64) | (b7 as u64) == x) by (bit_vector)
        requires
            b0 == (x >> 56u64) as u8,
            b1 == (x >> 48u64) as u8,
            b2 == (x >> 40u64) as u8,
            b3 == (x >> 32u64) as u8,
            b4 == (x >> 24u64) as u8,
            b5 == (x >> 16u64) as u8,
            b6 == (x >> 8u64) as u8,
            b7 == x as u8,
    ;
}

pub proof fn lemma_be_u32(x: u32)
    ensures
        u32_at(be_u32(x), 0) == x,
{
    let b0 = (x >> 24u32) as u8;
    let b1 = (x >> 16u32) as u8;
    let b2 = (x >> 8u32) as u8;
    let b3 = x as u8;
    assert(((b0 as u32) << 24u32) | ((b1 as u32) << 16u32) | ((b2 as u32) << 8u32) | (b3 as u32)
        == x) by (bit_vector)
        requires
            b0 == (x >> 24u32) as u8,
            b1 == (x >> 16u32) as u8,
            b2 == (x >> 8u32) as u8,
            b3 == x as u8,
    ;
}

pub proof fn lemma_be_u16(x: u16)
    ensures
        u16_at(be_u16(x), 0) == x,
{
    let b0 = (x >> 8u16) as u8;
    let b1 = x as u8;
    assert(((b0 as u16) << 8u16) | (b1 as u16) == x) by (bit_vector)
        requires
            b0 == (x >> 8u16) as u8,
            b1 == x as u8,
    ;
}

/// Appends the big-endian bytes of `x`.
pub fn push_be_u64(out: &mut Vec<u8>, x: u64)
    ensures
        final(out)@ == old(out)@ + be_u64(x),
{
    out.push((x >> 56u64) as u8);
    out.push((x >> 48u64) as u8);
    out.push((x >> 40u64) as u8);
    out.push((x >> 32u64) as u8);
    out.push((x >> 24u64) as u8);
    out.push((x >> 16u64) as u8);
    out.push((x >> 8u64) as u8);
    out.push(x as u8);
    assert(final(out)@ =~= old(out)@ + be_u64(x));
}

/// Reads the 64-bit word whose big-endian bytes start at `i`.
pub fn read_be_u64(b: &Vec<u8>, i: usize) -> (r: u64)
    requires
        i + 8 <= b@.len(),
    ensures
        r == u64_at(b@, i as int),
{
    let len = b.len();
    assert(i + 8 <= len);
    ((b[i] as u64) << 56u64) | ((b[i + 1] as u64) << 48u64) | ((b[i + 2] as u64) << 40u64) | ((
    b[i + 3] as u64) << 32u64) | ((b[i + 4] as u64) << 24u64) | ((b[i + 5] as u64) << 16u64) | ((
    b[i + 6] as u64) << 8u64) | (b[i + 7] as u64)
}

/// Reads the 32-bit word whose big-endian bytes start at `i`.
pub fn read_be_u32(b: &Vec<u8>, i: usize) -> (r: u32)
    requires
        i + 4 <= b@.len(),
    ensures
        r == u32_at(b@, i as int),
{
    let len = b.len();
    assert(i + 4 <= len);
    ((b[i] as u32) << 24u32) | ((b[i + 1] as u32) << 16u32) | ((b[i + 2] as u32) << 8u32) | (b[i
        + 3] as u32)
}

/// Reads the 16-bit word whose big-endian bytes start at `i`.
pub fn read_be_u16(b: &Vec<u8>, i: usize) -> (r: u16)
    requires
        i + 2 <= b@.len(),
    ensures
        r == u16_at(b@, i as int),
{
    let len = b.len();
    assert(i + 2 <= len);
    ((b[i] as u16) << 8u16) | (b[i + 1] as u16)
}

/// Appends the big-endian bytes of `x`.
pub fn push_be_u32(out: &mut Vec<u8>, x: u32)
    ensures
        final(out)@ == old(out)@ + be_u32(x),
{
    out.push((x >> 24u32) as u8);
    out.push((x >> 16u32) as u8);
    out.push((x >> 8u32) as u8);
    out.push(x as u8);
    assert(final(out)@ =~= old(out)@ + be_u32(x));
}

/// Appends the big-endian bytes of `x`.
pub fn push_be_u16(out: &mut Vec<u8>, x: u16)
    ensures
        final(out)@ == old(out)@ + be_u16(x),
{
    out.push((x >> 8u16) as u8);
    out.push(x as u8);
    assert(final(out)@ =~= old(out)@ + be_u16(x));
}

/// Whether each field of the event fits its slot of a packed record.
pub open spec fn encodable(e: Event) -> bool {
    &&& e.thread_id <= MAX_I16
    &&& e.location <= MAX_I16
    &&& e.operation.spec_decor() < DECOR_LIMIT
}

/// The event as a packed record holds it: the thread id keeps its low ten bits.
pub open spec fn masked(e: Event) -> Event {
    Event { thread_id: e.thread_id % 1024, operation: e.operation, location: e.location }
}

pub open spec fn masked_seq(s: Seq<Event>) -> Seq<Event> {
    s.map_values(|e: Event| masked(e))
}

/// The packed record of an encodable event.
pub open spec fn event_word(e: Event) -> u64 {
    pack(e.thread_id % 1024, e.operation.spec_id() as u64, e.operation.spec_decor(), e.location)
}

/// The event a packed record stands for, if its operation tag is known.
pub open spec fn decode_word(w: u64) -> Option<Event> {
    if Operation::is_valid_id(word_op(w) as int) {
        Some(
            Event {
                thread_id: word_thread(w),
                operation: Operation::spec_from_id(word_op(w) as int, word_decor(w)),
                location: word_location(w),
            },
        )
    } else {
        None
    }
}

/// The threads an event names: the executing one and the target of a fork or join.
pub open spec fn event_threads(e: Event) -> Set<u64> {
    match e.operation {
        Operation::Fork { tid } => set![e.thread_id, tid],
        Operation::Join { tid } => set![e.thread_id, tid],
        _ => set![e.thread_id],
    }
}

/// The lock an event names, if any.
pub open spec fn event_locks(e: Event) -> Set<u64> {
    match e.operation {
        Operation::Aquire { lock } => set![lock],
        Operation::Release { lock } => set![lock],
        Operation::Request { lock } => set![lock],
        _ => Set::empty(),
    }
}

/// The memory variable an event names, if any.
pub open spec fn event_variables(e: Event) -> Set<u64> {
    match e.operation {
        Operation::Read { memory } => set![memory],
        Operation::Write { memory } => set![memory],
        _ => Set::empty(),
    }
}

pub open spec fn threads_of(s: Seq<Event>) -> Set<u64>
    decreases s.len(),
{
    if s.len() == 0 {
        Set::empty()
    } else {
        threads_of(s.drop_last()).union(event_threads(s.last()))
    }
}

pub open spec fn locks_of(s: Seq<Event>) -> Set<u64>
    decreases s.len(),
{
    if s.len() == 0 {
        Set::empty()
    } else {
        locks_of(s.drop_last()).union(event_locks(s.last()))
    }
}

pub open spec fn variables_of(s: Seq<Event>) -> Set<u64>
    decreases s.len(),
{
    if s.len() == 0 {
        Set::empty()
    } else {
        variables_of(s.drop_last()).union(event_variables(s.last()))
    }
}

/// The packed records of a sequence of events, in order.
pub open spec fn payload(s: Seq<Event>) -> Seq<u8>
    decreases s.len(),
{
    if s.len() == 0 {
        Seq::empty()
    } else {
        payload(s.drop_last()) + be_u64(event_word(s.last()))
    }
}

/// The header: thread, lock, variable and event counts.
pub open spec fn header_bytes(nt: nat, nl: nat, nv: nat, ne: nat) -> Seq<u8> {
    be_u16(nt as u16) + be_u32(nl as u32) + be_u32(nv as u32) + be_u64(ne as u64)
}

pub open spec fn all_encodable(s: Seq<Event>) -> bool {
    forall|i: int| 0 <= i < s.len() ==> encodable(#[trigger] s[i])
}

/// Whether the distinct ids of the events fit the header's counts.
pub open spec fn counts_fit(s: Seq<Event>) -> bool {
    let m = masked_seq(s);
    &&& threads_of(m).len() <= MAX_I16
    &&& locks_of(m).len() <= MAX_I32
    &&& variables_of(m).len() <= MAX_I32
}

/// The RapidBin bytes of a trace, or `None` where a field or a count is out of range.
pub open spec fn encode_spec(s: Seq<Event>) -> Option<Seq<u8>> {
    let m = masked_seq(s);
    if all_encodable(s) && counts_fit(s) {
        Some(
            header_bytes(threads_of(m).len(), locks_of(m).len(), variables_of(m).len(), s.len())
                + payload(s),
        )
    } else {
        None
    }
}

/// Decoding the tag and payload of an operation gives the operation back.
pub proof fn lemma_operation_tag(op: Operation)
    ensures
        Operation::is_valid_id(op.spec_id() as int),
        Operation::spec_from_id(op.spec_id() as int, op.spec_decor()) == op,
{
}

/// A packed record decodes to the event with its thread id cut to ten bits.
pub proof fn lemma_decode_event_word(e: Event)
    requires
        encodable(e),
    ensures
        decode_word(event_word(e)) == Some(masked(e)),
{
    lemma_operation_tag(e.operation);
    lemma_unpack(
        e.thread_id % 1024,
        e.operation.spec_id() as u64,
        e.operation.spec_decor(),
        e.location,
    );
}

/// Record `k` of the payload is the big-endian packed record of event `k`.
pub proof fn lemma_payload_record(s: Seq<Event>, k: int)
    requires
        0 <= k < s.len(),
    ensures
        payload(s).len() == 8 * s.len(),
        forall|j: int| 0 <= j < 8 ==> payload(s)[8 * k + j] == #[trigger] be_u64(event_word(s[k]))[j],
        u64_at(payload(s), 8 * k) == event_word(s[k]),
    decreases s.len(),
{
    lemma_payload_len(s);
    let p = s.drop_last();
    lemma_payload_len(p);
    if k < s.len() - 1 {
        lemma_payload_record(p, k);
    }
    let b = payload(s);
    let x = event_word(s[k]);
    lemma_be_u64(x);
    assert(b[8 * k] == be_u64(x)[0]);
    assert(b[8 * k + 1] == be_u64(x)[1]);
    assert(b[8 * k + 2] == be_u64(x)[2]);
    assert(b[8 * k + 3] == be_u64(x)[3]);
    assert(b[8 * k + 4] == be_u64(x)[4]);
    assert(b[8 * k + 5] == be_u64(x)[5]);
    assert(b[8 * k + 6] == be_u64(x)[6]);
    assert(b[8 * k + 7] == be_u64(x)[7]);
}

pub proof fn lemma_payload_len(s: Seq<Event>)
    ensures
        payload(s).len() == 8 * s.len(),
    decreases s.len(),
{
    if s.len() > 0 {
        lemma_payload_len(s.drop_last());
    }
}

/// The ids of a prefix are among those of the whole sequence, and all are finitely many.
pub proof fn lemma_ids_prefix(s: Seq<Event>, k: int)
    requires
        0 <= k <= s.len(),
    ensures
        threads_of(s.take(k)).subset_of(threads_of(s)),
        locks_of(s.take(k)).subset_of(locks_of(s)),
        variables_of(s.take(k)).subset_of(variables_of(s)),
        threads_of(s).finite(),
        locks_of(s).finite(),
        variables_of(s).finite(),
    decreases s.len(),
{
    if s.len() == 0 {
        assert(s.take(k) =~= s);
    } else {
        let p = s.drop_last();
        if k == s.len() {
            assert(s.take(k) =~= s);
            lemma_ids_prefix(p, 0);
        } else {
            lemma_ids_prefix(p, k);
            assert(p.take(k) =~= s.take(k));
        }
    }
}

/// Ids that the events of a trace name after appending one event.
pub proof fn lemma_masked_take_step(s: Seq<Event>, k: int)
    requires
        0 <= k < s.len(),
    ensures
        masked_seq(s.take(k + 1)).drop_last() == masked_seq(s.take(k)),
        masked_seq(s.take(k + 1)).last() == masked(s[k]),
        masked_seq(s.take(k + 1)).len() > 0,
{
    assert(masked_seq(s.take(k + 1)).drop_last() =~= masked_seq(s.take(k)));
}

/// Field-range rejection: a trace with an event whose thread id or location
/// exceeds `i16::MAX`, or whose payload needs more than 34 bits, does not encode.
pub proof fn lemma_out_of_range_rejected(s: Seq<Event>, i: int)
    requires
        0 <= i < s.len(),
        s[i].thread_id > MAX_I16 || s[i].location > MAX_I16 || s[i].operation.spec_decor()
            >= DECOR_LIMIT,
    ensures
        encode_spec(s) is None,
{
    assert(!encodable(s[i]));
}

/// Op-tag totality: a record decodes exactly when its four tag bits are one of
/// 0, 1, 2, 3, 4, 5 and 8; the other eight values are rejected.
pub proof fn lemma_op_tags(w: u64)
    ensures
        decode_word(w) is Some <==> (word_op(w) <= 5 || word_op(w) == 8),
        word_op(w) < 16,
{
    assert((w >> 10u64) & 0xFu64 < 16) by (bit_vector);
}

} // verus!
