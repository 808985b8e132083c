use vstd::prelude::*;
use crate::generic::{Encoder, Event, Operation, TraceError};

verus! {

/// The decimal digits of `n`, most significant first, as ASCII bytes.
pub open spec fn decimal(n: nat) -> Seq<u8>
    decreases n,
{
    if n < 10 {
        seq![(n + 48) as u8]
    } else {
        decimal(n / 10).push(((n % 10) + 48) as u8)
    }
}

/// Appends the decimal digits of `n`.
pub fn push_decimal(out: &mut Vec<u8>, n: u64)
    ensures
        final(out)@ == old(out)@ + decimal(n as nat),
    decreases n,
{
    if n >= 10 {
        push_decimal(out, n / 10);
    }
    out.push(((n % 10) + 48) as u8);
    proof {
        if n >= 10 {
            assert(decimal(n as nat) == decimal((n / 10) as nat).push(((n % 10) + 48) as u8));
        }
        assert(final(out)@ =~= old(out)@ + decimal(n as nat));
    }
}

/// The text of an operation: its mnemonic, then the kind and number of its payload.
pub open spec fn op_text(op: Operation) -> Seq<u8> {
    match op {
        Operation::Aquire { lock } => seq![97u8, 99u8, 113u8, 40u8, 76u8] + decimal(lock as nat)
            + seq![41u8],
        Operation::Release { lock } => seq![114u8, 101u8, 108u8, 40u8, 76u8] + decimal(lock as nat)
            + seq![41u8],
        Operation::Read { memory } => seq![114u8, 40u8, 86u8] + decimal(memory as nat) + seq![41u8],
        Operation::Write { memory } => seq![119u8, 40u8, 86u8] + decimal(memory as nat) + seq![41u8],
        Operation::Fork { tid } => seq![102u8, 111u8, 114u8, 107u8, 40u8, 84u8] + decimal(tid as nat)
            + seq![41u8],
        Operation::Join { tid } => seq![106u8, 111u8, 105u8, 110u8, 40u8, 84u8] + decimal(tid as nat)
            + seq![41u8],
        Operation::Request { lock } => seq![114u8, 101u8, 113u8, 40u8, 76u8] + decimal(lock as nat)
            + seq![41u8],
    }
}

/// One line of the STD format: `T<thread>|<operation>|<location>` and a newline.
pub open spec fn std_line(e: Event) -> Seq<u8> {
    seq![84u8] + decimal(e.thread_id as nat) + seq![124u8] + op_text(e.operation) + seq![124u8]
        + decimal(e.location as nat) + seq![10u8]
}

/// The STD text of a trace: one line per event, in order.
pub open spec fn std_text(s: Seq<Event>) -> Seq<u8>
    decreases s.len(),
{
    if s.len() == 0 {
        Seq::empty()
    } else {
        std_text(s.drop_last()) + std_line(s.last())
    }
}

/// An encoder that emits execution traces as lines of text in STD format.
pub struct StdFormatEncoder;

impl StdFormatEncoder {
    pub fn new() -> (r: StdFormatEncoder) {
        StdFormatEncoder
    }

    fn push_bytes(out: &mut Vec<u8>, bytes: &[u8])
        ensures
            final(out)@ == old(out)@ + bytes@,
    {
        let mut i: usize = 0;
        while i < bytes.len()
            invariant
                i <= bytes@.len(),
                out@ == old(out)@ + bytes@.take(i as int),
            decreases bytes@.len() - i,
        {
            out.push(bytes[i]);
            i = i + 1;
            assert(out@ =~= old(out)@ + bytes@.take(i as int));
        }
        assert(bytes@.take(i as int) =~= bytes@);
    }

    fn push_op(out: &mut Vec<u8>, op: Operation)
        ensures
            final(out)@ == old(out)@ + op_text(op),
    {
        let ghost start = out@;
        let (head, value): (&[u8], u64) = match op {
            Operation::Aquire { lock } => (&[97u8, 99u8, 113u8, 40u8, 76u8], lock),
            Operation::Release { lock } => (&[114u8, 101u8, 108u8, 40u8, 76u8], lock),
            Operation::Read { memory } => (&[114u8, 40u8, 86u8], memory),
            Operation::Write { memory } => (&[119u8, 40u8, 86u8], memory),
            Operation::Fork { tid } => (&[102u8, 111u8, 114u8, 107u8, 40u8, 84u8], tid),
            Operation::Join { tid } => (&[106u8, 111u8, 105u8, 110u8, 40u8, 84u8], tid),
            Operation::Request { lock } => (&[114u8, 101u8, 113u8, 40u8, 76u8], lock),
        };
        Self::push_bytes(out, head);
        push_decimal(out, value);
        out.push(41u8);
        assert(out@ =~= start + op_text(op));
    }

    /// Appends the line of one event.
    pub fn encode_event(&self, out: &mut Vec<u8>, event: Event)
        ensures
            final(out)@ == old(out)@ + std_line(event),
    {
        let ghost start = out@;
        out.push(84u8);
        push_decimal(out, event.thread_id);
        out.push(124u8);
        Self::push_op(out, event.operation);
        out.push(124u8);
        push_decimal(out, event.location);
        out.push(10u8);
        assert(out@ =~= start + std_line(event));
    }

    /// Encodes a whole trace, one line per event.
    pub fn encode_text(&self, input: &Vec<Event>) -> (r: Vec<u8>)
        ensures
            r@ == std_text(input@),
    {
        let mut out: Vec<u8> = Vec::new();
        let mut i: usize = 0;
        while i < input.len()
            invariant
                i <= input@.len(),
                out@ == std_text(input@.take(i as int)),
            decreases input@.len() - i,
        {
            self.encode_event(&mut out, input[i]);
            assert(input@.take(i + 1).drop_last() =~= input@.take(i as int));
            i = i + 1;
        }
        assert(input@.take(i as int) =~= input@);
        out
    }
}

impl Encoder for StdFormatEncoder {
    open spec fn encoded(input: Seq<Event>) -> Option<Seq<u8>> {
        Some(std_text(input))
    }

    fn encode(&mut self, input: &Vec<Event>) -> (r: Result<Vec<u8>, TraceError>) {
        Ok(self.encode_text(input))
    }

    fn format(&self) -> &'static str {
        "STD"
    }
}

impl Default for StdFormatEncoder {
    fn default() -> (r: StdFormatEncoder) {
        StdFormatEncoder::new()
    }
}

} // verus!
