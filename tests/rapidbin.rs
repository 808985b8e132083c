use rand_xoshiro::{
    rand_core::{RngCore, SeedableRng},
    Xoshiro256PlusPlus,
};
use wasmgrind::generic::{Encoder, Event, Operation, Parser, TraceError};
use wasmgrind::rapidbin::encoder::RapidBinEncoder;
use wasmgrind::rapidbin::parser::{RapidBinIterator, RapidBinParser};

struct ExampleTraceBuilder {
    invalid_tid: bool,
    invalid_loc: bool,
    invalid_decor: bool,
}

impl ExampleTraceBuilder {
    fn new() -> Self {
        Self {
            invalid_tid: false,
            invalid_loc: false,
            invalid_decor: false,
        }
    }

    fn invalid_tid(mut self, invalid: bool) -> Self {
        self.invalid_tid = invalid;
        self
    }

    fn invalid_loc(mut self, invalid: bool) -> Self {
        self.invalid_loc = invalid;
        self
    }

    fn invalid_decor(mut self, invalid: bool) -> Self {
        self.invalid_decor = invalid;
        self
    }

    fn build(self) -> Vec<Event> {
        let mut tracing = Vec::new();
        let mut rng = Xoshiro256PlusPlus::seed_from_u64(42);
        let i16_max = u32::try_from(i16::MAX).unwrap();
        let i64_max = u64::try_from(i64::MAX).unwrap();
        let valid_ops = [0, 1, 2, 3, 4, 5, 8];

        for i in 0..100 {
            let tid = if self.invalid_tid && i % 54 == 0 {
                i16_max + 5234
            } else {
                let next = rng.next_u32() % (i16_max + 1);
                assert!(next <= i16_max);
                next
            };

            let loc = if self.invalid_loc && i % 63 == 0 {
                i16_max + 2362
            } else {
                let next = rng.next_u32() % (i16_max + 1);
                assert!(next <= i16_max);
                next
            };

            let op_id = valid_ops[(rng.next_u32() % 7) as usize];
            let decor = if self.invalid_decor && i % 91 == 0 {
                i64_max + 9081
            } else {
                let next = rng.next_u64() % (i64_max + 1);
                assert!(next <= i64_max);
                next
            };

            let event = Event::new(
                u64::from(tid),
                Operation::try_from_id(op_id, decor).unwrap(),
                u64::from(loc),
            );
            tracing.push(event);
        }

        tracing
    }
}

fn example_generic_trace() -> Vec<Event> {
    vec![
        Event::new(0, Operation::Fork { tid: 1 }, 42),
        Event::new(0, Operation::Fork { tid: 2 }, 42),
        Event::new(2, Operation::Fork { tid: 3 }, 123),
        Event::new(0, Operation::Request { lock: 0 }, 362),
        Event::new(0, Operation::Aquire { lock: 0 }, 362),
        Event::new(0, Operation::Read { memory: 200 }, 436),
        Event::new(0, Operation::Write { memory: 200 }, 923),
        Event::new(0, Operation::Release { lock: 0 }, 362),
        Event::new(0, Operation::Join { tid: 1 }, 7382),
    ]
}

#[allow(clippy::unusual_byte_groupings)]
fn example_binary_trace() -> Vec<u8> {
    let mut binary_trace = Vec::new();
    binary_trace.extend(4_i16.to_be_bytes());
    binary_trace.extend(1_i32.to_be_bytes());
    binary_trace.extend(1_i32.to_be_bytes());
    binary_trace.extend(9_i64.to_be_bytes());

    binary_trace.extend(
        [
            0b0_000000000101010_0000000000000000000000000000000001_0100_0000000000__i64
                .to_be_bytes(),
            0b0_000000000101010_0000000000000000000000000000000010_0100_0000000000__i64
                .to_be_bytes(),
            0b0_000000001111011_0000000000000000000000000000000011_0100_0000000010__i64
                .to_be_bytes(),
            0b0_000000101101010_0000000000000000000000000000000000_1000_0000000000__i64
                .to_be_bytes(),
            0b0_000000101101010_0000000000000000000000000000000000_0000_0000000000__i64
                .to_be_bytes(),
            0b0_000000110110100_0000000000000000000000000011001000_0010_0000000000__i64
                .to_be_bytes(),
            0b0_000001110011011_0000000000000000000000000011001000_0011_0000000000__i64
                .to_be_bytes(),
            0b0_000000101101010_0000000000000000000000000000000000_0001_0000000000__i64
                .to_be_bytes(),
            0b0_001110011010110_0000000000000000000000000000000001_0101_0000000000__i64
                .to_be_bytes(),
        ]
        .concat(),
    );
    binary_trace
}

#[test]
fn encoder_encode_valid_trace() {
    let generic_trace = example_generic_trace();
    let mut encoder = RapidBinEncoder::new();
    let encoded_trace = encoder.encode(&generic_trace).unwrap();
    assert_eq!(example_binary_trace(), encoded_trace);
}

#[test]
fn fail_on_invalid_trace() {
    let mut encoder = RapidBinEncoder::new();

    let trace = ExampleTraceBuilder::new().invalid_decor(true).build();
    encoder.encode(&trace).unwrap_err();

    let trace = ExampleTraceBuilder::new().invalid_loc(true).build();
    encoder.encode(&trace).unwrap_err();

    let trace = ExampleTraceBuilder::new().invalid_tid(true).build();
    encoder.encode(&trace).unwrap_err();

    let trace = ExampleTraceBuilder::new()
        .invalid_decor(true)
        .invalid_tid(true)
        .invalid_loc(true)
        .build();
    encoder.encode(&trace).unwrap_err();
}

#[test]
#[allow(clippy::unusual_byte_groupings)]
fn encode_valid_event() {
    let mut encoder = RapidBinEncoder::new();
    let event = Event::new(0, Operation::Write { memory: 200 }, 912);

    let binary_event = encoder.encode_event(event).unwrap();

    assert_eq!(
        binary_event,
        0b0_000001110010000_0000000000000000000000000011001000_0011_0000000000
    );
}

#[test]
fn fail_on_invalid_event() {
    let mut encoder = RapidBinEncoder::new();

    let invalid_thread = Event::new(u64::MAX - 100, Operation::Read { memory: 200 }, 912);
    encoder.encode_event(invalid_thread).unwrap_err();

    let invalid_decor = Event::new(2, Operation::Join { tid: 4 }, u64::MAX - 235);
    encoder.encode_event(invalid_decor).unwrap_err();

    let invalid_location = Event::new(
        124,
        Operation::Aquire {
            lock: u64::MAX - 100,
        },
        42,
    );
    encoder.encode_event(invalid_location).unwrap_err();
}

#[test]
fn encode_rejects_each_field_just_out_of_range() {
    let mut encoder = RapidBinEncoder::new();
    let too_big_thread = Event::new(0x8000, Operation::Read { memory: 1 }, 1);
    assert_eq!(encoder.encode_event(too_big_thread), Err(TraceError::OutOfRange));
    let too_big_location = Event::new(1, Operation::Read { memory: 1 }, 0x8000);
    assert_eq!(encoder.encode_event(too_big_location), Err(TraceError::OutOfRange));
    let too_big_decor = Event::new(1, Operation::Read { memory: 1 << 34 }, 1);
    assert_eq!(encoder.encode_event(too_big_decor), Err(TraceError::OutOfRange));
    let largest = Event::new(0x7FFF, Operation::Request { lock: (1 << 34) - 1 }, 0x7FFF);
    let word = encoder.encode_event(largest).unwrap();
    assert_eq!(word, (0x3FF) | (8 << 10) | (((1i64 << 34) - 1) << 14) | (0x7FFF << 48));
}

#[test]
fn parse_valid_trace() {
    let binary_trace = example_binary_trace();
    let mut parser = RapidBinParser::new();
    let parsed_trace = parser.parse(binary_trace.as_slice()).unwrap();
    assert_eq!(example_generic_trace(), parsed_trace);
}

#[test]
#[allow(clippy::unusual_byte_groupings)]
fn parse_valid_event() {
    let input = 0b0_000000000101010_0000000000000000000000000000000001_0100_0000000000__i64
        .to_be_bytes();
    let mut iter = RapidBinIterator::new(&input[..], 2, 0, 0, 1);

    assert_eq!(
        iter.next().unwrap().unwrap(),
        Event::new(0, Operation::Fork { tid: 1 }, 42)
    );
    assert!(iter.next().is_none());
}

#[test]
#[allow(clippy::unusual_byte_groupings)]
fn fail_on_too_few_events() {
    let input = 0b0_000000000101010_0000000000000000000000000000000001_0100_0000000000__i64
        .to_be_bytes();
    let mut iter = RapidBinIterator::new(&input[..], 2, 0, 0, 2);
    assert_eq!(
        iter.next().unwrap().unwrap(),
        Event::new(0, Operation::Fork { tid: 1 }, 42)
    );
    iter.next().unwrap().unwrap_err();
}

#[test]
#[allow(clippy::unusual_byte_groupings)]
fn fail_on_too_many_events() {
    let input = 0b0_000000000101010_0000000000000000000000000000000001_0100_0000000000__i64
        .to_be_bytes();
    let mut iter = RapidBinIterator::new(&input[..], 2, 0, 0, 0);
    iter.next().unwrap().unwrap_err();
}

#[test]
#[allow(clippy::unusual_byte_groupings)]
fn fail_on_too_few_threads() {
    let input = 0b0_000000110110100_0000000000000000000000000011001000_0010_0000000000__i64
        .to_be_bytes();
    let mut iter = RapidBinIterator::new(&input[..], 2, 0, 1, 1);
    assert_eq!(
        iter.next().unwrap().unwrap(),
        Event::new(0, Operation::Read { memory: 200 }, 436)
    );
    iter.next().unwrap().unwrap_err();
}

#[test]
#[allow(clippy::unusual_byte_groupings)]
fn fail_on_too_many_threads() {
    let input = 0b0_000000110110100_0000000000000000000000000011001000_0010_0000000000__i64
        .to_be_bytes();
    let mut iter = RapidBinIterator::new(&input[..], 0, 0, 1, 1);
    iter.next().unwrap().unwrap_err();
}

#[test]
#[allow(clippy::unusual_byte_groupings)]
fn fail_on_too_few_locks() {
    let input = 0b0_000000101101010_0000000000000000000000000000000000_0000_0000000000__i64
        .to_be_bytes();
    let mut iter = RapidBinIterator::new(&input[..], 2, 2, 0, 1);
    assert_eq!(
        iter.next().unwrap().unwrap(),
        Event::new(0, Operation::Aquire { lock: 0 }, 362)
    );
    iter.next().unwrap().unwrap_err();
}

#[test]
#[allow(clippy::unusual_byte_groupings)]
fn fail_on_too_many_locks() {
    let input = 0b0_000000101101010_0000000000000000000000000000000000_0000_0000000000__i64
        .to_be_bytes();
    let mut iter = RapidBinIterator::new(&input[..], 0, 0, 0, 1);
    iter.next().unwrap().unwrap_err();
}

#[test]
#[allow(clippy::unusual_byte_groupings)]
fn fail_on_too_few_variables() {
    let input = 0b0_000001110011011_0000000000000000000000000011001000_0011_0000000000__i64
        .to_be_bytes();
    let mut iter = RapidBinIterator::new(&input[..], 1, 0, 2, 1);
    assert_eq!(
        iter.next().unwrap().unwrap(),
        Event::new(0, Operation::Write { memory: 200 }, 923)
    );
    iter.next().unwrap().unwrap_err();
}

#[test]
#[allow(clippy::unusual_byte_groupings)]
fn fail_on_too_many_variables() {
    let input = 0b0_000001110011011_0000000000000000000000000011001000_0011_0000000000__i64
        .to_be_bytes();
    let mut iter = RapidBinIterator::new(&input[..], 1, 0, 0, 1);
    iter.next().unwrap().unwrap_err();
}

#[test]
fn round_trip_scenario_with_header_counts() {
    let trace = example_generic_trace();
    let mut encoder = RapidBinEncoder::new();
    let bytes = encoder.encode(&trace).unwrap();
    assert_eq!(&bytes[0..2], &4i16.to_be_bytes());
    assert_eq!(&bytes[2..6], &1i32.to_be_bytes());
    assert_eq!(&bytes[6..10], &1i32.to_be_bytes());
    assert_eq!(&bytes[10..18], &9i64.to_be_bytes());
    let mut parser = RapidBinParser::new();
    assert_eq!(parser.parse(&bytes).unwrap(), trace);
}

#[test]
fn round_trip_cuts_thread_ids_to_ten_bits() {
    let trace = vec![Event::new(1024 + 5, Operation::Read { memory: 3 }, 9)];
    let mut encoder = RapidBinEncoder::new();
    let bytes = encoder.encode(&trace).unwrap();
    let mut parser = RapidBinParser::new();
    assert_eq!(
        parser.parse(&bytes).unwrap(),
        vec![Event::new(5, Operation::Read { memory: 3 }, 9)]
    );
}

#[test]
fn truncated_payload_fails_with_premature_eof() {
    let mut bytes = Vec::new();
    bytes.extend(2_i16.to_be_bytes());
    bytes.extend(0_i32.to_be_bytes());
    bytes.extend(0_i32.to_be_bytes());
    bytes.extend(2_i64.to_be_bytes());
    bytes.extend(((1i64 << 14) | (4 << 10)).to_be_bytes());
    let mut parser = RapidBinParser::new();
    let mut iter = parser.iter(&bytes).unwrap();
    assert_eq!(
        iter.next().unwrap().unwrap(),
        Event::new(0, Operation::Fork { tid: 1 }, 0)
    );
    assert_eq!(iter.next(), Some(Err(TraceError::UnexpectedEof)));
    assert_eq!(parser.parse(&bytes), Err(TraceError::UnexpectedEof));
}

#[test]
fn lock_count_overflow_fails_at_once() {
    let mut bytes = Vec::new();
    bytes.extend(1_i16.to_be_bytes());
    bytes.extend(0_i32.to_be_bytes());
    bytes.extend(0_i32.to_be_bytes());
    bytes.extend(1_i64.to_be_bytes());
    bytes.extend(0_i64.to_be_bytes());
    let mut parser = RapidBinParser::new();
    let mut iter = parser.iter(&bytes).unwrap();
    assert_eq!(iter.next(), Some(Err(TraceError::CountMismatch)));
}

#[test]
fn unknown_tag_fails_immediately() {
    let mut bytes = Vec::new();
    bytes.extend(1_i16.to_be_bytes());
    bytes.extend(0_i32.to_be_bytes());
    bytes.extend(0_i32.to_be_bytes());
    bytes.extend(1_i64.to_be_bytes());
    bytes.extend((6i64 << 10).to_be_bytes());
    let mut parser = RapidBinParser::new();
    assert_eq!(parser.parse(&bytes), Err(TraceError::InvalidTag));
}

#[test]
fn short_header_fails() {
    let mut parser = RapidBinParser::new();
    assert_eq!(parser.parse(&[0u8; 17]), Err(TraceError::UnexpectedEof));
    assert!(parser.iter(&[0u8; 17]).is_err());
}

#[test]
fn trailing_partial_record_fails() {
    let mut bytes = vec![0u8; 18];
    bytes.push(1);
    let mut parser = RapidBinParser::new();
    assert_eq!(parser.parse(&bytes), Err(TraceError::UnexpectedEof));
}

#[test]
fn empty_trace_round_trips() {
    let mut encoder = RapidBinEncoder::new();
    let bytes = encoder.encode(&Vec::new()).unwrap();
    assert_eq!(bytes, vec![0u8; 18]);
    let mut parser = RapidBinParser::new();
    assert_eq!(parser.parse(&bytes).unwrap(), Vec::new());
}

#[test]
fn sign_bits_of_header_are_masked() {
    let mut bytes = Vec::new();
    bytes.extend((-32768_i16 | 1).to_be_bytes());
    bytes.extend(i32::MIN.to_be_bytes());
    bytes.extend(i32::MIN.to_be_bytes());
    bytes.extend((i64::MIN | 1).to_be_bytes());
    bytes.extend((5i64 << 10).to_be_bytes());
    let mut parser = RapidBinParser::new();
    assert_eq!(
        parser.parse(&bytes).unwrap(),
        vec![Event::new(0, Operation::Join { tid: 0 }, 0)]
    );
}
