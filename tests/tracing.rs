use rand_xoshiro::{
    rand_core::{RngCore, SeedableRng},
    Xoshiro256PlusPlus,
};
use wasmgrind::generic::{Event as GenericEvent, Operation, Parser, TraceError};
use wasmgrind::rapidbin::parser::RapidBinParser;
use wasmgrind::tracing::converter::WasmgrindTraceConverter;
use wasmgrind::tracing::metadata::{
    LocationIdentifier, LocationRecord, MemoryIdentifier, MemoryRecord, OverlapKind,
    SharedVariable, ThreadRecord, WasmgrindTraceMetadata,
};
use wasmgrind::tracing::analysis::line_sweep_algorithm;
use wasmgrind::tracing::{BinaryTraceOutput, Event, Op, Tracing};

fn example_trace() -> Tracing {
    let mut tracing = Tracing::new();
    let mut rng = Xoshiro256PlusPlus::seed_from_u64(42);
    const MAX_N_BYTES_ACCESSED: u32 = 8;

    for _ in 0..100 {
        let op = match rng.next_u32() % 7 {
            0 => Op::Aquire {
                lock: rng.next_u32(),
            },
            1 => Op::Release {
                lock: rng.next_u32(),
            },
            2 => Op::Request {
                lock: rng.next_u32(),
            },
            3 => Op::Fork {
                tid: rng.next_u32(),
            },
            4 => Op::Join {
                tid: rng.next_u32(),
            },
            5 => Op::Read {
                addr: rng.next_u32(),
                n: rng.next_u32() % (MAX_N_BYTES_ACCESSED + 1),
            },
            6 => Op::Write {
                addr: rng.next_u32(),
                n: rng.next_u32() % (MAX_N_BYTES_ACCESSED + 1),
            },
            _ => unreachable!(),
        };
        tracing.add_event(rng.next_u32(), op, (rng.next_u32(), rng.next_u32()));
    }

    tracing
}

#[test]
fn wasmgrind_trace_roundtrip() {
    let tracing = example_trace();
    let output = tracing.generate_binary_trace().unwrap();
    let (trace, metadata) = (output.trace, output.metadata);

    let mut parser = RapidBinParser::new();
    let parsed = parser.parse(trace.as_slice()).unwrap();
    let converter = metadata.into_converter();

    let mut back = Vec::new();
    for event in parsed {
        back.push(converter.convert_event(&event).unwrap());
    }

    assert_eq!(*tracing.events(), back);
}

#[test]
fn trace_roundtrip_through_try_from() {
    let tracing = example_trace();
    let output = tracing.generate_binary_trace().unwrap();
    let again = Tracing::try_from(output).unwrap();
    assert_eq!(again.events(), tracing.events());
}

fn scenario_a() -> Tracing {
    let mut tracing = Tracing::new();
    tracing.add_event(0, Op::Fork { tid: 1 }, (0, 0));
    tracing.add_event(0, Op::Fork { tid: 2 }, (0, 0));
    tracing.add_event(2, Op::Fork { tid: 3 }, (0, 2));
    tracing.add_event(0, Op::Request { lock: 0 }, (0, 5));
    tracing.add_event(0, Op::Aquire { lock: 0 }, (0, 5));
    tracing.add_event(0, Op::Read { addr: 200, n: 8 }, (0, 6));
    tracing.add_event(0, Op::Write { addr: 200, n: 8 }, (0, 13));
    tracing.add_event(0, Op::Release { lock: 0 }, (0, 5));
    tracing.add_event(0, Op::Join { tid: 1 }, (0, 101));
    tracing
}

#[test]
fn fork_read_write_join_scenario() {
    let output = scenario_a().generate_binary_trace().unwrap();
    assert_eq!(&output.trace[0..18], &[0, 4, 0, 0, 0, 1, 0, 0, 0, 1, 0, 0, 0, 0, 0, 0, 0, 9]);
    let mut parser = RapidBinParser::new();
    let events = parser.parse(&output.trace).unwrap();
    let expected = vec![
        GenericEvent::new(0, Operation::Fork { tid: 1 }, 0),
        GenericEvent::new(0, Operation::Fork { tid: 2 }, 0),
        GenericEvent::new(2, Operation::Fork { tid: 3 }, 1),
        GenericEvent::new(0, Operation::Request { lock: 0 }, 2),
        GenericEvent::new(0, Operation::Aquire { lock: 0 }, 2),
        GenericEvent::new(0, Operation::Read { memory: 0 }, 3),
        GenericEvent::new(0, Operation::Write { memory: 0 }, 4),
        GenericEvent::new(0, Operation::Release { lock: 0 }, 2),
        GenericEvent::new(0, Operation::Join { tid: 1 }, 5),
    ];
    assert_eq!(events, expected);
    let md = output.metadata;
    let threads: Vec<(u32, u64)> = md.thread_records.iter().map(|r| r.into_fields()).collect();
    assert_eq!(threads, vec![(0, 0), (1, 1), (2, 2), (3, 3)]);
    assert_eq!(md.memory_records.len(), 1);
    assert_eq!(md.memory_records[0].into_fields(), ((200, 8), 0));
    assert_eq!(md.lock_records.len(), 1);
    assert_eq!(md.location_records[5].into_fields(), ((0, 101), 5));
    assert!(md.shared_variables.is_empty());
}

#[test]
fn converter_assigns_ids_in_first_seen_order() {
    let mut converter = WasmgrindTraceConverter::new();
    let e1 = converter.convert_event(&Event { t: 70, op: Op::Fork { tid: 9 }, loc: (1, 1) });
    let e2 = converter.convert_event(&Event { t: 9, op: Op::Read { addr: 4, n: 4 }, loc: (1, 2) });
    let e3 = converter.convert_event(&Event { t: 70, op: Op::Read { addr: 4, n: 4 }, loc: (1, 1) });
    let e4 = converter.convert_event(&Event { t: 5, op: Op::Write { addr: 4, n: 2 }, loc: (3, 3) });
    assert_eq!(e1, GenericEvent::new(0, Operation::Fork { tid: 1 }, 0));
    assert_eq!(e2, GenericEvent::new(1, Operation::Read { memory: 0 }, 1));
    assert_eq!(e3, GenericEvent::new(0, Operation::Read { memory: 0 }, 0));
    assert_eq!(e4, GenericEvent::new(2, Operation::Write { memory: 1 }, 2));
    let md = converter.generate_metadata();
    assert_eq!(md.shared_variables, vec![SharedVariable { trace_id: 0, threads: vec![1, 0] }]);
}

#[test]
fn missing_id_is_reported() {
    let mut md = WasmgrindTraceMetadata::new();
    md.thread_records.push(ThreadRecord { wasm_id: 3, trace_id: 0 });
    md.location_records.push(LocationRecord {
        wasm_id: LocationIdentifier { fidx: 1, iidx: 2 },
        trace_id: 0,
    });
    let converter = md.into_converter();
    assert_eq!(
        converter.convert_event(&GenericEvent::new(0, Operation::Fork { tid: 0 }, 0)),
        Ok(Event { t: 3, op: Op::Fork { tid: 3 }, loc: (1, 2) })
    );
    assert_eq!(
        converter.convert_event(&GenericEvent::new(0, Operation::Aquire { lock: 0 }, 0)),
        Err(TraceError::MissingId)
    );
    assert_eq!(
        converter.convert_event(&GenericEvent::new(1, Operation::Fork { tid: 0 }, 0)),
        Err(TraceError::MissingId)
    );
}

fn record(addr: u32, width: u32, id: u64) -> MemoryRecord {
    MemoryRecord {
        wasm_id: MemoryIdentifier {
            address: addr,
            access_width: width,
        },
        trace_id: id,
    }
}

#[test]
fn sweep_finds_exactly_the_overlapping_pairs() {
    let records = vec![record(100, 8, 0), record(104, 8, 1), record(108, 4, 2), record(200, 4, 3)];
    let mut pairs = line_sweep_algorithm(&records);
    pairs.sort();
    pairs.dedup();
    assert_eq!(pairs, vec![(0, 1), (1, 2)]);
}

#[test]
fn sweep_ignores_abutting_and_empty_ranges() {
    let records = vec![record(0, 4, 0), record(4, 4, 1), record(2, 0, 2)];
    assert!(line_sweep_algorithm(&records).is_empty());
}

#[test]
fn sweep_pairs_ranges_with_the_same_start() {
    let records = vec![record(8, 2, 0), record(8, 4, 1)];
    let pairs = line_sweep_algorithm(&records);
    assert!(pairs.contains(&(0, 1)) || pairs.contains(&(1, 0)));
}

#[test]
fn overlap_analysis_scenario() {
    let mut md = WasmgrindTraceMetadata::new();
    md.memory_records = vec![record(100, 8, 1), record(104, 8, 2), record(200, 4, 3)];
    md.shared_variables = vec![
        SharedVariable { trace_id: 1, threads: vec![1, 2] },
        SharedVariable { trace_id: 2, threads: vec![2, 3] },
        SharedVariable { trace_id: 3, threads: vec![1, 4] },
    ];
    let overlaps = md.find_overlaps();
    assert_eq!(overlaps.len(), 1);
    let o = &overlaps[0];
    assert_eq!(o.access_x, record(100, 8, 1));
    assert_eq!(o.access_y, record(104, 8, 2));
    assert!(o.is_intersection());
    assert_eq!(o.kind(), OverlapKind::Intersection);
    assert!(o.contains(2) && !o.contains(3));
}

#[test]
fn overlaps_need_a_common_thread() {
    let mut md = WasmgrindTraceMetadata::new();
    md.memory_records = vec![record(0, 8, 0), record(4, 2, 1)];
    md.shared_variables = vec![
        SharedVariable { trace_id: 0, threads: vec![1, 2] },
        SharedVariable { trace_id: 1, threads: vec![3, 4] },
    ];
    assert!(md.find_overlaps().is_empty());
    md.shared_variables[1].threads = vec![2, 5];
    let overlaps = md.find_overlaps();
    assert_eq!(overlaps.len(), 1);
    assert_eq!(overlaps[0].kind(), OverlapKind::FirstContainsSecond);
}

#[test]
fn overlap_ratio_counts_memory_events() {
    let mut tracing = Tracing::new();
    tracing.add_event(1, Op::Write { addr: 0, n: 8 }, (0, 0));
    tracing.add_event(2, Op::Write { addr: 0, n: 8 }, (0, 1));
    tracing.add_event(1, Op::Read { addr: 4, n: 4 }, (0, 2));
    tracing.add_event(2, Op::Read { addr: 4, n: 4 }, (0, 3));
    tracing.add_event(1, Op::Read { addr: 64, n: 4 }, (0, 4));
    tracing.add_event(1, Op::Aquire { lock: 1 }, (0, 5));
    let output: BinaryTraceOutput = tracing.generate_binary_trace().unwrap();
    let overlaps = output.find_overlaps().unwrap();
    assert_eq!(overlaps.get_overlaps().len(), 1);
    assert_eq!(overlaps.get_overlap_ratio(), (4, 5));
}

#[test]
fn try_from_reports_missing_ids() {
    let output = scenario_a().generate_binary_trace().unwrap();
    let stripped = BinaryTraceOutput { trace: output.trace, metadata: WasmgrindTraceMetadata::new() };
    assert_eq!(Tracing::try_from(stripped).err(), Some(TraceError::MissingId));
}

#[test]
fn find_overlaps_fails_on_a_bad_trace() {
    let output = BinaryTraceOutput { trace: vec![0; 5], metadata: WasmgrindTraceMetadata::new() };
    assert_eq!(output.find_overlaps().err(), Some(TraceError::UnexpectedEof));
}

#[test]
fn generate_binary_trace_leaves_the_log() {
    let tracing = scenario_a();
    let first = tracing.generate_binary_trace().unwrap();
    let second = tracing.generate_binary_trace().unwrap();
    assert_eq!(first.trace, second.trace);
    assert_eq!(first.metadata, second.metadata);
    assert_eq!(tracing.events().len(), 9);
}

#[test]
fn too_many_distinct_locations_fail_to_encode() {
    let mut tracing = Tracing::new();
    for i in 0..0x8001u32 {
        tracing.add_event(0, Op::Aquire { lock: 0 }, (0, i));
    }
    assert_eq!(tracing.generate_binary_trace().err(), Some(TraceError::OutOfRange));
}

#[test]
fn overlap_descriptions() {
    let mut md = WasmgrindTraceMetadata::new();
    md.memory_records = vec![record(100, 8, 1), record(104, 8, 2), record(100, 2, 3)];
    md.shared_variables = vec![
        SharedVariable { trace_id: 1, threads: vec![1, 2] },
        SharedVariable { trace_id: 2, threads: vec![2, 3] },
        SharedVariable { trace_id: 3, threads: vec![2] },
    ];
    let overlaps = md.find_overlaps();
    let texts: Vec<String> = overlaps.iter().map(|o| o.description()).collect();
    assert!(texts.contains(&String::from(
        "Memory access 1 (threads: 1, 2) overlaps with memory access 2 (threads: 2, 3) - \
         Access 1 at 100 of length 8 intersects with access 2 at 104 of length 8"
    )));
    assert!(texts.iter().any(|t| t.ends_with("Access 1 at 100 of length 8 contains access 3 at 100 of length 2")));
    let same = wasmgrind::tracing::metadata::Overlap {
        threads_x: vec![4],
        access_x: record(0, 4, 7),
        threads_y: vec![4],
        access_y: record(0, 4, 8),
    };
    assert_eq!(
        same.description(),
        "Memory access 7 (threads: 4) overlaps with memory access 8 (threads: 4) - Equal memory accesses obviously overlap."
    );
}

#[test]
fn sweep_returns_each_pair_once_in_start_order() {
    let records = vec![record(10, 8, 0), record(4, 10, 1), record(12, 1, 2), record(4, 2, 3)];
    let pairs = line_sweep_algorithm(&records);
    let mut unordered: Vec<(usize, usize)> =
        pairs.iter().map(|&(a, b)| if a < b { (a, b) } else { (b, a) }).collect();
    unordered.sort();
    let before = unordered.len();
    unordered.dedup();
    assert_eq!(before, unordered.len());
    assert_eq!(unordered, vec![(0, 1), (0, 2), (1, 2), (1, 3)]);
    for (a, b) in pairs {
        assert!(records[a].wasm_id.address <= records[b].wasm_id.address);
    }
}
