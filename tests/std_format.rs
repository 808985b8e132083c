use wasmgrind::generic::{Encoder, Event, Operation, Parser};
use wasmgrind::std_format::StdFormatEncoder;

#[test]
fn std_format_encode_valid_trace() {
    let generic_trace: Vec<Event> = vec![
        Event::new(0, Operation::Fork { tid: 1 }, 42),
        Event::new(0, Operation::Fork { tid: 2 }, 42),
        Event::new(2, Operation::Fork { tid: 3 }, 123),
        Event::new(0, Operation::Request { lock: 0 }, 362),
        Event::new(0, Operation::Aquire { lock: 0 }, 362),
        Event::new(0, Operation::Read { memory: 200 }, 436),
        Event::new(0, Operation::Write { memory: 200 }, 923),
        Event::new(0, Operation::Release { lock: 0 }, 362),
        Event::new(0, Operation::Join { tid: 1 }, 7382),
    ];

    let mut encoder = StdFormatEncoder::new();
    let encoded = encoder.encode(&generic_trace).unwrap();

    let encoded_trace = String::from_utf8(encoded).unwrap();
    let std_trace: String = [
        "T0|fork(T1)|42",
        "T0|fork(T2)|42",
        "T2|fork(T3)|123",
        "T0|req(L0)|362",
        "T0|acq(L0)|362",
        "T0|r(V200)|436",
        "T0|w(V200)|923",
        "T0|rel(L0)|362",
        "T0|join(T1)|7382\n",
    ]
    .join("\n");

    assert_eq!(std_trace, encoded_trace);
}

#[test]
fn std_format_prints_large_numbers_in_decimal() {
    let trace = vec![Event::new(u64::MAX, Operation::Write { memory: 10 }, 100)];
    let mut encoder = StdFormatEncoder::new();
    let text = String::from_utf8(encoder.encode(&trace).unwrap()).unwrap();
    assert_eq!(text, "T18446744073709551615|w(V10)|100\n");
    assert_eq!(encoder.format(), "STD");
}

#[test]
fn convert_rapidbin_to_std() {
    let trace = vec![
        Event::new(1, Operation::Fork { tid: 2 }, 3),
        Event::new(2, Operation::Release { lock: 4 }, 5),
    ];
    let mut rb = wasmgrind::rapidbin::encoder::RapidBinEncoder::new();
    let bytes = rb.encode(&trace).unwrap();
    let mut parser = wasmgrind::rapidbin::parser::RapidBinParser::new();
    let mut encoder = StdFormatEncoder::new();
    let out = wasmgrind::convert(&mut parser, &mut encoder, &bytes).unwrap();
    assert_eq!(String::from_utf8(out).unwrap(), "T1|fork(T2)|3\nT2|rel(L4)|5\n");
}

#[test]
fn defaults_start_empty() {
    use_defaults();
}

fn use_defaults() {
    let mut encoder = wasmgrind::rapidbin::encoder::RapidBinEncoder::default();
    assert_eq!(encoder.encode(&Vec::new()).unwrap(), vec![0u8; 18]);
    let mut parser = wasmgrind::rapidbin::parser::RapidBinParser::default();
    assert!(parser.parse(&[0u8; 18]).unwrap().is_empty());
    let mut text = StdFormatEncoder::default();
    assert!(text.encode(&Vec::new()).unwrap().is_empty());
    assert!(wasmgrind::tracing::Tracing::default().events().is_empty());
    let md = wasmgrind::tracing::metadata::WasmgrindTraceMetadata::default();
    assert!(md.thread_records.is_empty() && md.shared_variables.is_empty());
}
