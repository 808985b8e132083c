use wasmgrind::generic::{Operation, TraceError};

#[test]
fn fail_on_invalid_operation_id() {
    let valid_decor = 42;
    let valid_ids = [0, 1, 2, 3, 4, 5, 8];

    for id in (-100..100).filter(|id| !valid_ids.contains(id)) {
        assert_eq!(
            Operation::try_from_id(id, valid_decor).unwrap_err(),
            TraceError::InvalidTag
        );
    }
}

#[test]
fn validate_correct_operation_ids() {
    let valid_decor = 42;
    let valid_ids = [0, 1, 2, 3, 4, 5, 8];
    let valid_ops = [
        Operation::Aquire { lock: valid_decor },
        Operation::Release { lock: valid_decor },
        Operation::Read {
            memory: valid_decor,
        },
        Operation::Write {
            memory: valid_decor,
        },
        Operation::Fork { tid: valid_decor },
        Operation::Join { tid: valid_decor },
        Operation::Request { lock: valid_decor },
    ];

    for (idx, id) in valid_ids.into_iter().enumerate() {
        let op = Operation::try_from_id(id, valid_decor).unwrap();
        assert_eq!(op, valid_ops[idx])
    }
}

#[test]
fn operation_ids_round_trip() {
    let ops = [
        Operation::Aquire { lock: 7 },
        Operation::Release { lock: 7 },
        Operation::Read { memory: 7 },
        Operation::Write { memory: 7 },
        Operation::Fork { tid: 7 },
        Operation::Join { tid: 7 },
        Operation::Request { lock: 7 },
    ];
    let ids = [0u8, 1, 2, 3, 4, 5, 8];
    for (op, id) in ops.iter().zip(ids) {
        assert_eq!(op.id(), id);
        assert_eq!(op.decor(), 7);
        assert_eq!(Operation::try_from_id(i64::from(id), 7).unwrap(), *op);
    }
}

#[test]
fn op_tags_six_seven_and_above_eight_are_rejected() {
    for id in [6i64, 7, 9, 10, 11, 12, 13, 14, 15] {
        assert_eq!(Operation::try_from_id(id, 0), Err(TraceError::InvalidTag));
    }
}
