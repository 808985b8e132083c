use vstd::prelude::*;

verus! {

/// The generic (format-independent) representation of an operation.
#[derive(Debug, PartialEq, Eq, Structural, Clone, Copy)]
pub enum Operation {
    Aquire { lock: u64 },
    Release { lock: u64 },
    Read { memory: u64 },
    Write { memory: u64 },
    Fork { tid: u64 },
    Join { tid: u64 },
    Request { lock: u64 },
}

impl Operation {
    /// The numeric tag of each kind of operation.
    pub open spec fn spec_id(self) -> u8 {
        match self {
            Operation::Aquire { .. } => 0,
            Operation::Release { .. } => 1,
            Operation::Read { .. } => 2,
            Operation::Write { .. } => 3,
            Operation::Fork { .. } => 4,
            Operation::Join { .. } => 5,
            Operation::Request { .. } => 8,
        }
    }

    /// The payload of the operation: a lock, a memory variable or a thread.
    pub open spec fn spec_decor(self) -> u64 {
        match self {
            Operation::Aquire { lock } => lock,
            Operation::Release { lock } => lock,
            Operation::Read { memory } => memory,
            Operation::Write { memory } => memory,
            Operation::Fork { tid } => tid,
            Operation::Join { tid } => tid,
            Operation::Request { lock } => lock,
        }
    }

    /// Whether `id` is the tag of some operation.
    pub open spec fn is_valid_id(id: int) -> bool {
        id == 0 || id == 1 || id == 2 || id == 3 || id == 4 || id == 5 || id == 8
    }

    /// The operation with tag `id` and payload `decor`, for a valid tag.
    pub open spec fn spec_from_id(id: int, decor: u64) -> Operation {
        if id == 0 {
            Operation::Aquire { lock: decor }
        } else if id == 1 {
            Operation::Release { lock: decor }
        } else if id == 2 {
            Operation::Read { memory: decor }
        } else if id == 3 {
            Operation::Write { memory: decor }
        } else if id == 4 {
            Operation::Fork { tid: decor }
        } else if id == 5 {
            Operation::Join { tid: decor }
        } else {
            Operation::Request { lock: decor }
        }
    }

    /// Returns an integer that uniquely identifies the type of the operation.
    pub fn id(&self) -> (r: u8)
        ensures
            r == self.spec_id(),
    {
        match self {
            Operation::Aquire { .. } => 0,
            Operation::Release { .. } => 1,
            Operation::Read { .. } => 2,
            Operation::Write { .. } => 3,
            Operation::Fork { .. } => 4,
            Operation::Join { .. } => 5,
            Operation::Request { .. } => 8,
        }
    }

    /// Returns the payload of the operation.
    pub fn decor(&self) -> (r: u64)
        ensures
            r == self.spec_decor(),
    {
        match self {
            Operation::Aquire { lock } => *lock,
            Operation::Release { lock } => *lock,
            Operation::Read { memory } => *memory,
            Operation::Write { memory } => *memory,
            Operation::Fork { tid } => *tid,
            Operation::Join { tid } => *tid,
            Operation::Request { lock } => *lock,
        }
    }

    /// Builds the operation with tag `id` and payload `decor`; unknown tags are rejected.
    pub fn try_from_id(id: i64, decor: u64) -> (r: Result<Operation, TraceError>)
        ensures
            Operation::is_valid_id(id as int) <==> r is Ok,
            r is Ok ==> r->Ok_0 == Operation::spec_from_id(id as int, decor),
            r is Ok ==> r->Ok_0.spec_id() == id && r->Ok_0.spec_decor() == decor,
            r is Err ==> r->Err_0 == TraceError::InvalidTag,
    {
        match id {
            0 => Ok(Operation::Aquire { lock: decor }),
            1 => Ok(Operation::Release { lock: decor }),
            2 => Ok(Operation::Read { memory: decor }),
            3 => Ok(Operation::Write { memory: decor }),
            4 => Ok(Operation::Fork { tid: decor }),
            5 => Ok(Operation::Join { tid: decor }),
            8 => Ok(Operation::Request { lock: decor }),
            _ => Err(TraceError::InvalidTag),
        }
    }
}

/// The generic (format-independent) representation of an event.
#[derive(Debug, PartialEq, Eq, Structural, Clone, Copy)]
pub struct Event {
    pub thread_id: u64,
    pub operation: Operation,
    pub location: u64,
}

impl Event {
    pub fn new(thread_id: u64, operation: Operation, location: u64) -> (r: Event)
        ensures
            r == (Event { thread_id, operation, location }),
    {
        Event { thread_id, operation, location }
    }

    pub fn into_fields(self) -> (r: (u64, Operation, u64))
        ensures
            r == (self.thread_id, self.operation, self.location),
    {
        (self.thread_id, self.operation, self.location)
    }

    pub fn get_fields(&self) -> (r: (&u64, &Operation, &u64))
        ensures
            *r.0 == self.thread_id,
            *r.1 == self.operation,
            *r.2 == self.location,
    {
        (&self.thread_id, &self.operation, &self.location)
    }
}

/// What can go wrong while encoding, decoding or converting a trace.
#[derive(Debug, PartialEq, Eq, Structural, Clone, Copy)]
pub enum TraceError {
    /// A field or a count does not fit into its slot of the binary format.
    OutOfRange,
    /// A packed record carries an operation tag that no operation has.
    InvalidTag,
    /// The ids or events found disagree with the counts in the header.
    CountMismatch,
    /// The input ended before a header, a record or the declared events were complete.
    UnexpectedEof,
    /// An id of a generic event has no entry in the trace metadata.
    MissingId,
}

/// Common trait for parsers of execution traces.
pub trait Parser {
    /// The events that `input` decodes to, or why it does not decode.
    spec fn decoded(input: Seq<u8>) -> Result<Seq<Event>, TraceError>;

    /// Parses an execution trace of the parser's format.
    fn parse(&mut self, input: &[u8]) -> (r: Result<Vec<Event>, TraceError>)
        ensures
            r is Ok <==> Self::decoded(input@) is Ok,
            r is Ok ==> r->Ok_0@ == Self::decoded(input@)->Ok_0,
            r is Ok ==> r->Ok_0@.len() * 8 <= input@.len(),
            r is Err ==> r->Err_0 == Self::decoded(input@)->Err_0,
    ;

    /// Returns a string identifying the execution trace format of this parser.
    fn format(&self) -> &'static str;
}

/// Common trait for encoders of execution traces.
pub trait Encoder {
    /// The bytes that `input` encodes to, or `None` where it cannot be encoded.
    spec fn encoded(input: Seq<Event>) -> Option<Seq<u8>>;

    /// Encodes an execution trace into the encoder's format.
    fn encode(&mut self, input: &Vec<Event>) -> (r: Result<Vec<u8>, TraceError>)
        requires
            input@.len() <= 0x1FFF_FFFF_FFFF_FFFF,
        ensures
            r is Ok <==> Self::encoded(input@) is Some,
            r is Ok ==> r->Ok_0@ == Self::encoded(input@)->Some_0,
            r is Err ==> r->Err_0 == TraceError::OutOfRange,
    ;

    /// Returns a string identifying the execution trace format of this encoder.
    fn format(&self) -> &'static str;
}

} // verus!
