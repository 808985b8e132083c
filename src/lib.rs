//! Trace model, trace codecs and thread bookkeeping for a runtime that executes
//! multithreaded WebAssembly modules and records their execution traces.

/// Error codes shared between the host runtime and guest modules.
pub mod errno;
/// Format-independent representation of execution traces.
pub mod generic;
/// The RapidBin binary trace format.
pub mod rapidbin;
/// A line-oriented text format for execution traces.
pub mod std_format;
/// Native execution traces, their ids and their metadata.
pub mod tracing;
/// Bookkeeping of thread ids and of the handles joining threads wait on.
pub mod tmgmt;
/// Decisions of the host functions that guests call to create and join threads.
pub mod threadlink;
/// Decisions of the transform that prepares a module for threads.
pub mod threadify;

use vstd::prelude::*;
use crate::generic::{Encoder, Parser, TraceError};

verus! {

/// Converts an execution trace from one format into another.
pub fn convert<P: Parser, E: Encoder>(parser: &mut P, encoder: &mut E, input: &[u8]) -> (r: Result<
    Vec<u8>,
    TraceError,
>)
    ensures
        r is Ok <==> P::decoded(input@) is Ok && E::encoded(P::decoded(input@)->Ok_0) is Some,
        r is Ok ==> r->Ok_0@ == E::encoded(P::decoded(input@)->Ok_0)->Some_0,
        P::decoded(input@) is Err ==> r == Err::<Vec<u8>, TraceError>(P::decoded(input@)->Err_0),
        P::decoded(input@) is Ok && E::encoded(P::decoded(input@)->Ok_0) is None ==> r == Err::<
            Vec<u8>,
            TraceError,
        >(TraceError::OutOfRange),
{
    let events = match parser.parse(input) {
        Ok(ev) => ev,
        Err(e) => return Err(e),
    };
    let n = input.len();
    assert(events@.len() * 8 <= n);
    encoder.encode(&events)
}

} // verus!
