//! The decisions of the threading transform, on plain descriptions of a
//! module's memories and globals: which memory and globals it uses, and where
//! the static data it injects lies.

use vstd::prelude::*;

verus! {

/// Size of a WebAssembly page.
pub const PAGE_SIZE: u32 = 65536;

/// Stack size of each spawned thread (2 MiB).
pub const DEFAULT_THREAD_STACK_SIZE: u32 = 0x20_0000;

/// Why a module cannot be prepared for threads.
#[derive(Debug, PartialEq, Eq, Structural, Clone, Copy)]
pub enum ThreadifyError {
    /// The module defines no memory.
    NoMemory,
    /// The module defines more than one memory.
    MultipleMemories,
    /// The memory is not marked shared.
    NotShared,
    /// The memory is 64-bit addressed.
    Memory64,
    /// A memory limit does not fit 32 bits.
    LimitOutOfRange,
    /// The memory has no maximum size.
    NoMaximum,
    /// The reserved static data would not fit the 32-bit address space.
    HeapBaseOutOfRange,
    /// No global `__heap_base` is exported.
    HeapBaseMissing,
    /// `__heap_base` is not an `i32`.
    HeapBaseNotI32,
    /// `__heap_base` is mutable.
    HeapBaseMutable,
    /// `__heap_base` is not defined locally by an `i32` constant.
    HeapBaseNotConstant,
    /// `__wasm_init_tls` is not exported.
    InitTlsMissing,
    /// `__wasm_init_tls` is not a function.
    InitTlsNotFunction,
    /// `__tls_size` or `__tls_align` is not exported.
    TlsConstantMissing,
    /// `__tls_size` or `__tls_align` is not a global.
    TlsConstantNotGlobal,
    /// `__tls_size` or `__tls_align` is not a locally defined `i32` constant.
    TlsConstantNotConstant,
    /// There is not exactly one exported `i32` global `__tls_base`.
    NoTlsBase,
    /// No global can be the stack pointer.
    NoStackPointer,
    /// `__wasmgrind_malloc` is not an exported function.
    NoMalloc,
    /// `__wasmgrind_free` is not an exported function.
    NoFree,
}

/// What the transform needs to know of a memory.
#[derive(Debug, PartialEq, Eq, Structural, Clone, Copy)]
pub struct MemoryInfo {
    pub shared: bool,
    pub memory64: bool,
    /// Initial size in pages.
    pub initial: u64,
    /// Maximum size in pages, if any.
    pub maximum: Option<u64>,
}

/// The limits `(min, max)` in pages of the one shared 32-bit memory, or why there is none.
pub open spec fn memory_limits(ms: Seq<MemoryInfo>) -> Result<(u32, u32), ThreadifyError> {
    if ms.len() == 0 {
        Err(ThreadifyError::NoMemory)
    } else if ms.len() > 1 {
        Err(ThreadifyError::MultipleMemories)
    } else {
        let m = ms[0];
        if !m.shared {
            Err(ThreadifyError::NotShared)
        } else if m.memory64 {
            Err(ThreadifyError::Memory64)
        } else if m.initial > u32::MAX || (m.maximum is Some && m.maximum->Some_0 > u32::MAX) {
            Err(ThreadifyError::LimitOutOfRange)
        } else if m.maximum is None {
            Err(ThreadifyError::NoMaximum)
        } else {
            Ok((m.initial as u32, m.maximum->Some_0 as u32))
        }
    }
}

/// The limits `(min, max)` in pages of the one shared 32-bit memory of a module.
pub fn get_shared_memory_size(memories: &Vec<MemoryInfo>) -> (r: Result<(u32, u32), ThreadifyError>)
    ensures
        r == memory_limits(memories@),
{
    if memories.len() == 0 {
        return Err(ThreadifyError::NoMemory);
    }
    if memories.len() > 1 {
        return Err(ThreadifyError::MultipleMemories);
    }
    let m = memories[0];
    if !m.shared {
        return Err(ThreadifyError::NotShared);
    }
    if m.memory64 {
        return Err(ThreadifyError::Memory64);
    }
    if m.initial > u32::MAX as u64 {
        return Err(ThreadifyError::LimitOutOfRange);
    }
    match m.maximum {
        Some(max) => {
            if max > u32::MAX as u64 {
                Err(ThreadifyError::LimitOutOfRange)
            } else {
                Ok((m.initial as u32, max as u32))
            }
        },
        None => Err(ThreadifyError::NoMaximum),
    }
}

/// Where the injected static data lies, and the memory limits after reserving it.
#[derive(Debug, PartialEq, Eq, Structural, Clone, Copy)]
pub struct StaticData {
    /// The heap base before the transform: the start of the reserved page.
    pub base: u32,
    /// The thread counter: the first 4-byte-aligned address of the page.
    pub thread_counter: u32,
    /// The lock of the scratch stack, the word after the counter.
    pub temp_lock: u32,
    /// The top of the scratch stack: the end of the page, aligned down to 4 bytes.
    pub temp_stack: u32,
    /// The heap base after the transform.
    pub new_heap_base: i32,
    /// The initial memory size in pages after the transform.
    pub initial: u64,
    /// The maximum memory size in pages after the transform.
    pub maximum: Option<u64>,
}

/// The first multiple of four at or above `x`.
pub open spec fn align_up4(x: int) -> int {
    ((x + 3) / 4) * 4
}

/// Whether `d` is the static data reserved at `heap_base` in a memory of the given limits.
pub open spec fn static_layout(d: StaticData, heap_base: i32, initial: u64, maximum: Option<u64>) -> bool {
    &&& d.base as int == heap_base as int
    &&& d.thread_counter as int == align_up4(heap_base as int)
    &&& d.temp_lock as int == d.thread_counter as int + 4
    &&& d.temp_stack as int == ((heap_base as int + PAGE_SIZE as int) / 4) * 4
    &&& d.new_heap_base as int == heap_base as int + PAGE_SIZE as int
    &&& d.initial == initial + 1
    &&& d.maximum == match maximum {
        Some(m) => Some(if m >= initial + 1 { m } else { (initial + 1) as u64 }),
        None => None::<u64>,
    }
}

/// Whether the heap base does not leave room for the reserved page.
pub open spec fn heap_base_out_of_range(heap_base: i32) -> bool {
    heap_base < 0 || heap_base as int + PAGE_SIZE as int > i32::MAX as int
}

/// Reserves one page at the heap base for the thread counter, the scratch-stack
/// lock and the scratch stack, and grows the memory by that page.
///
/// Fails with `HeapBaseOutOfRange` where the heap base is negative or the page
/// would end beyond `i32::MAX`.
pub fn allocate_static_data(heap_base: i32, initial: u64, maximum: Option<u64>) -> (r: Result<
    StaticData,
    ThreadifyError,
>)
    requires
        initial < u64::MAX,
    ensures
        r is Err <==> heap_base_out_of_range(heap_base),
        r is Err ==> r->Err_0 == ThreadifyError::HeapBaseOutOfRange,
        r is Ok ==> static_layout(r->Ok_0, heap_base, initial, maximum),
{
    if heap_base < 0 || heap_base > 0x7FFF_FFFF - 65536 {
        return Err(ThreadifyError::HeapBaseOutOfRange);
    }
    let base = heap_base as u32;
    let thread_counter = ((base + 3) / 4) * 4;
    let end = base + PAGE_SIZE;
    let temp_stack = (end / 4) * 4;
    let new_initial = initial + 1;
    let new_maximum = match maximum {
        Some(m) => Some(if m >= new_initial { m } else { new_initial }),
        None => None,
    };
    Ok(
        StaticData {
            base,
            thread_counter,
            temp_lock: thread_counter + 4,
            temp_stack,
            new_heap_base: end as i32,
            initial: new_initial,
            maximum: new_maximum,
        },
    )
}

/// What the transform needs to know of a global.
#[derive(Debug, PartialEq, Eq, Structural, Clone, Copy)]
pub struct GlobalInfo {
    /// Whether the global is named `__stack_pointer`.
    pub named_stack_pointer: bool,
    pub is_i32: bool,
    pub mutable: bool,
    /// The initial value, where the global is defined locally by an `i32` constant.
    pub init: Option<i32>,
}

/// Whether a global can be the stack pointer: a mutable, locally defined `i32`
/// with a nonzero initial value.
pub open spec fn stack_pointer_like(g: GlobalInfo) -> bool {
    g.is_i32 && g.mutable && g.init is Some && g.init->Some_0 != 0
}

/// The positions of the globals before `n` that can be the stack pointer.
pub open spec fn candidates(gs: Seq<GlobalInfo>, n: int) -> Seq<int>
    decreases n,
{
    if n <= 0 {
        Seq::empty()
    } else if stack_pointer_like(gs[n - 1]) {
        candidates(gs, n - 1).push(n - 1)
    } else {
        candidates(gs, n - 1)
    }
}

/// The position of the first global named `__stack_pointer`, if any.
pub open spec fn first_named(gs: Seq<GlobalInfo>, n: int) -> Option<int>
    decreases n,
{
    if n <= 0 {
        None
    } else if first_named(gs, n - 1) is Some {
        first_named(gs, n - 1)
    } else if gs[n - 1].named_stack_pointer {
        Some(n - 1)
    } else {
        None
    }
}

/// The position of the stack-pointer global among `gs`, if it can be found.
pub open spec fn stack_pointer_of(gs: Seq<GlobalInfo>) -> Option<usize> {
    let n = gs.len() as int;
    let c = candidates(gs, n);
    match first_named(gs, n) {
        Some(i) => Some(i as usize),
        None => if c.len() == 1 || c.len() == 2 {
            Some(c[0] as usize)
        } else {
            None
        },
    }
}

/// The position of the stack-pointer global.
///
/// The global named `__stack_pointer` if there is one; else the only candidate,
/// or the first of exactly two; else none.
pub fn get_stack_pointer(globals: &Vec<GlobalInfo>) -> (r: Option<usize>)
    ensures
        r == stack_pointer_of(globals@),
{
    let n = globals.len();
    let mut i: usize = 0;
    while i < n
        invariant
            n == globals@.len(),
            i <= n,
            first_named(globals@, i as int) is None,
        decreases n - i,
    {
        if globals[i].named_stack_pointer {
            proof {
                lemma_first_named_stays(globals@, i as int + 1, n as int);
            }
            return Some(i);
        }
        i = i + 1;
    }
    let mut found: Vec<usize> = Vec::new();
    let mut j: usize = 0;
    while j < n
        invariant
            n == globals@.len(),
            j <= n,
            found@.len() == candidates(globals@, j as int).len(),
            forall|k: int|
                0 <= k < found@.len() ==> found@[k] as int == #[trigger] candidates(
                    globals@,
                    j as int,
                )[k],
        decreases n - j,
    {
        let g = globals[j];
        if g.is_i32 && g.mutable && g.init.is_some() && g.init.unwrap() != 0 {
            found.push(j);
        }
        proof {
            assert forall|k: int| 0 <= k < found@.len() implies found@[k] as int == #[trigger] candidates(
                globals@,
                j + 1,
            )[k] by {
                if k < candidates(globals@, j as int).len() {
                    assert(candidates(globals@, j as int)[k] == candidates(globals@, j + 1)[k]);
                }
            }
        }
        j = j + 1;
    }
    if found.len() == 1 || found.len() == 2 {
        Some(found[0])
    } else {
        None
    }
}

/// Once some position names the stack pointer, the first such position stays.
proof fn lemma_first_named_stays(gs: Seq<GlobalInfo>, m: int, n: int)
    requires
        0 < m <= n,
        first_named(gs, m) is Some,
    ensures
        first_named(gs, n) == first_named(gs, m),
    decreases n - m,
{
    if m < n {
        lemma_first_named_stays(gs, m, n - 1);
    }
}

/// The TLS base global: there must be exactly one exported `__tls_base` of type `i32`.
pub fn get_tls_base(candidates: &Vec<usize>) -> (r: Option<usize>)
    ensures
        candidates@.len() == 1 ==> r == Some(candidates@[0]),
        candidates@.len() != 1 ==> r is None,
{
    if candidates.len() == 1 {
        Some(candidates[0])
    } else {
        None
    }
}

/// The validated value of `__heap_base`: an exported, immutable `i32` global
/// defined by a constant.
pub open spec fn heap_base_value(g: Option<GlobalInfo>) -> Result<i32, ThreadifyError> {
    match g {
        None => Err(ThreadifyError::HeapBaseMissing),
        Some(g) => if !g.is_i32 {
            Err(ThreadifyError::HeapBaseNotI32)
        } else if g.mutable {
            Err(ThreadifyError::HeapBaseMutable)
        } else if g.init is None {
            Err(ThreadifyError::HeapBaseNotConstant)
        } else {
            Ok(g.init->Some_0)
        },
    }
}

/// Checks the exported global `__heap_base` (`None` where none is exported)
/// and returns its value.
pub fn check_heap_base(g: Option<GlobalInfo>) -> (r: Result<i32, ThreadifyError>)
    ensures
        r == heap_base_value(g),
        r is Ok <==> (g is Some && g->Some_0.is_i32 && !g->Some_0.mutable && g->Some_0.init is Some),
        r is Ok ==> r->Ok_0 == g->Some_0.init->Some_0,
{
    match g {
        None => Err(ThreadifyError::HeapBaseMissing),
        Some(g) => {
            if !g.is_i32 {
                Err(ThreadifyError::HeapBaseNotI32)
            } else if g.mutable {
                Err(ThreadifyError::HeapBaseMutable)
            } else {
                match g.init {
                    Some(v) => Ok(v),
                    None => Err(ThreadifyError::HeapBaseNotConstant),
                }
            }
        },
    }
}

/// The value of a synthetic constant export (`__tls_size`, `__tls_align`): `e`
/// is `None` where nothing is exported under the name, `Some(None)` where the
/// export is not a global.
pub open spec fn tls_constant_value(e: Option<Option<GlobalInfo>>) -> Result<u32, ThreadifyError> {
    match e {
        None => Err(ThreadifyError::TlsConstantMissing),
        Some(None) => Err(ThreadifyError::TlsConstantNotGlobal),
        Some(Some(g)) => match g.init {
            Some(v) => Ok(v as u32),
            None => Err(ThreadifyError::TlsConstantNotConstant),
        },
    }
}

/// Checks a synthetic constant export and returns its value.
pub fn check_tls_constant(e: Option<Option<GlobalInfo>>) -> (r: Result<u32, ThreadifyError>)
    ensures
        r == tls_constant_value(e),
{
    match e {
        None => Err(ThreadifyError::TlsConstantMissing),
        Some(None) => Err(ThreadifyError::TlsConstantNotGlobal),
        Some(Some(g)) => match g.init {
            Some(v) => Ok(v as u32),
            None => Err(ThreadifyError::TlsConstantNotConstant),
        },
    }
}

/// The globals the injected code reads and writes.
#[derive(Debug, PartialEq, Eq, Structural, Clone, Copy)]
pub enum GlobalSlot {
    StackPointer,
    /// The stack allocated for this thread (`__stack_alloc`).
    StackAlloc,
    /// The size of a thread's stack.
    StackSize,
    TlsBase,
}

/// The functions the injected code calls.
#[derive(Debug, PartialEq, Eq, Structural, Clone, Copy)]
pub enum Callee {
    /// The start function the module had before.
    PrevStart,
    /// `__wasmgrind_malloc(size, align)`.
    Malloc,
    /// `__wasmgrind_free(ptr, size, align)`.
    Free,
    /// `__wasm_init_tls(base)`.
    InitTls,
}

/// One instruction of the injected code. `If`, `Else` and `Loop` open blocks
/// that `Else` and `End` close; `BrLoop` jumps back to the start of the
/// innermost loop. Atomic accesses use 4-byte alignment at offset 0.
#[derive(Debug, PartialEq, Eq, Structural, Clone, Copy)]
pub enum Instr {
    I32Const(i32),
    I64Const(i64),
    GlobalGet(GlobalSlot),
    GlobalSet(GlobalSlot),
    LocalGet(u32),
    LocalTee(u32),
    Call(Callee),
    I32Add,
    Select,
    Drop,
    /// `i32.atomic.rmw.add`, sequentially consistent.
    AtomicAddI32,
    /// `i32.atomic.rmw.cmpxchg`.
    CmpxchgI32,
    /// `memory.atomic.wait32`.
    AtomicWaitI32,
    /// `memory.atomic.notify`.
    AtomicNotify,
    /// `i32.atomic.store`.
    AtomicStoreI32,
    If,
    Else,
    Loop,
    BrLoop,
    End,
}

/// Switch to the scratch stack and take its spinlock: compare-and-swap the
/// lock from 0 to 1, and while it was held, wait on it without timeout and retry.
pub open spec fn temp_stack_prologue(d: StaticData) -> Seq<Instr> {
    let lock = d.temp_lock as i32;
    seq![
        Instr::I32Const(d.temp_stack as i32),
        Instr::GlobalSet(GlobalSlot::StackPointer),
        Instr::Loop,
        Instr::I32Const(lock),
        Instr::I32Const(0),
        Instr::I32Const(1),
        Instr::CmpxchgI32,
        Instr::If,
        Instr::I32Const(lock),
        Instr::I32Const(1),
        Instr::I64Const(-1i64),
        Instr::AtomicWaitI32,
        Instr::Drop,
        Instr::BrLoop,
        Instr::Else,
        Instr::End,
        Instr::End,
    ]
}

/// Release the scratch-stack spinlock and wake one waiter.
pub open spec fn temp_stack_epilogue(d: StaticData) -> Seq<Instr> {
    let lock = d.temp_lock as i32;
    seq![
        Instr::I32Const(lock),
        Instr::I32Const(0),
        Instr::AtomicStoreI32,
        Instr::I32Const(lock),
        Instr::I32Const(1),
        Instr::AtomicNotify,
        Instr::Drop,
    ]
}

/// The start function: call the previous start, count this thread; a thread
/// other than the first allocates its own stack (on the scratch stack, under
/// its lock) and moves its stack pointer to the top of it; then every thread
/// allocates and initialises its thread-local storage.
pub open spec fn start_spec(d: StaticData, tls_size: u32, tls_align: u32, has_prev_start: bool) -> Seq<
    Instr,
> {
    (if has_prev_start {
        seq![Instr::Call(Callee::PrevStart)]
    } else {
        Seq::empty()
    }) + seq![
        Instr::I32Const(d.thread_counter as i32),
        Instr::I32Const(1),
        Instr::AtomicAddI32,
        Instr::If,
    ] + temp_stack_prologue(d) + seq![
        Instr::GlobalGet(GlobalSlot::StackSize),
        Instr::I32Const(16),
        Instr::Call(Callee::Malloc),
        Instr::LocalTee(0),
    ] + temp_stack_epilogue(d) + seq![
        Instr::GlobalSet(GlobalSlot::StackAlloc),
        Instr::GlobalGet(GlobalSlot::StackAlloc),
        Instr::GlobalGet(GlobalSlot::StackSize),
        Instr::I32Add,
        Instr::GlobalSet(GlobalSlot::StackPointer),
        Instr::Else,
        Instr::End,
        Instr::I32Const(tls_size as i32),
        Instr::I32Const(tls_align as i32),
        Instr::Call(Callee::Malloc),
        Instr::GlobalSet(GlobalSlot::TlsBase),
        Instr::GlobalGet(GlobalSlot::TlsBase),
        Instr::Call(Callee::InitTls),
    ]
}

/// The destroy export `(tls_base, stack_alloc, stack_size)`: free the given
/// TLS block, or with 0 the caller's own and then poison `__tls_base` with
/// `i32::MIN`; free the given stack (size 0 meaning the default), or with 0 the
/// caller's own on the scratch stack under its lock and then zero `__stack_alloc`.
pub open spec fn destroy_spec(d: StaticData, tls_size: u32, tls_align: u32) -> Seq<Instr> {
    seq![
        Instr::LocalGet(0),
        Instr::If,
        Instr::LocalGet(0),
        Instr::I32Const(tls_size as i32),
        Instr::I32Const(tls_align as i32),
        Instr::Call(Callee::Free),
        Instr::Else,
        Instr::GlobalGet(GlobalSlot::TlsBase),
        Instr::I32Const(tls_size as i32),
        Instr::I32Const(tls_align as i32),
        Instr::Call(Callee::Free),
        Instr::I32Const(i32::MIN),
        Instr::GlobalSet(GlobalSlot::TlsBase),
        Instr::End,
        Instr::LocalGet(1),
        Instr::If,
        Instr::LocalGet(1),
        Instr::LocalGet(2),
        Instr::I32Const(DEFAULT_THREAD_STACK_SIZE as i32),
        Instr::LocalGet(2),
        Instr::Select,
        Instr::I32Const(16),
        Instr::Call(Callee::Free),
        Instr::Else,
    ] + temp_stack_prologue(d) + seq![
        Instr::GlobalGet(GlobalSlot::StackAlloc),
        Instr::GlobalGet(GlobalSlot::StackSize),
        Instr::I32Const(16),
        Instr::Call(Callee::Free),
    ] + temp_stack_epilogue(d) + seq![
        Instr::I32Const(0),
        Instr::GlobalSet(GlobalSlot::StackAlloc),
        Instr::End,
    ]
}

fn push_all(out: &mut Vec<Instr>, items: &[Instr])
    ensures
        final(out)@ == old(out)@ + items@,
{
    let mut i: usize = 0;
    while i < items.len()
        invariant
            i <= items@.len(),
            out@ == old(out)@ + items@.take(i as int),
        decreases items@.len() - i,
    {
        out.push(items[i]);
        i = i + 1;
        assert(out@ =~= old(out)@ + items@.take(i as int));
    }
    assert(items@.take(i as int) =~= items@);
}

fn push_prologue(out: &mut Vec<Instr>, d: &StaticData)
    ensures
        final(out)@ == old(out)@ + temp_stack_prologue(*d),
{
    let lock = d.temp_lock as i32;
    push_all(
        out,
        &[
            Instr::I32Const(d.temp_stack as i32),
            Instr::GlobalSet(GlobalSlot::StackPointer),
            Instr::Loop,
            Instr::I32Const(lock),
            Instr::I32Const(0),
            Instr::I32Const(1),
            Instr::CmpxchgI32,
            Instr::If,
            Instr::I32Const(lock),
            Instr::I32Const(1),
            Instr::I64Const(-1i64),
            Instr::AtomicWaitI32,
            Instr::Drop,
            Instr::BrLoop,
            Instr::Else,
            Instr::End,
            Instr::End,
        ],
    );
    assert(out@ =~= old(out)@ + temp_stack_prologue(*d));
}

fn push_epilogue(out: &mut Vec<Instr>, d: &StaticData)
    ensures
        final(out)@ == old(out)@ + temp_stack_epilogue(*d),
{
    let lock = d.temp_lock as i32;
    push_all(
        out,
        &[
            Instr::I32Const(lock),
            Instr::I32Const(0),
            Instr::AtomicStoreI32,
            Instr::I32Const(lock),
            Instr::I32Const(1),
            Instr::AtomicNotify,
            Instr::Drop,
        ],
    );
    assert(out@ =~= old(out)@ + temp_stack_epilogue(*d));
}

/// `body`, run on the scratch stack under its spinlock.
pub fn temp_stack_section(d: &StaticData, body: Vec<Instr>) -> (r: Vec<Instr>)
    ensures
        r@ == temp_stack_prologue(*d) + body@ + temp_stack_epilogue(*d),
{
    let mut out: Vec<Instr> = Vec::new();
    push_prologue(&mut out, d);
    push_all(&mut out, body.as_slice());
    push_epilogue(&mut out, d);
    assert(out@ =~= temp_stack_prologue(*d) + body@ + temp_stack_epilogue(*d));
    out
}

/// The body of the injected start function; its one local is the new stack's base.
pub fn start_body(d: &StaticData, tls_size: u32, tls_align: u32, has_prev_start: bool) -> (r: Vec<
    Instr,
>)
    ensures
        r@ == start_spec(*d, tls_size, tls_align, has_prev_start),
{
    let mut out: Vec<Instr> = Vec::new();
    if has_prev_start {
        out.push(Instr::Call(Callee::PrevStart));
    }
    push_all(
        &mut out,
        &[Instr::I32Const(d.thread_counter as i32), Instr::I32Const(1), Instr::AtomicAddI32, Instr::If],
    );
    let mut alloc: Vec<Instr> = Vec::new();
    push_all(
        &mut alloc,
        &[
            Instr::GlobalGet(GlobalSlot::StackSize),
            Instr::I32Const(16),
            Instr::Call(Callee::Malloc),
            Instr::LocalTee(0),
        ],
    );
    let section = temp_stack_section(d, alloc);
    push_all(&mut out, section.as_slice());
    push_all(
        &mut out,
        &[
            Instr::GlobalSet(GlobalSlot::StackAlloc),
            Instr::GlobalGet(GlobalSlot::StackAlloc),
            Instr::GlobalGet(GlobalSlot::StackSize),
            Instr::I32Add,
            Instr::GlobalSet(GlobalSlot::StackPointer),
            Instr::Else,
            Instr::End,
            Instr::I32Const(tls_size as i32),
            Instr::I32Const(tls_align as i32),
            Instr::Call(Callee::Malloc),
            Instr::GlobalSet(GlobalSlot::TlsBase),
            Instr::GlobalGet(GlobalSlot::TlsBase),
            Instr::Call(Callee::InitTls),
        ],
    );
    assert(out@ =~= start_spec(*d, tls_size, tls_align, has_prev_start));
    out
}

/// The body of the injected destroy export; its three locals are its parameters.
pub fn destroy_body(d: &StaticData, tls_size: u32, tls_align: u32) -> (r: Vec<Instr>)
    ensures
        r@ == destroy_spec(*d, tls_size, tls_align),
{
    let mut out: Vec<Instr> = Vec::new();
    push_all(
        &mut out,
        &[
            Instr::LocalGet(0),
            Instr::If,
            Instr::LocalGet(0),
            Instr::I32Const(tls_size as i32),
            Instr::I32Const(tls_align as i32),
            Instr::Call(Callee::Free),
            Instr::Else,
            Instr::GlobalGet(GlobalSlot::TlsBase),
            Instr::I32Const(tls_size as i32),
            Instr::I32Const(tls_align as i32),
            Instr::Call(Callee::Free),
            Instr::I32Const(i32::MIN),
            Instr::GlobalSet(GlobalSlot::TlsBase),
            Instr::End,
            Instr::LocalGet(1),
            Instr::If,
            Instr::LocalGet(1),
            Instr::LocalGet(2),
            Instr::I32Const(DEFAULT_THREAD_STACK_SIZE as i32),
            Instr::LocalGet(2),
            Instr::Select,
            Instr::I32Const(16),
            Instr::Call(Callee::Free),
            Instr::Else,
        ],
    );
    let mut free: Vec<Instr> = Vec::new();
    push_all(
        &mut free,
        &[
            Instr::GlobalGet(GlobalSlot::StackAlloc),
            Instr::GlobalGet(GlobalSlot::StackSize),
            Instr::I32Const(16),
            Instr::Call(Callee::Free),
        ],
    );
    let section = temp_stack_section(d, free);
    push_all(&mut out, section.as_slice());
    push_all(&mut out, &[Instr::I32Const(0), Instr::GlobalSet(GlobalSlot::StackAlloc), Instr::End]);
    assert(out@ =~= destroy_spec(*d, tls_size, tls_align));
    out
}

/// What the transform needs to know of a module, read off it one for one.
pub struct ModuleInfo {
    pub memories: Vec<MemoryInfo>,
    /// The exported global `__heap_base`, if any.
    pub heap_base: Option<GlobalInfo>,
    /// Whether `__wasm_init_tls` is exported as a function; `None` where it is not exported.
    pub init_tls_is_function: Option<bool>,
    /// The export `__tls_size`: `Some(None)` where it is not a global.
    pub tls_size: Option<Option<GlobalInfo>>,
    /// The export `__tls_align`: `Some(None)` where it is not a global.
    pub tls_align: Option<Option<GlobalInfo>>,
    /// The positions of the exported `i32` globals named `__tls_base`.
    pub tls_base_candidates: Vec<usize>,
    /// All globals of the module, in order.
    pub globals: Vec<GlobalInfo>,
    /// Whether `__wasmgrind_malloc` is an exported function.
    pub has_malloc: bool,
    /// Whether `__wasmgrind_free` is an exported function.
    pub has_free: bool,
    /// Whether the module already has a start function.
    pub has_prev_start: bool,
}

/// What the transform does to a module.
pub struct ThreadPlan {
    /// The static data, the new heap base and the new memory limits.
    pub data: StaticData,
    pub tls_size: u32,
    pub tls_align: u32,
    /// Which of the `__tls_base` candidates is the TLS base.
    pub tls_base: usize,
    /// The position of the stack-pointer global.
    pub stack_pointer: usize,
    /// The body of the new start function.
    pub start: Vec<Instr>,
    /// The body of the `__wasmgrind_thread_destroy` export.
    pub destroy: Vec<Instr>,
}

/// The first check the module fails, in the order the transform makes them.
pub open spec fn plan_error(m: ModuleInfo) -> Option<ThreadifyError> {
    if memory_limits(m.memories@) is Err {
        Some(memory_limits(m.memories@)->Err_0)
    } else if heap_base_value(m.heap_base) is Err {
        Some(heap_base_value(m.heap_base)->Err_0)
    } else if heap_base_out_of_range(heap_base_value(m.heap_base)->Ok_0) {
        Some(ThreadifyError::HeapBaseOutOfRange)
    } else if m.init_tls_is_function is None {
        Some(ThreadifyError::InitTlsMissing)
    } else if !m.init_tls_is_function->Some_0 {
        Some(ThreadifyError::InitTlsNotFunction)
    } else if tls_constant_value(m.tls_size) is Err {
        Some(tls_constant_value(m.tls_size)->Err_0)
    } else if tls_constant_value(m.tls_align) is Err {
        Some(tls_constant_value(m.tls_align)->Err_0)
    } else if m.tls_base_candidates@.len() != 1 {
        Some(ThreadifyError::NoTlsBase)
    } else if stack_pointer_of(m.globals@) is None {
        Some(ThreadifyError::NoStackPointer)
    } else if !m.has_malloc {
        Some(ThreadifyError::NoMalloc)
    } else if !m.has_free {
        Some(ThreadifyError::NoFree)
    } else {
        None
    }
}

/// Checks a module against every precondition of the transform and plans the
/// transform: where the static data goes, which globals are the TLS base and
/// the stack pointer, and the code of the start function and the destroy export.
///
/// Fails, with the first failed check, where the module is not fit for threads.
pub fn plan_threads(m: &ModuleInfo) -> (r: Result<ThreadPlan, ThreadifyError>)
    ensures
        r is Err <==> plan_error(*m) is Some,
        r is Err ==> r->Err_0 == plan_error(*m)->Some_0,
        r is Ok ==> {
            let p = r->Ok_0;
            let mem = m.memories@[0];
            &&& static_layout(p.data, heap_base_value(m.heap_base)->Ok_0, mem.initial, mem.maximum)
            &&& p.tls_size == tls_constant_value(m.tls_size)->Ok_0
            &&& p.tls_align == tls_constant_value(m.tls_align)->Ok_0
            &&& p.tls_base == m.tls_base_candidates@[0]
            &&& Some(p.stack_pointer) == stack_pointer_of(m.globals@)
            &&& p.start@ == start_spec(p.data, p.tls_size, p.tls_align, m.has_prev_start)
            &&& p.destroy@ == destroy_spec(p.data, p.tls_size, p.tls_align)
        },
{
    match get_shared_memory_size(&m.memories) {
        Ok(_) => {},
        Err(e) => return Err(e),
    }
    let heap_base = match check_heap_base(m.heap_base) {
        Ok(v) => v,
        Err(e) => return Err(e),
    };
    let mem = m.memories[0];
    let data = match allocate_static_data(heap_base, mem.initial, mem.maximum) {
        Ok(d) => d,
        Err(e) => return Err(e),
    };
    match m.init_tls_is_function {
        None => return Err(ThreadifyError::InitTlsMissing),
        Some(false) => return Err(ThreadifyError::InitTlsNotFunction),
        Some(true) => {},
    }
    let tls_size = match check_tls_constant(m.tls_size) {
        Ok(v) => v,
        Err(e) => return Err(e),
    };
    let tls_align = match check_tls_constant(m.tls_align) {
        Ok(v) => v,
        Err(e) => return Err(e),
    };
    let tls_base = match get_tls_base(&m.tls_base_candidates) {
        Some(i) => i,
        None => return Err(ThreadifyError::NoTlsBase),
    };
    let stack_pointer = match get_stack_pointer(&m.globals) {
        Some(i) => i,
        None => return Err(ThreadifyError::NoStackPointer),
    };
    if !m.has_malloc {
        return Err(ThreadifyError::NoMalloc);
    }
    if !m.has_free {
        return Err(ThreadifyError::NoFree);
    }
    let start = start_body(&data, tls_size, tls_align, m.has_prev_start);
    let destroy = destroy_body(&data, tls_size, tls_align);
    Ok(ThreadPlan { data, tls_size, tls_align, tls_base, stack_pointer, start, destroy })
}

} // verus!
