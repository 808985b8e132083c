use wasmgrind::threadify::{
    allocate_static_data, check_heap_base, check_tls_constant, destroy_body, get_shared_memory_size,
    get_stack_pointer, get_tls_base, plan_threads, start_body, temp_stack_section, Callee,
    GlobalInfo, GlobalSlot, Instr, MemoryInfo, ModuleInfo, StaticData, ThreadifyError,
    DEFAULT_THREAD_STACK_SIZE, PAGE_SIZE,
};

fn shared(initial: u64, maximum: Option<u64>) -> MemoryInfo {
    MemoryInfo { shared: true, memory64: false, initial, maximum }
}

#[test]
fn memory_limits_of_one_shared_memory() {
    assert_eq!(get_shared_memory_size(&vec![shared(17, Some(16384))]), Ok((17, 16384)));
    assert_eq!(get_shared_memory_size(&vec![]), Err(ThreadifyError::NoMemory));
    assert_eq!(
        get_shared_memory_size(&vec![shared(1, Some(2)), shared(1, Some(2))]),
        Err(ThreadifyError::MultipleMemories)
    );
    let mut m = shared(1, Some(2));
    m.shared = false;
    assert_eq!(get_shared_memory_size(&vec![m]), Err(ThreadifyError::NotShared));
    let mut m = shared(1, Some(2));
    m.memory64 = true;
    assert_eq!(get_shared_memory_size(&vec![m]), Err(ThreadifyError::Memory64));
    assert_eq!(get_shared_memory_size(&vec![shared(1, None)]), Err(ThreadifyError::NoMaximum));
    assert_eq!(
        get_shared_memory_size(&vec![shared(1, Some(1 << 33))]),
        Err(ThreadifyError::LimitOutOfRange)
    );
}

#[test]
fn static_data_takes_one_page_at_the_heap_base() {
    let d = allocate_static_data(1_048_577, 17, Some(17)).unwrap();
    assert_eq!(
        d,
        StaticData {
            base: 1_048_577,
            thread_counter: 1_048_580,
            temp_lock: 1_048_584,
            temp_stack: 1_114_112,
            new_heap_base: 1_114_113,
            initial: 18,
            maximum: Some(18),
        }
    );
    let d = allocate_static_data(0, 1, Some(100)).unwrap();
    assert_eq!((d.thread_counter, d.temp_lock, d.temp_stack), (0, 4, PAGE_SIZE));
    assert_eq!(d.maximum, Some(100));
    assert_eq!(allocate_static_data(-4, 1, None), Err(ThreadifyError::HeapBaseOutOfRange));
    assert_eq!(
        allocate_static_data(i32::MAX - 65535, 1, None),
        Err(ThreadifyError::HeapBaseOutOfRange)
    );
    assert_eq!(DEFAULT_THREAD_STACK_SIZE, 2 * 1024 * 1024);
}

fn global(named: bool, init: Option<i32>) -> GlobalInfo {
    GlobalInfo { named_stack_pointer: named, is_i32: true, mutable: true, init }
}

#[test]
fn stack_pointer_discovery() {
    assert_eq!(get_stack_pointer(&vec![global(false, Some(5)), global(true, None)]), Some(1));
    assert_eq!(get_stack_pointer(&vec![global(false, Some(0)), global(false, Some(8))]), Some(1));
    assert_eq!(
        get_stack_pointer(&vec![global(false, Some(3)), global(false, Some(8))]),
        Some(0)
    );
    assert_eq!(
        get_stack_pointer(&vec![
            global(false, Some(3)),
            global(false, Some(8)),
            global(false, Some(9))
        ]),
        None
    );
    assert_eq!(get_stack_pointer(&vec![global(false, None)]), None);
}

#[test]
fn tls_base_must_be_unique() {
    assert_eq!(get_tls_base(&vec![4]), Some(4));
    assert_eq!(get_tls_base(&vec![]), None);
    assert_eq!(get_tls_base(&vec![1, 2]), None);
}

fn constant(v: i32) -> GlobalInfo {
    GlobalInfo { named_stack_pointer: false, is_i32: true, mutable: false, init: Some(v) }
}

#[test]
fn heap_base_checks() {
    assert_eq!(check_heap_base(Some(constant(1024))), Ok(1024));
    assert_eq!(check_heap_base(None), Err(ThreadifyError::HeapBaseMissing));
    let mut g = constant(1);
    g.is_i32 = false;
    assert_eq!(check_heap_base(Some(g)), Err(ThreadifyError::HeapBaseNotI32));
    let mut g = constant(1);
    g.mutable = true;
    assert_eq!(check_heap_base(Some(g)), Err(ThreadifyError::HeapBaseMutable));
    let mut g = constant(1);
    g.init = None;
    assert_eq!(check_heap_base(Some(g)), Err(ThreadifyError::HeapBaseNotConstant));
}

#[test]
fn tls_constant_checks() {
    assert_eq!(check_tls_constant(Some(Some(constant(16)))), Ok(16));
    assert_eq!(check_tls_constant(None), Err(ThreadifyError::TlsConstantMissing));
    assert_eq!(check_tls_constant(Some(None)), Err(ThreadifyError::TlsConstantNotGlobal));
    let mut g = constant(1);
    g.init = None;
    assert_eq!(check_tls_constant(Some(Some(g))), Err(ThreadifyError::TlsConstantNotConstant));
}

fn layout() -> StaticData {
    allocate_static_data(1000, 2, Some(4)).unwrap()
}

fn prologue(d: &StaticData) -> Vec<Instr> {
    let lock = d.temp_lock as i32;
    vec![
        Instr::I32Const(d.temp_stack as i32),
        Instr::GlobalSet(GlobalSlot::StackPointer),
        Instr::Loop,
        Instr::I32Const(lock),
        Instr::I32Const(0),
        Instr::I32Const(1),
        Instr::CmpxchgI32,
        Instr::If,
        Instr::I32Const(lock),
        Instr::I32Const(1),
        Instr::I64Const(-1),
        Instr::AtomicWaitI32,
        Instr::Drop,
        Instr::BrLoop,
        Instr::Else,
        Instr::End,
        Instr::End,
    ]
}

fn epilogue(d: &StaticData) -> Vec<Instr> {
    let lock = d.temp_lock as i32;
    vec![
        Instr::I32Const(lock),
        Instr::I32Const(0),
        Instr::AtomicStoreI32,
        Instr::I32Const(lock),
        Instr::I32Const(1),
        Instr::AtomicNotify,
        Instr::Drop,
    ]
}

#[test]
fn scratch_stack_section_takes_and_releases_the_lock() {
    let d = layout();
    assert_eq!((d.thread_counter, d.temp_lock, d.temp_stack), (1000, 1004, 66536));
    let body = vec![Instr::Call(Callee::Free)];
    let mut expected = prologue(&d);
    expected.push(Instr::Call(Callee::Free));
    expected.extend(epilogue(&d));
    assert_eq!(temp_stack_section(&d, body), expected);
}

#[test]
fn start_function_code() {
    let d = layout();
    let mut expected = vec![
        Instr::Call(Callee::PrevStart),
        Instr::I32Const(1000),
        Instr::I32Const(1),
        Instr::AtomicAddI32,
        Instr::If,
    ];
    expected.extend(prologue(&d));
    expected.extend([
        Instr::GlobalGet(GlobalSlot::StackSize),
        Instr::I32Const(16),
        Instr::Call(Callee::Malloc),
        Instr::LocalTee(0),
    ]);
    expected.extend(epilogue(&d));
    expected.extend([
        Instr::GlobalSet(GlobalSlot::StackAlloc),
        Instr::GlobalGet(GlobalSlot::StackAlloc),
        Instr::GlobalGet(GlobalSlot::StackSize),
        Instr::I32Add,
        Instr::GlobalSet(GlobalSlot::StackPointer),
        Instr::Else,
        Instr::End,
        Instr::I32Const(64),
        Instr::I32Const(8),
        Instr::Call(Callee::Malloc),
        Instr::GlobalSet(GlobalSlot::TlsBase),
        Instr::GlobalGet(GlobalSlot::TlsBase),
        Instr::Call(Callee::InitTls),
    ]);
    assert_eq!(start_body(&d, 64, 8, true), expected);
    assert_eq!(start_body(&d, 64, 8, false), expected[1..].to_vec());
}

#[test]
fn destroy_export_code() {
    let d = layout();
    let code = destroy_body(&d, 64, 8);
    assert_eq!(
        &code[..14],
        &[
            Instr::LocalGet(0),
            Instr::If,
            Instr::LocalGet(0),
            Instr::I32Const(64),
            Instr::I32Const(8),
            Instr::Call(Callee::Free),
            Instr::Else,
            Instr::GlobalGet(GlobalSlot::TlsBase),
            Instr::I32Const(64),
            Instr::I32Const(8),
            Instr::Call(Callee::Free),
            Instr::I32Const(i32::MIN),
            Instr::GlobalSet(GlobalSlot::TlsBase),
            Instr::End,
        ]
    );
    assert_eq!(code[18], Instr::I32Const(DEFAULT_THREAD_STACK_SIZE as i32));
    assert_eq!(
        &code[code.len() - 3..],
        &[Instr::I32Const(0), Instr::GlobalSet(GlobalSlot::StackAlloc), Instr::End]
    );
    let opens = code.iter().filter(|i| matches!(i, Instr::If | Instr::Loop)).count();
    let ends = code.iter().filter(|i| matches!(i, Instr::End)).count();
    assert_eq!(opens, ends);
}

fn module() -> ModuleInfo {
    ModuleInfo {
        memories: vec![shared(17, Some(16384))],
        heap_base: Some(constant(1_048_576)),
        init_tls_is_function: Some(true),
        tls_size: Some(Some(constant(64))),
        tls_align: Some(Some(constant(8))),
        tls_base_candidates: vec![0],
        globals: vec![global(true, Some(65536))],
        has_malloc: true,
        has_free: true,
        has_prev_start: false,
    }
}

#[test]
fn plan_of_a_fit_module() {
    let plan = plan_threads(&module()).unwrap();
    assert_eq!(plan.data.new_heap_base, 1_048_576 + 65536);
    assert_eq!((plan.data.initial, plan.data.maximum), (18, Some(16384)));
    assert_eq!((plan.tls_size, plan.tls_align, plan.tls_base, plan.stack_pointer), (64, 8, 0, 0));
    assert_eq!(plan.start, start_body(&plan.data, 64, 8, false));
    assert_eq!(plan.destroy, destroy_body(&plan.data, 64, 8));
}

#[test]
fn plan_reports_the_first_failed_check() {
    let mut m = module();
    m.heap_base = None;
    m.has_free = false;
    assert_eq!(plan_threads(&m).err(), Some(ThreadifyError::HeapBaseMissing));
    let mut m = module();
    m.init_tls_is_function = Some(false);
    assert_eq!(plan_threads(&m).err(), Some(ThreadifyError::InitTlsNotFunction));
    let mut m = module();
    m.tls_align = None;
    assert_eq!(plan_threads(&m).err(), Some(ThreadifyError::TlsConstantMissing));
    let mut m = module();
    m.tls_base_candidates = vec![];
    assert_eq!(plan_threads(&m).err(), Some(ThreadifyError::NoTlsBase));
    let mut m = module();
    m.globals = vec![];
    assert_eq!(plan_threads(&m).err(), Some(ThreadifyError::NoStackPointer));
    let mut m = module();
    m.has_malloc = false;
    assert_eq!(plan_threads(&m).err(), Some(ThreadifyError::NoMalloc));
    let mut m = module();
    m.memories = vec![];
    assert_eq!(plan_threads(&m).err(), Some(ThreadifyError::NoMemory));
}
