use ebpf_sandbox::memory::MemoryRef;
use ebpf_sandbox::memory::MemoryRegion;
use ebpf_sandbox::registry::builtin_registry;
use ebpf_sandbox::registry::BuiltinService;
use ebpf_sandbox::services::SupervisorContext;
use ebpf_sandbox::services::SyscallEffect;
use ebpf_sandbox::session::dispatch;
use ebpf_sandbox::session::input_mapping;
use ebpf_sandbox::session::DEFAULT_INSTRUCTION_BUDGET;
use ebpf_sandbox::session::MM_INPUT_START;

struct NopSupervisor;

impl SupervisorContext for NopSupervisor {
    fn supervisor_call(
        &mut self,
        _r1: u64,
        _r2: u64,
        _r3: u64,
        _r4: u64,
        _r5: u64,
        _memory_ref: &mut MemoryRef,
    ) -> u64 {
        0
    }
}

#[test]
fn session_constants() {
    assert_eq!(MM_INPUT_START, 0x400000000);
    assert_eq!(DEFAULT_INSTRUCTION_BUDGET, 100_000_000);
}

#[test]
fn input_mapping_is_writable_at_the_fixed_base() {
    let mut mem = input_mapping(vec![5, 6, 7]);
    assert_eq!(mem.read_vec(MM_INPUT_START, 3).unwrap(), vec![5, 6, 7]);
    assert!(mem.write(MM_INPUT_START + 1, &vec![9]).is_ok());
    assert_eq!(mem.read_vec(MM_INPUT_START, 3).unwrap(), vec![5, 9, 7]);
    // Nothing below or above the input buffer is mapped.
    assert!(mem.read_vec(MM_INPUT_START - 1, 1).is_err());
    assert!(mem.read_vec(MM_INPUT_START + 3, 1).is_err());
}

#[test]
fn dispatch_routes_the_argument_layout() {
    let mut sup = NopSupervisor;
    let mut mem = input_mapping(vec![0, 0, 0, 0]);
    let r = dispatch(
        BuiltinService::MemSet,
        &mut sup,
        &mut mem,
        MM_INPUT_START,
        0x42,
        4,
        0,
        0,
    );
    assert_eq!(r, SyscallEffect::Success(0));
    assert_eq!(mem.read_vec(MM_INPUT_START, 4).unwrap(), vec![0x42; 4]);

    let r = dispatch(
        BuiltinService::MemCopy,
        &mut sup,
        &mut mem,
        MM_INPUT_START + 2,
        MM_INPUT_START,
        2,
        0,
        0,
    );
    assert_eq!(r, SyscallEffect::Success(0));
    assert_eq!(mem.read_vec(MM_INPUT_START, 4).unwrap(), vec![0x42; 4]);

    let r = dispatch(BuiltinService::ExtSyscall, &mut sup, &mut mem, 9, 9, 9, 9, 9);
    assert_eq!(r, SyscallEffect::Success(0));

    let r = dispatch(BuiltinService::Abort, &mut sup, &mut mem, 0, 0, 0, 0, 0);
    assert_eq!(r, SyscallEffect::UserAbort);
}

#[test]
fn fill_then_compare_scenario_reports_equality() {
    // The caller-supplied input buffer holds four zero bytes at the fixed
    // guest base; a constant buffer of four 0x41 bytes is mapped read-only
    // beside it, as the engine would map a program's constants.
    let mut sup = NopSupervisor;
    let mut mem = input_mapping(vec![0x00, 0x00, 0x00, 0x00]);
    let constant_base = MM_INPUT_START + 0x1000;
    mem.add_region(MemoryRegion::new_readonly(vec![0x41; 4], constant_base))
        .unwrap();

    let reg = builtin_registry();
    let fill = reg.lookup(&b"sol_memset_".to_vec()).unwrap();
    let r = dispatch(fill, &mut sup, &mut mem, MM_INPUT_START, 0x41, 4, 0, 0);
    assert_eq!(r, SyscallEffect::Success(0));

    // Compare the filled input against the constant buffer, writing the
    // 32-bit result over the input buffer itself.
    let compare = reg.lookup(&b"sol_memcmp_".to_vec()).unwrap();
    let r = dispatch(
        compare,
        &mut sup,
        &mut mem,
        MM_INPUT_START,
        constant_base,
        4,
        MM_INPUT_START,
        0,
    );
    assert_eq!(r, SyscallEffect::Success(0));
    // Equality: the written result is 0 as a 32-bit little-endian integer.
    assert_eq!(mem.read_vec(MM_INPUT_START, 4).unwrap(), vec![0, 0, 0, 0]);
}
