//! One bounded execution: the memory mapping of a run and the engine-facing
//! dispatch of guest syscalls to the built-in services.
//!
//! A session is single-use and strictly sequential: the registry and the
//! mapping are built before the first instruction executes and never change
//! mid-run, and the instruction budget is fixed per run. The engine itself
//! (loading, verifying and interpreting the program) sits outside this
//! core; what it asks of the core at each guest syscall is exactly
//! [`dispatch`].

use vstd::prelude::*;

use crate::memory::region_wf;
use crate::memory::MemoryRef;
use crate::memory::MemoryRegion;
use crate::memory::RegionView;
use crate::registry::BuiltinService;
use crate::services::abort_syscall;
use crate::services::ext_syscall;
use crate::services::mem_cmp_post;
use crate::services::mem_copy_post;
use crate::services::mem_set_post;
use crate::services::sol_memcmp_syscall;
use crate::services::sol_memcpy_syscall;
use crate::services::sol_memmove_syscall;
use crate::services::sol_memset_syscall;
use crate::services::SupervisorContext;
use crate::services::SyscallEffect;

verus! {

/// The fixed guest base address at which the caller-supplied input buffer
/// is mapped, writable, for every run.
pub const MM_INPUT_START: u64 = 0x400000000;

/// The default instruction budget of a run: how many guest instructions the
/// engine may execute before the run is forcibly ended.
pub const DEFAULT_INSTRUCTION_BUDGET: u64 = 100000000;

/// How one run ended. A guest's voluntary abort, the exhaustion of the
/// instruction budget, a failure to load or verify the program, and an
/// engine-detected fault (an out-of-bounds access among them) are kept
/// distinct, so a caller can tell "ran too long" from "did something
/// illegal".
#[derive(Clone, Copy, PartialEq, Eq, Debug)]
pub enum ExecutionOutcome {
    Completed,
    UserAbort,
    BudgetExhausted,
    LoadFault,
    RuntimeFault,
}

/// The memory mapping of one run: the caller-supplied input buffer as the
/// one writable region, at the fixed guest base address.
pub fn input_mapping(input: Vec<u8>) -> (r: MemoryRef)
    requires
        MM_INPUT_START + input@.len() <= u64::MAX,
    ensures
        r.wf(),
        r@ =~= seq![
            RegionView { vm_addr: MM_INPUT_START as int, data: input@, writable: true },
        ],
{
    let mut mem = MemoryRef::new();
    let ghost rv = RegionView { vm_addr: MM_INPUT_START as int, data: input@, writable: true };
    let res = mem.add_region(MemoryRegion::new_writable(input, MM_INPUT_START));
    proof {
        assert(region_wf(rv));
        assert(res is Ok);
    }
    mem
}

/// What the engine does at a guest syscall instruction, after resolving the
/// name through the registry: hand the five raw arguments and the accessor
/// over the current mapping to the matching built-in service. Each arm
/// meets the service's own contract with the arguments the guest-visible
/// layout assigns to it.
pub fn dispatch<S: SupervisorContext>(
    service: BuiltinService,
    context: &mut S,
    mem: &mut MemoryRef,
    arg1: u64,
    arg2: u64,
    arg3: u64,
    arg4: u64,
    arg5: u64,
) -> (r: SyscallEffect)
    requires
        old(mem).wf(),
    ensures
        final(mem).wf(),
        service == BuiltinService::Abort ==> r == SyscallEffect::UserAbort && *final(mem) == *old(
            mem,
        ),
        service == BuiltinService::ExtSyscall ==> r == SyscallEffect::Success(0u64),
        service == BuiltinService::MemCopy ==> mem_copy_post(
            old(mem)@,
            final(mem)@,
            r,
            arg1 as int,
            arg2 as int,
            arg3 as int,
        ),
        service == BuiltinService::MemMove ==> mem_copy_post(
            old(mem)@,
            final(mem)@,
            r,
            arg1 as int,
            arg2 as int,
            arg3 as int,
        ),
        service == BuiltinService::MemSet ==> mem_set_post(
            old(mem)@,
            final(mem)@,
            r,
            arg1 as int,
            arg2,
            arg3 as int,
        ),
        service == BuiltinService::MemCmp ==> mem_cmp_post(
            old(mem)@,
            final(mem)@,
            r,
            arg1 as int,
            arg2 as int,
            arg3 as int,
            arg4 as int,
        ),
{
    match service {
        BuiltinService::Abort => abort_syscall(mem, arg1, arg2, arg3, arg4, arg5),
        BuiltinService::ExtSyscall => ext_syscall(context, arg1, arg2, arg3, arg4, arg5, mem),
        BuiltinService::MemCopy => sol_memcpy_syscall(mem, arg1, arg2, arg3),
        BuiltinService::MemMove => sol_memmove_syscall(mem, arg1, arg2, arg3),
        BuiltinService::MemSet => sol_memset_syscall(mem, arg1, arg2, arg3),
        BuiltinService::MemCmp => sol_memcmp_syscall(mem, arg1, arg2, arg3, arg4),
    }
}

} // verus!
