//! The built-in guest-invocable services, the supervisor bridge and the
//! abort service.
//!
//! Every service operates purely through the bounds-checked accessor
//! [`MemoryRef`], oblivious to which region an address falls in. Each one
//! tolerates a zero length and, when any requested range falls outside a
//! permitted region, reports a bounds fault without having mutated any byte
//! of guest memory.

use vstd::prelude::*;

use crate::memory::bytes_at;
use crate::memory::can_read;
use crate::memory::can_write;
use crate::memory::store;
use crate::memory::MemoryRef;

verus! {

/// What one service invocation did to the run: a 64-bit result under the
/// engine's success convention, a voluntary guest abort, or a bounds fault
/// raised by the accessor. The two failing effects end the run; they are
/// kept distinct so the caller can tell a guest's own `abort` from an
/// illegal access.
#[derive(Clone, Copy, PartialEq, Eq, Debug)]
pub enum SyscallEffect {
    Success(u64),
    UserAbort,
    BoundsFault,
}

/// The low byte of a 64-bit service argument, as the fill service uses it.
pub open spec fn low_byte(v: u64) -> u8 {
    (v % 256) as u8
}

/// Unsigned lexicographic byte comparison: the first differing byte decides
/// the order, a proper prefix sorts before the longer sequence, and the
/// result is `-1`, `0` or `1`.
pub open spec fn lex_cmp(a: Seq<u8>, b: Seq<u8>) -> int
    decreases a.len(),
{
    if a.len() == 0 && b.len() == 0 {
        0
    } else if a.len() == 0 {
        -1
    } else if b.len() == 0 {
        1
    } else if a[0] < b[0] {
        -1
    } else if a[0] > b[0] {
        1
    } else {
        lex_cmp(a.drop_first(), b.drop_first())
    }
}

/// The comparison result never leaves `{-1, 0, 1}`.
pub proof fn lemma_lex_cmp_range(a: Seq<u8>, b: Seq<u8>)
    ensures
        -1 <= lex_cmp(a, b) <= 1,
    decreases a.len(),
{
    if a.len() > 0 && b.len() > 0 && a[0] == b[0] {
        lemma_lex_cmp_range(a.drop_first(), b.drop_first());
    }
}

/// Comparing in the other direction negates the result: the comparison is
/// antisymmetric, as a total order over byte strings demands.
pub proof fn lemma_lex_cmp_antisym(a: Seq<u8>, b: Seq<u8>)
    ensures
        lex_cmp(a, b) == -lex_cmp(b, a),
    decreases a.len(),
{
    if a.len() > 0 && b.len() > 0 && a[0] == b[0] {
        lemma_lex_cmp_antisym(a.drop_first(), b.drop_first());
    }
}

/// Every byte string compares equal to itself, whatever its length.
pub proof fn lemma_lex_cmp_refl(a: Seq<u8>)
    ensures
        lex_cmp(a, a) == 0,
    decreases a.len(),
{
    if a.len() > 0 {
        lemma_lex_cmp_refl(a.drop_first());
    }
}

/// For equal lengths, the comparison returns zero exactly on equal contents.
pub proof fn lemma_lex_cmp_zero_iff_eq(a: Seq<u8>, b: Seq<u8>)
    requires
        a.len() == b.len(),
    ensures
        lex_cmp(a, b) == 0 <==> a == b,
    decreases a.len(),
{
    if a.len() == 0 {
        assert(a =~= b);
    } else if a[0] == b[0] {
        lemma_lex_cmp_zero_iff_eq(a.drop_first(), b.drop_first());
        if lex_cmp(a, b) == 0 {
            assert(a.drop_first() == b.drop_first());
            assert forall|i: int| 0 <= i < a.len() implies a[i] == b[i] by {
                if i > 0 {
                    assert(a[i] == a.drop_first()[i - 1]);
                    assert(b[i] == b.drop_first()[i - 1]);
                }
            }
            assert(a =~= b);
        } else {
            if a == b {
                assert(a.drop_first() =~= b.drop_first());
            }
        }
    } else {
        if a == b {
            assert(a[0] == b[0]);
        }
    }
}

/// Unsigned lexicographic comparison of two byte buffers, returning `-1`,
/// `0` or `1`.
#[verifier::loop_isolation(false)]
pub fn compare_bytes(a: &Vec<u8>, b: &Vec<u8>) -> (r: i32)
    ensures
        r as int == lex_cmp(a@, b@),
        -1 <= r <= 1,
{
    let a_len = a.len();
    let b_len = b.len();
    let limit = if a_len < b_len {
        a_len
    } else {
        b_len
    };
    let mut i: usize = 0;
    proof {
        assert(a@.skip(0) =~= a@);
        assert(b@.skip(0) =~= b@);
    }
    while i < limit
        invariant
            0 <= i <= limit,
            lex_cmp(a@, b@) == lex_cmp(a@.skip(i as int), b@.skip(i as int)),
        decreases limit - i,
    {
        let x = a[i];
        let y = b[i];
        if x < y {
            return -1;
        }
        if x > y {
            return 1;
        }
        proof {
            assert(a@.skip(i as int).drop_first() =~= a@.skip(i as int + 1));
            assert(b@.skip(i as int).drop_first() =~= b@.skip(i as int + 1));
        }
        i = i + 1;
    }
    proof {
        assert(a@.skip(i as int).len() == a@.len() - i);
        assert(b@.skip(i as int).len() == b@.len() - i);
    }
    if a_len < b_len {
        -1
    } else if a_len > b_len {
        1
    } else {
        0
    }
}

/// The four bytes the compare service writes back: the comparison result as
/// a 32-bit little-endian two's-complement integer, `-1`, `0` or `1`.
pub open spec fn cmp_result_le_bytes(c: int) -> Seq<u8> {
    if c < 0 {
        seq![0xffu8, 0xffu8, 0xffu8, 0xffu8]
    } else if c == 0 {
        seq![0u8, 0u8, 0u8, 0u8]
    } else {
        seq![1u8, 0u8, 0u8, 0u8]
    }
}

/// The little-endian encoding of a comparison result.
fn cmp_result_bytes(c: i32) -> (r: Vec<u8>)
    requires
        -1 <= c <= 1,
    ensures
        r@ == cmp_result_le_bytes(c as int),
        r@.len() == 4,
{
    let mut v: Vec<u8> = Vec::new();
    if c < 0 {
        v.push(0xff);
        v.push(0xff);
        v.push(0xff);
        v.push(0xff);
    } else if c == 0 {
        v.push(0);
        v.push(0);
        v.push(0);
        v.push(0);
    } else {
        v.push(1);
        v.push(0);
        v.push(0);
        v.push(0);
    }
    proof {
        assert(v@ =~= cmp_result_le_bytes(c as int));
    }
    v
}

/// The trusted side of the bridge service: the one capability the core needs
/// from the supervisor. Given the five raw syscall arguments and a
/// bounds-checked accessor over the guest's memory, it produces a 64-bit
/// result and may read and write guest memory through the accessor.
pub trait SupervisorContext {
    fn supervisor_call(
        &mut self,
        r1: u64,
        r2: u64,
        r3: u64,
        r4: u64,
        r5: u64,
        memory_ref: &mut MemoryRef,
    ) -> (r: u64)
        requires
            old(memory_ref).wf(),
        ensures
            final(memory_ref).wf(),
    ;
}

/// The whole contract of the copy and the move service: success exactly
/// when the source range is readable and the destination range writable,
/// in which case the staged source bytes land at the destination; any
/// failure is a bounds fault that leaves guest memory untouched.
pub open spec fn mem_copy_post(
    old_ms: Seq<crate::memory::RegionView>,
    new_ms: Seq<crate::memory::RegionView>,
    r: SyscallEffect,
    dest: int,
    src: int,
    n: int,
) -> bool {
    &&& (r == SyscallEffect::Success(0u64) <==> can_read(old_ms, src, n) && can_write(
        old_ms,
        dest,
        n,
    ))
    &&& (r == SyscallEffect::Success(0u64) ==> new_ms == store(old_ms, dest, bytes_at(old_ms, src, n)))
    &&& (r != SyscallEffect::Success(0u64) ==> r == SyscallEffect::BoundsFault && new_ms == old_ms)
}

/// The whole contract of the fill service: success exactly when the range
/// is writable, in which case it holds `n` copies of the argument's low
/// byte; any failure is a bounds fault that leaves guest memory untouched.
pub open spec fn mem_set_post(
    old_ms: Seq<crate::memory::RegionView>,
    new_ms: Seq<crate::memory::RegionView>,
    r: SyscallEffect,
    s: int,
    c: u64,
    n: int,
) -> bool {
    &&& (r == SyscallEffect::Success(0u64) <==> can_write(old_ms, s, n))
    &&& (r == SyscallEffect::Success(0u64) ==> new_ms == store(
        old_ms,
        s,
        Seq::new(n as nat, |i: int| low_byte(c)),
    ))
    &&& (r != SyscallEffect::Success(0u64) ==> r == SyscallEffect::BoundsFault && new_ms == old_ms)
}

/// The whole contract of the compare service: success exactly when both
/// source ranges are readable and the four-byte result range writable, in
/// which case the comparison outcome is written there as a 32-bit
/// little-endian signed integer; any failure is a bounds fault that leaves
/// guest memory untouched.
pub open spec fn mem_cmp_post(
    old_ms: Seq<crate::memory::RegionView>,
    new_ms: Seq<crate::memory::RegionView>,
    r: SyscallEffect,
    s1: int,
    s2: int,
    n: int,
    result_ptr: int,
) -> bool {
    &&& (r == SyscallEffect::Success(0u64) <==> can_read(old_ms, s1, n) && can_read(old_ms, s2, n)
        && can_write(old_ms, result_ptr, 4))
    &&& (r == SyscallEffect::Success(0u64) ==> new_ms == store(
        old_ms,
        result_ptr,
        cmp_result_le_bytes(lex_cmp(bytes_at(old_ms, s1, n), bytes_at(old_ms, s2, n))),
    ))
    &&& (r != SyscallEffect::Success(0u64) ==> r == SyscallEffect::BoundsFault && new_ms == old_ms)
}

/// The copy service: stage the `n` bytes at `src` through a temporary
/// buffer, then write them to `dest`. It succeeds exactly when the source
/// range is readable and the destination range writable; on any bounds
/// failure guest memory is untouched.
pub fn sol_memcpy_syscall(mem: &mut MemoryRef, dest: u64, src: u64, n: u64) -> (r: SyscallEffect)
    requires
        old(mem).wf(),
    ensures
        final(mem).wf(),
        mem_copy_post(old(mem)@, final(mem)@, r, dest as int, src as int, n as int),
        r == SyscallEffect::Success(0u64) ==> bytes_at(final(mem)@, dest as int, n as int)
            == bytes_at(old(mem)@, src as int, n as int),
        r != SyscallEffect::Success(0u64) ==> *final(mem) == *old(mem),
{
    let buf = match mem.read_vec(src, n) {
        Ok(buf) => buf,
        Err(_) => {
            return SyscallEffect::BoundsFault;
        },
    };
    match mem.write(dest, &buf) {
        Ok(()) => {
            proof {
                crate::memory::lemma_store_then_read(old(mem)@, dest as int, buf@);
            }
            SyscallEffect::Success(0)
        },
        Err(_) => SyscallEffect::BoundsFault,
    }
}

/// The move service. In this design it is functionally identical to the
/// copy service: both stage the source range through a temporary buffer, so
/// overlapping ranges come out as if the source had first been duplicated
/// and then written to the destination.
pub fn sol_memmove_syscall(mem: &mut MemoryRef, dest: u64, src: u64, n: u64) -> (r: SyscallEffect)
    requires
        old(mem).wf(),
    ensures
        final(mem).wf(),
        mem_copy_post(old(mem)@, final(mem)@, r, dest as int, src as int, n as int),
        r == SyscallEffect::Success(0u64) ==> bytes_at(final(mem)@, dest as int, n as int)
            == bytes_at(old(mem)@, src as int, n as int),
        r != SyscallEffect::Success(0u64) ==> *final(mem) == *old(mem),
{
    let buf = match mem.read_vec(src, n) {
        Ok(buf) => buf,
        Err(_) => {
            return SyscallEffect::BoundsFault;
        },
    };
    match mem.write(dest, &buf) {
        Ok(()) => {
            proof {
                crate::memory::lemma_store_then_read(old(mem)@, dest as int, buf@);
            }
            SyscallEffect::Success(0)
        },
        Err(_) => SyscallEffect::BoundsFault,
    }
}

/// The fill service: write `n` copies of the low byte of `c` at guest
/// address `s`. It succeeds exactly when the range is writable; on a bounds
/// failure guest memory is untouched.
pub fn sol_memset_syscall(mem: &mut MemoryRef, s: u64, c: u64, n: u64) -> (r: SyscallEffect)
    requires
        old(mem).wf(),
    ensures
        final(mem).wf(),
        mem_set_post(old(mem)@, final(mem)@, r, s as int, c, n as int),
        r == SyscallEffect::Success(0u64) ==> bytes_at(final(mem)@, s as int, n as int) == Seq::new(
            n as nat,
            |i: int| low_byte(c),
        ),
        r != SyscallEffect::Success(0u64) ==> *final(mem) == *old(mem),
{
    match mem.fill(s, (c % 256) as u8, n) {
        Ok(()) => {
            proof {
                crate::memory::lemma_store_then_read(
                    old(mem)@,
                    s as int,
                    Seq::new(n as nat, |i: int| low_byte(c)),
                );
            }
            SyscallEffect::Success(0)
        },
        Err(_) => SyscallEffect::BoundsFault,
    }
}

/// The compare service: read `n` bytes from each of `s1` and `s2`, compare
/// them as unsigned byte strings, and write the outcome (`-1`, `0` or `1`
/// as a 32-bit little-endian signed integer) to guest address `result_ptr`.
/// It succeeds exactly when both source ranges are readable and the
/// four-byte result range writable; on any bounds failure guest memory is
/// untouched.
pub fn sol_memcmp_syscall(
    mem: &mut MemoryRef,
    s1: u64,
    s2: u64,
    n: u64,
    result_ptr: u64,
) -> (r: SyscallEffect)
    requires
        old(mem).wf(),
    ensures
        final(mem).wf(),
        mem_cmp_post(old(mem)@, final(mem)@, r, s1 as int, s2 as int, n as int, result_ptr as int),
        r != SyscallEffect::Success(0u64) ==> *final(mem) == *old(mem),
{
    let buf1 = match mem.read_vec(s1, n) {
        Ok(buf) => buf,
        Err(_) => {
            return SyscallEffect::BoundsFault;
        },
    };
    let buf2 = match mem.read_vec(s2, n) {
        Ok(buf) => buf,
        Err(_) => {
            return SyscallEffect::BoundsFault;
        },
    };
    let outcome = compare_bytes(&buf1, &buf2);
    let out = cmp_result_bytes(outcome);
    match mem.write(result_ptr, &out) {
        Ok(()) => SyscallEffect::Success(0),
        Err(_) => SyscallEffect::BoundsFault,
    }
}

/// The abort service: whatever its five arguments, it converts the syscall
/// into a voluntary guest abort that ends the run, touching no memory. This
/// is the only built-in service that can end the run abnormally by design.
pub fn abort_syscall(
    mem: &mut MemoryRef,
    _arg1: u64,
    _arg2: u64,
    _arg3: u64,
    _arg4: u64,
    _arg5: u64,
) -> (r: SyscallEffect)
    requires
        old(mem).wf(),
    ensures
        final(mem).wf(),
        r == SyscallEffect::UserAbort,
        *final(mem) == *old(mem),
{
    SyscallEffect::UserAbort
}

/// The bridge service: forward the five raw syscall arguments and the
/// accessor over the current mapping to the supervisor's one callback. The
/// supervisor's own return value is discarded by design — the service
/// always reports success, so the supervisor can fail the run through this
/// channel in no way; it communicates only through side effects on guest
/// memory or on its own state.
pub fn ext_syscall<S: SupervisorContext>(
    context: &mut S,
    arg1: u64,
    arg2: u64,
    arg3: u64,
    arg4: u64,
    arg5: u64,
    mem: &mut MemoryRef,
) -> (r: SyscallEffect)
    requires
        old(mem).wf(),
    ensures
        final(mem).wf(),
        r == SyscallEffect::Success(0u64),
{
    let _ = context.supervisor_call(arg1, arg2, arg3, arg4, arg5, mem);
    SyscallEffect::Success(0)
}

} // verus!
