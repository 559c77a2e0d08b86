//! The capability registry: the fixed mapping from a byte-string service
//! name to a host service, built once per run and immutable once the guest
//! starts executing.
//!
//! Duplicate names are a setup-time construction error, never a run-time
//! one: [`SyscallRegistry::register`] refuses a name already present, and
//! [`builtin_registry`] is proved to register all six built-in services
//! without ever hitting that error.

use vstd::prelude::*;

verus! {

/// The built-in services of the core, one per registered name.
#[derive(Clone, Copy, PartialEq, Eq, Debug)]
pub enum BuiltinService {
    Abort,
    ExtSyscall,
    MemCopy,
    MemMove,
    MemSet,
    MemCmp,
}

/// The byte-string name under which each built-in service is registered:
/// the ASCII bytes of `abort`, `ext_syscall`, `sol_memcpy_`, `sol_memmove_`,
/// `sol_memset_` and `sol_memcmp_` respectively.
pub open spec fn spec_service_name(s: BuiltinService) -> Seq<u8> {
    match s {
        BuiltinService::Abort => seq![97u8, 98u8, 111u8, 114u8, 116u8],
        BuiltinService::ExtSyscall => seq![
            101u8,
            120u8,
            116u8,
            95u8,
            115u8,
            121u8,
            115u8,
            99u8,
            97u8,
            108u8,
            108u8,
        ],
        BuiltinService::MemCopy => seq![
            115u8,
            111u8,
            108u8,
            95u8,
            109u8,
            101u8,
            109u8,
            99u8,
            112u8,
            121u8,
            95u8,
        ],
        BuiltinService::MemMove => seq![
            115u8,
            111u8,
            108u8,
            95u8,
            109u8,
            101u8,
            109u8,
            109u8,
            111u8,
            118u8,
            101u8,
            95u8,
        ],
        BuiltinService::MemSet => seq![
            115u8,
            111u8,
            108u8,
            95u8,
            109u8,
            101u8,
            109u8,
            115u8,
            101u8,
            116u8,
            95u8,
        ],
        BuiltinService::MemCmp => seq![
            115u8,
            111u8,
            108u8,
            95u8,
            109u8,
            101u8,
            109u8,
            99u8,
            109u8,
            112u8,
            95u8,
        ],
    }
}

/// No two built-in services share a name.
pub proof fn lemma_service_names_distinct(a: BuiltinService, b: BuiltinService)
    requires
        a != b,
    ensures
        spec_service_name(a) != spec_service_name(b),
{
}

/// The byte-string name of a built-in service, as the engine's loader sees
/// it.
pub fn service_name(s: BuiltinService) -> (r: Vec<u8>)
    ensures
        r@ == spec_service_name(s),
{
    let mut v: Vec<u8> = Vec::new();
    match s {
        BuiltinService::Abort => {
            v.push(97);
            v.push(98);
            v.push(111);
            v.push(114);
            v.push(116);
        },
        BuiltinService::ExtSyscall => {
            v.push(101);
            v.push(120);
            v.push(116);
            v.push(95);
            v.push(115);
            v.push(121);
            v.push(115);
            v.push(99);
            v.push(97);
            v.push(108);
            v.push(108);
        },
        BuiltinService::MemCopy => {
            v.push(115);
            v.push(111);
            v.push(108);
            v.push(95);
            v.push(109);
            v.push(101);
            v.push(109);
            v.push(99);
            v.push(112);
            v.push(121);
            v.push(95);
        },
        BuiltinService::MemMove => {
            v.push(115);
            v.push(111);
            v.push(108);
            v.push(95);
            v.push(109);
            v.push(101);
            v.push(109);
            v.push(109);
            v.push(111);
            v.push(118);
            v.push(101);
            v.push(95);
        },
        BuiltinService::MemSet => {
            v.push(115);
            v.push(111);
            v.push(108);
            v.push(95);
            v.push(109);
            v.push(101);
            v.push(109);
            v.push(115);
            v.push(101);
            v.push(116);
            v.push(95);
        },
        BuiltinService::MemCmp => {
            v.push(115);
            v.push(111);
            v.push(108);
            v.push(95);
            v.push(109);
            v.push(101);
            v.push(109);
            v.push(99);
            v.push(109);
            v.push(112);
            v.push(95);
        },
    }
    proof {
        assert(v@ =~= spec_service_name(s));
    }
    v
}

/// Registering a name that is already present: the one setup fault the
/// registry can raise, surfaced before any guest code runs.
#[derive(Clone, Copy, PartialEq, Eq, Debug)]
pub enum RegistryError {
    DuplicateName,
}

/// One registration: a unique byte-string name bound to a service.
pub struct RegistryEntry {
    pub name: Vec<u8>,
    pub service: BuiltinService,
}

impl View for RegistryEntry {
    type V = (Seq<u8>, BuiltinService);

    open spec fn view(&self) -> (Seq<u8>, BuiltinService) {
        (self.name@, self.service)
    }
}

/// Some entry binds `name`.
pub open spec fn contains_name(rv: Seq<(Seq<u8>, BuiltinService)>, name: Seq<u8>) -> bool {
    exists|i: int| 0 <= i < rv.len() && (#[trigger] rv[i]).0 == name
}

/// Some entry binds `name` to `service`.
pub open spec fn binds(
    rv: Seq<(Seq<u8>, BuiltinService)>,
    name: Seq<u8>,
    service: BuiltinService,
) -> bool {
    exists|i: int| 0 <= i < rv.len() && (#[trigger] rv[i]) == (name, service)
}

/// Two bytes buffers hold the same bytes.
fn bytes_eq(a: &Vec<u8>, b: &Vec<u8>) -> (r: bool)
    ensures
        r == (a@ == b@),
{
    if a.len() != b.len() {
        return false;
    }
    let n = a.len();
    let mut i: usize = 0;
    #[verifier::loop_isolation(false)]
    while i < n
        invariant
            0 <= i <= n,
            forall|j: int| 0 <= j < i ==> a@[j] == b@[j],
        decreases n - i,
    {
        if a[i] != b[i] {
            return false;
        }
        i = i + 1;
    }
    proof {
        assert(a@ =~= b@);
    }
    true
}

/// The mapping from service name to host service for one run. Registration
/// order is insertion order; names are unique; the registry is handed to
/// the engine before the program runs and never changes afterwards.
pub struct SyscallRegistry {
    pub entries: Vec<RegistryEntry>,
}

impl View for SyscallRegistry {
    type V = Seq<(Seq<u8>, BuiltinService)>;

    open spec fn view(&self) -> Seq<(Seq<u8>, BuiltinService)> {
        self.entries@.map_values(|e: RegistryEntry| e@)
    }
}

impl SyscallRegistry {
    /// Names are pairwise distinct.
    pub open spec fn wf(&self) -> bool {
        forall|i: int, j: int|
            0 <= i < self@.len() && 0 <= j < self@.len() && i != j ==> (#[trigger] self@[i]).0 != (
            #[trigger] self@[j]).0
    }

    /// A registry with no entries.
    pub fn new() -> (r: SyscallRegistry)
        ensures
            r@ =~= Seq::<(Seq<u8>, BuiltinService)>::empty(),
            r.wf(),
    {
        SyscallRegistry { entries: Vec::new() }
    }

    /// Associate a unique name with a service. Fails, leaving the registry
    /// unchanged, exactly when the name is already bound.
    pub fn register(&mut self, name: Vec<u8>, service: BuiltinService) -> (r: Result<
        (),
        RegistryError,
    >)
        requires
            old(self).wf(),
        ensures
            final(self).wf(),
            r is Ok <==> !contains_name(old(self)@, name@),
            r is Ok ==> final(self)@ =~= old(self)@.push((name@, service)),
            r is Err ==> *final(self) == *old(self) && r == Err::<(), RegistryError>(
                RegistryError::DuplicateName,
            ),
    {
        let n = self.entries.len();
        let mut i: usize = 0;
        #[verifier::loop_isolation(false)]
        while i < n
            invariant
                0 <= i <= n,
                forall|j: int| 0 <= j < i ==> (#[trigger] self@[j]).0 != name@,
            decreases n - i,
        {
            if bytes_eq(&self.entries[i].name, &name) {
                assert(self@[i as int].0 == name@);
                return Err(RegistryError::DuplicateName);
            }
            assert(self@[i as int].0 != name@);
            i = i + 1;
        }
        assert(!contains_name(self@, name@));
        let ghost nm = name@;
        let ghost oldv = self@;
        self.entries.push(RegistryEntry { name, service });
        proof {
            assert(self@ =~= oldv.push((nm, service)));
            assert forall|p: int, q: int|
                0 <= p < self@.len() && 0 <= q < self@.len() && p != q implies (
            #[trigger] self@[p]).0 != (#[trigger] self@[q]).0 by {
                if p < oldv.len() && q < oldv.len() {
                } else if p == oldv.len() {
                    assert(oldv[q].0 != nm);
                } else {
                    assert(oldv[p].0 != nm);
                }
            }
        }
        Ok(())
    }

    /// Look a name up. Under well-formedness the result is the one service
    /// bound to the name, or nothing when the name is not bound.
    pub fn lookup(&self, name: &Vec<u8>) -> (r: Option<BuiltinService>)
        ensures
            r is Some <==> contains_name(self@, name@),
            r matches Some(s) ==> binds(self@, name@, s),
    {
        let n = self.entries.len();
        let mut i: usize = 0;
        #[verifier::loop_isolation(false)]
        while i < n
            invariant
                0 <= i <= n,
                forall|j: int| 0 <= j < i ==> (#[trigger] self@[j]).0 != name@,
            decreases n - i,
        {
            if bytes_eq(&self.entries[i].name, name) {
                assert(self@[i as int] == (name@, self.entries@[i as int].service));
                return Some(self.entries[i].service);
            }
            assert(self@[i as int].0 != name@);
            i = i + 1;
        }
        None
    }

    /// How many names are bound.
    pub fn len(&self) -> (r: usize)
        ensures
            r == self@.len(),
    {
        self.entries.len()
    }
}

/// The registry of one run: the six built-in services under their fixed
/// names, in insertion order. Building it is proved to raise no setup
/// fault: the six names are pairwise distinct.
pub fn builtin_registry() -> (r: SyscallRegistry)
    ensures
        r.wf(),
        r@.len() == 6,
        r@[0] == (spec_service_name(BuiltinService::Abort), BuiltinService::Abort),
        r@[1] == (spec_service_name(BuiltinService::ExtSyscall), BuiltinService::ExtSyscall),
        r@[2] == (spec_service_name(BuiltinService::MemCopy), BuiltinService::MemCopy),
        r@[3] == (spec_service_name(BuiltinService::MemMove), BuiltinService::MemMove),
        r@[4] == (spec_service_name(BuiltinService::MemSet), BuiltinService::MemSet),
        r@[5] == (spec_service_name(BuiltinService::MemCmp), BuiltinService::MemCmp),
{
    let mut reg = SyscallRegistry::new();
    let services: [BuiltinService; 6] = [
        BuiltinService::Abort,
        BuiltinService::ExtSyscall,
        BuiltinService::MemCopy,
        BuiltinService::MemMove,
        BuiltinService::MemSet,
        BuiltinService::MemCmp,
    ];
    let mut k: usize = 0;
    #[verifier::loop_isolation(false)]
    while k < 6
        invariant
            0 <= k <= 6,
            reg.wf(),
            reg@.len() == k,
            forall|j: int| 0 <= j < k ==> #[trigger] reg@[j] == (
                spec_service_name(services@[j]),
                services@[j],
            ),
        decreases 6 - k,
    {
        let s = services[k];
        let name = service_name(s);
        proof {
            assert forall|j: int| 0 <= j < k implies (#[trigger] reg@[j]).0 != name@ by {
                lemma_service_names_distinct(services@[j], s);
            }
            assert(!contains_name(reg@, name@));
        }
        let res = reg.register(name, s);
        proof {
            assert(res is Ok);
        }
        k = k + 1;
    }
    reg
}

} // verus!
