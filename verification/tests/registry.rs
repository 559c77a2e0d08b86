use ebpf_sandbox::registry::builtin_registry;
use ebpf_sandbox::registry::service_name;
use ebpf_sandbox::registry::BuiltinService;
use ebpf_sandbox::registry::RegistryError;
use ebpf_sandbox::registry::SyscallRegistry;

#[test]
fn service_names_match_the_engine_convention() {
    assert_eq!(service_name(BuiltinService::Abort), b"abort".to_vec());
    assert_eq!(service_name(BuiltinService::ExtSyscall), b"ext_syscall".to_vec());
    assert_eq!(service_name(BuiltinService::MemCopy), b"sol_memcpy_".to_vec());
    assert_eq!(service_name(BuiltinService::MemMove), b"sol_memmove_".to_vec());
    assert_eq!(service_name(BuiltinService::MemSet), b"sol_memset_".to_vec());
    assert_eq!(service_name(BuiltinService::MemCmp), b"sol_memcmp_".to_vec());
}

#[test]
fn register_and_lookup() {
    let mut reg = SyscallRegistry::new();
    assert!(reg.register(b"abort".to_vec(), BuiltinService::Abort).is_ok());
    assert!(reg.register(b"ext_syscall".to_vec(), BuiltinService::ExtSyscall).is_ok());
    assert_eq!(reg.lookup(&b"abort".to_vec()), Some(BuiltinService::Abort));
    assert_eq!(reg.lookup(&b"ext_syscall".to_vec()), Some(BuiltinService::ExtSyscall));
    assert_eq!(reg.lookup(&b"sol_memcpy_".to_vec()), None);
    assert_eq!(reg.len(), 2);
}

#[test]
fn duplicate_name_is_a_setup_fault() {
    let mut reg = SyscallRegistry::new();
    assert!(reg.register(b"abort".to_vec(), BuiltinService::Abort).is_ok());
    let r = reg.register(b"abort".to_vec(), BuiltinService::MemCopy);
    assert_eq!(r, Err(RegistryError::DuplicateName));
    // The failed registration changed nothing.
    assert_eq!(reg.len(), 1);
    assert_eq!(reg.lookup(&b"abort".to_vec()), Some(BuiltinService::Abort));
}

#[test]
fn builtin_registry_binds_the_six_services_in_order() {
    let reg = builtin_registry();
    assert_eq!(reg.len(), 6);
    let expected: [(&[u8], BuiltinService); 6] = [
        (b"abort", BuiltinService::Abort),
        (b"ext_syscall", BuiltinService::ExtSyscall),
        (b"sol_memcpy_", BuiltinService::MemCopy),
        (b"sol_memmove_", BuiltinService::MemMove),
        (b"sol_memset_", BuiltinService::MemSet),
        (b"sol_memcmp_", BuiltinService::MemCmp),
    ];
    for (i, (name, service)) in expected.iter().enumerate() {
        assert_eq!(reg.entries[i].name, name.to_vec());
        assert_eq!(reg.entries[i].service, *service);
        assert_eq!(reg.lookup(&name.to_vec()), Some(*service));
    }
}
