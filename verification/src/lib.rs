//! A bounds-checked memory-isolation and syscall layer for sandboxed guest
//! programs.
//!
//! The library models a guest address space as a set of host-owned memory
//! regions, each mapped at a guest-visible base address with a fixed
//! permission. Every access a guest-invoked service performs is routed
//! through the bounds-checked accessor [`memory::MemoryRef`]; the built-in
//! memory services (copy, move, fill, compare), the supervisor bridge and
//! the abort service are implemented purely in terms of that accessor and
//! verified against exact contracts.

pub mod memory;
pub mod registry;
pub mod services;
pub mod session;
