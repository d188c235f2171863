//! Typed, non-owning handles for IR units crossing the native boundary.
//!
//! The host hands IR units (modules, functions) to the bridge as raw
//! addresses. A handle records that address together with the kind of
//! unit it stands for; it never owns the pointee, and equality between
//! handles is equality of the addresses. The lifetime of the underlying
//! object is governed entirely by the host.

use vstd::prelude::*;

verus! {

/// Non-owning handle to a module IR unit held by the host.
#[derive(Clone, Copy, PartialEq, Eq, Structural, Debug)]
pub struct ModuleHandle {
    /// Address of the native module object. Identity, never dereferenced
    /// by the verified core.
    pub addr: usize,
}

impl ModuleHandle {
    /// Wraps the address of a native module object.
    pub fn from_address(addr: usize) -> (r: ModuleHandle)
        ensures
            r.addr == addr,
    {
        ModuleHandle { addr }
    }
}

/// Non-owning handle to a function IR unit held by the host.
#[derive(Clone, Copy, PartialEq, Eq, Structural, Debug)]
pub struct FunctionHandle {
    /// Address of the native function object. Identity, never
    /// dereferenced by the verified core.
    pub addr: usize,
}

impl FunctionHandle {
    /// Wraps the address of a native function object.
    pub fn from_address(addr: usize) -> (r: FunctionHandle)
        ensures
            r.addr == addr,
    {
        FunctionHandle { addr }
    }
}

} // verus!
