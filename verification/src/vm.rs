//! Registers of the virtual machine that runs intermediate code.

use vstd::prelude::*;

verus! {

/// The index of a register of the virtual machine.
#[derive(Debug, Clone, Copy, PartialEq, Eq, Structural)]
pub struct RegisterIndex(pub usize);

impl RegisterIndex {
    /// The register with the given number.
    pub open spec fn nth(n: nat) -> RegisterIndex {
        RegisterIndex(n as usize)
    }

    /// The register that follows this one.
    pub fn next_index(&self) -> (next: RegisterIndex)
        requires
            self.0 < usize::MAX,
        ensures
            next.0 == self.0 + 1,
    {
        RegisterIndex(self.0 + 1)
    }
}

impl Default for RegisterIndex {
    /// The first register.
    fn default() -> (first: RegisterIndex)
        ensures
            first.0 == 0,
    {
        RegisterIndex(0)
    }
}

} // verus!
