//! A projection of the CPU state (registers and an error flag) that is
//! handed to a host syscall handler. It is the only channel through which
//! a host reads or mutates CPU state during a syscall.

use vstd::prelude::*;

verus! {

/// Holds current state of the CPU, as exposed to a syscall handler.
pub struct CPUState {
    registers: [u16; 8],
    error_flag: bool,
}

impl CPUState {
    /// The eight register values carried by this projection.
    pub closed spec fn spec_registers(&self) -> Seq<u16> {
        self.registers@
    }

    /// The error flag carried by this projection.
    pub closed spec fn spec_error_flag(&self) -> bool {
        self.error_flag
    }

    /// Creates a new instance of CPUState. It clones the registers and
    /// starts with a clear error flag.
    pub fn new(registers: &[u16; 8]) -> (r: CPUState)
        ensures
            r.spec_registers() == registers@,
            !r.spec_error_flag(),
    {
        CPUState { registers: *registers, error_flag: false }
    }

    pub fn get_error_flag(&self) -> (r: bool)
        ensures
            r == self.spec_error_flag(),
    {
        self.error_flag
    }

    pub fn set_error_flag(&mut self, value: bool)
        ensures
            final(self).spec_error_flag() == value,
            final(self).spec_registers() == old(self).spec_registers(),
    {
        self.error_flag = value;
    }

    pub fn get_register(&self, index: usize) -> (r: u16)
        requires
            index < 8,
        ensures
            r == self.spec_registers()[index as int],
    {
        self.registers[index]
    }

    pub fn set_register(&mut self, index: usize, value: u16)
        requires
            index < 8,
        ensures
            final(self).spec_registers() == old(self).spec_registers().update(
                index as int,
                value,
            ),
            final(self).spec_error_flag() == old(self).spec_error_flag(),
    {
        self.registers[index] = value;
    }
}

} // verus!
