//! The interface a host implements to handle the system-call instruction.

use vstd::prelude::*;
use crate::cpu_state::CPUState;

verus! {

/// A structure that is responsible for handling system calls should
/// implement this trait. The handler may read and write the projected
/// registers and may raise the projection's error flag; the library
/// promises nothing about what a handler does to the projection.
pub trait SysCallback {
    /// Called whenever the program executes the system-call instruction.
    fn syscall(&mut self, cpu_state: &mut CPUState);
}

} // verus!
