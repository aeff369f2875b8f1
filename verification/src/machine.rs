//! One machine of the arena: a named emulator with a credit budget.
//! Every clock costs one credit; a machine whose credit runs out, or
//! whose emulator faults, is dead.

use vstd::prelude::*;
use crate::hardware::operations::{spec_step, spec_syscall_clock_post};
use crate::hardware::{CpuView, HardwareError};
use crate::Emulator;

verus! {

/// Why a machine's clock failed: its emulator faulted, or its credit
/// ran out.
#[derive(Clone, Copy, PartialEq, Eq, Structural, Debug)]
pub enum MachineError {
    /// The emulator's clock failed with this fault.
    Hardware(HardwareError),
    /// The machine has no more credit.
    OutOfCredit,
}

/// The credit left after one paid clock: one less, stopping at zero.
pub open spec fn spec_credit_after(credit: u16) -> u16 {
    if credit > 0 {
        (credit - 1) as u16
    } else {
        0
    }
}

pub struct Machine {
    name: String,
    emulator: Emulator,
    credit: u16,
}

impl Machine {
    /// The machine's name.
    pub closed spec fn spec_name(&self) -> Seq<char> {
        self.name@
    }

    /// The credit the machine has left.
    pub closed spec fn spec_credit(&self) -> u16 {
        self.credit
    }

    /// The state of the machine's emulator.
    pub closed spec fn spec_emulator(&self) -> CpuView {
        self.emulator@
    }

    /// Creates a machine with a fresh emulator of the given memory size
    /// and the given starting credit.
    pub fn new(name: &String, memory_size: u16, initial_credit: u16) -> (r: Machine)
        ensures
            r.spec_name() == name@,
            r.spec_credit() == initial_credit,
            r.spec_emulator().wf(),
            r.spec_emulator().mem == Seq::new(memory_size as nat, |i: int| 0u16),
            r.spec_emulator().pc == 0,
            r.spec_emulator().regs == Seq::new(8, |i: int| 0u16),
            r.spec_emulator().stack == Seq::<u16>::empty(),
            !r.spec_emulator().error,
    {
        Machine { name: name.clone(), emulator: Emulator::new(memory_size), credit: initial_credit }
    }

    /// Registers the handler that serves this machine's system-call
    /// instruction.
    pub fn register_sys_callback(&mut self, callback: Box<dyn crate::SysCallback>)
        ensures
            final(self).spec_name() == old(self).spec_name(),
            final(self).spec_credit() == old(self).spec_credit(),
            final(self).spec_emulator() == (CpuView {
                has_callback: true,
                ..old(self).spec_emulator()
            }),
    {
        self.emulator.register_sys_callback(callback)
    }

    /// Gets the name of the machine.
    pub fn get_name(&self) -> (r: String)
        ensures
            r@ == self.spec_name(),
    {
        self.name.clone()
    }

    /// Loads a bot into the machine: a big-endian stream of words,
    /// written at the start of memory. An error leaves the machine
    /// untouched.
    pub fn load_bot(&mut self, stream: &Vec<u8>) -> (r: Result<(), &'static str>)
        ensures
            final(self).spec_name() == old(self).spec_name(),
            final(self).spec_credit() == old(self).spec_credit(),
            r is Ok <==> stream@.len() % 2 == 0 && stream@.len() / 2 <= old(
                self,
            ).spec_emulator().mem.len(),
            r is Err ==> final(self).spec_emulator() == old(self).spec_emulator(),
            r is Ok ==> final(self).spec_emulator() == (CpuView {
                mem: crate::hardware::mem_overwritten(
                    old(self).spec_emulator().mem,
                    crate::spec_stream_words(stream@),
                    0,
                ),
                ..old(self).spec_emulator()
            }),
            old(self).spec_emulator().wf() ==> final(self).spec_emulator().wf(),
    {
        self.emulator.load_from_stream(stream, 0)
    }

    /// Clocks the machine's CPU and spends one credit. The clock fails,
    /// and the machine is dead, when the emulator faults (the credit is
    /// then untouched) or when the credit reaches zero after a
    /// successful clock.
    pub fn clock(&mut self) -> (r: Result<(), MachineError>)
        requires
            old(self).spec_emulator().wf(),
        ensures
            final(self).spec_emulator().wf(),
            final(self).spec_name() == old(self).spec_name(),
            spec_step(old(self).spec_emulator()) matches Some(o) ==> {
                &&& final(self).spec_emulator() == o.next
                &&& (o.fault matches Some(e) ==> r == Err::<(), MachineError>(
                    MachineError::Hardware(e),
                ) && final(self).spec_credit() == old(self).spec_credit())
                &&& (o.fault is None ==> final(self).spec_credit() == spec_credit_after(
                    old(self).spec_credit(),
                ) && r == (if spec_credit_after(old(self).spec_credit()) == 0 {
                    Err::<(), MachineError>(MachineError::OutOfCredit)
                } else {
                    Ok::<(), MachineError>(())
                }))
            },
            spec_step(old(self).spec_emulator()) is None ==> exists|
                regs: Seq<u16>,
                handler_error: bool,
            |
                {
                    &&& regs.len() == 8
                    &&& final(self).spec_emulator() == spec_syscall_clock_post(
                        old(self).spec_emulator(),
                        regs,
                        handler_error,
                    )
                    &&& (handler_error ==> r == Err::<(), MachineError>(MachineError::Hardware(
                        HardwareError::SysCallFailed,
                    )) && final(self).spec_credit() == old(self).spec_credit())
                    &&& (!handler_error ==> final(self).spec_credit() == spec_credit_after(
                        old(self).spec_credit(),
                    ) && r == (if spec_credit_after(old(self).spec_credit()) == 0 {
                        Err::<(), MachineError>(MachineError::OutOfCredit)
                    } else {
                        Ok::<(), MachineError>(())
                    }))
                },
    {
        match self.emulator.clock() {
            Err(e) => {
                return Err(MachineError::Hardware(e));
            },
            Ok(()) => {},
        }

        if self.credit > 0 {
            self.credit = self.credit - 1;
        }

        if self.credit == 0 {
            return Err(MachineError::OutOfCredit);
        }

        Ok(())
    }
}

} // verus!
