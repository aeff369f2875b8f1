//! The hardware of the emulator: registers, memory, program counter,
//! call stack and flags of a single machine, together with the
//! fetch-decode-execute clock.

use vstd::prelude::*;
use crate::cpu_state::CPUState;
use crate::sys_callback::SysCallback;

pub mod operation_code;
pub mod operations;

verus! {

use crate::hardware::operations::{
    op_add, op_copy, op_jump, op_nop, op_return, op_set_register, op_skip_if_equal,
    op_skip_if_greater, op_skip_if_zero, op_subroutine, op_subtract, op_syscall,
    spec_operand_value, spec_outcome_result, spec_step, spec_syscall_clock_post, Operation,
    Operations,
};

/// Greatest number of return addresses the call stack may hold; a
/// SUBROUTINE beyond this depth fails with a stack overflow.
pub const CALL_STACK_LIMIT: usize = 16;

/// The run-time faults of the emulator. Any of them surfaces as a
/// failed clock and leaves the machine in its sticky error state.
#[derive(Clone, Copy, PartialEq, Eq, Structural, Debug)]
pub enum HardwareError {
    /// The machine was clocked while already in the error state.
    ErrorState,
    /// The program counter points at or beyond the end of memory.
    PcOutOfBounds,
    /// The fetched word (carried here) decodes to no known opcode.
    UnknownInstruction(u16),
    /// An operand field names a register above seven.
    InvalidRegister(u8),
    /// A dereferenced address (carried with the register it came from)
    /// lies at or beyond the end of memory.
    AddressOutOfMemory(u16, u8),
    /// A program-counter-relative dereference overflowed the 16-bit
    /// address space (carries the program counter and the register).
    AddressOverflow(u16, u8),
    /// The operand of this instruction word resolved to a
    /// program-counter-relative value where a location was required.
    UnsupportedAddressType(u16),
    /// A SUBROUTINE was executed with the call stack already full.
    StackOverflow,
    /// A RETURN was executed with the call stack empty.
    StackUnderflow,
    /// A SYSCALL was executed with no callback registered.
    NoSysCallback,
    /// The syscall handler reported an error in the state projection.
    SysCallFailed,
}

/// The mathematical state of one machine: what the contracts of this
/// module speak about.
#[verifier::ext_equal]
pub ghost struct CpuView {
    pub mem: Seq<u16>,
    pub pc: u16,
    pub regs: Seq<u16>,
    pub stack: Seq<u16>,
    pub overflow: bool,
    pub underflow: bool,
    pub error: bool,
    pub has_callback: bool,
}

impl CpuView {
    /// Every reachable machine state satisfies this: the memory fits a
    /// 16-bit address space, there are eight registers, and the call
    /// stack respects its bound.
    pub open spec fn wf(self) -> bool {
        &&& self.mem.len() <= 0xFFFF
        &&& self.regs.len() == 8
        &&& self.stack.len() <= CALL_STACK_LIMIT
    }

    /// The same state with the sticky error flag raised.
    pub open spec fn with_error(self) -> CpuView {
        CpuView { error: true, ..self }
    }
}

/// `mem` with `data` written over it starting at `start` (the caller
/// guarantees the write fits).
pub open spec fn mem_overwritten(mem: Seq<u16>, data: Seq<u16>, start: int) -> Seq<u16> {
    Seq::new(mem.len(), |i: int| if start <= i < start + data.len() { data[i - start] } else { mem[i] })
}

pub struct Hardware {
    pub(crate) memory: Vec<u16>,
    pub(crate) program_counter: u16,
    pub(crate) registers: [u16; 8],
    pub(crate) call_stack: Vec<u16>,
    pub(crate) overflow_flag: bool,
    pub(crate) underflow_flag: bool,
    pub(crate) error_flag: bool,
    pub(crate) sys_callback: Option<Box<dyn SysCallback>>,
    pub(crate) operations: Operations,
}

impl View for Hardware {
    type V = CpuView;

    open(crate) spec fn view(&self) -> CpuView {
        CpuView {
            mem: self.memory@,
            pc: self.program_counter,
            regs: self.registers@,
            stack: self.call_stack@,
            overflow: self.overflow_flag,
            underflow: self.underflow_flag,
            error: self.error_flag,
            has_callback: self.sys_callback is Some,
        }
    }
}

impl Hardware {
    /// Creates an instance of the Hardware struct with zeroed memory of
    /// the given size, zeroed registers, PC at zero, an empty call stack
    /// and all flags clear.
    pub fn new(memory_size: u16) -> (r: Hardware)
        ensures
            r@.wf(),
            r@.mem == Seq::new(memory_size as nat, |i: int| 0u16),
            r@.pc == 0,
            r@.regs == Seq::new(8, |i: int| 0u16),
            r@.stack == Seq::<u16>::empty(),
            !r@.overflow,
            !r@.underflow,
            !r@.error,
            !r@.has_callback,
    {
        let mut memory: Vec<u16> = Vec::new();
        let mut i: usize = 0;
        while i < memory_size as usize
            invariant
                i <= memory_size,
                memory@.len() == i,
                forall|j: int| 0 <= j < i ==> memory@[j] == 0u16,
            decreases memory_size - i,
        {
            memory.push(0u16);
            i += 1;
        }
        let r = Hardware {
            memory,
            program_counter: 0,
            registers: [0u16; 8],
            call_stack: Vec::new(),
            overflow_flag: false,
            underflow_flag: false,
            error_flag: false,
            sys_callback: None,
            operations: Operations::new(),
        };
        proof {
            assert(r@.mem =~= Seq::new(memory_size as nat, |i: int| 0u16));
            assert(r@.regs =~= Seq::new(8, |i: int| 0u16));
            assert(r@.stack =~= Seq::<u16>::empty());
        }
        r
    }

    /// Loads the specified data into memory starting at `start`.
    /// Returns an error, and leaves the machine untouched, if the data
    /// does not fit.
    pub fn load(&mut self, data: &Vec<u16>, start: u16) -> (r: Result<(), &'static str>)
        ensures
            r is Ok <==> start + data@.len() <= old(self)@.mem.len(),
            r is Err ==> final(self)@ == old(self)@,
            r is Ok ==> final(self)@ == (CpuView {
                mem: mem_overwritten(old(self)@.mem, data@, start as int),
                ..old(self)@
            }),
            old(self)@.wf() ==> final(self)@.wf(),
    {
        let start_size: usize = start as usize;

        if data.len() > self.memory.len() || start_size > self.memory.len() - data.len() {
            return Err("Out of memory: Data won't fit in memory starting from specified address.");
        }

        let ghost old_mem = self.memory@;
        let mut i: usize = 0;
        while i < data.len()
            invariant
                i <= data@.len(),
                start_size + data@.len() <= self.memory@.len(),
                self.memory@.len() <= usize::MAX,
                start_size == start,
                self.memory@.len() == old_mem.len(),
                data@.len() == data.len(),
                forall|j: int| 0 <= j < i ==> self.memory@[start_size + j] == data@[j],
                forall|j: int| 0 <= j < self.memory@.len()
                    && !(start_size <= j < start_size + i) ==> self.memory@[j] == old_mem[j],
                self.program_counter == old(self).program_counter,
                self.registers == old(self).registers,
                self.call_stack == old(self).call_stack,
                self.overflow_flag == old(self).overflow_flag,
                self.underflow_flag == old(self).underflow_flag,
                self.error_flag == old(self).error_flag,
                self.sys_callback is Some <==> old(self).sys_callback is Some,
            decreases data@.len() - i,
        {
            let index = start_size + i;
            self.memory[index] = data[i];
            i += 1;
        }
        proof {
            assert(self.memory@ =~= mem_overwritten(old_mem, data@, start as int));
        }
        Ok(())
    }

    /// Increases the memory by `additional` zero-filled cells.
    /// Returns the new size, or an error (leaving the machine untouched)
    /// if `additional` is zero or the new size would not fit the 16-bit
    /// address space.
    pub fn increase_memory(&mut self, additional: u16) -> (r: Result<u16, &'static str>)
        requires
            old(self)@.wf(),
        ensures
            final(self)@.wf(),
            r is Ok <==> additional > 0 && old(self)@.mem.len() + additional <= 0xFFFF,
            r is Err ==> final(self)@ == old(self)@,
            r is Ok ==> r == Ok::<u16, &'static str>(
                (old(self)@.mem.len() + additional) as u16,
            ) && final(self)@ == (CpuView {
                mem: old(self)@.mem + Seq::new(additional as nat, |i: int| 0u16),
                ..old(self)@
            }),
    {
        if additional == 0 {
            return Err("Additional bytes cannot be zero.");
        }

        let current_size = self.memory.len() as u16;
        let new_size = match current_size.checked_add(additional) {
            Some(v) => v,
            None => return Err("New size will become more than 65536 bytes."),
        };

        let ghost old_mem = self.memory@;
        let mut i: u16 = current_size;
        while i < new_size
            invariant
                current_size <= i <= new_size,
                self.memory@.len() == i,
                self.memory@ == old_mem + Seq::new((i - current_size) as nat, |j: int| 0u16),
                old_mem.len() == current_size,
                self.program_counter == old(self).program_counter,
                self.registers == old(self).registers,
                self.call_stack == old(self).call_stack,
                self.overflow_flag == old(self).overflow_flag,
                self.underflow_flag == old(self).underflow_flag,
                self.error_flag == old(self).error_flag,
                self.sys_callback is Some <==> old(self).sys_callback is Some,
            decreases new_size - i,
        {
            self.memory.push(0u16);
            i += 1;
            proof {
                assert(self.memory@ =~= old_mem + Seq::new((i - current_size) as nat, |j: int| 0u16));
            }
        }
        Ok(new_size)
    }

    /// Registers the handler that will serve the system-call instruction.
    pub fn register_sys_callback(&mut self, callback: Box<dyn SysCallback>)
        ensures
            final(self)@ == (CpuView { has_callback: true, ..old(self)@ }),
    {
        self.sys_callback = Some(callback);
    }

    /// Invokes the registered syscall handler on the given projection.
    /// Fails when no handler is registered. The handler may change the
    /// projection arbitrarily; the machine itself is untouched.
    pub fn call_syscall(&mut self, cpu_state: &mut CPUState) -> (r: Result<(), &'static str>)
        ensures
            final(self)@ == old(self)@,
            r is Ok <==> old(self)@.has_callback,
    {
        match &mut self.sys_callback {
            None => Err("This machine does not support sys calls."),
            Some(callback) => {
                callback.syscall(cpu_state);
                Ok(())
            },
        }
    }

    /// Executes one clock of the CPU: refuses an errored machine,
    /// checks the program counter, fetches and decodes the word it
    /// points at, and executes it. Any fault raises the sticky error
    /// flag and is returned. The machine moves exactly as the step
    /// model `spec_step` prescribes; the one case the model leaves
    /// open, a syscall served by a registered callback, leaves memory,
    /// call stack and flags untouched, advances the program counter on
    /// success, and takes whatever registers the handler left.
    pub fn clock(&mut self) -> (r: Result<(), HardwareError>)
        requires
            old(self)@.wf(),
        ensures
            final(self)@.wf(),
            spec_step(old(self)@) matches Some(o) ==> final(self)@ == o.next && r
                == spec_outcome_result(o.fault),
            spec_step(old(self)@) is None ==> exists|regs: Seq<u16>, handler_error: bool|
                regs.len() == 8 && final(self)@ == spec_syscall_clock_post(
                    old(self)@,
                    regs,
                    handler_error,
                ) && r == (if handler_error {
                    Err::<(), HardwareError>(HardwareError::SysCallFailed)
                } else {
                    Ok::<(), HardwareError>(())
                }),
    {
        if self.error_flag {
            return Err(HardwareError::ErrorState);
        }

        if self.program_counter as usize >= self.memory.len() {
            self.error_flag = true;
            return Err(HardwareError::PcOutOfBounds);
        }

        // Fetching the current instruction.
        let instruction = self.memory[self.program_counter as usize];

        // Finding the handler for this instruction.
        let operation = match self.operations.get_function(instruction) {
            Ok(op) => op,
            Err(e) => {
                self.error_flag = true;
                return Err(e);
            },
        };

        // Executing the handler.
        let result = match operation {
            Operation::Nop => op_nop(self, instruction),
            Operation::Syscall => op_syscall(self, instruction),
            Operation::Return => op_return(self, instruction),
            Operation::Jump => op_jump(self, instruction),
            Operation::SkipIfZero => op_skip_if_zero(self, instruction),
            Operation::Subroutine => op_subroutine(self, instruction),
            Operation::Copy => op_copy(self, instruction),
            Operation::Add => op_add(self, instruction),
            Operation::Subtract => op_subtract(self, instruction),
            Operation::SkipIfEqual => op_skip_if_equal(self, instruction),
            Operation::SkipIfGreater => op_skip_if_greater(self, instruction),
            Operation::SetRegister => op_set_register(self, instruction),
        };

        match result {
            Ok(()) => {
                proof {
                    if spec_step(old(self)@) is None {
                        let (regs, handler_error) = choose|regs: Seq<u16>, handler_error: bool|
                            regs.len() == 8 && self@ == operations::spec_syscall_post(
                                old(self)@,
                                regs,
                                handler_error,
                            ) && Ok::<(), HardwareError>(()) == (if handler_error {
                                Err::<(), HardwareError>(HardwareError::SysCallFailed)
                            } else {
                                Ok::<(), HardwareError>(())
                            });
                        assert(regs.len() == 8 && self@ == spec_syscall_clock_post(
                            old(self)@,
                            regs,
                            false,
                        ));
                    }
                }
                Ok(())
            },
            Err(e) => {
                let ghost mid = self@;
                // This hardware is no longer in a valid state.
                self.error_flag = true;
                proof {
                    if spec_step(old(self)@) is None {
                        let (regs, handler_error) = choose|regs: Seq<u16>, handler_error: bool|
                            regs.len() == 8 && mid == operations::spec_syscall_post(
                                old(self)@,
                                regs,
                                handler_error,
                            ) && Err::<(), HardwareError>(e) == (if handler_error {
                                Err::<(), HardwareError>(HardwareError::SysCallFailed)
                            } else {
                                Ok::<(), HardwareError>(())
                            });
                        assert(regs.len() == 8 && self@ =~= spec_syscall_clock_post(
                            old(self)@,
                            regs,
                            true,
                        ));
                    }
                }
                Err(e)
            },
        }
    }

    /// Gets the value that the 6-bit operand field `address` stands
    /// for, accepting all four addressing modes. (The word handed to
    /// the model only feeds the unsupported-mode fault, which cannot
    /// arise here, so any word does.)
    pub fn get_operand(&self, address: u8) -> (r: Result<u16, HardwareError>)
        ensures
            r == spec_operand_value(self@, address, true, 0u16),
    {
        match operations::get_true_address(self, address) {
            Err(e) => Err(e),
            Ok(operations::Address::Register(register_number)) => Ok(
                self.registers[register_number as usize],
            ),
            Ok(operations::Address::Memory(memory_address)) => Ok(
                self.memory[memory_address as usize],
            ),
            Ok(operations::Address::RegisterPlusPC(value)) => Ok(value),
        }
    }

    /// The current program counter.
    pub fn get_program_counter(&self) -> (r: u16)
        ensures
            r == self@.pc,
    {
        self.program_counter
    }

    /// Sets the program counter directly.
    pub fn set_program_counter(&mut self, value: u16)
        ensures
            final(self)@ == (CpuView { pc: value, ..old(self)@ }),
    {
        self.program_counter = value;
    }

    /// The value of register `index`.
    pub fn get_register(&self, index: usize) -> (r: u16)
        requires
            index < 8,
        ensures
            r == self@.regs[index as int],
    {
        self.registers[index]
    }

    /// Sets register `index` directly.
    pub fn set_register(&mut self, index: usize, value: u16)
        requires
            index < 8,
        ensures
            final(self)@ == (CpuView {
                regs: old(self)@.regs.update(index as int, value),
                ..old(self)@
            }),
    {
        self.registers[index] = value;
    }

    /// The word stored at memory cell `address`.
    pub fn get_memory(&self, address: usize) -> (r: u16)
        requires
            address < self@.mem.len(),
        ensures
            r == self@.mem[address as int],
    {
        self.memory[address]
    }

    /// How many words of memory this machine has.
    pub fn get_memory_size(&self) -> (r: usize)
        ensures
            r == self@.mem.len(),
    {
        self.memory.len()
    }

    /// The word stored at memory cell `address` replaced by `value`.
    pub fn set_memory(&mut self, address: usize, value: u16)
        requires
            address < old(self)@.mem.len(),
        ensures
            final(self)@ == (CpuView {
                mem: old(self)@.mem.update(address as int, value),
                ..old(self)@
            }),
    {
        self.memory[address] = value;
    }

    /// Whether the overflow flag is set (a stack overflow or a
    /// saturated ADD).
    pub fn get_overflow_flag(&self) -> (r: bool)
        ensures
            r == self@.overflow,
    {
        self.overflow_flag
    }

    /// Whether the underflow flag is set (a RETURN from an empty call
    /// stack).
    pub fn get_underflow_flag(&self) -> (r: bool)
        ensures
            r == self@.underflow,
    {
        self.underflow_flag
    }

    /// Whether the sticky error flag is set.
    pub fn get_error_flag(&self) -> (r: bool)
        ensures
            r == self@.error,
    {
        self.error_flag
    }

    /// The return addresses currently on the call stack, oldest first.
    pub fn get_call_stack(&self) -> (r: &Vec<u16>)
        ensures
            r@ == self@.stack,
    {
        &self.call_stack
    }
}

} // verus!
