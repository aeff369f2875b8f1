//! The micro-operations of the CPU: decoding an instruction word to its
//! handler, resolving operand fields to locations or values, and the
//! per-opcode semantics. The spec functions in this module form the
//! mathematical model that the clock's contract is stated against.

use vstd::prelude::*;
use crate::cpu_state::CPUState;
use crate::hardware::{CpuView, Hardware, HardwareError, CALL_STACK_LIMIT};

verus! {

/// Identifies the handler of one opcode.
#[derive(Clone, Copy, PartialEq, Eq, Structural, Debug)]
pub enum Operation {
    Nop,
    Syscall,
    Return,
    Jump,
    SkipIfZero,
    Subroutine,
    Copy,
    Add,
    Subtract,
    SkipIfEqual,
    SkipIfGreater,
    SetRegister,
}

/// The handler, if any, that the word `w` decodes to. The opcode key is
/// the shape-appropriate masked part of the word; an unknown key is an
/// illegal instruction.
pub open spec fn spec_decode_op(w: u16) -> Option<Operation> {
    if w & 0xFFC0u16 == 0 {
        if w == 0 {
            Some(Operation::Nop)
        } else if w == 1 {
            Some(Operation::Syscall)
        } else if w == 2 {
            Some(Operation::Return)
        } else {
            None
        }
    } else if w & 0xF000u16 == 0 {
        let key = w & 0x0FC0u16;
        if key == 0x0040 {
            Some(Operation::Jump)
        } else if key == 0x0080 {
            Some(Operation::SkipIfZero)
        } else if key == 0x00C0 {
            Some(Operation::Subroutine)
        } else {
            None
        }
    } else {
        let key = w & 0xF000u16;
        if key == 0x1000 {
            Some(Operation::Copy)
        } else if key == 0x2000 {
            Some(Operation::Add)
        } else if key == 0x3000 {
            Some(Operation::Subtract)
        } else if key == 0x4000 {
            Some(Operation::SkipIfEqual)
        } else if key == 0x5000 {
            Some(Operation::SkipIfGreater)
        } else if key == 0x6000 {
            Some(Operation::SetRegister)
        } else {
            None
        }
    }
}

/// What looking a word up in the operations table yields: the handler,
/// or the illegal-instruction fault.
pub open spec fn spec_get_function(w: u16) -> Result<Operation, HardwareError> {
    match spec_decode_op(w) {
        Some(op) => Ok(op),
        None => Err(HardwareError::UnknownInstruction(w)),
    }
}

/// Maps a masked instruction word to the function that executes it.
pub struct Operations {}

impl Operations {
    pub fn new() -> (r: Operations) {
        Operations {  }
    }

    /// Looks up the handler for the given instruction word; an unknown
    /// opcode is an illegal instruction.
    pub fn get_function(&self, instruction: u16) -> (r: Result<Operation, HardwareError>)
        ensures
            r == spec_get_function(instruction),
    {
        if instruction & 0xFFC0u16 == 0 {
            if instruction == 0 {
                Ok(Operation::Nop)
            } else if instruction == 1 {
                Ok(Operation::Syscall)
            } else if instruction == 2 {
                Ok(Operation::Return)
            } else {
                Err(HardwareError::UnknownInstruction(instruction))
            }
        } else if instruction & 0xF000u16 == 0 {
            let key = instruction & 0x0FC0u16;
            if key == 0x0040 {
                Ok(Operation::Jump)
            } else if key == 0x0080 {
                Ok(Operation::SkipIfZero)
            } else if key == 0x00C0 {
                Ok(Operation::Subroutine)
            } else {
                Err(HardwareError::UnknownInstruction(instruction))
            }
        } else {
            let key = instruction & 0xF000u16;
            if key == 0x1000 {
                Ok(Operation::Copy)
            } else if key == 0x2000 {
                Ok(Operation::Add)
            } else if key == 0x3000 {
                Ok(Operation::Subtract)
            } else if key == 0x4000 {
                Ok(Operation::SkipIfEqual)
            } else if key == 0x5000 {
                Ok(Operation::SkipIfGreater)
            } else if key == 0x6000 {
                Ok(Operation::SetRegister)
            } else {
                Err(HardwareError::UnknownInstruction(instruction))
            }
        }
    }
}

/// Defines the location or value that an operand field resolves to.
#[derive(Clone, Copy, PartialEq, Eq, Structural, Debug)]
pub enum Address {
    /// The operand is the register with this number.
    Register(u8),
    /// The operand is the memory cell at this (bounds-checked) address.
    Memory(u16),
    /// The operand is this value itself: the register's value added to
    /// the program counter, saturating at the largest word.
    RegisterPlusPC(u16),
}

/// `x + y` capped at the largest 16-bit word.
pub open spec fn spec_saturating_add(x: u16, y: u16) -> u16 {
    if x + y > 0xFFFF {
        0xFFFFu16
    } else {
        (x + y) as u16
    }
}

/// `x - y`, with underflow capped at zero.
pub open spec fn spec_saturating_sub(x: u16, y: u16) -> u16 {
    if x < y {
        0u16
    } else {
        (x - y) as u16
    }
}

/// What the 6-bit operand field `a` resolves to in state `v`: bits 5..4
/// are the addressing mode and bits 3..0 the register index. A register
/// index above seven, a memory address at or beyond the end of memory,
/// and an overflowing program-counter-relative address are faults.
pub open spec fn spec_resolve(v: CpuView, a: u8) -> Result<Address, HardwareError> {
    let mode = a & 0x30u8;
    let reg = a & 0x0Fu8;
    if reg > 7 {
        Err(HardwareError::InvalidRegister(reg))
    } else if mode == 0x00u8 {
        Ok(Address::Register(reg))
    } else if mode == 0x10u8 {
        let address = v.regs[reg as int];
        if address >= v.mem.len() {
            Err(HardwareError::AddressOutOfMemory(address, reg))
        } else {
            Ok(Address::Memory(address))
        }
    } else if mode == 0x20u8 {
        Ok(Address::RegisterPlusPC(spec_saturating_add(v.regs[reg as int], v.pc)))
    } else {
        if v.regs[reg as int] + v.pc > 0xFFFF {
            Err(HardwareError::AddressOverflow(v.pc, reg))
        } else {
            let address = (v.regs[reg as int] + v.pc) as u16;
            if address >= v.mem.len() {
                Err(HardwareError::AddressOutOfMemory(address, reg))
            } else {
                Ok(Address::Memory(address))
            }
        }
    }
}

/// The value an operand field stands for: the register's value, the
/// dereferenced memory cell, or (where the instruction supports it) the
/// program-counter-relative value itself.
pub open spec fn spec_operand_value(v: CpuView, a: u8, supports_register_pc: bool, w: u16)
    -> Result<u16, HardwareError> {
    match spec_resolve(v, a) {
        Err(e) => Err(e),
        Ok(Address::Register(r)) => Ok(v.regs[r as int]),
        Ok(Address::Memory(m)) => Ok(v.mem[m as int]),
        Ok(Address::RegisterPlusPC(value)) => if supports_register_pc {
            Ok(value)
        } else {
            Err(HardwareError::UnsupportedAddressType(w))
        },
    }
}

/// The single operand field of a one-operand instruction (bits 5..0).
pub open spec fn spec_one_operand(w: u16) -> u8 {
    (w & 0x003Fu16) as u8
}

/// The two operand fields of a two-operand instruction
/// (bits 11..6 and bits 5..0).
pub open spec fn spec_two_operands(w: u16) -> (u8, u8) {
    (((w & 0x0FC0u16) >> 6) as u8, (w & 0x003Fu16) as u8)
}

/// Returns the real address that the 6-bit operand field `address` is
/// pointing to in the current state of `hardware`.
pub fn get_true_address(hardware: &Hardware, address: u8) -> (r: Result<Address, HardwareError>)
    ensures
        r == spec_resolve(hardware@, address),
{
    let address_type = address & 0x30u8;
    let register_number = address & 0x0Fu8;

    if register_number > 7 {
        return Err(HardwareError::InvalidRegister(register_number));
    }

    if address_type == 0x00u8 {
        // The operand is the register itself.
        Ok(Address::Register(register_number))
    } else if address_type == 0x10u8 {
        // The register points to a memory address.
        let memory_address = hardware.registers[register_number as usize];
        if memory_address as usize >= hardware.memory.len() {
            return Err(HardwareError::AddressOutOfMemory(memory_address, register_number));
        }
        Ok(Address::Memory(memory_address))
    } else if address_type == 0x20u8 {
        // Register value plus program counter is the value, saturating
        // at the largest word.
        Ok(Address::RegisterPlusPC(
            hardware.registers[register_number as usize].saturating_add(hardware.program_counter),
        ))
    } else {
        // Register plus program counter points to where the value is
        // stored; here an overflow is fatal.
        match hardware.registers[register_number as usize].checked_add(hardware.program_counter) {
            None => Err(HardwareError::AddressOverflow(hardware.program_counter, register_number)),
            Some(memory_address) => {
                if memory_address as usize >= hardware.memory.len() {
                    return Err(HardwareError::AddressOutOfMemory(memory_address, register_number));
                }
                Ok(Address::Memory(memory_address))
            },
        }
    }
}

/// The values of the two operand fields of `w`, resolved in order; the
/// first fault encountered wins.
pub open spec fn spec_two_operand_values(v: CpuView, w: u16, supports_register_pc: bool)
    -> Result<(u16, u16), HardwareError> {
    let (a1, a2) = spec_two_operands(w);
    match spec_operand_value(v, a1, supports_register_pc, w) {
        Err(e) => Err(e),
        Ok(x) => match spec_operand_value(v, a2, supports_register_pc, w) {
            Err(e) => Err(e),
            Ok(y) => Ok((x, y)),
        },
    }
}

/// `v` with `value` stored at the location the operand field `a` names;
/// a program-counter-relative operand is no location and faults.
pub open spec fn spec_store(v: CpuView, a: u8, value: u16, w: u16)
    -> Result<CpuView, HardwareError> {
    match spec_resolve(v, a) {
        Err(e) => Err(e),
        Ok(Address::Register(r)) => Ok(CpuView { regs: v.regs.update(r as int, value), ..v }),
        Ok(Address::Memory(m)) => Ok(CpuView { mem: v.mem.update(m as int, value), ..v }),
        Ok(Address::RegisterPlusPC(_)) => Err(HardwareError::UnsupportedAddressType(w)),
    }
}

/// The program counter moved forward by `k`, wrapping around the 16-bit
/// space.
pub open spec fn spec_pc_add(pc: u16, k: u16) -> u16 {
    if pc + k > 0xFFFF {
        (pc + k - 0x10000) as u16
    } else {
        (pc + k) as u16
    }
}

/// What one handler did to the machine: the state it left behind and
/// the fault it reported, if any. The clock turns the fault into the
/// sticky error flag.
#[verifier::ext_equal]
pub ghost struct StepOutcome {
    pub next: CpuView,
    pub fault: Option<HardwareError>,
}

/// The result a handler or the clock returns for the given fault.
pub open spec fn spec_outcome_result(fault: Option<HardwareError>) -> Result<(), HardwareError> {
    match fault {
        None => Ok(()),
        Some(e) => Err(e),
    }
}

/// Relates a handler's effect on the machine and its result to the
/// outcome the model prescribes.
pub open spec fn follows(new_v: CpuView, r: Result<(), HardwareError>, o: StepOutcome) -> bool {
    new_v == o.next && r == spec_outcome_result(o.fault)
}

/// An outcome that leaves `v` as it is and reports the fault `e`.
pub open spec fn spec_fault(v: CpuView, e: HardwareError) -> StepOutcome {
    StepOutcome { next: v, fault: Some(e) }
}

/// NOP only advances the program counter.
pub open spec fn spec_nop(v: CpuView) -> StepOutcome {
    StepOutcome { next: CpuView { pc: spec_pc_add(v.pc, 1), ..v }, fault: None }
}

/// The state after a syscall whose handler left the registers `regs`
/// and reported `handler_error`: the registers are copied back
/// verbatim, and the program counter advances only on success.
pub open spec fn spec_syscall_post(v: CpuView, regs: Seq<u16>, handler_error: bool) -> CpuView {
    CpuView {
        regs: regs,
        pc: if handler_error {
            v.pc
        } else {
            spec_pc_add(v.pc, 1)
        },
        ..v
    }
}

/// The machine after one whole clock that executed a syscall through a
/// registered callback which left registers `regs` and reported
/// `handler_error`: a reported error also raises the sticky error flag.
pub open spec fn spec_syscall_clock_post(v: CpuView, regs: Seq<u16>, handler_error: bool)
    -> CpuView {
    let p = spec_syscall_post(v, regs, handler_error);
    if handler_error {
        p.with_error()
    } else {
        p
    }
}

/// RETURN pops the program counter from the call stack; an empty stack
/// is an underflow fault.
pub open spec fn spec_return(v: CpuView) -> StepOutcome {
    if v.stack.len() == 0 {
        StepOutcome { next: CpuView { underflow: true, ..v }, fault: Some(HardwareError::StackUnderflow) }
    } else {
        StepOutcome {
            next: CpuView { pc: v.stack.last(), stack: v.stack.drop_last(), ..v },
            fault: None,
        }
    }
}

/// JUMP sets the program counter to the operand's value; all four
/// addressing modes are accepted.
pub open spec fn spec_jump(v: CpuView, w: u16) -> StepOutcome {
    match spec_operand_value(v, spec_one_operand(w), true, w) {
        Err(e) => spec_fault(v, e),
        Ok(target) => StepOutcome { next: CpuView { pc: target, ..v }, fault: None },
    }
}

/// SUBROUTINE pushes the address of the next instruction (a full stack
/// is an overflow fault) and then jumps to the operand's value.
pub open spec fn spec_subroutine(v: CpuView, w: u16) -> StepOutcome {
    if v.stack.len() >= CALL_STACK_LIMIT {
        StepOutcome { next: CpuView { overflow: true, ..v }, fault: Some(HardwareError::StackOverflow) }
    } else {
        let pushed = CpuView { stack: v.stack.push(spec_pc_add(v.pc, 1)), ..v };
        match spec_operand_value(pushed, spec_one_operand(w), true, w) {
            Err(e) => spec_fault(pushed, e),
            Ok(target) => StepOutcome { next: CpuView { pc: target, ..pushed }, fault: None },
        }
    }
}

/// SKIP_IF_ZERO advances the program counter by two when the operand's
/// value is zero and by one otherwise.
pub open spec fn spec_skip_if_zero(v: CpuView, w: u16) -> StepOutcome {
    match spec_operand_value(v, spec_one_operand(w), false, w) {
        Err(e) => spec_fault(v, e),
        Ok(value) => StepOutcome {
            next: CpuView {
                pc: spec_pc_add(v.pc, if value == 0 { 2 } else { 1 }),
                ..v
            },
            fault: None,
        },
    }
}

/// COPY writes the source operand's value into the destination
/// location; neither operand may be program-counter-relative.
pub open spec fn spec_copy(v: CpuView, w: u16) -> StepOutcome {
    let (a1, a2) = spec_two_operands(w);
    match spec_operand_value(v, a1, false, w) {
        Err(e) => spec_fault(v, e),
        Ok(source_value) => match spec_store(v, a2, source_value, w) {
            Err(e) => spec_fault(v, e),
            Ok(stored) => StepOutcome {
                next: CpuView { pc: spec_pc_add(v.pc, 1), ..stored },
                fault: None,
            },
        },
    }
}

/// ADD stores the saturating sum of the two operands into the second
/// one, raising the overflow flag when the sum saturated.
pub open spec fn spec_add_op(v: CpuView, w: u16) -> StepOutcome {
    let (a1, a2) = spec_two_operands(w);
    match spec_two_operand_values(v, w, false) {
        Err(e) => spec_fault(v, e),
        Ok((x, y)) => match spec_store(v, a2, spec_saturating_add(x, y), w) {
            Err(e) => spec_fault(v, e),
            Ok(stored) => StepOutcome {
                next: CpuView {
                    pc: spec_pc_add(v.pc, 1),
                    overflow: v.overflow || x + y > 0xFFFF,
                    ..stored
                },
                fault: None,
            },
        },
    }
}

/// SUBTRACT stores the saturating difference (first minus second) into
/// the second operand.
pub open spec fn spec_subtract_op(v: CpuView, w: u16) -> StepOutcome {
    let (a1, a2) = spec_two_operands(w);
    match spec_two_operand_values(v, w, false) {
        Err(e) => spec_fault(v, e),
        Ok((x, y)) => match spec_store(v, a2, spec_saturating_sub(x, y), w) {
            Err(e) => spec_fault(v, e),
            Ok(stored) => StepOutcome {
                next: CpuView { pc: spec_pc_add(v.pc, 1), ..stored },
                fault: None,
            },
        },
    }
}

/// SKIP_IF_EQUAL advances the program counter by two when the operands
/// are equal and by one otherwise.
pub open spec fn spec_skip_if_equal(v: CpuView, w: u16) -> StepOutcome {
    match spec_two_operand_values(v, w, false) {
        Err(e) => spec_fault(v, e),
        Ok((x, y)) => StepOutcome {
            next: CpuView { pc: spec_pc_add(v.pc, if x == y { 2 } else { 1 }), ..v },
            fault: None,
        },
    }
}

/// SKIP_IF_GREATER advances the program counter by two when the first
/// operand is greater and by one otherwise.
pub open spec fn spec_skip_if_greater(v: CpuView, w: u16) -> StepOutcome {
    match spec_two_operand_values(v, w, false) {
        Err(e) => spec_fault(v, e),
        Ok((x, y)) => StepOutcome {
            next: CpuView { pc: spec_pc_add(v.pc, if x > y { 2 } else { 1 }), ..v },
            fault: None,
        },
    }
}

/// SET writes the 9-bit immediate into the register named by bits
/// 11..9; it can not fault.
pub open spec fn spec_set_register(v: CpuView, w: u16) -> StepOutcome {
    let reg = ((w & 0x0E00u16) >> 9) as int;
    let constant = w & 0x01FFu16;
    StepOutcome {
        next: CpuView {
            regs: v.regs.update(reg, constant),
            pc: spec_pc_add(v.pc, 1),
            ..v
        },
        fault: None,
    }
}

/// The effect of the handler `op` on state `v`, for every handler whose
/// effect is a function of the machine state alone. SYSCALL with a
/// registered callback is the one exception; here it stands only with
/// no callback registered, where it faults.
pub open spec fn spec_execute(v: CpuView, op: Operation, w: u16) -> StepOutcome {
    match op {
        Operation::Nop => spec_nop(v),
        Operation::Syscall => spec_fault(v, HardwareError::NoSysCallback),
        Operation::Return => spec_return(v),
        Operation::Jump => spec_jump(v, w),
        Operation::SkipIfZero => spec_skip_if_zero(v, w),
        Operation::Subroutine => spec_subroutine(v, w),
        Operation::Copy => spec_copy(v, w),
        Operation::Add => spec_add_op(v, w),
        Operation::Subtract => spec_subtract_op(v, w),
        Operation::SkipIfEqual => spec_skip_if_equal(v, w),
        Operation::SkipIfGreater => spec_skip_if_greater(v, w),
        Operation::SetRegister => spec_set_register(v, w),
    }
}

/// One whole clock of the machine: refuse an errored machine, check the
/// program counter, fetch, decode and execute, raising the sticky error
/// flag on any fault. `None` stands for the one case the model cannot
/// determine: a SYSCALL with a registered callback, whose outcome the
/// host decides (the clock's contract bounds that case separately).
pub open spec fn spec_step(v: CpuView) -> Option<StepOutcome> {
    if v.error {
        Some(StepOutcome { next: v, fault: Some(HardwareError::ErrorState) })
    } else if v.pc >= v.mem.len() {
        Some(StepOutcome { next: v.with_error(), fault: Some(HardwareError::PcOutOfBounds) })
    } else {
        let w = v.mem[v.pc as int];
        match spec_decode_op(w) {
            None => Some(StepOutcome {
                next: v.with_error(),
                fault: Some(HardwareError::UnknownInstruction(w)),
            }),
            Some(op) => if op is Syscall && v.has_callback {
                None
            } else {
                let o = spec_execute(v, op, w);
                Some(StepOutcome {
                    next: if o.fault is Some { o.next.with_error() } else { o.next },
                    fault: o.fault,
                })
            },
        }
    }
}

/// Extracts the operand field from a one-operand instruction.
pub(crate) fn extract_one_operand_address(instruction: u16) -> (r: u8)
    ensures
        r == spec_one_operand(instruction),
{
    (instruction & 0x003Fu16) as u8
}

/// Extracts the two operand fields from a two-operand instruction.
pub(crate) fn extract_two_operand_address(instruction: u16) -> (r: (u8, u8))
    ensures
        r == spec_two_operands(instruction),
{
    let first_address = ((instruction & 0x0FC0u16) >> 6) as u8;
    let second_address = (instruction & 0x003Fu16) as u8;
    (first_address, second_address)
}

/// Extracts the value that the operand of a one-operand instruction
/// stands for.
pub(crate) fn extract_one_operand_value(
    hardware: &Hardware,
    instruction: u16,
    supports_register_pc: bool,
) -> (r: Result<u16, HardwareError>)
    ensures
        r == spec_operand_value(
            hardware@,
            spec_one_operand(instruction),
            supports_register_pc,
            instruction,
        ),
{
    let address = extract_one_operand_address(instruction);
    let true_address = match get_true_address(hardware, address) {
        Ok(a) => a,
        Err(e) => {
            return Err(e);
        },
    };
    match true_address {
        Address::Register(register_number) => Ok(hardware.registers[register_number as usize]),
        Address::Memory(memory_address) => Ok(hardware.memory[memory_address as usize]),
        Address::RegisterPlusPC(jump_address) => {
            if supports_register_pc {
                Ok(jump_address)
            } else {
                Err(HardwareError::UnsupportedAddressType(instruction))
            }
        },
    }
}

/// Extracts the values that the two operands of a two-operand
/// instruction stand for, resolving the first one first.
pub(crate) fn extract_two_operand_value(
    hardware: &Hardware,
    instruction: u16,
    supports_register_pc: bool,
) -> (r: Result<(u16, u16), HardwareError>)
    ensures
        r == spec_two_operand_values(hardware@, instruction, supports_register_pc),
{
    let (first_address, second_address) = extract_two_operand_address(instruction);

    let first_true_address = match get_true_address(hardware, first_address) {
        Ok(a) => a,
        Err(e) => {
            return Err(e);
        },
    };
    let first_value = match first_true_address {
        Address::Register(register_number) => hardware.registers[register_number as usize],
        Address::Memory(memory_address) => hardware.memory[memory_address as usize],
        Address::RegisterPlusPC(jump_address) => {
            if supports_register_pc {
                jump_address
            } else {
                return Err(HardwareError::UnsupportedAddressType(instruction));
            }
        },
    };

    let second_true_address = match get_true_address(hardware, second_address) {
        Ok(a) => a,
        Err(e) => {
            return Err(e);
        },
    };
    let second_value = match second_true_address {
        Address::Register(register_number) => hardware.registers[register_number as usize],
        Address::Memory(memory_address) => hardware.memory[memory_address as usize],
        Address::RegisterPlusPC(jump_address) => {
            if supports_register_pc {
                jump_address
            } else {
                return Err(HardwareError::UnsupportedAddressType(instruction));
            }
        },
    };

    Ok((first_value, second_value))
}

/// It just increases the program counter (skips this instruction).
pub(crate) fn op_nop(hardware: &mut Hardware, _instruction: u16) -> (r: Result<(), HardwareError>)
    requires
        old(hardware)@.wf(),
    ensures
        final(hardware)@.wf(),
        follows(final(hardware)@, r, spec_nop(old(hardware)@)),
{
    hardware.program_counter = hardware.program_counter.wrapping_add(1);
    Ok(())
}

/// Performs a syscall: hands a projection of the registers to the
/// registered callback, copies the projected registers back verbatim,
/// and fails if the callback reported an error or none is registered.
pub(crate) fn op_syscall(hardware: &mut Hardware, _instruction: u16) -> (r: Result<
    (),
    HardwareError,
>)
    requires
        old(hardware)@.wf(),
    ensures
        final(hardware)@.wf(),
        !old(hardware)@.has_callback ==> follows(
            final(hardware)@,
            r,
            spec_fault(old(hardware)@, HardwareError::NoSysCallback),
        ),
        old(hardware)@.has_callback ==> exists|regs: Seq<u16>, handler_error: bool|
            regs.len() == 8 && final(hardware)@ == spec_syscall_post(
                old(hardware)@,
                regs,
                handler_error,
            ) && r == (if handler_error {
                Err::<(), HardwareError>(HardwareError::SysCallFailed)
            } else {
                Ok::<(), HardwareError>(())
            }),
{
    let mut cpu_state = CPUState::new(&hardware.registers);

    match hardware.call_syscall(&mut cpu_state) {
        Err(_) => {
            return Err(HardwareError::NoSysCallback);
        },
        Ok(()) => {},
    }

    let mut i: usize = 0;
    while i < 8
        invariant
            i <= 8,
            hardware@.regs.len() == 8,
            forall|j: int| 0 <= j < i ==> hardware@.regs[j] == cpu_state.spec_registers()[j],
            forall|j: int| i <= j < 8 ==> hardware@.regs[j] == old(hardware)@.regs[j],
            hardware@ == (CpuView { regs: hardware@.regs, ..old(hardware)@ }),
        decreases 8 - i,
    {
        let value = cpu_state.get_register(i);
        hardware.registers[i] = value;
        i += 1;
    }

    let ghost new_regs = hardware@.regs;
    if cpu_state.get_error_flag() {
        proof {
            assert(final(hardware)@ =~= spec_syscall_post(old(hardware)@, new_regs, true));
        }
        return Err(HardwareError::SysCallFailed);
    }

    hardware.program_counter = hardware.program_counter.wrapping_add(1);
    proof {
        assert(final(hardware)@ =~= spec_syscall_post(old(hardware)@, new_regs, false));
    }
    Ok(())
}

/// Pops the return address; an empty stack is an underflow fault.
pub(crate) fn op_return(hardware: &mut Hardware, _instruction: u16) -> (r: Result<
    (),
    HardwareError,
>)
    requires
        old(hardware)@.wf(),
    ensures
        final(hardware)@.wf(),
        follows(final(hardware)@, r, spec_return(old(hardware)@)),
{
    match hardware.call_stack.pop() {
        Some(pc) => {
            hardware.program_counter = pc;
            Ok(())
        },
        None => {
            hardware.underflow_flag = true;
            Err(HardwareError::StackUnderflow)
        },
    }
}

/// Jumps to the value of the operand.
pub(crate) fn op_jump(hardware: &mut Hardware, instruction: u16) -> (r: Result<(), HardwareError>)
    requires
        old(hardware)@.wf(),
    ensures
        final(hardware)@.wf(),
        follows(final(hardware)@, r, spec_jump(old(hardware)@, instruction)),
{
    let value = match extract_one_operand_value(hardware, instruction, true) {
        Ok(v) => v,
        Err(e) => {
            return Err(e);
        },
    };
    hardware.program_counter = value;
    Ok(())
}

/// Pushes the next instruction's address and jumps to the operand.
pub(crate) fn op_subroutine(hardware: &mut Hardware, instruction: u16) -> (r: Result<
    (),
    HardwareError,
>)
    requires
        old(hardware)@.wf(),
    ensures
        final(hardware)@.wf(),
        follows(final(hardware)@, r, spec_subroutine(old(hardware)@, instruction)),
{
    if hardware.call_stack.len() >= CALL_STACK_LIMIT {
        hardware.overflow_flag = true;
        return Err(HardwareError::StackOverflow);
    }

    // Storing the return address.
    let return_pc = hardware.program_counter.wrapping_add(1);
    hardware.call_stack.push(return_pc);

    // Jumping.
    let value = match extract_one_operand_value(hardware, instruction, true) {
        Ok(v) => v,
        Err(e) => {
            return Err(e);
        },
    };
    hardware.program_counter = value;
    Ok(())
}

/// Skips the next instruction if the operand's value is zero.
pub(crate) fn op_skip_if_zero(hardware: &mut Hardware, instruction: u16) -> (r: Result<
    (),
    HardwareError,
>)
    requires
        old(hardware)@.wf(),
    ensures
        final(hardware)@.wf(),
        follows(final(hardware)@, r, spec_skip_if_zero(old(hardware)@, instruction)),
{
    let address_value = match extract_one_operand_value(hardware, instruction, false) {
        Ok(v) => v,
        Err(e) => {
            return Err(e);
        },
    };
    if address_value == 0 {
        hardware.program_counter = hardware.program_counter.wrapping_add(2);
    } else {
        hardware.program_counter = hardware.program_counter.wrapping_add(1);
    }
    Ok(())
}

/// Copies the value of the source operand to the destination location.
pub(crate) fn op_copy(hardware: &mut Hardware, instruction: u16) -> (r: Result<(), HardwareError>)
    requires
        old(hardware)@.wf(),
    ensures
        final(hardware)@.wf(),
        follows(final(hardware)@, r, spec_copy(old(hardware)@, instruction)),
{
    let (source_address, destination_address) = extract_two_operand_address(instruction);

    let source_true_address = match get_true_address(hardware, source_address) {
        Ok(a) => a,
        Err(e) => {
            return Err(e);
        },
    };
    let source_value = match source_true_address {
        Address::Register(register_number) => hardware.registers[register_number as usize],
        Address::Memory(memory_address) => hardware.memory[memory_address as usize],
        Address::RegisterPlusPC(_) => {
            return Err(HardwareError::UnsupportedAddressType(instruction));
        },
    };

    let destination_true_address = match get_true_address(hardware, destination_address) {
        Ok(a) => a,
        Err(e) => {
            return Err(e);
        },
    };
    match destination_true_address {
        Address::Register(register_number) => {
            hardware.registers[register_number as usize] = source_value;
        },
        Address::Memory(memory_address) => {
            hardware.memory[memory_address as usize] = source_value;
        },
        Address::RegisterPlusPC(_) => {
            return Err(HardwareError::UnsupportedAddressType(instruction));
        },
    }

    hardware.program_counter = hardware.program_counter.wrapping_add(1);
    Ok(())
}

/// Adds the two operands, saturating at the largest word, and stores
/// the sum into the second one; saturation raises the overflow flag.
pub(crate) fn op_add(hardware: &mut Hardware, instruction: u16) -> (r: Result<(), HardwareError>)
    requires
        old(hardware)@.wf(),
    ensures
        final(hardware)@.wf(),
        follows(final(hardware)@, r, spec_add_op(old(hardware)@, instruction)),
{
    let (first_address, second_address) = extract_two_operand_address(instruction);

    let first_true_address = match get_true_address(hardware, first_address) {
        Ok(a) => a,
        Err(e) => {
            return Err(e);
        },
    };
    let first_value = match first_true_address {
        Address::Register(register_number) => hardware.registers[register_number as usize],
        Address::Memory(memory_address) => hardware.memory[memory_address as usize],
        Address::RegisterPlusPC(_) => {
            return Err(HardwareError::UnsupportedAddressType(instruction));
        },
    };

    let second_true_address = match get_true_address(hardware, second_address) {
        Ok(a) => a,
        Err(e) => {
            return Err(e);
        },
    };
    let second_value = match second_true_address {
        Address::Register(register_number) => hardware.registers[register_number as usize],
        Address::Memory(memory_address) => hardware.memory[memory_address as usize],
        Address::RegisterPlusPC(_) => {
            return Err(HardwareError::UnsupportedAddressType(instruction));
        },
    };

    let result = match first_value.checked_add(second_value) {
        Some(sum) => sum,
        None => {
            hardware.overflow_flag = true;
            0xFFFFu16
        },
    };

    // Storing the result back to the second address.
    match second_true_address {
        Address::Register(register_number) => {
            hardware.registers[register_number as usize] = result;
        },
        Address::Memory(memory_address) => {
            hardware.memory[memory_address as usize] = result;
        },
        Address::RegisterPlusPC(_) => {
            return Err(HardwareError::UnsupportedAddressType(instruction));
        },
    }

    hardware.program_counter = hardware.program_counter.wrapping_add(1);
    Ok(())
}

/// Subtracts the second operand from the first, saturating at zero, and
/// stores the difference into the second one.
pub(crate) fn op_subtract(hardware: &mut Hardware, instruction: u16) -> (r: Result<
    (),
    HardwareError,
>)
    requires
        old(hardware)@.wf(),
    ensures
        final(hardware)@.wf(),
        follows(final(hardware)@, r, spec_subtract_op(old(hardware)@, instruction)),
{
    let (first_address, second_address) = extract_two_operand_address(instruction);

    let first_true_address = match get_true_address(hardware, first_address) {
        Ok(a) => a,
        Err(e) => {
            return Err(e);
        },
    };
    let first_value = match first_true_address {
        Address::Register(register_number) => hardware.registers[register_number as usize],
        Address::Memory(memory_address) => hardware.memory[memory_address as usize],
        Address::RegisterPlusPC(_) => {
            return Err(HardwareError::UnsupportedAddressType(instruction));
        },
    };

    let second_true_address = match get_true_address(hardware, second_address) {
        Ok(a) => a,
        Err(e) => {
            return Err(e);
        },
    };
    let second_value = match second_true_address {
        Address::Register(register_number) => hardware.registers[register_number as usize],
        Address::Memory(memory_address) => hardware.memory[memory_address as usize],
        Address::RegisterPlusPC(_) => {
            return Err(HardwareError::UnsupportedAddressType(instruction));
        },
    };

    let result = first_value.saturating_sub(second_value);

    // Storing the result back to the second address.
    match second_true_address {
        Address::Register(register_number) => {
            hardware.registers[register_number as usize] = result;
        },
        Address::Memory(memory_address) => {
            hardware.memory[memory_address as usize] = result;
        },
        Address::RegisterPlusPC(_) => {
            return Err(HardwareError::UnsupportedAddressType(instruction));
        },
    }

    hardware.program_counter = hardware.program_counter.wrapping_add(1);
    Ok(())
}

/// Skips the next instruction if the values of the two operands are
/// equal.
pub(crate) fn op_skip_if_equal(hardware: &mut Hardware, instruction: u16) -> (r: Result<
    (),
    HardwareError,
>)
    requires
        old(hardware)@.wf(),
    ensures
        final(hardware)@.wf(),
        follows(final(hardware)@, r, spec_skip_if_equal(old(hardware)@, instruction)),
{
    let values = match extract_two_operand_value(hardware, instruction, false) {
        Ok(v) => v,
        Err(e) => {
            return Err(e);
        },
    };
    let (first_value, second_value) = values;
    if first_value == second_value {
        hardware.program_counter = hardware.program_counter.wrapping_add(2);
    } else {
        hardware.program_counter = hardware.program_counter.wrapping_add(1);
    }
    Ok(())
}

/// Skips the next instruction if the first operand's value is greater
/// than the second one's.
pub(crate) fn op_skip_if_greater(hardware: &mut Hardware, instruction: u16) -> (r: Result<
    (),
    HardwareError,
>)
    requires
        old(hardware)@.wf(),
    ensures
        final(hardware)@.wf(),
        follows(final(hardware)@, r, spec_skip_if_greater(old(hardware)@, instruction)),
{
    let values = match extract_two_operand_value(hardware, instruction, false) {
        Ok(v) => v,
        Err(e) => {
            return Err(e);
        },
    };
    let (first_value, second_value) = values;
    if first_value > second_value {
        hardware.program_counter = hardware.program_counter.wrapping_add(2);
    } else {
        hardware.program_counter = hardware.program_counter.wrapping_add(1);
    }
    Ok(())
}

/// Sets a constant to a register.
pub(crate) fn op_set_register(hardware: &mut Hardware, instruction: u16) -> (r: Result<
    (),
    HardwareError,
>)
    requires
        old(hardware)@.wf(),
    ensures
        final(hardware)@.wf(),
        follows(final(hardware)@, r, spec_set_register(old(hardware)@, instruction)),
{
    proof {
        assert((0x0E00u16 & instruction) >> 9 < 8) by (bit_vector);
        assert((0x0E00u16 & instruction) >> 9 == (instruction & 0x0E00u16) >> 9) by (bit_vector);
    }
    let register_number = ((0x0E00u16 & instruction) >> 9) as usize;
    let constant = 0x01FFu16 & instruction;
    proof {
        assert(0x01FFu16 & instruction == instruction & 0x01FFu16) by (bit_vector);
    }

    hardware.registers[register_number] = constant;
    hardware.program_counter = hardware.program_counter.wrapping_add(1);
    Ok(())
}

} // verus!
