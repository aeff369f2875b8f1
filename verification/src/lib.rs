//! A small virtual machine: an assembler that translates a line-oriented
//! mnemonic language into fixed-width binary words, and an emulator that
//! executes those words on a simulated 16-bit word-addressed CPU.

use vstd::prelude::*;

pub mod cpu_state;
pub mod hardware;
pub mod translator;
pub mod laws;
pub mod machine;
pub mod sys_callback;
pub mod tasks;

pub use crate::cpu_state::CPUState;
pub use crate::sys_callback::SysCallback;

verus! {

use crate::hardware::operations::{spec_outcome_result, spec_step, spec_syscall_clock_post};
use crate::hardware::{mem_overwritten, CpuView, Hardware, HardwareError};

/// The words of a big-endian byte stream: each consecutive pair of
/// bytes, high byte first, forms one 16-bit word.
pub open spec fn spec_stream_words(bytes: Seq<u8>) -> Seq<u16> {
    Seq::new(bytes.len() / 2, |i: int| (bytes[2 * i] * 256 + bytes[2 * i + 1]) as u16)
}

/// One whole machine, as its embedder sees it.
pub struct Emulator {
    hardware: Hardware,
}

impl View for Emulator {
    type V = CpuView;

    closed spec fn view(&self) -> CpuView {
        self.hardware@
    }
}

impl Emulator {
    /// Creates a machine with zeroed memory of the given size, zeroed
    /// registers, PC at zero, an empty call stack and clear flags.
    pub fn new(memory_size: u16) -> (r: Emulator)
        ensures
            r@.wf(),
            r@.mem == Seq::new(memory_size as nat, |i: int| 0u16),
            r@.pc == 0,
            r@.regs == Seq::new(8, |i: int| 0u16),
            r@.stack == Seq::<u16>::empty(),
            !r@.overflow,
            !r@.underflow,
            !r@.error,
            !r@.has_callback,
    {
        Emulator { hardware: Hardware::new(memory_size) }
    }

    /// Loads the specified data into memory at `start`; an error leaves
    /// the machine untouched.
    pub fn load(&mut self, data: &Vec<u16>, start: u16) -> (r: Result<(), &'static str>)
        ensures
            r is Ok <==> start + data@.len() <= old(self)@.mem.len(),
            r is Err ==> final(self)@ == old(self)@,
            r is Ok ==> final(self)@ == (CpuView {
                mem: mem_overwritten(old(self)@.mem, data@, start as int),
                ..old(self)@
            }),
            old(self)@.wf() ==> final(self)@.wf(),
    {
        self.hardware.load(data, start)
    }

    /// Loads a big-endian stream of 16-bit words into memory at
    /// `start`. A stream of odd byte length is rejected, as is one that
    /// does not fit in memory; either error leaves the machine
    /// untouched.
    pub fn load_from_stream(&mut self, stream: &Vec<u8>, start: u16) -> (r: Result<
        (),
        &'static str,
    >)
        ensures
            r is Ok <==> stream@.len() % 2 == 0 && start + stream@.len() / 2 <= old(
                self,
            )@.mem.len(),
            r is Err ==> final(self)@ == old(self)@,
            r is Ok ==> final(self)@ == (CpuView {
                mem: mem_overwritten(old(self)@.mem, spec_stream_words(stream@), start as int),
                ..old(self)@
            }),
            old(self)@.wf() ==> final(self)@.wf(),
    {
        if stream.len() % 2 != 0 {
            return Err("File should be multiply of two-bytes.");
        }

        let word_count = stream.len() / 2;
        let mut data: Vec<u16> = Vec::new();
        let mut i: usize = 0;
        while i < word_count
            invariant
                i <= word_count,
                word_count == stream@.len() / 2,
                stream@.len() <= usize::MAX,
                stream@.len() % 2 == 0,
                data@.len() == i,
                forall|j: int| 0 <= j < i ==> data@[j] == spec_stream_words(stream@)[j],
            decreases word_count - i,
        {
            let high = stream[2 * i];
            let low = stream[2 * i + 1];
            let word = ((high as u16) << 8u16) | (low as u16);
            proof {
                assert(((high as u16) << 8u16) | (low as u16) == (high * 256 + low) as u16)
                    by (bit_vector);
            }
            data.push(word);
            i += 1;
        }
        proof {
            assert(data@ =~= spec_stream_words(stream@));
        }
        self.hardware.load(&data, start)
    }

    /// Executes one clock of the CPU; see `Hardware::clock` for the
    /// exact contract over the step model.
    pub fn clock(&mut self) -> (r: Result<(), HardwareError>)
        requires
            old(self)@.wf(),
        ensures
            final(self)@.wf(),
            spec_step(old(self)@) matches Some(o) ==> final(self)@ == o.next && r
                == spec_outcome_result(o.fault),
            spec_step(old(self)@) is None ==> exists|regs: Seq<u16>, handler_error: bool|
                regs.len() == 8 && final(self)@ == spec_syscall_clock_post(
                    old(self)@,
                    regs,
                    handler_error,
                ) && r == (if handler_error {
                    Err::<(), HardwareError>(HardwareError::SysCallFailed)
                } else {
                    Ok::<(), HardwareError>(())
                }),
    {
        self.hardware.clock()
    }

    /// Registers the callback that is responsible for handling sys
    /// calls.
    pub fn register_sys_callback(&mut self, callback: Box<dyn SysCallback>)
        ensures
            final(self)@ == (CpuView { has_callback: true, ..old(self)@ }),
    {
        self.hardware.register_sys_callback(callback)
    }

    /// Increases the memory by `additional` zero-filled cells and
    /// returns the new size; an error leaves the machine untouched.
    pub fn increase_memory(&mut self, additional: u16) -> (r: Result<u16, &'static str>)
        requires
            old(self)@.wf(),
        ensures
            final(self)@.wf(),
            r is Ok <==> additional > 0 && old(self)@.mem.len() + additional <= 0xFFFF,
            r is Err ==> final(self)@ == old(self)@,
            r is Ok ==> r == Ok::<u16, &'static str>((old(self)@.mem.len() + additional) as u16)
                && final(self)@ == (CpuView {
                mem: old(self)@.mem + Seq::new(additional as nat, |i: int| 0u16),
                ..old(self)@
            }),
    {
        self.hardware.increase_memory(additional)
    }

    /// The value of register `index`.
    pub fn get_register(&self, index: usize) -> (r: u16)
        requires
            index < 8,
        ensures
            r == self@.regs[index as int],
    {
        self.hardware.get_register(index)
    }

    /// The current program counter.
    pub fn get_program_counter(&self) -> (r: u16)
        ensures
            r == self@.pc,
    {
        self.hardware.get_program_counter()
    }

    /// The word stored at memory cell `address`.
    pub fn get_memory(&self, address: usize) -> (r: u16)
        requires
            address < self@.mem.len(),
        ensures
            r == self@.mem[address as int],
    {
        self.hardware.get_memory(address)
    }

    /// How many words of memory this machine has.
    pub fn get_memory_size(&self) -> (r: usize)
        ensures
            r == self@.mem.len(),
    {
        self.hardware.get_memory_size()
    }
}

} // verus!
