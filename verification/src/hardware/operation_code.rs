//! Instruction words and their opcode keys. A word has one of three
//! shapes (no-operand, single-operand, double-operand), recognised by
//! its leading bits, and the shape chooses which bits form the opcode.

use vstd::prelude::*;

verus! {

/// Defines the shape of an instruction word: which of its bits hold
/// the opcode and which hold operands.
#[derive(Clone, Copy, PartialEq, Eq, Structural, Debug)]
pub enum OperationType {
    NoOperand,
    SingleOperand,
    DoubleOperand,
}

/// The shape of the instruction word `w`: no-operand when the top ten
/// bits are clear, single-operand when only the top four are, and
/// double-operand otherwise.
pub open spec fn spec_operation_type(w: u16) -> OperationType {
    if w & 0xFFC0u16 == 0 {
        OperationType::NoOperand
    } else if w & 0xF000u16 == 0 {
        OperationType::SingleOperand
    } else {
        OperationType::DoubleOperand
    }
}

/// The mask that extracts the opcode from a word of the given shape.
pub open spec fn spec_operation_mask(operation_type: OperationType) -> u16 {
    match operation_type {
        OperationType::NoOperand => 0x003Fu16,
        OperationType::SingleOperand => 0x0FC0u16,
        OperationType::DoubleOperand => 0xF000u16,
    }
}

/// The opcode key of the word `w`: its opcode bits with the operand
/// bits cleared.
pub open spec fn spec_operation_key(w: u16) -> u16 {
    w & spec_operation_mask(spec_operation_type(w))
}

/// An instruction word seen as an opcode: two of these are equal when
/// they have the same shape and the same opcode bits, whatever their
/// operands.
pub struct OperationCode {
    value: u16,
}

impl OperationCode {
    /// The raw instruction word this opcode was taken from.
    pub closed spec fn spec_value(&self) -> u16 {
        self.value
    }

    pub fn new(value: u16) -> (r: OperationCode)
        ensures
            r.spec_value() == value,
    {
        OperationCode { value }
    }

    /// Returns the shape of this instruction word.
    pub fn get_operation_type(&self) -> (r: OperationType)
        ensures
            r == spec_operation_type(self.spec_value()),
    {
        if self.value & 0xFFC0u16 == 0 {
            OperationType::NoOperand
        } else if self.value & 0xF000u16 == 0 {
            OperationType::SingleOperand
        } else {
            OperationType::DoubleOperand
        }
    }

    /// Returns the mask that extracts this word's opcode bits.
    pub fn get_operation_mask(&self) -> (r: u16)
        ensures
            r == spec_operation_mask(spec_operation_type(self.spec_value())),
    {
        match self.get_operation_type() {
            OperationType::NoOperand => 0x003Fu16,
            OperationType::SingleOperand => 0x0FC0u16,
            OperationType::DoubleOperand => 0xF000u16,
        }
    }
}

impl PartialEq for OperationCode {
    /// Compares shapes, then opcode bits, ignoring operands.
    fn eq(&self, other: &OperationCode) -> (r: bool) {
        let my_type = self.get_operation_type();
        let other_type = other.get_operation_type();

        if my_type != other_type {
            return false;
        }

        let mask = self.get_operation_mask();
        self.value & mask == other.value & mask
    }
}

impl vstd::std_specs::cmp::PartialEqSpecImpl for OperationCode {
    open spec fn obeys_eq_spec() -> bool {
        true
    }

    open spec fn eq_spec(&self, other: &OperationCode) -> bool {
        spec_operation_type(self.spec_value()) == spec_operation_type(other.spec_value())
            && spec_operation_key(self.spec_value()) == spec_operation_key(other.spec_value())
    }
}

impl Eq for OperationCode {

}

} // verus!
