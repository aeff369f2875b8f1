//! The laws of the library that relate several functions: that the
//! assembler and the emulator's decoder agree, that assembly is
//! insensitive to letter case, and how the machine's step model moves
//! the program counter, the call stack and the sticky error flag.

use vstd::prelude::*;
use crate::hardware::operations::{
    spec_decode_op, spec_one_operand, spec_operand_value, spec_pc_add, spec_resolve,
    spec_saturating_add, spec_saturating_sub, spec_step, spec_two_operand_values,
    Address, Operation, StepOutcome,
};
use crate::hardware::{CpuView, HardwareError};
use crate::translator::{
    spec_address_with_mode, spec_lower_char, spec_is_line_whitespace,
    spec_scan_tokens, spec_skip_whitespace, spec_tokens, spec_translate_address,
    spec_translate_line, spec_trim_back, EncodeResult,
};

verus! {

/// The handler that a mnemonic token names, in the emulator's decoder.
/// DATA names none: it is a directive that stores a raw word, not an
/// instruction.
pub open spec fn spec_operation_of_mnemonic(m: Seq<char>) -> Option<Operation> {
    if m == "data"@ {
        None
    } else if m == "nop"@ {
        Some(Operation::Nop)
    } else if m == "subroutine"@ {
        Some(Operation::Subroutine)
    } else if m == "return"@ {
        Some(Operation::Return)
    } else if m == "syscall"@ {
        Some(Operation::Syscall)
    } else if m == "copy"@ {
        Some(Operation::Copy)
    } else if m == "jump"@ {
        Some(Operation::Jump)
    } else if m == "skip_if_zero"@ {
        Some(Operation::SkipIfZero)
    } else if m == "add"@ {
        Some(Operation::Add)
    } else if m == "subtract"@ {
        Some(Operation::Subtract)
    } else if m == "skip_if_equal"@ {
        Some(Operation::SkipIfEqual)
    } else if m == "skip_if_greater"@ {
        Some(Operation::SkipIfGreater)
    } else if m == "set"@ {
        Some(Operation::SetRegister)
    } else {
        None
    }
}

proof fn lemma_mode_or_bound(m: u8, v: u8)
    by (bit_vector)
    requires
        m == 0x00u8 || m == 0x10u8 || m == 0x20u8 || m == 0x30u8,
        v <= 7,
    ensures
        (m | v) < 64,
{
}

/// An address field the assembler accepts always fits its six bits.
pub proof fn lemma_address_field_bound(t: Seq<char>, a: u8)
    requires
        spec_translate_address(t) == Ok::<u8, crate::translator::TranslateFault>(a),
    ensures
        a < 64,
{
    if t.len() >= 3 && t[0] == 'r' && t[1] == 'p' && t[2] == 'm' {
        lemma_with_mode_bound(0x30u8, t.skip(3), a);
    } else if t.len() >= 2 && t[0] == 'r' && t[1] == 'p' {
        lemma_with_mode_bound(0x20u8, t.skip(2), a);
    } else if t.len() >= 1 && t[0] == 'm' {
        lemma_with_mode_bound(0x10u8, t.skip(1), a);
    } else {
        lemma_with_mode_bound(0x00u8, t.skip(1), a);
    }
}

proof fn lemma_with_mode_bound(m: u8, rest: Seq<char>, a: u8)
    requires
        m == 0x00u8 || m == 0x10u8 || m == 0x20u8 || m == 0x30u8,
        spec_address_with_mode(m, rest) == Ok::<u8, crate::translator::TranslateFault>(a),
    ensures
        a < 64,
{
    let v = crate::translator::spec_parse_u8(rest).unwrap();
    lemma_mode_or_bound(m, v);
}

proof fn lemma_bits_no_operand()
    by (bit_vector)
    ensures
        0u16 & 0xFFC0u16 == 0,
        1u16 & 0xFFC0u16 == 0,
        2u16 & 0xFFC0u16 == 0,
{
}

proof fn lemma_bits_single(t: u16, a: u16)
    by (bit_vector)
    requires
        t == 0x0040u16 || t == 0x0080u16 || t == 0x00C0u16,
        a < 64,
    ensures
        ((t | a) & 0xFFC0u16) != 0,
        ((t | a) & 0xF000u16) == 0,
        ((t | a) & 0x0FC0u16) == t,
        ((t | a) & 0x003Fu16) == a,
{
}

proof fn lemma_bits_double(t: u16, a1: u16, a2: u16)
    by (bit_vector)
    requires
        t == 0x1000u16 || t == 0x2000u16 || t == 0x3000u16 || t == 0x4000u16 || t == 0x5000u16,
        a1 < 64,
        a2 < 64,
    ensures
        ((t | (a1 << 6u16) | a2) & 0xFFC0u16) != 0,
        ((t | (a1 << 6u16) | a2) & 0xF000u16) == t,
        (((t | (a1 << 6u16) | a2) & 0x0FC0u16) >> 6u16) == a1,
        ((t | (a1 << 6u16) | a2) & 0x003Fu16) == a2,
{
}

proof fn lemma_bits_set(reg: u16, k: u16)
    by (bit_vector)
    requires
        reg < 8,
        k < 512,
    ensures
        ((0x6000u16 | (reg << 9u16) | k) & 0xFFC0u16) != 0,
        ((0x6000u16 | (reg << 9u16) | k) & 0xF000u16) == 0x6000u16,
        (((0x6000u16 | (reg << 9u16) | k) & 0x0E00u16) >> 9u16) == reg,
        ((0x6000u16 | (reg << 9u16) | k) & 0x01FFu16) == k,
{
}

/// Round trip: every word the assembler emits for an instruction line
/// decodes, in the emulator, to the handler that the line's mnemonic
/// names. (A DATA line stores a raw word and is left out: it names no
/// handler.)
pub proof fn lemma_assembler_emulator_round_trip(line: Seq<char>, w: u16)
    requires
        spec_translate_line(line) == EncodeResult::Word(w),
        spec_tokens(line)[0] != "data"@,
    ensures
        spec_tokens(line).len() > 0,
        spec_decode_op(w) == spec_operation_of_mnemonic(spec_tokens(line)[0]),
        spec_decode_op(w) is Some,
{
    let toks = spec_tokens(line);
    let m = toks[0];
    lemma_bits_no_operand();
    if m == "nop"@ {
        // The word is zero: all its top ten bits are clear.
    } else if m == "subroutine"@ {
        lemma_single_operand_case(toks, 0x00C0u16);
    } else if m == "return"@ || m == "syscall"@ {
        // The two fixed words have all their top ten bits clear.
    } else if m == "copy"@ {
        lemma_double_operand_case(toks, 0x1000u16);
    } else if m == "jump"@ {
        lemma_single_operand_case(toks, 0x0040u16);
    } else if m == "skip_if_zero"@ {
        lemma_single_operand_case(toks, 0x0080u16);
    } else if m == "add"@ {
        lemma_double_operand_case(toks, 0x2000u16);
    } else if m == "subtract"@ {
        lemma_double_operand_case(toks, 0x3000u16);
    } else if m == "skip_if_equal"@ {
        lemma_double_operand_case(toks, 0x4000u16);
    } else if m == "skip_if_greater"@ {
        lemma_double_operand_case(toks, 0x5000u16);
    } else if m == "set"@ {
        let reg = crate::translator::spec_parse_u8(toks[1].skip(1)).unwrap();
        let k = crate::translator::spec_parse_u16(toks[2]).unwrap();
        lemma_bits_set(reg as u16, k);
    }
}

proof fn lemma_single_operand_case(toks: Seq<Seq<char>>, t: u16)
    requires
        t == 0x0040u16 || t == 0x0080u16 || t == 0x00C0u16,
        crate::translator::spec_encode_one_address(toks, t) matches EncodeResult::Word(_),
    ensures
        ({
            let w = (match crate::translator::spec_encode_one_address(toks, t) {
                EncodeResult::Word(w) => w,
                _ => 0u16,
            });
            &&& (w & 0xFFC0u16) != 0
            &&& (w & 0xF000u16) == 0
            &&& (w & 0x0FC0u16) == t
        }),
{
    let a = spec_translate_address(toks[1]).unwrap();
    lemma_address_field_bound(toks[1], a);
    lemma_bits_single(t, a as u16);
}

proof fn lemma_double_operand_case(toks: Seq<Seq<char>>, t: u16)
    requires
        t == 0x1000u16 || t == 0x2000u16 || t == 0x3000u16 || t == 0x4000u16 || t == 0x5000u16,
        crate::translator::spec_encode_two_address(toks, t) matches EncodeResult::Word(_),
    ensures
        ({
            let w = (match crate::translator::spec_encode_two_address(toks, t) {
                EncodeResult::Word(w) => w,
                _ => 0u16,
            });
            &&& (w & 0xFFC0u16) != 0
            &&& (w & 0xF000u16) == t
        }),
{
    let a1 = spec_translate_address(toks[1]).unwrap();
    let a2 = spec_translate_address(toks[2]).unwrap();
    lemma_address_field_bound(toks[1], a1);
    lemma_address_field_bound(toks[2], a2);
    lemma_bits_double(t, a1 as u16, a2 as u16);
}

/// Saturation: ADD caps at the largest word and SUBTRACT at zero, for
/// all values.
pub proof fn lemma_saturation(u: u16, v: u16)
    ensures
        spec_saturating_add(u, v) == if u + v > 0xFFFF {
            0xFFFF as int
        } else {
            u + v
        },
        spec_saturating_sub(u, v) == if u >= v {
            u - v
        } else {
            0int
        },
{
}

/// Sticky error: clocking an errored machine fails at once and changes
/// nothing.
pub proof fn lemma_sticky_error(v: CpuView)
    requires
        v.error,
    ensures
        spec_step(v) == Some(
            StepOutcome { next: v, fault: Some(HardwareError::ErrorState) },
        ),
{
}

/// Every fault of a clock leaves the machine in the sticky error
/// state, and a clock that succeeds never raises it.
pub proof fn lemma_fault_sets_error(v: CpuView, o: StepOutcome)
    requires
        spec_step(v) == Some(o),
    ensures
        o.fault is Some ==> o.next.error,
        o.fault is None ==> o.next.error == v.error,
{
}

/// Bounds: a memory-dereferencing operand whose register holds an
/// address at or beyond the end of memory does not resolve.
pub proof fn lemma_memory_operand_bounds(v: CpuView, a: u8)
    requires
        a & 0x30u8 == 0x10u8,
        a & 0x0Fu8 <= 7,
        v.regs[(a & 0x0Fu8) as int] >= v.mem.len(),
    ensures
        spec_resolve(v, a) == Err::<Address, HardwareError>(
            HardwareError::AddressOutOfMemory(v.regs[(a & 0x0Fu8) as int], a & 0x0Fu8),
        ),
{
}

/// PC monotonicity, straight-line part: a successful NOP, SET, COPY,
/// ADD, SUBTRACT or SYSCALL advances the program counter by exactly
/// one.
pub proof fn lemma_pc_advance_straight_line(v: CpuView, o: StepOutcome)
    requires
        spec_step(v) == Some(o),
        o.fault is None,
        match spec_decode_op(v.mem[v.pc as int]) {
            Some(op) => op matches Operation::Nop || op matches Operation::SetRegister
                || op matches Operation::Copy || op matches Operation::Add
                || op matches Operation::Subtract,
            None => false,
        },
    ensures
        o.next.pc == spec_pc_add(v.pc, 1),
{
}

/// PC monotonicity, skip part: a successful skip instruction advances
/// the program counter by two when its predicate holds and by one
/// otherwise.
pub proof fn lemma_pc_advance_skips(v: CpuView, o: StepOutcome)
    requires
        spec_step(v) == Some(o),
        o.fault is None,
        match spec_decode_op(v.mem[v.pc as int]) {
            Some(op) => op matches Operation::SkipIfZero || op matches Operation::SkipIfEqual
                || op matches Operation::SkipIfGreater,
            None => false,
        },
    ensures
        ({
            let w = v.mem[v.pc as int];
            let taken = match spec_decode_op(w) {
                Some(Operation::SkipIfZero) => spec_operand_value(
                    v,
                    spec_one_operand(w),
                    false,
                    w,
                ) == Ok::<u16, HardwareError>(0),
                Some(Operation::SkipIfEqual) => {
                    let (x, y) = spec_two_operand_values(v, w, false).unwrap();
                    x == y
                },
                _ => {
                    let (x, y) = spec_two_operand_values(v, w, false).unwrap();
                    x > y
                },
            };
            o.next.pc == spec_pc_add(v.pc, if taken { 2 } else { 1 })
        }),
{
}

/// PC monotonicity, branch part: a successful JUMP or SUBROUTINE sets
/// the program counter to its operand's resolved value, and a
/// successful RETURN restores the program counter pushed last.
pub proof fn lemma_pc_branches(v: CpuView, o: StepOutcome)
    requires
        spec_step(v) == Some(o),
        o.fault is None,
    ensures
        ({
            let w = v.mem[v.pc as int];
            match spec_decode_op(w) {
                Some(Operation::Jump) => o.next.pc == spec_operand_value(
                    v,
                    spec_one_operand(w),
                    true,
                    w,
                ).unwrap(),
                Some(Operation::Subroutine) => o.next.pc == spec_operand_value(
                    CpuView { stack: v.stack.push(spec_pc_add(v.pc, 1)), ..v },
                    spec_one_operand(w),
                    true,
                    w,
                ).unwrap() && o.next.stack == v.stack.push(spec_pc_add(v.pc, 1)),
                Some(Operation::Return) => o.next.pc == v.stack.last() && o.next.stack
                    == v.stack.drop_last(),
                _ => true,
            }
        }),
{
}

/// Stack discipline: after a successful SUBROUTINE, a later successful
/// RETURN executed with the call stack as the SUBROUTINE left it sets
/// the program counter to the address right after the SUBROUTINE
/// instruction.
pub proof fn lemma_stack_discipline(v1: CpuView, o1: StepOutcome, v2: CpuView, o2: StepOutcome)
    requires
        spec_step(v1) == Some(o1),
        o1.fault is None,
        spec_decode_op(v1.mem[v1.pc as int]) == Some(Operation::Subroutine),
        spec_step(v2) == Some(o2),
        o2.fault is None,
        spec_decode_op(v2.mem[v2.pc as int]) == Some(Operation::Return),
        v2.stack == o1.next.stack,
    ensures
        o2.next.pc == spec_pc_add(v1.pc, 1),
        o2.next.stack == v1.stack,
{
    assert(o1.next.stack == v1.stack.push(spec_pc_add(v1.pc, 1)));
    assert(v2.stack.last() == spec_pc_add(v1.pc, 1));
    assert(v2.stack.drop_last() =~= v1.stack);
}

/// Whether `c` lies in the range of Unicode code points; every
/// character of a real string does.
pub open spec fn spec_valid_char(c: char) -> bool {
    0 <= c as int <= 0x10FFFF
}

/// Whether every character of `s` is a code point.
pub open spec fn spec_valid_chars(s: Seq<char>) -> bool {
    forall|i: int| 0 <= i < s.len() ==> spec_valid_char(#[trigger] s[i])
}

proof fn lemma_lower_char_classes(x: char, y: char)
    requires
        spec_valid_char(x),
        spec_valid_char(y),
        spec_lower_char(x) == spec_lower_char(y),
    ensures
        x == ' ' <==> y == ' ',
        x == ';' <==> y == ';',
        spec_is_line_whitespace(x) <==> spec_is_line_whitespace(y),
{
    assert(x as int == x as u32 as int);
    assert(y as int == y as u32 as int);
    if 65 <= x as u32 && x as u32 <= 90 {
        assert(spec_lower_char(x) as int == x as int + 32);
    }
    if 65 <= y as u32 && y as u32 <= 90 {
        assert(spec_lower_char(y) as int == y as int + 32);
    }
}

proof fn lemma_skip_whitespace_case(a: Seq<char>, b: Seq<char>, i: int)
    requires
        0 <= i <= a.len(),
        a.len() == b.len(),
        spec_valid_chars(a),
        spec_valid_chars(b),
        forall|j: int| 0 <= j < a.len() ==> spec_lower_char(a[j]) == spec_lower_char(b[j]),
    ensures
        spec_skip_whitespace(a, i) == spec_skip_whitespace(b, i),
    decreases a.len() - i,
{
    if i < a.len() {
        lemma_lower_char_classes(a[i], b[i]);
        if spec_is_line_whitespace(a[i]) {
            lemma_skip_whitespace_case(a, b, i + 1);
        }
    }
}

proof fn lemma_trim_back_case(a: Seq<char>, b: Seq<char>, j: int, floor: int)
    requires
        0 <= floor <= j <= a.len(),
        a.len() == b.len(),
        spec_valid_chars(a),
        spec_valid_chars(b),
        forall|k: int| 0 <= k < a.len() ==> spec_lower_char(a[k]) == spec_lower_char(b[k]),
    ensures
        spec_trim_back(a, j, floor) == spec_trim_back(b, j, floor),
    decreases j,
{
    if j > floor {
        lemma_lower_char_classes(a[j - 1], b[j - 1]);
        if spec_is_line_whitespace(a[j - 1]) {
            lemma_trim_back_case(a, b, j - 1, floor);
        }
    }
}

proof fn lemma_scan_tokens_case(
    a: Seq<char>,
    b: Seq<char>,
    i: int,
    end: int,
    current: Seq<char>,
    acc: Seq<Seq<char>>,
)
    requires
        0 <= i <= end <= a.len(),
        a.len() == b.len(),
        spec_valid_chars(a),
        spec_valid_chars(b),
        forall|j: int| 0 <= j < a.len() ==> spec_lower_char(a[j]) == spec_lower_char(b[j]),
    ensures
        spec_scan_tokens(a, i, end, current, acc) == spec_scan_tokens(b, i, end, current, acc),
    decreases end - i,
{
    if i < end {
        lemma_lower_char_classes(a[i], b[i]);
        if a[i] == ' ' {
            if current.len() == 0 {
                lemma_scan_tokens_case(a, b, i + 1, end, current, acc);
            } else {
                lemma_scan_tokens_case(a, b, i + 1, end, Seq::empty(), acc.push(current));
            }
        } else if a[i] == ';' && current.len() == 0 {
        } else {
            lemma_scan_tokens_case(a, b, i + 1, end, current.push(spec_lower_char(a[i])), acc);
        }
    }
}

/// Case insensitivity: two lines of the same length whose characters
/// agree once letter case is folded tokenize to the same tokens and
/// assemble to the same result.
pub proof fn lemma_translation_case_insensitive(a: Seq<char>, b: Seq<char>)
    requires
        a.len() == b.len(),
        spec_valid_chars(a),
        spec_valid_chars(b),
        forall|i: int| 0 <= i < a.len() ==> spec_lower_char(a[i]) == spec_lower_char(b[i]),
    ensures
        spec_tokens(a) == spec_tokens(b),
        spec_translate_line(a) == spec_translate_line(b),
{
    lemma_skip_whitespace_case(a, b, 0);
    let start = spec_skip_whitespace(a, 0);
    crate::translator::lemma_skip_whitespace_in_range(a, 0);
    lemma_trim_back_case(a, b, a.len() as int, start);
    let end = spec_trim_back(a, a.len() as int, start);
    crate::translator::lemma_trim_back_in_range(a, a.len() as int, start);
    lemma_scan_tokens_case(a, b, start, end, Seq::empty(), Seq::empty());
}

/// Two lines with the same tokens assemble to the same result: spacing
/// and comments matter only through the tokens they leave.
pub proof fn lemma_translation_depends_only_on_tokens(a: Seq<char>, b: Seq<char>)
    requires
        spec_tokens(a) == spec_tokens(b),
    ensures
        spec_translate_line(a) == spec_translate_line(b),
{
}

proof fn lemma_skip_whitespace_all_ws(s: Seq<char>, i: int)
    requires
        0 <= i <= s.len(),
    ensures
        forall|j: int| i <= j < spec_skip_whitespace(s, i) ==> spec_is_line_whitespace(
            #[trigger] s[j],
        ),
    decreases s.len() - i,
{
    if i < s.len() && spec_is_line_whitespace(s[i]) {
        lemma_skip_whitespace_all_ws(s, i + 1);
    }
}

proof fn lemma_skip_whitespace_to(s: Seq<char>, i: int, k: int)
    requires
        0 <= i <= k <= s.len(),
        forall|j: int| i <= j < k ==> spec_is_line_whitespace(#[trigger] s[j]),
        k == s.len() || !spec_is_line_whitespace(s[k]),
    ensures
        spec_skip_whitespace(s, i) == k,
    decreases k - i,
{
    if i < k {
        lemma_skip_whitespace_to(s, i + 1, k);
    }
}

proof fn lemma_skip_whitespace_stops(s: Seq<char>, i: int)
    requires
        0 <= i <= s.len(),
    ensures
        spec_skip_whitespace(s, i) == s.len() || !spec_is_line_whitespace(
            s[spec_skip_whitespace(s, i)],
        ),
    decreases s.len() - i,
{
    if i < s.len() && spec_is_line_whitespace(s[i]) {
        lemma_skip_whitespace_stops(s, i + 1);
    }
}

proof fn lemma_skip_whitespace_agrees(a: Seq<char>, b: Seq<char>, i: int)
    requires
        0 <= i <= a.len() <= b.len(),
        forall|j: int| i <= j < a.len() ==> a[j] == #[trigger] b[j],
        spec_skip_whitespace(a, i) < a.len(),
    ensures
        spec_skip_whitespace(b, i) == spec_skip_whitespace(a, i),
    decreases a.len() - i,
{
    if i < a.len() && spec_is_line_whitespace(a[i]) {
        lemma_skip_whitespace_agrees(a, b, i + 1);
    }
}

proof fn lemma_trim_back_agrees(a: Seq<char>, b: Seq<char>, j: int, floor: int)
    requires
        0 <= floor <= j <= a.len() <= b.len(),
        forall|k: int| floor <= k < j ==> a[k] == #[trigger] b[k],
    ensures
        spec_trim_back(b, j, floor) == spec_trim_back(a, j, floor),
    decreases j,
{
    if j > floor && spec_is_line_whitespace(a[j - 1]) {
        lemma_trim_back_agrees(a, b, j - 1, floor);
    }
}

proof fn lemma_trim_back_above(s: Seq<char>, j: int, floor: int, p: int)
    requires
        0 <= floor <= p < j <= s.len(),
        !spec_is_line_whitespace(s[p]),
    ensures
        spec_trim_back(s, j, floor) >= p + 1,
    decreases j,
{
    if j > floor && spec_is_line_whitespace(s[j - 1]) {
        lemma_trim_back_above(s, j - 1, floor, p);
    }
}

proof fn lemma_scan_tokens_agrees(
    a: Seq<char>,
    b: Seq<char>,
    i: int,
    end: int,
    current: Seq<char>,
    acc: Seq<Seq<char>>,
)
    requires
        0 <= i <= end <= a.len() <= b.len(),
        forall|j: int| i <= j < end ==> a[j] == #[trigger] b[j],
    ensures
        spec_scan_tokens(b, i, end, current, acc) == spec_scan_tokens(a, i, end, current, acc),
    decreases end - i,
{
    if i < end {
        if a[i] == ' ' {
            if current.len() == 0 {
                lemma_scan_tokens_agrees(a, b, i + 1, end, current, acc);
            } else {
                lemma_scan_tokens_agrees(a, b, i + 1, end, Seq::empty(), acc.push(current));
            }
        } else if a[i] == ';' && current.len() == 0 {
        } else {
            lemma_scan_tokens_agrees(a, b, i + 1, end, current.push(spec_lower_char(a[i])), acc);
        }
    }
}

/// An extra space at the end of a line changes nothing: the tokens and
/// the assembled result stay the same.
pub proof fn lemma_trailing_space_ignored(s: Seq<char>)
    ensures
        spec_tokens(s.push(' ')) == spec_tokens(s),
        spec_translate_line(s.push(' ')) == spec_translate_line(s),
{
    let full = s.push(' ');
    let st = spec_skip_whitespace(s, 0);
    crate::translator::lemma_skip_whitespace_in_range(s, 0);
    if st < s.len() {
        lemma_skip_whitespace_agrees(s, full, 0);
        lemma_trim_back_agrees(s, full, s.len() as int, st);
        let en = spec_trim_back(s, s.len() as int, st);
        crate::translator::lemma_trim_back_in_range(s, s.len() as int, st);
        assert(spec_trim_back(full, full.len() as int, st) == spec_trim_back(
            full,
            s.len() as int,
            st,
        ));
        lemma_scan_tokens_agrees(s, full, st, en, Seq::empty(), Seq::empty());
    } else {
        // The line is all whitespace, and so is its extension.
        lemma_skip_whitespace_all_ws(s, 0);
        lemma_skip_whitespace_to(full, 0, full.len() as int);
        assert(spec_tokens(s) =~= Seq::<Seq<char>>::empty());
        assert(spec_tokens(full) =~= Seq::<Seq<char>>::empty());
    }
}

proof fn lemma_scan_spaces_to_comment(full: Seq<char>, i: int, semi: int, end: int, acc: Seq<
    Seq<char>,
>)
    requires
        0 <= i <= semi < end <= full.len(),
        forall|j: int| i <= j < semi ==> #[trigger] full[j] == ' ',
        full[semi] == ';',
    ensures
        spec_scan_tokens(full, i, end, Seq::empty(), acc) == acc,
    decreases semi - i,
{
    if i < semi {
        lemma_scan_spaces_to_comment(full, i + 1, semi, end, acc);
    }
}

#[verifier::rlimit(60)]
proof fn lemma_scan_tokens_cut(
    s: Seq<char>,
    full: Seq<char>,
    i: int,
    en: int,
    semi: int,
    end_full: int,
    current: Seq<char>,
    acc: Seq<Seq<char>>,
)
    requires
        0 <= i <= en <= s.len() <= semi < end_full <= full.len(),
        forall|j: int| 0 <= j < s.len() ==> s[j] == #[trigger] full[j],
        forall|j: int| en <= j < semi ==> #[trigger] full[j] == ' ',
        en < semi,
        full[semi] == ';',
    ensures
        spec_scan_tokens(full, i, end_full, current, acc) == spec_scan_tokens(
            s,
            i,
            en,
            current,
            acc,
        ),
    decreases en - i,
{
    if i < en {
        if s[i] == ' ' {
            if current.len() == 0 {
                lemma_scan_tokens_cut(s, full, i + 1, en, semi, end_full, current, acc);
            } else {
                lemma_scan_tokens_cut(
                    s,
                    full,
                    i + 1,
                    en,
                    semi,
                    end_full,
                    Seq::empty(),
                    acc.push(current),
                );
            }
        } else if s[i] == ';' && current.len() == 0 {
        } else {
            lemma_scan_tokens_cut(
                s,
                full,
                i + 1,
                en,
                semi,
                end_full,
                current.push(spec_lower_char(s[i])),
                acc,
            );
        }
    } else {
        // From here on `full` holds only spaces and then the comment:
        // the current token is flushed by the first space and the
        // semicolon cuts the rest.
        assert(full[i] == ' ');
        if current.len() == 0 {
            assert(current =~= Seq::<char>::empty());
            lemma_scan_spaces_to_comment(full, i, semi, end_full, acc);
            assert(spec_scan_tokens(full, i, end_full, current, acc) == acc);
            assert(spec_scan_tokens(s, i, en, current, acc) == acc);
        } else {
            lemma_scan_spaces_to_comment(full, i + 1, semi, end_full, acc.push(current));
            assert(spec_scan_tokens(full, i, end_full, current, acc) == spec_scan_tokens(
                full,
                i + 1,
                end_full,
                Seq::empty(),
                acc.push(current),
            ));
            assert(spec_scan_tokens(full, i, end_full, current, acc) == acc.push(current));
            assert(spec_scan_tokens(s, i, en, current, acc) == acc.push(current));
        }
    }
}

/// A trailing comment is ignored: a line whose trailing whitespace is
/// only spaces assembles exactly as the same line with ` ;` and
/// anything after it appended.
#[verifier::rlimit(60)]
pub proof fn lemma_trailing_comment_ignored(s: Seq<char>, c: Seq<char>)
    requires
        c.len() >= 2,
        c[0] == ' ',
        c[1] == ';',
        forall|j: int|
            spec_trim_back(s, s.len() as int, spec_skip_whitespace(s, 0)) <= j < s.len()
                ==> s[j] == ' ',
    ensures
        spec_tokens(s + c) == spec_tokens(s),
        spec_translate_line(s + c) == spec_translate_line(s),
{
    let full = s + c;
    let st = spec_skip_whitespace(s, 0);
    crate::translator::lemma_skip_whitespace_in_range(s, 0);
    let semi = s.len() as int + 1;
    assert(full[semi] == ';');
    assert(full[s.len() as int] == ' ');
    if st < s.len() {
        lemma_skip_whitespace_stops(s, 0);
        lemma_skip_whitespace_agrees(s, full, 0);
        let en = spec_trim_back(s, s.len() as int, st);
        crate::translator::lemma_trim_back_in_range(s, s.len() as int, st);
        lemma_trim_back_above(s, s.len() as int, st, st);
        let end_full = spec_trim_back(full, full.len() as int, st);
        crate::translator::lemma_trim_back_in_range(full, full.len() as int, st);
        lemma_trim_back_above(full, full.len() as int, st, semi);
        lemma_scan_tokens_cut(s, full, st, en, semi, end_full, Seq::empty(), Seq::empty());
    } else {
        // The line is all whitespace: both sides tokenize to nothing,
        // the extension because its first non-blank character starts
        // the comment.
        lemma_skip_whitespace_all_ws(s, 0);
        assert forall|j: int| 0 <= j < semi implies spec_is_line_whitespace(
            #[trigger] full[j],
        ) by {
            if j < s.len() {
                assert(full[j] == s[j]);
            } else {
                assert(full[j] == c[0]);
            }
        }
        lemma_skip_whitespace_to(full, 0, semi);
        let end_full = spec_trim_back(full, full.len() as int, semi);
        crate::translator::lemma_trim_back_in_range(full, full.len() as int, semi);
        lemma_trim_back_above(full, full.len() as int, semi, semi);
        assert(spec_tokens(s) =~= Seq::<Seq<char>>::empty());
        assert(spec_tokens(full) =~= Seq::<Seq<char>>::empty());
    }
}

proof fn lemma_skip_whitespace_shifted(s: Seq<char>, full: Seq<char>, d: int, i: int)
    requires
        0 <= i <= s.len(),
        0 <= d,
        full.len() == s.len() + d,
        forall|j: int| i <= j < s.len() ==> #[trigger] full[j + d] == s[j],
    ensures
        spec_skip_whitespace(full, i + d) == spec_skip_whitespace(s, i) + d,
    decreases s.len() - i,
{
    if i < s.len() {
        assert(full[i + d] == s[i]);
    }
    if i < s.len() && spec_is_line_whitespace(s[i]) {
        lemma_skip_whitespace_shifted(s, full, d, i + 1);
    }
}

proof fn lemma_trim_back_shifted(s: Seq<char>, full: Seq<char>, d: int, j: int, floor: int)
    requires
        0 <= floor <= j <= s.len(),
        0 <= d,
        full.len() == s.len() + d,
        forall|k: int| floor <= k < j ==> #[trigger] full[k + d] == s[k],
    ensures
        spec_trim_back(full, j + d, floor + d) == spec_trim_back(s, j, floor) + d,
    decreases j,
{
    if j > floor {
        assert(full[j - 1 + d] == s[j - 1]);
        if spec_is_line_whitespace(s[j - 1]) {
            lemma_trim_back_shifted(s, full, d, j - 1, floor);
        }
    }
}

proof fn lemma_scan_tokens_shifted(
    s: Seq<char>,
    full: Seq<char>,
    d: int,
    i: int,
    end: int,
    current: Seq<char>,
    acc: Seq<Seq<char>>,
)
    requires
        0 <= i <= end <= s.len(),
        0 <= d,
        full.len() >= s.len() + d,
        forall|j: int| i <= j < end ==> #[trigger] full[j + d] == s[j],
    ensures
        spec_scan_tokens(full, i + d, end + d, current, acc) == spec_scan_tokens(
            s,
            i,
            end,
            current,
            acc,
        ),
    decreases end - i,
{
    if i < end {
        assert(full[i + d] == s[i]);
        if s[i] == ' ' {
            if current.len() == 0 {
                lemma_scan_tokens_shifted(s, full, d, i + 1, end, current, acc);
            } else {
                lemma_scan_tokens_shifted(s, full, d, i + 1, end, Seq::empty(), acc.push(current));
            }
        } else if s[i] == ';' && current.len() == 0 {
        } else {
            lemma_scan_tokens_shifted(
                s,
                full,
                d,
                i + 1,
                end,
                current.push(spec_lower_char(s[i])),
                acc,
            );
        }
    }
}

/// An extra space at the start of a line changes nothing: the tokens
/// and the assembled result stay the same.
pub proof fn lemma_leading_space_ignored(s: Seq<char>)
    ensures
        spec_tokens(seq![' '].add(s)) == spec_tokens(s),
        spec_translate_line(seq![' '].add(s)) == spec_translate_line(s),
{
    let full = seq![' '].add(s);
    assert forall|j: int| 0 <= j < s.len() implies #[trigger] full[j + 1] == s[j] by {
        assert(full[j + 1] == s[j]);
    }
    let st = spec_skip_whitespace(s, 0);
    crate::translator::lemma_skip_whitespace_in_range(s, 0);
    assert(spec_skip_whitespace(full, 0) == spec_skip_whitespace(full, 1));
    lemma_skip_whitespace_shifted(s, full, 1, 0);
    let en = spec_trim_back(s, s.len() as int, st);
    crate::translator::lemma_trim_back_in_range(s, s.len() as int, st);
    lemma_trim_back_shifted(s, full, 1, s.len() as int, st);
    lemma_scan_tokens_shifted(s, full, 1, st, en, Seq::empty(), Seq::empty());
}

proof fn lemma_trim_back_all_ws(s: Seq<char>, j: int, floor: int)
    requires
        0 <= floor <= j <= s.len(),
    ensures
        forall|m: int| spec_trim_back(s, j, floor) <= m < j ==> spec_is_line_whitespace(
            #[trigger] s[m],
        ),
    decreases j,
{
    if j > floor && spec_is_line_whitespace(s[j - 1]) {
        lemma_trim_back_all_ws(s, j - 1, floor);
    }
}

proof fn lemma_trim_back_stops(s: Seq<char>, j: int, floor: int)
    requires
        0 <= floor <= j <= s.len(),
    ensures
        spec_trim_back(s, j, floor) == floor || !spec_is_line_whitespace(
            s[spec_trim_back(s, j, floor) - 1],
        ),
    decreases j,
{
    if j > floor && spec_is_line_whitespace(s[j - 1]) {
        lemma_trim_back_stops(s, j - 1, floor);
    }
}

proof fn lemma_trim_back_to(s: Seq<char>, j: int, floor: int, k: int)
    requires
        0 <= floor <= k <= j <= s.len(),
        forall|m: int| k <= m < j ==> spec_is_line_whitespace(#[trigger] s[m]),
        k == floor || !spec_is_line_whitespace(s[k - 1]),
    ensures
        spec_trim_back(s, j, floor) == k,
    decreases j,
{
    if j > k {
        lemma_trim_back_to(s, j - 1, floor, k);
    }
}

proof fn lemma_scan_insert_space(
    s: Seq<char>,
    full: Seq<char>,
    j: int,
    i: int,
    end: int,
    current: Seq<char>,
    acc: Seq<Seq<char>>,
)
    requires
        0 <= j <= i < end <= s.len(),
        full.len() >= s.len() + 1,
        s[i] == ' ',
        full[i] == ' ',
        forall|m: int| j <= m < i ==> #[trigger] full[m] == s[m],
        forall|m: int| i <= m < end ==> #[trigger] full[m + 1] == s[m],
    ensures
        spec_scan_tokens(full, j, end + 1, current, acc) == spec_scan_tokens(
            s,
            j,
            end,
            current,
            acc,
        ),
    decreases i - j,
{
    if j < i {
        if s[j] == ' ' {
            if current.len() == 0 {
                lemma_scan_insert_space(s, full, j + 1, i, end, current, acc);
            } else {
                lemma_scan_insert_space(s, full, j + 1, i, end, Seq::empty(), acc.push(current));
            }
        } else if s[j] == ';' && current.len() == 0 {
        } else {
            lemma_scan_insert_space(
                s,
                full,
                j + 1,
                i,
                end,
                current.push(spec_lower_char(s[j])),
                acc,
            );
        }
    } else {
        // Both scans consume one space here and flush the current
        // token; past the doubled space the line is merely shifted.
        let flushed = if current.len() == 0 {
            acc
        } else {
            acc.push(current)
        };
        if current.len() == 0 {
            assert(current =~= Seq::<char>::empty());
        }
        lemma_scan_tokens_shifted(s, full, 1, i, end, Seq::empty(), flushed);
        assert(spec_scan_tokens(s, i, end, Seq::empty(), flushed) == spec_scan_tokens(
            s,
            i + 1,
            end,
            Seq::empty(),
            flushed,
        ));
    }
}

/// Doubling a space changes nothing: inserting one more space beside
/// an existing one leaves the tokens, and so the assembled result,
/// the same.
pub proof fn lemma_inserted_space_ignored(s: Seq<char>, i: int)
    requires
        0 <= i < s.len(),
        s[i] == ' ',
    ensures
        spec_tokens(s.insert(i, ' ')) == spec_tokens(s),
        spec_translate_line(s.insert(i, ' ')) == spec_translate_line(s),
{
    let full = s.insert(i, ' ');
    s.insert_ensures(i, ' ');
    let st = spec_skip_whitespace(s, 0);
    crate::translator::lemma_skip_whitespace_in_range(s, 0);
    lemma_skip_whitespace_stops(s, 0);
    lemma_skip_whitespace_all_ws(s, 0);
    let en = spec_trim_back(s, s.len() as int, st);
    crate::translator::lemma_trim_back_in_range(s, s.len() as int, st);
    lemma_trim_back_all_ws(s, s.len() as int, st);
    lemma_trim_back_stops(s, s.len() as int, st);
    if i < st {
        // The space is doubled inside the leading whitespace; the rest
        // of the line only shifts.
        lemma_skip_whitespace_to(full, 0, st + 1);
        lemma_trim_back_shifted(s, full, 1, s.len() as int, st);
        lemma_scan_tokens_shifted(s, full, 1, st, en, Seq::empty(), Seq::empty());
    } else {
        // The skip stops at a non-blank character, so it stops before
        // the doubled space.
        assert(st < i);
        lemma_skip_whitespace_to(full, 0, st);
        if i < en {
            // The scan itself passes the doubled space.
            lemma_trim_back_to(full, full.len() as int, st, en + 1);
            lemma_scan_insert_space(s, full, st, i, en, Seq::empty(), Seq::empty());
        } else {
            // The space is doubled inside the trailing whitespace; the
            // scanned part of the line is untouched.
            lemma_trim_back_to(full, full.len() as int, st, en);
            lemma_scan_tokens_agrees(s, full, st, en, Seq::empty(), Seq::empty());
        }
    }
}

} // verus!
