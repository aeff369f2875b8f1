//! The assembler: translates one line of the mnemonic language into the
//! 16-bit word the emulator decodes. The spec functions in this module
//! define the textual grammar (tokenization, number parsing, address
//! syntax) and the exact bit pattern of every encoder.

use vstd::prelude::*;

verus! {

/// The build-time faults of the assembler, by category.
#[derive(Clone, Copy, PartialEq, Eq, Structural, Debug)]
pub enum TranslateFault {
    /// The first token is no known mnemonic.
    UnknownOperation,
    /// The mnemonic got the wrong number of arguments.
    WrongArgumentCount,
    /// An address token has no recognised mode prefix, or what follows
    /// the prefix is no unsigned number.
    BadAddress,
    /// An address names a register above seven.
    RegisterOutOfRange,
    /// A constant does not parse as an unsigned number in range.
    BadConstant,
    /// The immediate constant of SET is 512 or more.
    ImmediateOutOfRange,
    /// The destination of SET is not a plain register.
    BadSetDestination,
}

/// A build-time error of the assembler: its category, with the
/// offending token where one exists.
#[derive(Debug)]
pub enum TranslateError {
    /// The first token (carried here) is no known mnemonic.
    UnknownOperation(String),
    /// The mnemonic got the wrong number of arguments.
    WrongArgumentCount,
    /// This address token has no recognised mode prefix, or what
    /// follows the prefix is no unsigned number.
    BadAddress(String),
    /// This address token names a register above seven.
    RegisterOutOfRange(String),
    /// This constant token does not parse as an unsigned number.
    BadConstant(String),
    /// The immediate constant of SET (carried here) is 512 or more.
    ImmediateOutOfRange(String),
    /// The destination of SET (carried here) is not a plain register.
    BadSetDestination(String),
}

/// The category of a build-time error.
pub open spec fn spec_fault_of(e: &TranslateError) -> TranslateFault {
    match e {
        TranslateError::UnknownOperation(_) => TranslateFault::UnknownOperation,
        TranslateError::WrongArgumentCount => TranslateFault::WrongArgumentCount,
        TranslateError::BadAddress(_) => TranslateFault::BadAddress,
        TranslateError::RegisterOutOfRange(_) => TranslateFault::RegisterOutOfRange,
        TranslateError::BadConstant(_) => TranslateFault::BadConstant,
        TranslateError::ImmediateOutOfRange(_) => TranslateFault::ImmediateOutOfRange,
        TranslateError::BadSetDestination(_) => TranslateFault::BadSetDestination,
    }
}

/// What one line of assembly denotes: nothing (blank or comment), one
/// word, or a fault.
#[derive(Clone, Copy, PartialEq, Eq, Structural, Debug)]
pub enum EncodeResult {
    Blank,
    Word(u16),
    Fault(TranslateFault),
}

/// The whitespace that is trimmed from the ends of a line.
pub open spec fn spec_is_line_whitespace(c: char) -> bool {
    c == ' ' || c == '\t' || c == '\n' || c == '\r' || c == '\u{b}' || c == '\u{c}'
}

/// An upper-case ASCII letter mapped to lower case; any other
/// character is kept.
pub open spec fn spec_lower_char(c: char) -> char {
    if 65 <= c as u32 && c as u32 <= 90 {
        (((c as u32) + 32) as u8) as char
    } else {
        c
    }
}

/// The index of the first character of `s` at or after `i` that is no
/// whitespace (or the length of `s`).
pub open spec fn spec_skip_whitespace(s: Seq<char>, i: int) -> int
    decreases s.len() - i when 0 <= i <= s.len()
{
    if i < s.len() && spec_is_line_whitespace(s[i]) {
        spec_skip_whitespace(s, i + 1)
    } else {
        i
    }
}

/// The end of the line once trailing whitespace is trimmed, moving
/// down from `j` but never below `floor`.
pub open spec fn spec_trim_back(s: Seq<char>, j: int, floor: int) -> int
    decreases j when 0 <= floor <= j <= s.len()
{
    if j > floor && spec_is_line_whitespace(s[j - 1]) {
        spec_trim_back(s, j - 1, floor)
    } else {
        j
    }
}

/// The skip of leading whitespace never moves backwards nor past the
/// end.
pub proof fn lemma_skip_whitespace_in_range(s: Seq<char>, i: int)
    requires
        0 <= i <= s.len(),
    ensures
        i <= spec_skip_whitespace(s, i) <= s.len(),
    decreases s.len() - i,
{
    if i < s.len() && spec_is_line_whitespace(s[i]) {
        lemma_skip_whitespace_in_range(s, i + 1);
    }
}

/// The trim of trailing whitespace never moves below the floor nor
/// above where it started.
pub proof fn lemma_trim_back_in_range(s: Seq<char>, j: int, floor: int)
    requires
        0 <= floor <= j <= s.len(),
    ensures
        floor <= spec_trim_back(s, j, floor) <= j,
    decreases j,
{
    if j > floor && spec_is_line_whitespace(s[j - 1]) {
        lemma_trim_back_in_range(s, j - 1, floor);
    }
}

/// Scans `s` from `i` to `end`, splitting on spaces (runs of spaces
/// collapse), lowercasing every character, and stopping at the first
/// token that begins with a semicolon: the rest is a comment.
/// `current` is the token being built and `acc` the tokens built so
/// far.
pub open spec fn spec_scan_tokens(
    s: Seq<char>,
    i: int,
    end: int,
    current: Seq<char>,
    acc: Seq<Seq<char>>,
) -> Seq<Seq<char>>
    decreases end - i when 0 <= i <= end <= s.len()
{
    if i >= end {
        if current.len() == 0 {
            acc
        } else {
            acc.push(current)
        }
    } else {
        let c = s[i];
        if c == ' ' {
            if current.len() == 0 {
                spec_scan_tokens(s, i + 1, end, current, acc)
            } else {
                spec_scan_tokens(s, i + 1, end, Seq::empty(), acc.push(current))
            }
        } else if c == ';' && current.len() == 0 {
            acc
        } else {
            spec_scan_tokens(s, i + 1, end, current.push(spec_lower_char(c)), acc)
        }
    }
}

/// The tokens of one line: the line is trimmed of whitespace at both
/// ends, split on spaces, lowercased, and cut at the first token that
/// begins a comment.
pub open spec fn spec_tokens(s: Seq<char>) -> Seq<Seq<char>> {
    let start = spec_skip_whitespace(s, 0);
    let end = spec_trim_back(s, s.len() as int, start);
    spec_scan_tokens(s, start, end, Seq::empty(), Seq::empty())
}

/// The views of a vector of tokens.
pub open spec fn spec_token_views(tokens: Seq<Vec<char>>) -> Seq<Seq<char>> {
    tokens.map_values(|t: Vec<char>| t@)
}

/// Whether `c` is an ASCII decimal digit.
pub open spec fn spec_is_digit(c: char) -> bool {
    48 <= c as u32 && c as u32 <= 57
}

/// The number the digit string `t` denotes (most significant first).
pub open spec fn spec_digits_value(t: Seq<char>) -> int
    decreases t.len()
{
    if t.len() == 0 {
        0
    } else {
        spec_digits_value(t.drop_last()) * 10 + (t.last() as u32 - 48)
    }
}

/// The unsigned number the token `t` denotes, if it consists of an
/// optional leading plus sign followed by one or more digits (the
/// grammar of Rust's unsigned parser), without any upper bound.
/// Whether every character of `t` is a digit.
pub open spec fn spec_all_digits(t: Seq<char>) -> bool {
    forall|i: int| 0 <= i < t.len() ==> spec_is_digit(t[i])
}

pub open spec fn spec_parse_uint(t: Seq<char>) -> Option<int> {
    let body = if t.len() >= 1 && t[0] == '+' {
        t.drop_first()
    } else {
        t
    };
    if body.len() == 0 || !spec_all_digits(body) {
        None
    } else {
        Some(spec_digits_value(body))
    }
}

/// The token parsed as a 16-bit unsigned number; too large a value is
/// no number.
pub open spec fn spec_parse_u16(t: Seq<char>) -> Option<u16> {
    match spec_parse_uint(t) {
        Some(v) => if 0 <= v <= 0xFFFF {
            Some(v as u16)
        } else {
            None
        },
        None => None,
    }
}

/// The token parsed as an 8-bit unsigned number; too large a value is
/// no number.
pub open spec fn spec_parse_u8(t: Seq<char>) -> Option<u8> {
    match spec_parse_uint(t) {
        Some(v) => if 0 <= v <= 0xFF {
            Some(v as u8)
        } else {
            None
        },
        None => None,
    }
}

/// The 6-bit address field an address token denotes: a mode prefix
/// (`rpm`, `rp`, `m` or `r`, longest match first) followed by a
/// register number up to seven.
pub open spec fn spec_translate_address(t: Seq<char>) -> Result<u8, TranslateFault> {
    if t.len() >= 3 && t[0] == 'r' && t[1] == 'p' && t[2] == 'm' {
        spec_address_with_mode(0x30u8, t.skip(3))
    } else if t.len() >= 2 && t[0] == 'r' && t[1] == 'p' {
        spec_address_with_mode(0x20u8, t.skip(2))
    } else if t.len() >= 1 && t[0] == 'm' {
        spec_address_with_mode(0x10u8, t.skip(1))
    } else if t.len() >= 1 && t[0] == 'r' {
        spec_address_with_mode(0x00u8, t.skip(1))
    } else {
        Err(TranslateFault::BadAddress)
    }
}

/// The address field with the given mode bits, if the rest of the
/// token is a register number up to seven.
pub open spec fn spec_address_with_mode(mode: u8, rest: Seq<char>) -> Result<u8, TranslateFault> {
    match spec_parse_u8(rest) {
        None => Err(TranslateFault::BadAddress),
        Some(v) => if v > 7 {
            Err(TranslateFault::RegisterOutOfRange)
        } else {
            Ok(mode | v)
        },
    }
}

/// DATA takes one constant up to 65535 and emits it as the word.
pub open spec fn spec_encode_data(toks: Seq<Seq<char>>) -> EncodeResult {
    if toks.len() != 2 {
        EncodeResult::Fault(TranslateFault::WrongArgumentCount)
    } else {
        match spec_parse_u16(toks[1]) {
            None => EncodeResult::Fault(TranslateFault::BadConstant),
            Some(v) => EncodeResult::Word(v),
        }
    }
}

/// A mnemonic without arguments emits its fixed template.
pub open spec fn spec_encode_no_args(toks: Seq<Seq<char>>, template: u16) -> EncodeResult {
    if toks.len() != 1 {
        EncodeResult::Fault(TranslateFault::WrongArgumentCount)
    } else {
        EncodeResult::Word(template)
    }
}

/// A mnemonic with one address puts its 6-bit field in bits 5..0 of
/// the template.
pub open spec fn spec_encode_one_address(toks: Seq<Seq<char>>, template: u16) -> EncodeResult {
    if toks.len() != 2 {
        EncodeResult::Fault(TranslateFault::WrongArgumentCount)
    } else {
        match spec_translate_address(toks[1]) {
            Err(k) => EncodeResult::Fault(k),
            Ok(a) => EncodeResult::Word(template | a as u16),
        }
    }
}

/// A mnemonic with two addresses puts the first field in bits 11..6
/// and the second in bits 5..0 of the template; a fault in the first
/// operand wins.
pub open spec fn spec_encode_two_address(toks: Seq<Seq<char>>, template: u16) -> EncodeResult {
    if toks.len() != 3 {
        EncodeResult::Fault(TranslateFault::WrongArgumentCount)
    } else {
        match spec_translate_address(toks[1]) {
            Err(k) => EncodeResult::Fault(k),
            Ok(a1) => match spec_translate_address(toks[2]) {
                Err(k) => EncodeResult::Fault(k),
                Ok(a2) => EncodeResult::Word(template | ((a1 as u16) << 6) | a2 as u16),
            },
        }
    }
}

/// SET takes a plain register (prefix `r`, number up to seven) and a
/// constant up to 511; the register goes to bits 11..9 and the
/// constant to bits 8..0.
pub open spec fn spec_encode_set(toks: Seq<Seq<char>>) -> EncodeResult {
    if toks.len() != 3 {
        EncodeResult::Fault(TranslateFault::WrongArgumentCount)
    } else if !(toks[1].len() >= 1 && toks[1][0] == 'r') {
        EncodeResult::Fault(TranslateFault::BadSetDestination)
    } else {
        match spec_parse_u8(toks[1].skip(1)) {
            None => EncodeResult::Fault(TranslateFault::BadSetDestination),
            Some(reg) => if reg > 7 {
                EncodeResult::Fault(TranslateFault::RegisterOutOfRange)
            } else {
                match spec_parse_u16(toks[2]) {
                    None => EncodeResult::Fault(TranslateFault::BadConstant),
                    Some(k) => if k >= 512 {
                        EncodeResult::Fault(TranslateFault::ImmediateOutOfRange)
                    } else {
                        EncodeResult::Word(0x6000u16 | ((reg as u16) << 9) | k)
                    },
                }
            },
        }
    }
}

/// What one tokenized line encodes to: nothing when no tokens remain,
/// else the word of the mnemonic named by the first token.
pub open spec fn spec_encode_line(toks: Seq<Seq<char>>) -> EncodeResult {
    if toks.len() == 0 {
        EncodeResult::Blank
    } else {
        let m = toks[0];
        if m == "data"@ {
            spec_encode_data(toks)
        } else if m == "nop"@ {
            spec_encode_no_args(toks, 0x0000u16)
        } else if m == "subroutine"@ {
            spec_encode_one_address(toks, 0x00C0u16)
        } else if m == "return"@ {
            spec_encode_no_args(toks, 0x0002u16)
        } else if m == "syscall"@ {
            spec_encode_no_args(toks, 0x0001u16)
        } else if m == "copy"@ {
            spec_encode_two_address(toks, 0x1000u16)
        } else if m == "jump"@ {
            spec_encode_one_address(toks, 0x0040u16)
        } else if m == "skip_if_zero"@ {
            spec_encode_one_address(toks, 0x0080u16)
        } else if m == "add"@ {
            spec_encode_two_address(toks, 0x2000u16)
        } else if m == "subtract"@ {
            spec_encode_two_address(toks, 0x3000u16)
        } else if m == "skip_if_equal"@ {
            spec_encode_two_address(toks, 0x4000u16)
        } else if m == "skip_if_greater"@ {
            spec_encode_two_address(toks, 0x5000u16)
        } else if m == "set"@ {
            spec_encode_set(toks)
        } else {
            EncodeResult::Fault(TranslateFault::UnknownOperation)
        }
    }
}

/// What translating one whole line yields.
pub open spec fn spec_translate_line(s: Seq<char>) -> EncodeResult {
    spec_encode_line(spec_tokens(s))
}

/// Relies on String implementing FromIterator over characters: the
/// collected string holds exactly the given characters.
#[verifier::external_body]
fn chars_to_string(chars: &Vec<char>) -> (r: String)
    ensures
        r@ == chars@,
{
    chars.iter().collect()
}

/// Whether `c` is trimmed from the ends of a line.
fn is_line_whitespace(c: char) -> (r: bool)
    ensures
        r == spec_is_line_whitespace(c),
{
    c == ' ' || c == '\t' || c == '\n' || c == '\r' || c == '\u{b}' || c == '\u{c}'
}

/// Maps an upper-case ASCII letter to lower case and keeps any other
/// character.
fn lower_char(c: char) -> (r: char)
    ensures
        r == spec_lower_char(c),
{
    let u = c as u32;
    if 65 <= u && u <= 90 {
        ((u + 32) as u8) as char
    } else {
        c
    }
}

/// Whether the token holds exactly the characters of `literal`.
fn token_is(token: &Vec<char>, literal: &str) -> (r: bool)
    ensures
        r == (token@ == literal@),
{
    let n = literal.unicode_len();
    if token.len() != n {
        return false;
    }
    let mut i: usize = 0;
    while i < n
        invariant
            i <= n,
            n == literal@.len(),
            token@.len() == n,
            forall|j: int| 0 <= j < i ==> token@[j] == literal@[j],
        decreases n - i,
    {
        if token[i] != literal.get_char(i) {
            return false;
        }
        i += 1;
    }
    proof {
        assert(token@ =~= literal@);
    }
    true
}

/// Parses the token as an unsigned 16-bit number, with the grammar of
/// Rust's unsigned parser: an optional plus sign, then only digits,
/// and a value that fits.
#[verifier::loop_isolation(false)]
fn parse_u16_token(token: &Vec<char>) -> (r: Option<u16>)
    ensures
        r == spec_parse_u16(token@),
{
    let start: usize = if token.len() >= 1 && token[0] == '+' {
        1
    } else {
        0
    };
    let ghost body = if token@.len() >= 1 && token@[0] == '+' {
        token@.drop_first()
    } else {
        token@
    };
    proof {
        assert(body =~= token@.subrange(start as int, token@.len() as int));
    }

    if token.len() == start {
        return None;
    }

    let mut value: u32 = 0;
    let mut too_large = false;
    let mut i: usize = start;
    while i < token.len()
        invariant
            start <= i <= token@.len(),
            body == token@.subrange(start as int, token@.len() as int),
            forall|j: int| start <= j < i ==> spec_is_digit(token@[j]),
            !too_large ==> value == spec_digits_value(token@.subrange(start as int, i as int))
                && value <= 0xFFFF,
            too_large ==> spec_digits_value(token@.subrange(start as int, i as int)) > 0xFFFF,
        decreases token@.len() - i,
    {
        let c = token[i];
        let u = c as u32;
        if u < 48 || u > 57 {
            proof {
                assert(!spec_is_digit(c));
                assert(body[i - start] == token@[i as int]);
                assert(!spec_all_digits(body));
            }
            return None;
        }
        let digit = u - 48;
        proof {
            assert(token@.subrange(start as int, i + 1 as int).drop_last() =~= token@.subrange(
                start as int,
                i as int,
            ));
            assert(token@.subrange(start as int, i + 1 as int).last() == token@[i as int]);
        }
        if !too_large {
            let next = value * 10 + digit;
            if next > 0xFFFF {
                too_large = true;
            } else {
                value = next;
            }
        } else {
            proof {
                assert(spec_digits_value(token@.subrange(start as int, i + 1 as int)) > 0xFFFF);
            }
        }
        i += 1;
    }
    proof {
        assert(token@.subrange(start as int, token@.len() as int) =~= body);
        assert forall|k: int| 0 <= k < body.len() implies spec_is_digit(body[k]) by {
            assert(body[k] == token@[start + k]);
        }
        assert(spec_all_digits(body));
        assert(spec_parse_uint(token@) == Some(spec_digits_value(body)));
    }

    if too_large {
        None
    } else {
        Some(value as u16)
    }
}

/// Parses the token as an unsigned 8-bit number.
fn parse_u8_token(token: &Vec<char>) -> (r: Option<u8>)
    ensures
        r == spec_parse_u8(token@),
{
    let parsed = parse_u16_token(token);
    proof {
        if let Some(v) = spec_parse_uint(token@) {
            if 0 <= v <= 0xFF {
                assert(spec_parse_u16(token@) == Some(v as u16));
                assert(spec_parse_u8(token@) == Some(v as u8));
            }
        }
    }
    match parsed {
        Some(v) => if v <= 0xFF {
            Some(v as u8)
        } else {
            None
        },
        None => None,
    }
}

/// Translates an address token to its 6-bit field: the first two bits
/// are always zero, the next two are the addressing mode, and the rest
/// is the register number.
fn translate_address(address_str: &Vec<char>) -> (r: Result<u8, TranslateError>)
    ensures
        match r {
            Ok(a) => spec_translate_address(address_str@) == Ok::<u8, TranslateFault>(a),
            Err(e) => spec_translate_address(address_str@) == Err::<u8, TranslateFault>(
                spec_fault_of(&e),
            ),
        },
{
    let (address_type, prefix_len): (u8, usize) = if address_str.len() >= 3 && address_str[0]
        == 'r' && address_str[1] == 'p' && address_str[2] == 'm' {
        (0x30u8, 3)
    } else if address_str.len() >= 2 && address_str[0] == 'r' && address_str[1] == 'p' {
        (0x20u8, 2)
    } else if address_str.len() >= 1 && address_str[0] == 'm' {
        (0x10u8, 1)
    } else if address_str.len() >= 1 && address_str[0] == 'r' {
        (0x00u8, 1)
    } else {
        return Err(TranslateError::BadAddress(chars_to_string(address_str)));
    };

    let mut rest: Vec<char> = Vec::new();
    let mut i: usize = prefix_len;
    while i < address_str.len()
        invariant
            prefix_len <= i <= address_str@.len(),
            rest@ =~= address_str@.subrange(prefix_len as int, i as int),
        decreases address_str@.len() - i,
    {
        rest.push(address_str[i]);
        i += 1;
    }
    proof {
        assert(rest@ =~= address_str@.skip(prefix_len as int));
    }

    let address_value = match parse_u8_token(&rest) {
        Some(v) => v,
        None => {
            return Err(TranslateError::BadAddress(chars_to_string(address_str)));
        },
    };

    if address_value > 7 {
        return Err(TranslateError::RegisterOutOfRange(chars_to_string(address_str)));
    }

    Ok(address_type | address_value)
}

/// DATA means no operation: just a constant that will be stored in
/// that cell of memory.
fn encode_data(args: &Vec<Vec<char>>) -> (r: Result<u16, TranslateError>)
    ensures
        match r {
            Ok(w) => spec_encode_data(spec_token_views(args@)) == EncodeResult::Word(w),
            Err(e) => spec_encode_data(spec_token_views(args@)) == EncodeResult::Fault(
                spec_fault_of(&e),
            ),
        },
{
    if args.len() != 2 {
        return Err(TranslateError::WrongArgumentCount);
    }
    match parse_u16_token(&args[1]) {
        Some(v) => Ok(v),
        None => Err(TranslateError::BadConstant(chars_to_string(&args[1]))),
    }
}

/// Encodes a mnemonic that takes no arguments as its fixed template.
fn encode_no_args(args: &Vec<Vec<char>>, template: u16) -> (r: Result<u16, TranslateError>)
    ensures
        match r {
            Ok(w) => spec_encode_no_args(spec_token_views(args@), template) == EncodeResult::Word(
                w,
            ),
            Err(e) => spec_encode_no_args(spec_token_views(args@), template)
                == EncodeResult::Fault(spec_fault_of(&e)),
        },
{
    if args.len() != 1 {
        return Err(TranslateError::WrongArgumentCount);
    }
    Ok(template)
}

/// Encodes a mnemonic with one address operand in bits 5..0.
fn encode_one_address(args: &Vec<Vec<char>>, template: u16) -> (r: Result<u16, TranslateError>)
    ensures
        match r {
            Ok(w) => spec_encode_one_address(spec_token_views(args@), template)
                == EncodeResult::Word(w),
            Err(e) => spec_encode_one_address(spec_token_views(args@), template)
                == EncodeResult::Fault(spec_fault_of(&e)),
        },
{
    if args.len() != 2 {
        return Err(TranslateError::WrongArgumentCount);
    }
    let address = match translate_address(&args[1]) {
        Ok(a) => a,
        Err(e) => {
            return Err(e);
        },
    };
    Ok(template | address as u16)
}

/// Encodes a mnemonic with two address operands, the first in bits
/// 11..6 and the second in bits 5..0.
fn encode_two_address(args: &Vec<Vec<char>>, template: u16) -> (r: Result<u16, TranslateError>)
    ensures
        match r {
            Ok(w) => spec_encode_two_address(spec_token_views(args@), template)
                == EncodeResult::Word(w),
            Err(e) => spec_encode_two_address(spec_token_views(args@), template)
                == EncodeResult::Fault(spec_fault_of(&e)),
        },
{
    if args.len() != 3 {
        return Err(TranslateError::WrongArgumentCount);
    }
    let first_address = match translate_address(&args[1]) {
        Ok(a) => a,
        Err(e) => {
            return Err(e);
        },
    };
    let second_address = match translate_address(&args[2]) {
        Ok(a) => a,
        Err(e) => {
            return Err(e);
        },
    };
    Ok(template | ((first_address as u16) << 6u16) | second_address as u16)
}

/// Encodes SET: a plain register destination and a 9-bit constant.
fn encode_set(args: &Vec<Vec<char>>) -> (r: Result<u16, TranslateError>)
    ensures
        match r {
            Ok(w) => spec_encode_set(spec_token_views(args@)) == EncodeResult::Word(w),
            Err(e) => spec_encode_set(spec_token_views(args@)) == EncodeResult::Fault(
                spec_fault_of(&e),
            ),
        },
{
    if args.len() != 3 {
        return Err(TranslateError::WrongArgumentCount);
    }

    if !(args[1].len() >= 1 && args[1][0] == 'r') {
        return Err(TranslateError::BadSetDestination(chars_to_string(&args[1])));
    }

    let mut rest: Vec<char> = Vec::new();
    let mut i: usize = 1;
    while i < args[1].len()
        invariant
            1 <= i <= args@[1]@.len(),
            args@.len() == 3,
            rest@ =~= args@[1]@.subrange(1, i as int),
        decreases args@[1]@.len() - i,
    {
        rest.push(args[1][i]);
        i += 1;
    }
    proof {
        assert(rest@ =~= args@[1]@.skip(1));
    }

    let register_number = match parse_u8_token(&rest) {
        Some(v) => v,
        None => {
            return Err(TranslateError::BadSetDestination(chars_to_string(&args[1])));
        },
    };

    if register_number > 7 {
        return Err(TranslateError::RegisterOutOfRange(chars_to_string(&args[1])));
    }

    let constant = match parse_u16_token(&args[2]) {
        Some(v) => v,
        None => {
            return Err(TranslateError::BadConstant(chars_to_string(&args[2])));
        },
    };

    if constant >= 512 {
        return Err(TranslateError::ImmediateOutOfRange(chars_to_string(&args[2])));
    }

    Ok(0x6000u16 | ((register_number as u16) << 9u16) | constant)
}

/// Translates assembly lines into their binary representation.
pub struct Translator {}

impl Translator {
    pub fn new() -> (r: Translator) {
        Translator {  }
    }

    /// Splits the line at spaces and returns the list of its parts:
    /// the mnemonic and its arguments, all in lower case, with any
    /// trailing comment cut off.
    #[verifier::loop_isolation(false)]
    fn extract_parts(&self, line: &str) -> (r: Vec<Vec<char>>)
        ensures
            spec_token_views(r@) == spec_tokens(line@),
    {
        let n = line.unicode_len();

        let mut start: usize = 0;
        while start < n && is_line_whitespace(line.get_char(start))
            invariant
                start <= n,
                n == line@.len(),
                spec_skip_whitespace(line@, 0) == spec_skip_whitespace(line@, start as int),
            decreases n - start,
        {
            start += 1;
        }

        let mut end: usize = n;
        while end > start && is_line_whitespace(line.get_char(end - 1))
            invariant
                start <= end <= n,
                n == line@.len(),
                spec_trim_back(line@, n as int, start as int) == spec_trim_back(
                    line@,
                    end as int,
                    start as int,
                ),
            decreases end,
        {
            end -= 1;
        }

        let ghost target = spec_tokens(line@);
        proof {
            assert(target == spec_scan_tokens(
                line@,
                start as int,
                end as int,
                Seq::empty(),
                Seq::empty(),
            ));
        }

        let mut result: Vec<Vec<char>> = Vec::new();
        let mut current: Vec<char> = Vec::new();
        proof {
            assert(spec_token_views(result@) =~= Seq::<Seq<char>>::empty());
            assert(current@ =~= Seq::<char>::empty());
        }
        let mut i: usize = start;
        while i < end
            invariant
                start <= i <= end <= n,
                n == line@.len(),
                target == spec_scan_tokens(
                    line@,
                    i as int,
                    end as int,
                    current@,
                    spec_token_views(result@),
                ),
            decreases end - i,
        {
            let c = line.get_char(i);
            if c == ' ' {
                if current.len() > 0 {
                    let ghost before = spec_token_views(result@);
                    result.push(current);
                    proof {
                        assert(spec_token_views(result@) =~= before.push(result@.last()@));
                    }
                    current = Vec::new();
                }
            } else if c == ';' && current.len() == 0 {
                // There is a comment from now on.
                proof {
                    assert(spec_scan_tokens(
                        line@,
                        i as int,
                        end as int,
                        current@,
                        spec_token_views(result@),
                    ) == spec_token_views(result@));
                    assert(spec_token_views(result@) == spec_tokens(line@));
                }
                return result;
            } else {
                current.push(lower_char(c));
            }
            i += 1;
        }

        if current.len() > 0 {
            let ghost before = spec_token_views(result@);
            result.push(current);
            proof {
                assert(spec_token_views(result@) =~= before.push(result@.last()@));
            }
        }
        result
    }

    /// Translates one single line into its binary representation.
    /// Returns `None` when the line presents nothing (a comment or an
    /// empty line), the encoded word otherwise, and the first fault of
    /// the line on error.
    pub fn translate_line(&self, line: String) -> (r: Result<Option<u16>, TranslateError>)
        ensures
            match r {
                Ok(None) => spec_translate_line(line@) == EncodeResult::Blank,
                Ok(Some(w)) => spec_translate_line(line@) == EncodeResult::Word(w),
                Err(e) => spec_translate_line(line@) == EncodeResult::Fault(spec_fault_of(&e)),
            },
    {
        let line_parts = self.extract_parts(line.as_str());

        if line_parts.len() == 0 {
            // Nothing was in this line.
            return Ok(None);
        }

        let word = if token_is(&line_parts[0], "data") {
            encode_data(&line_parts)
        } else if token_is(&line_parts[0], "nop") {
            encode_no_args(&line_parts, 0x0000u16)
        } else if token_is(&line_parts[0], "subroutine") {
            encode_one_address(&line_parts, 0x00C0u16)
        } else if token_is(&line_parts[0], "return") {
            encode_no_args(&line_parts, 0x0002u16)
        } else if token_is(&line_parts[0], "syscall") {
            encode_no_args(&line_parts, 0x0001u16)
        } else if token_is(&line_parts[0], "copy") {
            encode_two_address(&line_parts, 0x1000u16)
        } else if token_is(&line_parts[0], "jump") {
            encode_one_address(&line_parts, 0x0040u16)
        } else if token_is(&line_parts[0], "skip_if_zero") {
            encode_one_address(&line_parts, 0x0080u16)
        } else if token_is(&line_parts[0], "add") {
            encode_two_address(&line_parts, 0x2000u16)
        } else if token_is(&line_parts[0], "subtract") {
            encode_two_address(&line_parts, 0x3000u16)
        } else if token_is(&line_parts[0], "skip_if_equal") {
            encode_two_address(&line_parts, 0x4000u16)
        } else if token_is(&line_parts[0], "skip_if_greater") {
            encode_two_address(&line_parts, 0x5000u16)
        } else if token_is(&line_parts[0], "set") {
            encode_set(&line_parts)
        } else {
            return Err(TranslateError::UnknownOperation(chars_to_string(&line_parts[0])));
        };

        match word {
            Ok(w) => Ok(Some(w)),
            Err(e) => Err(e),
        }
    }
}

/// The views of a vector of lines.
pub open spec fn spec_line_views(lines: Seq<String>) -> Seq<Seq<char>> {
    lines.map_values(|l: String| l@)
}

/// The first faulting line of a program at or after line `i`, with its
/// fault, if any line faults.
pub open spec fn spec_first_fault(lines: Seq<Seq<char>>, i: int) -> Option<(int, TranslateFault)>
    decreases lines.len() - i when 0 <= i <= lines.len()
{
    if i >= lines.len() {
        None
    } else {
        match spec_translate_line(lines[i]) {
            EncodeResult::Fault(k) => Some((i, k)),
            _ => spec_first_fault(lines, i + 1),
        }
    }
}

/// The big-endian bytes of the words that the lines at or after `i`
/// assemble to, each word high byte first, blank lines contributing
/// nothing (meaningful where no line faults).
pub open spec fn spec_program_bytes(lines: Seq<Seq<char>>, i: int) -> Seq<u8>
    decreases lines.len() - i when 0 <= i <= lines.len()
{
    if i >= lines.len() {
        Seq::empty()
    } else {
        match spec_translate_line(lines[i]) {
            EncodeResult::Word(w) => seq![(w / 256) as u8, (w % 256) as u8]
                + spec_program_bytes(lines, i + 1),
            _ => spec_program_bytes(lines, i + 1),
        }
    }
}

impl Translator {
    /// Translates a whole program, one line per entry, into the
    /// big-endian byte stream of its words (each word high byte
    /// first). On the first faulting line, returns its index and the
    /// fault, translating nothing further.
    #[verifier::loop_isolation(false)]
    #[verifier::rlimit(60)]
    pub fn translate_program(&self, lines: &Vec<String>) -> (r: Result<
        Vec<u8>,
        (usize, TranslateError),
    >)
        ensures
            match r {
                Ok(bytes) => spec_first_fault(spec_line_views(lines@), 0) is None && bytes@
                    == spec_program_bytes(spec_line_views(lines@), 0),
                Err((line_num, e)) => spec_first_fault(spec_line_views(lines@), 0) == Some(
                    (line_num as int, spec_fault_of(&e)),
                ),
            },
    {
        let ghost views = spec_line_views(lines@);
        let mut output: Vec<u8> = Vec::new();
        let mut line_num: usize = 0;
        while line_num < lines.len()
            invariant
                line_num <= lines@.len(),
                spec_first_fault(views, 0) == spec_first_fault(views, line_num as int),
                spec_program_bytes(views, 0) == output@ + spec_program_bytes(
                    views,
                    line_num as int,
                ),
            decreases lines@.len() - line_num,
        {
            let line = lines[line_num].clone();
            proof {
                assert(line@ == views[line_num as int]);
            }
            match self.translate_line(line) {
                Ok(None) => {},
                Ok(Some(word)) => {
                    let high = (word / 256) as u8;
                    let low = (word % 256) as u8;
                    let ghost before = output@;
                    output.push(high);
                    output.push(low);
                    proof {
                        assert(output@ =~= before + seq![high, low]);
                        assert(before + spec_program_bytes(views, line_num as int) =~= output@
                            + spec_program_bytes(views, line_num + 1));
                    }
                },
                Err(e) => {
                    return Err((line_num, e));
                },
            }
            line_num += 1;
        }
        proof {
            assert(spec_program_bytes(views, lines@.len() as int) =~= Seq::<u8>::empty());
            assert(output@ =~= output@ + Seq::<u8>::empty());
        }
        Ok(output)
    }
}

} // verus!
