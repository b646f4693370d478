//! Operands: their addressing modes and how a token is classified.

use vstd::prelude::*;
use vstd::slice::{slice_subrange, slice_to_vec};
use crate::error::ErrorKind;
use crate::isa::{register_encoding, register_named, AddressingMode};
use crate::text::{identifier, is_identifier};
use crate::utility::{
    all_hex_digits,
    has_hex_prefix,
    hex_digit,
    hex_value,
    is_hex_digit,
    is_hex_literal,
    valid_hex_chars,
};

verus! {

/// A classified operand as a mathematical value.
pub ghost enum OperandView {
    Implicit,
    Immediate(u64),
    Absolute(Seq<char>),
    Registry(Seq<char>),
    RegistryPointer(Seq<char>),
}

impl OperandView {
    /// The addressing mode of the operand.
    pub open spec fn mode(self) -> AddressingMode {
        match self {
            OperandView::Implicit => AddressingMode::Implicit,
            OperandView::Immediate(_) => AddressingMode::Immediate,
            OperandView::Absolute(_) => AddressingMode::Absolute,
            OperandView::Registry(_) => AddressingMode::Registry,
            OperandView::RegistryPointer(_) => AddressingMode::RegistryPointer,
        }
    }
}

/// A classified operand: its addressing mode with what the token holds.
#[derive(Clone, Debug, PartialEq, Eq)]
pub enum Operand {
    /// No operand.
    Implicit,
    /// The value of a hexadecimal literal.
    Immediate(u64),
    /// The name of a label.
    Absolute(Vec<char>),
    /// The name of a register.
    Registry(Vec<char>),
    /// The name between the brackets of a pointer.
    RegistryPointer(Vec<char>),
}

impl View for Operand {
    type V = OperandView;

    open spec fn view(&self) -> OperandView {
        match self {
            Operand::Implicit => OperandView::Implicit,
            Operand::Immediate(value) => OperandView::Immediate(*value),
            Operand::Absolute(name) => OperandView::Absolute(name@),
            Operand::Registry(name) => OperandView::Registry(name@),
            Operand::RegistryPointer(name) => OperandView::RegistryPointer(name@),
        }
    }
}

impl Operand {
    /// The addressing mode of the operand.
    pub fn mode(&self) -> (mode: AddressingMode)
        ensures
            mode == self@.mode(),
    {
        match self {
            Operand::Implicit => AddressingMode::Implicit,
            Operand::Immediate(_) => AddressingMode::Immediate,
            Operand::Absolute(_) => AddressingMode::Absolute,
            Operand::Registry(_) => AddressingMode::Registry,
            Operand::RegistryPointer(_) => AddressingMode::RegistryPointer,
        }
    }
}

/// Whether a token is a name between square brackets.
pub open spec fn is_bracketed(token: Seq<char>) -> bool {
    token.len() >= 2 && token[0] == '[' && token.last() == ']'
}

/// How a token is classified, in this order: a token that begins with `0x`
/// is an immediate, and malformed unless hexadecimal digits follow whose
/// value fits in 64 bits; a token in square brackets is a pointer through
/// the name between them; a register name is a register; any other
/// identifier is a label reference.
pub open spec fn classified(token: Seq<char>) -> Result<OperandView, ErrorKind> {
    if has_hex_prefix(token) {
        if is_hex_literal(token) && hex_value(token.skip(2)) <= u64::MAX {
            Ok(OperandView::Immediate(hex_value(token.skip(2)) as u64))
        } else {
            Err(ErrorKind::MalformedImmediateLiteral)
        }
    } else if is_bracketed(token) {
        Ok(OperandView::RegistryPointer(token.subrange(1, token.len() - 1)))
    } else if register_named(token) is Some {
        Ok(OperandView::Registry(token))
    } else if is_identifier(token) {
        Ok(OperandView::Absolute(token))
    } else {
        Err(ErrorKind::UnknownOperandShape)
    }
}

/// The value of a prefix of a digit sequence is at most the value of the
/// whole.
pub proof fn lemma_hex_value_prefix(digits: Seq<char>, length: int)
    requires
        0 <= length <= digits.len(),
    ensures
        hex_value(digits.take(length)) <= hex_value(digits),
    decreases digits.len() - length,
{
    if length == digits.len() {
        assert(digits.take(length) =~= digits);
    } else {
        lemma_hex_value_prefix(digits, length + 1);
        assert(digits.take(length + 1).drop_last() =~= digits.take(length));
    }
}

/// Reads a sequence of hexadecimal digits as a number, if it fits in 64 bits.
pub fn parse_hex_digits(digits: &[char]) -> (value: Option<u64>)
    ensures
        value is Some <==> all_hex_digits(digits@) && hex_value(digits@) <= u64::MAX,
        value matches Some(v) ==> v == hex_value(digits@),
{
    let mut value: u64 = 0;
    let mut i: usize = 0;
    assert(digits@.take(0) =~= Seq::empty());
    while i < digits.len()
        invariant
            i <= digits@.len(),
            forall|j: int| 0 <= j < i ==> is_hex_digit(#[trigger] digits@[j]),
            value == hex_value(digits@.take(i as int)),
        decreases digits@.len() - i,
    {
        proof {
            assert(digits@.take(i + 1).drop_last() =~= digits@.take(i as int));
            lemma_hex_value_prefix(digits@, i + 1);
        }
        match hex_digit(digits[i]) {
            None => {
                return None;
            },
            Some(digit) => {
                if value > (u64::MAX - digit as u64) / 16 {
                    return None;
                }
                value = value * 16 + digit as u64;
            },
        }
        i += 1;
    }
    assert(digits@.take(i as int) =~= digits@);
    Some(value)
}

/// Classifies an operand token.
pub fn classify_operand(token: &[char]) -> (result: Result<Operand, ErrorKind>)
    ensures
        match result {
            Ok(operand) => classified(token@) == Ok::<OperandView, ErrorKind>(operand@),
            Err(kind) => classified(token@) == Err::<OperandView, ErrorKind>(kind),
        },
{
    let n = token.len();
    if n >= 2 && token[0] == '0' && token[1] == 'x' {
        if !valid_hex_chars(token) {
            return Err(ErrorKind::MalformedImmediateLiteral);
        }
        match parse_hex_digits(slice_subrange(token, 2, n)) {
            Some(value) => {
                assert(token@.subrange(2, n as int) =~= token@.skip(2));
                Ok(Operand::Immediate(value))
            },
            None => {
                assert(token@.subrange(2, n as int) =~= token@.skip(2));
                Err(ErrorKind::MalformedImmediateLiteral)
            },
        }
    } else if n >= 2 && token[0] == '[' && token[n - 1] == ']' {
        Ok(Operand::RegistryPointer(slice_to_vec(slice_subrange(token, 1, n - 1))))
    } else if register_encoding(token).is_some() {
        Ok(Operand::Registry(slice_to_vec(token)))
    } else if identifier(token) {
        Ok(Operand::Absolute(slice_to_vec(token)))
    } else {
        Err(ErrorKind::UnknownOperandShape)
    }
}

} // verus!
