//! The instruction set: mnemonics, addressing modes, opcodes and register
//! names.

use vstd::prelude::*;
use crate::text::text_eq;

verus! {

/// The shape of an instruction's operand.
#[derive(Clone, Copy, Debug, PartialEq, Eq, Structural)]
pub enum AddressingMode {
    /// No operand.
    Implicit,
    /// A hexadecimal literal.
    Immediate,
    /// The address of a label.
    Absolute,
    /// A register.
    Registry,
    /// The memory that a register points to.
    RegistryPointer,
}

/// The instructions of the machine.
#[derive(Clone, Copy, Debug, PartialEq, Eq, Structural)]
pub enum Mnemonic {
    Mov,
    Cmp,
    Jne,
    Pusha,
    Popa,
    Jmp,
    Call,
    Ret,
    Prtc,
    Add,
}

/// The mnemonic that `name` spells, in lower case.
pub open spec fn mnemonic_named(name: Seq<char>) -> Option<Mnemonic> {
    if name == "mov"@ {
        Some(Mnemonic::Mov)
    } else if name == "cmp"@ {
        Some(Mnemonic::Cmp)
    } else if name == "jne"@ {
        Some(Mnemonic::Jne)
    } else if name == "pusha"@ {
        Some(Mnemonic::Pusha)
    } else if name == "popa"@ {
        Some(Mnemonic::Popa)
    } else if name == "jmp"@ {
        Some(Mnemonic::Jmp)
    } else if name == "call"@ {
        Some(Mnemonic::Call)
    } else if name == "ret"@ {
        Some(Mnemonic::Ret)
    } else if name == "prtc"@ {
        Some(Mnemonic::Prtc)
    } else if name == "add"@ {
        Some(Mnemonic::Add)
    } else {
        None
    }
}

/// Looks a mnemonic up by its name.
pub fn mnemonic(name: &[char]) -> (found: Option<Mnemonic>)
    ensures
        found == mnemonic_named(name@),
{
    if text_eq(name, "mov") {
        Some(Mnemonic::Mov)
    } else if text_eq(name, "cmp") {
        Some(Mnemonic::Cmp)
    } else if text_eq(name, "jne") {
        Some(Mnemonic::Jne)
    } else if text_eq(name, "pusha") {
        Some(Mnemonic::Pusha)
    } else if text_eq(name, "popa") {
        Some(Mnemonic::Popa)
    } else if text_eq(name, "jmp") {
        Some(Mnemonic::Jmp)
    } else if text_eq(name, "call") {
        Some(Mnemonic::Call)
    } else if text_eq(name, "ret") {
        Some(Mnemonic::Ret)
    } else if text_eq(name, "prtc") {
        Some(Mnemonic::Prtc)
    } else if text_eq(name, "add") {
        Some(Mnemonic::Add)
    } else {
        None
    }
}

/// The opcode table: the byte that stands for a mnemonic with an operand of
/// the given mode, where the mnemonic supports that mode.
pub open spec fn opcode_of(mnemonic: Mnemonic, mode: AddressingMode) -> Option<u8> {
    match (mnemonic, mode) {
        (Mnemonic::Mov, AddressingMode::Absolute) => Some(0x01u8),
        (Mnemonic::Mov, AddressingMode::Immediate) => Some(0x02u8),
        (Mnemonic::Mov, AddressingMode::Registry) => Some(0x03u8),
        (Mnemonic::Mov, AddressingMode::RegistryPointer) => Some(0x04u8),
        (Mnemonic::Cmp, AddressingMode::Immediate) => Some(0x05u8),
        (Mnemonic::Jne, AddressingMode::Absolute) => Some(0x06u8),
        (Mnemonic::Pusha, AddressingMode::Implicit) => Some(0x07u8),
        (Mnemonic::Popa, AddressingMode::Implicit) => Some(0x00u8),
        (Mnemonic::Jmp, AddressingMode::Absolute) => Some(0x09u8),
        (Mnemonic::Call, AddressingMode::Absolute) => Some(0x0Au8),
        (Mnemonic::Ret, AddressingMode::Implicit) => Some(0x0Bu8),
        (Mnemonic::Prtc, AddressingMode::Immediate) => Some(0x0Cu8),
        (Mnemonic::Prtc, AddressingMode::Registry) => Some(0x0Du8),
        (Mnemonic::Prtc, AddressingMode::RegistryPointer) => Some(0x0Eu8),
        (Mnemonic::Add, AddressingMode::Immediate) => Some(0x0Fu8),
        _ => None,
    }
}

/// Looks up the opcode of a mnemonic with an operand of the given mode.
pub fn opcode(mnemonic: Mnemonic, mode: AddressingMode) -> (found: Option<u8>)
    ensures
        found == opcode_of(mnemonic, mode),
{
    match (mnemonic, mode) {
        (Mnemonic::Mov, AddressingMode::Absolute) => Some(0x01),
        (Mnemonic::Mov, AddressingMode::Immediate) => Some(0x02),
        (Mnemonic::Mov, AddressingMode::Registry) => Some(0x03),
        (Mnemonic::Mov, AddressingMode::RegistryPointer) => Some(0x04),
        (Mnemonic::Cmp, AddressingMode::Immediate) => Some(0x05),
        (Mnemonic::Jne, AddressingMode::Absolute) => Some(0x06),
        (Mnemonic::Pusha, AddressingMode::Implicit) => Some(0x07),
        (Mnemonic::Popa, AddressingMode::Implicit) => Some(0x00),
        (Mnemonic::Jmp, AddressingMode::Absolute) => Some(0x09),
        (Mnemonic::Call, AddressingMode::Absolute) => Some(0x0A),
        (Mnemonic::Ret, AddressingMode::Implicit) => Some(0x0B),
        (Mnemonic::Prtc, AddressingMode::Immediate) => Some(0x0C),
        (Mnemonic::Prtc, AddressingMode::Registry) => Some(0x0D),
        (Mnemonic::Prtc, AddressingMode::RegistryPointer) => Some(0x0E),
        (Mnemonic::Add, AddressingMode::Immediate) => Some(0x0F),
        _ => None,
    }
}

/// No opcode stands for two different pairs of mnemonic and mode.
pub proof fn lemma_opcode_unique(
    first: Mnemonic,
    first_mode: AddressingMode,
    second: Mnemonic,
    second_mode: AddressingMode,
)
    requires
        opcode_of(first, first_mode) is Some,
        opcode_of(first, first_mode) == opcode_of(second, second_mode),
    ensures
        first == second,
        first_mode == second_mode,
{
}

/// Whether the mnemonic's first operand is a destination register, which is
/// encoded in a byte of its own after the opcode: `mov`, `cmp` and `add`.
pub open spec fn takes_destination(mnemonic: Mnemonic) -> bool {
    mnemonic == Mnemonic::Mov || mnemonic == Mnemonic::Cmp || mnemonic == Mnemonic::Add
}

/// Tests a mnemonic for taking a destination register.
pub fn has_destination(mnemonic: Mnemonic) -> (b: bool)
    ensures
        b == takes_destination(mnemonic),
{
    match mnemonic {
        Mnemonic::Mov | Mnemonic::Cmp | Mnemonic::Add => true,
        _ => false,
    }
}

/// The number of bytes of the mnemonic's immediate operand: two for `mov`,
/// one for every other mnemonic.
pub open spec fn immediate_width(mnemonic: Mnemonic) -> nat {
    if mnemonic == Mnemonic::Mov {
        2
    } else {
        1
    }
}

/// The register encoding table: the byte that stands for a register name.
pub open spec fn register_named(name: Seq<char>) -> Option<u8> {
    if name == "al"@ {
        Some(0x00u8)
    } else if name == "bl"@ {
        Some(0x01u8)
    } else if name == "cl"@ {
        Some(0x02u8)
    } else if name == "dl"@ {
        Some(0x03u8)
    } else if name == "ah"@ {
        Some(0x04u8)
    } else if name == "bh"@ {
        Some(0x05u8)
    } else if name == "ch"@ {
        Some(0x06u8)
    } else if name == "dh"@ {
        Some(0x07u8)
    } else if name == "ax"@ {
        Some(0x08u8)
    } else if name == "bx"@ {
        Some(0x09u8)
    } else if name == "cx"@ {
        Some(0x0Au8)
    } else if name == "dx"@ {
        Some(0x0Bu8)
    } else if name == "si"@ {
        Some(0x0Cu8)
    } else if name == "di"@ {
        Some(0x0Du8)
    } else if name == "sp"@ {
        Some(0x0Eu8)
    } else if name == "bp"@ {
        Some(0x0Fu8)
    } else if name == "r8"@ {
        Some(0x10u8)
    } else if name == "r9"@ {
        Some(0x11u8)
    } else if name == "r10"@ {
        Some(0x12u8)
    } else if name == "r11"@ {
        Some(0x13u8)
    } else if name == "r12"@ {
        Some(0x14u8)
    } else if name == "r13"@ {
        Some(0x15u8)
    } else if name == "r14"@ {
        Some(0x16u8)
    } else if name == "r15"@ {
        Some(0x17u8)
    } else {
        None
    }
}

/// Looks up the encoding of a register by its name.
pub fn register_encoding(name: &[char]) -> (found: Option<u8>)
    ensures
        found == register_named(name@),
{
    if text_eq(name, "al") {
        Some(0x00)
    } else if text_eq(name, "bl") {
        Some(0x01)
    } else if text_eq(name, "cl") {
        Some(0x02)
    } else if text_eq(name, "dl") {
        Some(0x03)
    } else if text_eq(name, "ah") {
        Some(0x04)
    } else if text_eq(name, "bh") {
        Some(0x05)
    } else if text_eq(name, "ch") {
        Some(0x06)
    } else if text_eq(name, "dh") {
        Some(0x07)
    } else if text_eq(name, "ax") {
        Some(0x08)
    } else if text_eq(name, "bx") {
        Some(0x09)
    } else if text_eq(name, "cx") {
        Some(0x0A)
    } else if text_eq(name, "dx") {
        Some(0x0B)
    } else if text_eq(name, "si") {
        Some(0x0C)
    } else if text_eq(name, "di") {
        Some(0x0D)
    } else if text_eq(name, "sp") {
        Some(0x0E)
    } else if text_eq(name, "bp") {
        Some(0x0F)
    } else if text_eq(name, "r8") {
        Some(0x10)
    } else if text_eq(name, "r9") {
        Some(0x11)
    } else if text_eq(name, "r10") {
        Some(0x12)
    } else if text_eq(name, "r11") {
        Some(0x13)
    } else if text_eq(name, "r12") {
        Some(0x14)
    } else if text_eq(name, "r13") {
        Some(0x15)
    } else if text_eq(name, "r14") {
        Some(0x16)
    } else if text_eq(name, "r15") {
        Some(0x17)
    } else {
        None
    }
}

/// Every register name has an encoding in `0x00..=0x17`, and no two names
/// share one.
pub proof fn lemma_register_encoding_injective(first: Seq<char>, second: Seq<char>)
    requires
        register_named(first) is Some,
    ensures
        register_named(first)->0 <= 0x17,
        register_named(first) == register_named(second) ==> first == second,
{
}

} // verus!
