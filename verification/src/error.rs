//! What can go wrong while encoding registers or assembling a program.

use vstd::prelude::*;

verus! {

/// The reason an operation was rejected.
#[derive(Clone, Copy, Debug, PartialEq, Eq, Structural)]
pub enum ErrorKind {
    /// A label is declared a second time.
    DuplicateLabel,
    /// An operand names a label that no line declares.
    UndefinedLabel,
    /// The first word of an instruction is no mnemonic of the instruction set.
    UnknownMnemonic,
    /// The mnemonic has no opcode for the operand's addressing mode.
    UnsupportedAddressingMode,
    /// A register operand names no register.
    UnknownRegister,
    /// A `0x` literal has no digits, a character that is no hexadecimal
    /// digit, or a value too large for its field.
    MalformedImmediateLiteral,
    /// An operand is neither a literal, a register, a pointer nor an
    /// identifier, or stands where no further operand is expected.
    UnknownOperandShape,
    /// A register encoding lies outside `0x00..=0x17`.
    InvalidRegisterEncoding,
    /// The two passes disagree on the size of an instruction. The assembler
    /// is proved never to report it.
    InternalLengthMismatch,
    /// The program does not fit between offset `0x0200` and the end of the
    /// 65,535-byte image.
    ImageOverflow,
}

/// A fault found in one instruction, as a mathematical value.
pub ghost struct FaultView {
    pub kind: ErrorKind,
    pub token: Seq<char>,
}

/// A fault found in one instruction: its kind and the token it was found in.
/// The token is empty where the fault is an operand that is missing.
#[derive(Clone, Debug, PartialEq, Eq)]
pub struct Fault {
    pub kind: ErrorKind,
    pub token: Vec<char>,
}

impl View for Fault {
    type V = FaultView;

    open spec fn view(&self) -> FaultView {
        FaultView { kind: self.kind, token: self.token@ }
    }
}

/// A fault found while assembling, as a mathematical value.
pub ghost struct AsmErrorView {
    pub kind: ErrorKind,
    pub line: nat,
    pub token: Seq<char>,
}

/// A fault found while assembling: its kind, the number of the source line
/// (the first line is line 1) and the offending token.
#[derive(Clone, Debug, PartialEq, Eq)]
pub struct AsmError {
    pub kind: ErrorKind,
    pub line: usize,
    pub token: Vec<char>,
}

impl View for AsmError {
    type V = AsmErrorView;

    open spec fn view(&self) -> AsmErrorView {
        AsmErrorView { kind: self.kind, line: self.line as nat, token: self.token@ }
    }
}

impl FaultView {
    /// The same fault, placed on a source line.
    pub open spec fn at_line(self, line: nat) -> AsmErrorView {
        AsmErrorView { kind: self.kind, line, token: self.token }
    }
}

impl Fault {
    /// Places the fault on a source line.
    pub fn at_line(self, line: usize) -> (e: AsmError)
        ensures
            e@ == self@.at_line(line as nat),
    {
        AsmError { kind: self.kind, line, token: self.token }
    }
}

} // verus!
