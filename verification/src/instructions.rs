//! The instruction encoder: from the tokens of an instruction to its bytes.
//!
//! An instruction is encoded as its opcode, then the encoding of its
//! destination register where the mnemonic takes one, then its operand: one
//! byte for a register or a pointer, two bytes (low byte first) for the
//! address of a label, and for an immediate one byte, or two bytes (low byte
//! first) with `mov`.

use vstd::prelude::*;
use vstd::slice::{slice_subrange, slice_to_vec};
use crate::error::{ErrorKind, Fault, FaultView};
use crate::isa::{
    has_destination,
    immediate_width,
    mnemonic,
    mnemonic_named,
    opcode,
    opcode_of,
    register_encoding,
    register_named,
    takes_destination,
    Mnemonic,
};
use crate::labels::LabelTable;
use crate::operand::{classified, classify_operand, Operand, OperandView};
use crate::text::texts;
use crate::utility::{read_lower_16, read_upper_16};

verus! {

/// The operand field of an instruction as a mathematical value.
pub ghost enum PayloadView {
    Nothing,
    Byte(u8),
    Word(u16),
    Address(Seq<char>),
}

impl PayloadView {
    /// The number of bytes that the field takes.
    pub open spec fn width(self) -> nat {
        match self {
            PayloadView::Nothing => 0,
            PayloadView::Byte(_) => 1,
            PayloadView::Word(_) => 2,
            PayloadView::Address(_) => 2,
        }
    }
}

/// The operand field of an instruction.
#[derive(Clone, Debug, PartialEq, Eq)]
pub enum Payload {
    /// No operand.
    Nothing,
    /// A one-byte immediate or a register encoding.
    Byte(u8),
    /// A two-byte immediate.
    Word(u16),
    /// The address of the label of this name, known once all labels are.
    Address(Vec<char>),
}

impl View for Payload {
    type V = PayloadView;

    open spec fn view(&self) -> PayloadView {
        match self {
            Payload::Nothing => PayloadView::Nothing,
            Payload::Byte(byte) => PayloadView::Byte(*byte),
            Payload::Word(word) => PayloadView::Word(*word),
            Payload::Address(name) => PayloadView::Address(name@),
        }
    }
}

/// The two bytes of a word, low byte first.
pub open spec fn word_bytes(word: u16) -> Seq<u8> {
    seq![(word % 256) as u8, (word / 256) as u8]
}

/// A checked instruction as a mathematical value.
pub ghost struct InstructionView {
    pub opcode: u8,
    pub destination: Option<u8>,
    pub payload: PayloadView,
}

impl InstructionView {
    /// The number of bytes that the instruction is encoded in.
    pub open spec fn len(self) -> nat {
        1 + (if self.destination is Some {
            1nat
        } else {
            0nat
        }) + self.payload.width()
    }

    /// The bytes before the operand field.
    pub open spec fn head(self) -> Seq<u8> {
        match self.destination {
            Some(register) => seq![self.opcode, register],
            None => seq![self.opcode],
        }
    }

    /// The bytes of the instruction, given the address of each label.
    pub open spec fn bytes(self, labels: Map<Seq<char>, u16>) -> Result<Seq<u8>, FaultView> {
        match self.payload {
            PayloadView::Nothing => Ok(self.head()),
            PayloadView::Byte(byte) => Ok(self.head().push(byte)),
            PayloadView::Word(word) => Ok(self.head() + word_bytes(word)),
            PayloadView::Address(name) => if labels.contains_key(name) {
                Ok(self.head() + word_bytes(labels[name]))
            } else {
                Err(FaultView { kind: ErrorKind::UndefinedLabel, token: name })
            },
        }
    }
}

/// A checked instruction: its opcode, the encoding of its destination
/// register where it has one, and its operand field.
#[derive(Clone, Debug, PartialEq, Eq)]
pub struct Instruction {
    pub opcode: u8,
    pub destination: Option<u8>,
    pub payload: Payload,
}

impl View for Instruction {
    type V = InstructionView;

    open spec fn view(&self) -> InstructionView {
        InstructionView {
            opcode: self.opcode,
            destination: self.destination,
            payload: self.payload@,
        }
    }
}

/// An instruction is encoded in as many bytes as its length says, whatever
/// the labels are bound to.
pub proof fn lemma_encoded_length(instruction: InstructionView, labels: Map<Seq<char>, u16>)
    ensures
        instruction.bytes(labels) matches Ok(bytes) ==> bytes.len() == instruction.len(),
        instruction.bytes(labels) matches Err(fault) ==> fault.kind == ErrorKind::UndefinedLabel,
        1 <= instruction.len() <= 4,
{
}

/// Two references to one label are encoded with the same address, wherever
/// in the program they stand.
pub proof fn lemma_references_agree(
    first: InstructionView,
    second: InstructionView,
    name: Seq<char>,
    labels: Map<Seq<char>, u16>,
)
    requires
        first.payload == PayloadView::Address(name),
        second.payload == PayloadView::Address(name),
        labels.contains_key(name),
    ensures
        first.bytes(labels) == Ok::<Seq<u8>, FaultView>(first.head() + word_bytes(labels[name])),
        second.bytes(labels) == Ok::<Seq<u8>, FaultView>(second.head() + word_bytes(labels[name])),
{
}

/// A reference to a label that is not bound is reported as undefined, with
/// the name of the label.
pub proof fn lemma_undefined_label(
    instruction: InstructionView,
    name: Seq<char>,
    labels: Map<Seq<char>, u16>,
)
    requires
        instruction.payload == PayloadView::Address(name),
        !labels.contains_key(name),
    ensures
        instruction.bytes(labels) == Err::<Seq<u8>, FaultView>(
            FaultView { kind: ErrorKind::UndefinedLabel, token: name },
        ),
{
}

impl Instruction {
    /// The number of bytes that the instruction is encoded in.
    pub fn len(&self) -> (length: u16)
        ensures
            length == self@.len(),
            1 <= length <= 4,
    {
        let head: u16 = if self.destination.is_some() {
            2
        } else {
            1
        };
        match &self.payload {
            Payload::Nothing => head,
            Payload::Byte(_) => head + 1,
            Payload::Word(_) => head + 2,
            Payload::Address(_) => head + 2,
        }
    }

    /// Encodes the instruction. It fails only where the operand names a
    /// label that the table does not bind.
    pub fn encode(&self, labels: &LabelTable) -> (result: Result<Vec<u8>, Fault>)
        ensures
            match result {
                Ok(bytes) => self@.bytes(labels@) == Ok::<Seq<u8>, FaultView>(bytes@),
                Err(fault) => self@.bytes(labels@) == Err::<Seq<u8>, FaultView>(fault@),
            },
    {
        let mut bytes: Vec<u8> = Vec::new();
        bytes.push(self.opcode);
        match self.destination {
            Some(register) => {
                bytes.push(register);
            },
            None => {},
        }
        assert(bytes@ =~= self@.head());
        match &self.payload {
            Payload::Nothing => {},
            Payload::Byte(byte) => {
                bytes.push(*byte);
            },
            Payload::Word(word) => {
                bytes.push(read_lower_16(*word));
                bytes.push(read_upper_16(*word));
                assert(bytes@ =~= self@.head() + word_bytes(*word));
            },
            Payload::Address(name) => {
                match labels.lookup(name.as_slice()) {
                    Some(address) => {
                        bytes.push(read_lower_16(address));
                        bytes.push(read_upper_16(address));
                        assert(bytes@ =~= self@.head() + word_bytes(address));
                    },
                    None => {
                        return Err(
                            Fault {
                                kind: ErrorKind::UndefinedLabel,
                                token: slice_to_vec(name.as_slice()),
                            },
                        );
                    },
                }
            },
        }
        Ok(bytes)
    }
}

/// The instruction that a mnemonic makes with a destination and an operand:
/// the table must hold an opcode for the operand's mode, an immediate must
/// fit in the mnemonic's immediate field, and a register or pointer must name
/// a register.
pub open spec fn selected(
    mnemonic: Mnemonic,
    destination: Option<u8>,
    operand: OperandView,
) -> Result<InstructionView, ErrorKind> {
    match opcode_of(mnemonic, operand.mode()) {
        None => Err(ErrorKind::UnsupportedAddressingMode),
        Some(opcode) => match operand {
            OperandView::Implicit => Ok(
                InstructionView { opcode, destination, payload: PayloadView::Nothing },
            ),
            OperandView::Immediate(value) => if immediate_width(mnemonic) == 1 {
                if value <= 0xFF {
                    Ok(
                        InstructionView {
                            opcode,
                            destination,
                            payload: PayloadView::Byte(value as u8),
                        },
                    )
                } else {
                    Err(ErrorKind::MalformedImmediateLiteral)
                }
            } else {
                if value <= 0xFFFF {
                    Ok(
                        InstructionView {
                            opcode,
                            destination,
                            payload: PayloadView::Word(value as u16),
                        },
                    )
                } else {
                    Err(ErrorKind::MalformedImmediateLiteral)
                }
            },
            OperandView::Absolute(name) => Ok(
                InstructionView { opcode, destination, payload: PayloadView::Address(name) },
            ),
            OperandView::Registry(name) | OperandView::RegistryPointer(name) => match register_named(
                name,
            ) {
                Some(register) => Ok(
                    InstructionView { opcode, destination, payload: PayloadView::Byte(register) },
                ),
                None => Err(ErrorKind::UnknownRegister),
            },
        },
    }
}

/// Checks an operand against a mnemonic and makes the instruction.
fn select(mnemonic: Mnemonic, destination: Option<u8>, operand: Operand) -> (result: Result<
    Instruction,
    ErrorKind,
>)
    ensures
        match result {
            Ok(instruction) => selected(mnemonic, destination, operand@) == Ok::<
                InstructionView,
                ErrorKind,
            >(instruction@),
            Err(kind) => selected(mnemonic, destination, operand@) == Err::<
                InstructionView,
                ErrorKind,
            >(kind),
        },
{
    let opcode = match opcode(mnemonic, operand.mode()) {
        None => {
            return Err(ErrorKind::UnsupportedAddressingMode);
        },
        Some(opcode) => opcode,
    };
    match operand {
        Operand::Implicit => Ok(Instruction { opcode, destination, payload: Payload::Nothing }),
        Operand::Immediate(value) => {
            match mnemonic {
                Mnemonic::Mov => {
                    if value <= 0xFFFF {
                        Ok(
                            Instruction {
                                opcode,
                                destination,
                                payload: Payload::Word(value as u16),
                            },
                        )
                    } else {
                        Err(ErrorKind::MalformedImmediateLiteral)
                    }
                },
                _ => {
                    if value <= 0xFF {
                        Ok(Instruction { opcode, destination, payload: Payload::Byte(value as u8) })
                    } else {
                        Err(ErrorKind::MalformedImmediateLiteral)
                    }
                },
            }
        },
        Operand::Absolute(name) => Ok(
            Instruction { opcode, destination, payload: Payload::Address(name) },
        ),
        Operand::Registry(name) => {
            match register_encoding(name.as_slice()) {
                Some(register) => Ok(
                    Instruction { opcode, destination, payload: Payload::Byte(register) },
                ),
                None => Err(ErrorKind::UnknownRegister),
            }
        },
        Operand::RegistryPointer(name) => {
            match register_encoding(name.as_slice()) {
                Some(register) => Ok(
                    Instruction { opcode, destination, payload: Payload::Byte(register) },
                ),
                None => Err(ErrorKind::UnknownRegister),
            }
        },
    }
}

/// A fault of the given kind in the given token.
pub open spec fn fault(kind: ErrorKind, token: Seq<char>) -> FaultView {
    FaultView { kind, token }
}

/// The instruction that a mnemonic makes with the tokens that follow it.
///
/// Where the mnemonic takes a destination, the first token must name a
/// register. At most one token may follow as the operand; where none does,
/// the operand is implicit. A fault carries the token it was found in: the
/// destination, the token after the operand, or the operand (empty where it
/// is missing).
pub open spec fn parsed_operands(mnemonic: Mnemonic, arguments: Seq<Seq<char>>) -> Result<
    InstructionView,
    FaultView,
> {
    let with_destination = takes_destination(mnemonic) && arguments.len() > 0;
    let rest = if with_destination {
        arguments.skip(1)
    } else {
        arguments
    };
    if with_destination && register_named(arguments[0]) is None {
        Err(fault(ErrorKind::UnknownRegister, arguments[0]))
    } else if rest.len() > 1 {
        Err(fault(ErrorKind::UnknownOperandShape, rest[1]))
    } else {
        let destination = if with_destination {
            register_named(arguments[0])
        } else {
            None
        };
        let token = if rest.len() == 1 {
            rest[0]
        } else {
            Seq::empty()
        };
        let operand = if rest.len() == 1 {
            classified(rest[0])
        } else {
            Ok(OperandView::Implicit)
        };
        match operand {
            Err(kind) => Err(fault(kind, token)),
            Ok(operand) => match selected(mnemonic, destination, operand) {
                Err(kind) => Err(fault(kind, token)),
                Ok(instruction) => Ok(instruction),
            },
        }
    }
}

/// The tokens that follow the first.
pub open spec fn arguments_of(tokens: Seq<Seq<char>>) -> Seq<Seq<char>> {
    if tokens.len() > 0 {
        tokens.skip(1)
    } else {
        tokens
    }
}

/// The instruction that the tokens write: a mnemonic, then its operands.
pub open spec fn parsed(tokens: Seq<Seq<char>>) -> Result<InstructionView, FaultView> {
    if tokens.len() == 0 {
        Err(fault(ErrorKind::UnknownMnemonic, Seq::empty()))
    } else {
        match mnemonic_named(tokens[0]) {
            None => Err(fault(ErrorKind::UnknownMnemonic, tokens[0])),
            Some(mnemonic) => parsed_operands(mnemonic, arguments_of(tokens)),
        }
    }
}

/// Checks the tokens that follow a mnemonic and makes the instruction.
pub fn parse_operands(mnemonic: Mnemonic, arguments: &[Vec<char>]) -> (result: Result<
    Instruction,
    Fault,
>)
    ensures
        match result {
            Ok(instruction) => parsed_operands(mnemonic, texts(arguments@)) == Ok::<
                InstructionView,
                FaultView,
            >(instruction@),
            Err(found) => parsed_operands(mnemonic, texts(arguments@)) == Err::<
                InstructionView,
                FaultView,
            >(found@),
        },
{
    let ghost all = texts(arguments@);
    let with_destination = has_destination(mnemonic) && arguments.len() > 0;
    let first: usize = if with_destination {
        1
    } else {
        0
    };
    let ghost rest = if with_destination {
        all.skip(1)
    } else {
        all
    };
    assert(rest.len() == arguments@.len() - first);
    assert(forall|i: int| 0 <= i < rest.len() ==> rest[i] == arguments@[i + first]@);
    let mut destination: Option<u8> = None;
    if with_destination {
        match register_encoding(arguments[0].as_slice()) {
            None => {
                return Err(
                    Fault {
                        kind: ErrorKind::UnknownRegister,
                        token: slice_to_vec(arguments[0].as_slice()),
                    },
                );
            },
            Some(register) => {
                destination = Some(register);
            },
        }
    }
    if arguments.len() - first > 1 {
        return Err(
            Fault {
                kind: ErrorKind::UnknownOperandShape,
                token: slice_to_vec(arguments[first + 1].as_slice()),
            },
        );
    }
    let present = arguments.len() - first == 1;
    let token: Vec<char> = if present {
        slice_to_vec(arguments[first].as_slice())
    } else {
        Vec::new()
    };
    let classification = if present {
        classify_operand(arguments[first].as_slice())
    } else {
        Ok(Operand::Implicit)
    };
    match classification {
        Err(kind) => Err(Fault { kind, token }),
        Ok(operand) => match select(mnemonic, destination, operand) {
            Err(kind) => Err(Fault { kind, token }),
            Ok(instruction) => Ok(instruction),
        },
    }
}

/// Checks the tokens of an instruction and makes the instruction.
pub fn parse_instruction(tokens: &[Vec<char>]) -> (result: Result<Instruction, Fault>)
    ensures
        match result {
            Ok(instruction) => parsed(texts(tokens@)) == Ok::<InstructionView, FaultView>(
                instruction@,
            ),
            Err(found) => parsed(texts(tokens@)) == Err::<InstructionView, FaultView>(found@),
        },
{
    if tokens.len() == 0 {
        return Err(Fault { kind: ErrorKind::UnknownMnemonic, token: Vec::new() });
    }
    match mnemonic(tokens[0].as_slice()) {
        None => Err(
            Fault { kind: ErrorKind::UnknownMnemonic, token: slice_to_vec(tokens[0].as_slice()) },
        ),
        Some(found) => {
            let arguments = slice_subrange(tokens, 1, tokens.len());
            assert(texts(arguments@) =~= arguments_of(texts(tokens@)));
            parse_operands(found, arguments)
        },
    }
}

/// The number of bytes that the instruction written by the tokens takes.
pub fn instruction_length(tokens: &[Vec<char>]) -> (result: Result<u16, Fault>)
    ensures
        match result {
            Ok(length) => parsed(texts(tokens@)) matches Ok(instruction) && length
                == instruction.len(),
            Err(found) => parsed(texts(tokens@)) == Err::<InstructionView, FaultView>(found@),
        },
{
    match parse_instruction(tokens) {
        Ok(instruction) => Ok(instruction.len()),
        Err(found) => Err(found),
    }
}

/// What placing `parsed` at `cursor` yields: the fault of the instruction,
/// an overflow where it does not end within the image, a label that is not
/// bound, or else its bytes.
pub open spec fn placed(
    parsed: Result<InstructionView, FaultView>,
    labels: Map<Seq<char>, u16>,
    cursor: u16,
) -> Result<Seq<u8>, FaultView> {
    match parsed {
        Err(found) => Err(found),
        Ok(instruction) => if cursor + instruction.len() > 0xFFFF {
            Err(fault(ErrorKind::ImageOverflow, Seq::empty()))
        } else {
            instruction.bytes(labels)
        },
    }
}

/// Places a parsed instruction at the cursor and advances the cursor behind
/// it; on a fault the cursor stays.
fn place(
    parsed: Result<Instruction, Fault>,
    labels: &LabelTable,
    cursor: &mut u16,
) -> (result: Result<Vec<u8>, Fault>)
    ensures
        match result {
            Ok(bytes) => {
                &&& parsed matches Ok(instruction)
                &&& placed(Ok(instruction@), labels@, *old(cursor)) == Ok::<Seq<u8>, FaultView>(
                    bytes@,
                )
                &&& *final(cursor) == *old(cursor) + bytes@.len()
            },
            Err(found) => {
                &&& *final(cursor) == *old(cursor)
                &&& match parsed {
                    Ok(instruction) => placed(Ok(instruction@), labels@, *old(cursor)) == Err::<
                        Seq<u8>,
                        FaultView,
                    >(found@),
                    Err(earlier) => found@ == earlier@,
                }
            },
        },
{
    match parsed {
        Err(found) => Err(found),
        Ok(instruction) => {
            let length = instruction.len();
            if length > 0xFFFF - *cursor {
                return Err(Fault { kind: ErrorKind::ImageOverflow, token: Vec::new() });
            }
            match instruction.encode(labels) {
                Err(found) => Err(found),
                Ok(bytes) => {
                    proof {
                        lemma_encoded_length(instruction@, labels@);
                    }
                    *cursor = *cursor + length;
                    Ok(bytes)
                },
            }
        },
    }
}

/// Encodes an instruction of the given mnemonic from the tokens that follow
/// it, at the cursor. On success the cursor has advanced by the number of
/// bytes returned; on a fault it has not moved.
pub fn comp_inst(
    mnemonic: Mnemonic,
    compile_pointer: &mut u16,
    arguments: &[Vec<char>],
    label_references: &LabelTable,
) -> (result: Result<Vec<u8>, Fault>)
    ensures
        match result {
            Ok(bytes) => {
                &&& placed(
                    parsed_operands(mnemonic, texts(arguments@)),
                    label_references@,
                    *old(compile_pointer),
                ) == Ok::<Seq<u8>, FaultView>(bytes@)
                &&& *final(compile_pointer) == *old(compile_pointer) + bytes@.len()
            },
            Err(found) => {
                &&& placed(
                    parsed_operands(mnemonic, texts(arguments@)),
                    label_references@,
                    *old(compile_pointer),
                ) == Err::<Seq<u8>, FaultView>(found@)
                &&& *final(compile_pointer) == *old(compile_pointer)
            },
        },
{
    place(parse_operands(mnemonic, arguments), label_references, compile_pointer)
}

/// Encodes an `add` instruction at the cursor: `tokens` holds the mnemonic,
/// the destination register and an immediate of one byte. The first token is
/// not looked at. On success the cursor has advanced by the number of bytes
/// returned; on a fault it has not moved.
pub fn comp_inst_add(
    compile_pointer: &mut u16,
    tokens: &[Vec<char>],
    label_references: &LabelTable,
) -> (result: Result<Vec<u8>, Fault>)
    ensures
        match result {
            Ok(bytes) => {
                &&& placed(
                    parsed_operands(Mnemonic::Add, arguments_of(texts(tokens@))),
                    label_references@,
                    *old(compile_pointer),
                ) == Ok::<Seq<u8>, FaultView>(bytes@)
                &&& *final(compile_pointer) == *old(compile_pointer) + bytes@.len()
            },
            Err(found) => {
                &&& placed(
                    parsed_operands(Mnemonic::Add, arguments_of(texts(tokens@))),
                    label_references@,
                    *old(compile_pointer),
                ) == Err::<Seq<u8>, FaultView>(found@)
                &&& *final(compile_pointer) == *old(compile_pointer)
            },
        },
{
    let first: usize = if tokens.len() > 0 {
        1
    } else {
        0
    };
    let arguments = slice_subrange(tokens, first, tokens.len());
    assert(texts(arguments@) =~= arguments_of(texts(tokens@)));
    comp_inst(Mnemonic::Add, compile_pointer, arguments, label_references)
}

/// Encodes the instruction that the tokens write, at the cursor. On success
/// the cursor has advanced by the number of bytes returned; on a fault it has
/// not moved.
pub fn encode_instruction(
    compile_pointer: &mut u16,
    tokens: &[Vec<char>],
    label_references: &LabelTable,
) -> (result: Result<Vec<u8>, Fault>)
    ensures
        match result {
            Ok(bytes) => {
                &&& placed(parsed(texts(tokens@)), label_references@, *old(compile_pointer))
                    == Ok::<Seq<u8>, FaultView>(bytes@)
                &&& *final(compile_pointer) == *old(compile_pointer) + bytes@.len()
            },
            Err(found) => {
                &&& placed(parsed(texts(tokens@)), label_references@, *old(compile_pointer))
                    == Err::<Seq<u8>, FaultView>(found@)
                &&& *final(compile_pointer) == *old(compile_pointer)
            },
        },
{
    if tokens.len() == 0 {
        return Err(Fault { kind: ErrorKind::UnknownMnemonic, token: Vec::new() });
    }
    match mnemonic(tokens[0].as_slice()) {
        None => Err(
            Fault { kind: ErrorKind::UnknownMnemonic, token: slice_to_vec(tokens[0].as_slice()) },
        ),
        Some(Mnemonic::Add) => comp_inst_add(compile_pointer, tokens, label_references),
        Some(found) => {
            let arguments = slice_subrange(tokens, 1, tokens.len());
            assert(texts(arguments@) =~= arguments_of(texts(tokens@)));
            comp_inst(found, compile_pointer, arguments, label_references)
        },
    }
}

} // verus!
