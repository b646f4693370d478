//! The assembler driver: two passes over the lines of a source text.
//!
//! A line is blank, or holds a label declaration (a first token that ends in
//! a colon), an instruction, or a declaration followed by an instruction.
//! The first pass binds every label to the offset at which the next
//! instruction will stand; the second pass encodes the instructions against
//! the finished label table. Both start at offset `0x0200`.

use vstd::prelude::*;
use vstd::slice::{slice_subrange, slice_to_vec};
use crate::error::{AsmError, AsmErrorView, ErrorKind, FaultView};
use crate::instructions::{
    encode_instruction,
    fault,
    lemma_encoded_length,
    parse_instruction,
    parsed,
    placed,
    word_bytes,
    PayloadView,
};
use crate::labels::LabelTable;
use crate::text::{lines_of, split_lines, texts, tokenize, tokens_of};
use crate::utility::to_chars;

verus! {

/// Offset of the first byte of a compiled program.
pub const ORIGIN: u16 = 0x0200;

/// Whether the first token of a line declares a label: it ends in a colon.
pub open spec fn declares_label(tokens: Seq<Seq<char>>) -> bool {
    tokens.len() > 0 && tokens[0].len() > 0 && tokens[0].last() == ':'
}

/// The name that the first token declares: the token without its colon.
pub open spec fn declared_label(tokens: Seq<Seq<char>>) -> Seq<char> {
    tokens[0].drop_last()
}

/// The tokens of the instruction on a line: those behind the declaration,
/// where the line has one. A line without instruction has none.
pub open spec fn instruction_tokens(tokens: Seq<Seq<char>>) -> Seq<Seq<char>> {
    if declares_label(tokens) {
        tokens.skip(1)
    } else {
        tokens
    }
}

/// What the first pass knows after some lines: the labels bound so far and
/// the offset of the next free byte.
pub ghost struct Layout {
    pub labels: Map<Seq<char>, u16>,
    pub cursor: u16,
}

/// The layout after one more line. A declared label is bound to the cursor,
/// unless it is bound already; an instruction moves the cursor by its
/// length, unless it is faulty or ends beyond the image.
pub open spec fn scanned_line(before: Layout, tokens: Seq<Seq<char>>) -> Result<Layout, FaultView> {
    if declares_label(tokens) && before.labels.contains_key(declared_label(tokens)) {
        Err(fault(ErrorKind::DuplicateLabel, declared_label(tokens)))
    } else {
        let labels = if declares_label(tokens) {
            before.labels.insert(declared_label(tokens), before.cursor)
        } else {
            before.labels
        };
        if instruction_tokens(tokens).len() == 0 {
            Ok(Layout { labels, cursor: before.cursor })
        } else {
            match parsed(instruction_tokens(tokens)) {
                Err(found) => Err(found),
                Ok(instruction) => if before.cursor + instruction.len() > 0xFFFF {
                    Err(fault(ErrorKind::ImageOverflow, Seq::empty()))
                } else {
                    Ok(Layout { labels, cursor: (before.cursor + instruction.len()) as u16 })
                },
            }
        }
    }
}

/// The layout after the first `upto` lines, or the first fault among them.
pub open spec fn scanned(lines: Seq<Seq<char>>, upto: nat) -> Result<Layout, AsmErrorView>
    decreases upto,
{
    if upto == 0 {
        Ok(Layout { labels: Map::empty(), cursor: ORIGIN })
    } else {
        match scanned(lines, (upto - 1) as nat) {
            Err(error) => Err(error),
            Ok(before) => match scanned_line(before, tokens_of(lines[upto - 1])) {
                Err(found) => Err(found.at_line(upto)),
                Ok(after) => Ok(after),
            },
        }
    }
}

/// The bytes that a line adds to the image at `cursor`.
pub open spec fn emitted_line(
    labels: Map<Seq<char>, u16>,
    cursor: u16,
    tokens: Seq<Seq<char>>,
) -> Result<Seq<u8>, FaultView> {
    if instruction_tokens(tokens).len() == 0 {
        Ok(Seq::empty())
    } else {
        placed(parsed(instruction_tokens(tokens)), labels, cursor)
    }
}

/// The bytes that the first `upto` lines emit, or the first fault among
/// them. Every line is encoded at the origin plus the number of bytes
/// emitted before it.
pub open spec fn emitted(lines: Seq<Seq<char>>, labels: Map<Seq<char>, u16>, upto: nat) -> Result<
    Seq<u8>,
    AsmErrorView,
>
    decreases upto,
{
    if upto == 0 {
        Ok(Seq::empty())
    } else {
        match emitted(lines, labels, (upto - 1) as nat) {
            Err(error) => Err(error),
            Ok(code) => match emitted_line(
                labels,
                (ORIGIN + code.len()) as u16,
                tokens_of(lines[upto - 1]),
            ) {
                Err(found) => Err(found.at_line(upto)),
                Ok(bytes) => Ok(code + bytes),
            },
        }
    }
}

/// A compiled program as a mathematical value.
pub ghost struct AssemblyView {
    pub labels: Map<Seq<char>, u16>,
    pub code: Seq<u8>,
    pub end: u16,
}

/// The program that a source text compiles to, or the first fault: that of
/// the first pass if it has one, else that of the second.
pub open spec fn assembled(source: Seq<char>) -> Result<AssemblyView, AsmErrorView> {
    let lines = lines_of(source);
    match scanned(lines, lines.len()) {
        Err(error) => Err(error),
        Ok(layout) => match emitted(lines, layout.labels, lines.len()) {
            Err(error) => Err(error),
            Ok(code) => Ok(AssemblyView { labels: layout.labels, code, end: layout.cursor }),
        },
    }
}

/// The two passes agree on every length: where the first pass accepts the
/// first `upto` lines, the second pass, whatever the labels are bound to,
/// emits exactly as many bytes as the first pass moved the cursor, or stops
/// at a label that is not bound. It reports no other fault.
pub proof fn lemma_passes_agree(lines: Seq<Seq<char>>, labels: Map<Seq<char>, u16>, upto: nat)
    requires
        scanned(lines, upto) is Ok,
    ensures
        match emitted(lines, labels, upto) {
            Ok(code) => scanned(lines, upto)->Ok_0.cursor == ORIGIN + code.len(),
            Err(error) => error.kind == ErrorKind::UndefinedLabel,
        },
    decreases upto,
{
    if upto > 0 {
        lemma_passes_agree(lines, labels, (upto - 1) as nat);
        match emitted(lines, labels, (upto - 1) as nat) {
            Err(_) => {},
            Ok(code) => {
                let tokens = tokens_of(lines[upto - 1]);
                if instruction_tokens(tokens).len() > 0 {
                    let instruction = parsed(instruction_tokens(tokens))->Ok_0;
                    lemma_encoded_length(instruction, labels);
                }
            },
        }
    }
}

/// A fault of the first pass stays the result however many lines follow.
pub proof fn lemma_scan_fault_stays(lines: Seq<Seq<char>>, upto: nat, later: nat)
    requires
        upto <= later,
        scanned(lines, upto) is Err,
    ensures
        scanned(lines, later) == scanned(lines, upto),
    decreases later,
{
    if later > upto {
        lemma_scan_fault_stays(lines, upto, (later - 1) as nat);
    }
}

/// A fault of the second pass stays the result however many lines follow.
pub proof fn lemma_emit_fault_stays(
    lines: Seq<Seq<char>>,
    labels: Map<Seq<char>, u16>,
    upto: nat,
    later: nat,
)
    requires
        upto <= later,
        emitted(lines, labels, upto) is Err,
    ensures
        emitted(lines, labels, later) == emitted(lines, labels, upto),
    decreases later,
{
    if later > upto {
        lemma_emit_fault_stays(lines, labels, upto, (later - 1) as nat);
    }
}

/// A label keeps the address it was bound to: where line `index` declares a
/// label and the first pass accepts the lines up to `upto`, the label is
/// bound to the cursor that stood before line `index`.
pub proof fn lemma_label_address(lines: Seq<Seq<char>>, index: nat, upto: nat)
    requires
        index < upto,
        declares_label(tokens_of(lines[index as int])),
        scanned(lines, upto) is Ok,
    ensures
        scanned(lines, index) is Ok,
        scanned(lines, upto)->Ok_0.labels.contains_key(
            declared_label(tokens_of(lines[index as int])),
        ),
        scanned(lines, upto)->Ok_0.labels[declared_label(tokens_of(lines[index as int]))]
            == scanned(lines, index)->Ok_0.cursor,
    decreases upto,
{
    if upto - 1 > index {
        lemma_label_address(lines, index, (upto - 1) as nat);
    }
}

/// Where the first pass accepts some lines, it accepts every prefix of them.
pub proof fn lemma_scan_prefix(lines: Seq<Seq<char>>, shorter: nat, upto: nat)
    requires
        shorter <= upto,
        scanned(lines, upto) is Ok,
    ensures
        scanned(lines, shorter) is Ok,
{
    if scanned(lines, shorter) is Err {
        lemma_scan_fault_stays(lines, shorter, upto);
    }
}

/// A reference to a label is encoded with the address of its declaration,
/// whether the declaration stands before the reference or after it: in a
/// program that the first pass accepts, a line whose operand names the label
/// that another line declares emits, behind opcode and destination, the
/// offset at which the first pass stood before the declaring line.
pub proof fn lemma_reference_resolves(lines: Seq<Seq<char>>, declaring: nat, referring: nat)
    requires
        declaring < lines.len(),
        referring < lines.len(),
        scanned(lines, lines.len()) is Ok,
        declares_label(tokens_of(lines[declaring as int])),
        instruction_tokens(tokens_of(lines[referring as int])).len() > 0,
        parsed(instruction_tokens(tokens_of(lines[referring as int]))) matches Ok(instruction)
            && instruction.payload == PayloadView::Address(
            declared_label(tokens_of(lines[declaring as int])),
        ),
    ensures
        scanned(lines, declaring) is Ok,
        scanned(lines, referring) is Ok,
        emitted_line(
            scanned(lines, lines.len())->Ok_0.labels,
            scanned(lines, referring)->Ok_0.cursor,
            tokens_of(lines[referring as int]),
        ) == Ok::<Seq<u8>, FaultView>(
            parsed(instruction_tokens(tokens_of(lines[referring as int])))->Ok_0.head()
                + word_bytes(scanned(lines, declaring)->Ok_0.cursor),
        ),
{
    lemma_label_address(lines, declaring, lines.len());
    lemma_scan_prefix(lines, referring, lines.len());
    lemma_scan_prefix(lines, referring + 1, lines.len());
}

/// A second declaration of a label is reported as a duplicate on its line:
/// where two lines of a source text declare the same label and the first
/// pass accepts the lines before the second of them, compilation ends in
/// that fault.
pub proof fn lemma_duplicate_label(source: Seq<char>, first: nat, second: nat)
    requires
        first < second < lines_of(source).len(),
        declares_label(tokens_of(lines_of(source)[first as int])),
        declares_label(tokens_of(lines_of(source)[second as int])),
        declared_label(tokens_of(lines_of(source)[first as int])) == declared_label(
            tokens_of(lines_of(source)[second as int]),
        ),
        scanned(lines_of(source), second) is Ok,
    ensures
        assembled(source) == Err::<AssemblyView, AsmErrorView>(
            AsmErrorView {
                kind: ErrorKind::DuplicateLabel,
                line: second + 1,
                token: declared_label(tokens_of(lines_of(source)[second as int])),
            },
        ),
{
    let lines = lines_of(source);
    lemma_label_address(lines, first, second);
    assert(scanned(lines, second + 1) is Err);
    lemma_scan_fault_stays(lines, second + 1, lines.len());
}

/// The first pass never reports that the passes disagree.
pub proof fn lemma_scan_faults(lines: Seq<Seq<char>>, upto: nat)
    ensures
        scanned(lines, upto) matches Err(error) ==> error.kind
            != ErrorKind::InternalLengthMismatch && error.kind != ErrorKind::UndefinedLabel,
    decreases upto,
{
    if upto > 0 {
        lemma_scan_faults(lines, (upto - 1) as nat);
    }
}

/// No compilation ends in the report that the passes disagree.
pub proof fn lemma_no_length_mismatch(source: Seq<char>)
    ensures
        assembled(source) matches Err(error) ==> error.kind != ErrorKind::InternalLengthMismatch,
{
    let lines = lines_of(source);
    lemma_scan_faults(lines, lines.len());
    match scanned(lines, lines.len()) {
        Err(_) => {},
        Ok(layout) => {
            lemma_passes_agree(lines, layout.labels, lines.len());
        },
    }
}

/// A compiled program: its labels, the bytes that stand from the origin on,
/// and the offset of the first byte behind them.
#[derive(Clone, Debug, PartialEq, Eq)]
pub struct Assembly {
    pub labels: LabelTable,
    pub code: Vec<u8>,
    pub end: u16,
}

impl View for Assembly {
    type V = AssemblyView;

    open spec fn view(&self) -> AssemblyView {
        AssemblyView { labels: self.labels@, code: self.code@, end: self.end }
    }
}

/// The first pass: binds the labels of the lines and finds the offset behind
/// the last instruction.
pub fn discover_labels(lines: &[Vec<char>]) -> (result: Result<(LabelTable, u16), AsmError>)
    ensures
        match result {
            Ok((labels, cursor)) => scanned(texts(lines@), lines@.len()) == Ok::<
                Layout,
                AsmErrorView,
            >(Layout { labels: labels@, cursor }),
            Err(error) => scanned(texts(lines@), lines@.len()) == Err::<Layout, AsmErrorView>(
                error@,
            ),
        },
{
    let mut labels = LabelTable::new();
    let mut cursor: u16 = ORIGIN;
    let mut i: usize = 0;
    while i < lines.len()
        invariant
            i <= lines@.len(),
            scanned(texts(lines@), i as nat) == Ok::<Layout, AsmErrorView>(
                Layout { labels: labels@, cursor },
            ),
        decreases lines@.len() - i,
    {
        let tokens = tokenize(lines[i].as_slice());
        let ghost all = texts(tokens@);
        assert(all == tokens_of(texts(lines@)[i as int]));
        let mut first: usize = 0;
        if tokens.len() > 0 {
            let head = tokens[0].as_slice();
            if head.len() > 0 && head[head.len() - 1] == ':' {
                let name = slice_to_vec(slice_subrange(head, 0, head.len() - 1));
                assert(name@ == declared_label(all));
                match labels.insert(name, cursor) {
                    Err(kind) => {
                        proof {
                            lemma_scan_fault_stays(texts(lines@), (i + 1) as nat, lines@.len());
                        }
                        return Err(
                            AsmError {
                                kind,
                                line: i + 1,
                                token: slice_to_vec(slice_subrange(head, 0, head.len() - 1)),
                            },
                        );
                    },
                    Ok(()) => {},
                }
                first = 1;
            }
        }
        let instruction = slice_subrange(tokens.as_slice(), first, tokens.len());
        assert(texts(instruction@) =~= instruction_tokens(all));
        if instruction.len() > 0 {
            match parse_instruction(instruction) {
                Err(found) => {
                    proof {
                        lemma_scan_fault_stays(texts(lines@), (i + 1) as nat, lines@.len());
                    }
                    return Err(found.at_line(i + 1));
                },
                Ok(parsed_instruction) => {
                    let length = parsed_instruction.len();
                    if length > 0xFFFF - cursor {
                        proof {
                            lemma_scan_fault_stays(texts(lines@), (i + 1) as nat, lines@.len());
                        }
                        return Err(
                            AsmError {
                                kind: ErrorKind::ImageOverflow,
                                line: i + 1,
                                token: Vec::new(),
                            },
                        );
                    }
                    cursor = cursor + length;
                },
            }
        }
        i += 1;
    }
    Ok((labels, cursor))
}

/// The second pass: encodes the instructions of the lines, one behind the
/// other from the origin on, with the addresses that `labels` binds.
pub fn emit_code(lines: &[Vec<char>], labels: &LabelTable) -> (result: Result<Vec<u8>, AsmError>)
    ensures
        match result {
            Ok(code) => {
                &&& emitted(texts(lines@), labels@, lines@.len()) == Ok::<Seq<u8>, AsmErrorView>(
                    code@,
                )
                &&& ORIGIN + code@.len() <= 0xFFFF
            },
            Err(error) => emitted(texts(lines@), labels@, lines@.len()) == Err::<
                Seq<u8>,
                AsmErrorView,
            >(error@),
        },
{
    let mut code: Vec<u8> = Vec::new();
    let mut cursor: u16 = ORIGIN;
    let mut i: usize = 0;
    while i < lines.len()
        invariant
            i <= lines@.len(),
            cursor == ORIGIN + code@.len(),
            emitted(texts(lines@), labels@, i as nat) == Ok::<Seq<u8>, AsmErrorView>(code@),
        decreases lines@.len() - i,
    {
        let tokens = tokenize(lines[i].as_slice());
        let ghost all = texts(tokens@);
        assert(all == tokens_of(texts(lines@)[i as int]));
        let mut first: usize = 0;
        if tokens.len() > 0 {
            let head = tokens[0].as_slice();
            if head.len() > 0 && head[head.len() - 1] == ':' {
                first = 1;
            }
        }
        let instruction = slice_subrange(tokens.as_slice(), first, tokens.len());
        assert(texts(instruction@) =~= instruction_tokens(all));
        if instruction.len() > 0 {
            match encode_instruction(&mut cursor, instruction, labels) {
                Err(found) => {
                    proof {
                        lemma_emit_fault_stays(
                            texts(lines@),
                            labels@,
                            (i + 1) as nat,
                            lines@.len(),
                        );
                    }
                    return Err(found.at_line(i + 1));
                },
                Ok(bytes) => {
                    let mut bytes = bytes;
                    code.append(&mut bytes);
                },
            }
        } else {
            assert(code@ + Seq::<u8>::empty() =~= code@);
        }
        i += 1;
    }
    Ok(code)
}

/// Compiles a source text: splits it into lines, binds the labels in a first
/// pass and encodes the instructions in a second. The cursor of the first
/// pass ends where the bytes of the second end.
pub fn assemble(source: &str) -> (result: Result<Assembly, AsmError>)
    ensures
        match result {
            Ok(assembly) => {
                &&& assembled(source@) == Ok::<AssemblyView, AsmErrorView>(assembly@)
                &&& assembly.end == ORIGIN + assembly.code@.len()
            },
            Err(error) => {
                &&& assembled(source@) == Err::<AssemblyView, AsmErrorView>(error@)
                &&& error.kind != ErrorKind::InternalLengthMismatch
            },
        },
{
    let chars = to_chars(source);
    let lines = split_lines(chars.as_slice());
    proof {
        lemma_no_length_mismatch(source@);
    }
    match discover_labels(lines.as_slice()) {
        Err(error) => Err(error),
        Ok((labels, end)) => {
            match emit_code(lines.as_slice(), &labels) {
                Err(error) => Err(error),
                Ok(code) => {
                    proof {
                        lemma_passes_agree(texts(lines@), labels@, lines@.len());
                    }
                    Ok(Assembly { labels, code, end })
                },
            }
        },
    }
}

} // verus!
