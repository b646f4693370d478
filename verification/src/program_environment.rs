//! The machine state: configuration, memory image, register file and flag.

use vstd::prelude::*;
use crate::assembler::{assemble, assembled, Assembly, AssemblyView, ORIGIN};
use crate::error::{AsmError, AsmErrorView, ErrorKind};
use crate::utility::{read_lower_16, read_upper_16, set_lower_16, set_upper_16, valid_encoding};

verus! {

/// Number of bytes in the memory image.
pub const MEMORY_SIZE: usize = 0xFFFF;

/// The memory image that holds `code` from the origin on and zero
/// everywhere else.
pub open spec fn image_of(code: Seq<u8>) -> Seq<u8> {
    Seq::new(
        MEMORY_SIZE as nat,
        |i: int|
            if ORIGIN <= i < ORIGIN + code.len() {
                code[i - ORIGIN]
            } else {
                0u8
            },
    )
}

/// The bits of a written value that a register of this encoding keeps.
pub open spec fn width_mask(encoding: u8) -> u64 {
    if encoding <= 0x07 {
        0xFF
    } else if encoding <= 0x0F {
        0xFFFF
    } else {
        0xFFFF_FFFF_FFFF_FFFF
    }
}

/// Index of the machine word behind an encoding. Words 0 to 7 are
/// `ax, bx, cx, dx, si, di, sp, bp`; words 8 to 15 are `r8` to `r15`. The
/// 8-bit encodings `0x00..=0x03` are the low bytes of words 0 to 3 and
/// `0x04..=0x07` their high bytes.
pub open spec fn word_index(encoding: u8) -> int {
    if encoding <= 0x03 {
        encoding as int
    } else if encoding <= 0x07 {
        encoding - 4
    } else {
        encoding - 8
    }
}

/// The value that reading `encoding` yields from the word file `words`.
pub open spec fn read_register(words: Seq<u64>, encoding: u8) -> u64 {
    let word = words[word_index(encoding)];
    if encoding <= 0x03 {
        (word % 256) as u64
    } else if encoding <= 0x07 {
        (word / 256 % 256) as u64
    } else {
        word
    }
}

/// The word file after writing `value` to `encoding`: an 8-bit write replaces
/// one byte of its word, a 16-bit write stores the low 16 bits of `value`, a
/// 64-bit write stores `value`.
pub open spec fn write_register(words: Seq<u64>, encoding: u8, value: u64) -> Seq<u64> {
    let index = word_index(encoding);
    let word = words[index];
    if encoding <= 0x03 {
        words.update(index, (word / 256 * 256 + value % 256) as u64)
    } else if encoding <= 0x07 {
        words.update(index, ((value % 256) * 256 + word % 256) as u64)
    } else if encoding <= 0x0F {
        words.update(index, (value % 65536) as u64)
    } else {
        words.update(index, value)
    }
}

/// Whether a word file has sixteen words of which the first eight fit in
/// sixteen bits.
pub open spec fn valid_words(words: Seq<u64>) -> bool {
    &&& words.len() == 16
    &&& forall|i: int| 0 <= i < 8 ==> #[trigger] words[i] <= 0xFFFF
}

/// The machine state as a mathematical value.
pub ghost struct EnvironmentView {
    pub program_code: Seq<char>,
    pub dump_memory: bool,
    pub dump_full: bool,
    pub memory: Seq<u8>,
    pub pc: u16,
    pub words: Seq<u64>,
    pub cf: bool,
}

impl EnvironmentView {
    /// Holds of the view of every machine state.
    pub open spec fn wf(self) -> bool {
        &&& self.memory.len() == MEMORY_SIZE
        &&& valid_words(self.words)
    }
}

/// The other half of the 16-bit register that an 8-bit encoding belongs to.
pub open spec fn sibling(encoding: u8) -> u8 {
    if encoding <= 0x03 {
        (encoding + 4) as u8
    } else {
        (encoding - 4) as u8
    }
}

/// Reading a register back after writing it yields the written value masked
/// to the register's width, and the word file stays valid.
pub proof fn lemma_write_then_read(words: Seq<u64>, encoding: u8, value: u64)
    requires
        valid_words(words),
        valid_encoding(encoding),
    ensures
        read_register(write_register(words, encoding, value), encoding) == value & width_mask(
            encoding,
        ),
        valid_words(write_register(words, encoding, value)),
{
    assert(value & 0xFF == value % 256) by (bit_vector);
    assert(value & 0xFFFF == value % 65536) by (bit_vector);
    assert(value & 0xFFFF_FFFF_FFFF_FFFF == value) by (bit_vector);
    let after = write_register(words, encoding, value);
    assert forall|i: int| 0 <= i < 8 implies #[trigger] after[i] <= 0xFFFF by {
        assert(words[i] <= 0xFFFF);
    }
}

/// Writing one 8-bit half of a 16-bit register leaves the other half as it
/// was.
pub proof fn lemma_sibling_unchanged(words: Seq<u64>, encoding: u8, value: u64)
    requires
        valid_words(words),
        encoding <= 0x07,
    ensures
        read_register(write_register(words, encoding, value), sibling(encoding)) == read_register(
            words,
            sibling(encoding),
        ),
{
    assert(words[word_index(encoding)] <= 0xFFFF);
}

/// Writing a register leaves every register that lives in another word as it
/// was.
pub proof fn lemma_other_words_unchanged(words: Seq<u64>, encoding: u8, value: u64, other: u8)
    requires
        valid_words(words),
        valid_encoding(encoding),
        valid_encoding(other),
        word_index(other) != word_index(encoding),
    ensures
        read_register(write_register(words, encoding, value), other) == read_register(words, other),
{
}

/// Configuration, memory image and registers of one machine.
pub struct ProgramEnvironment {
    program_code: String,
    dump_memory: bool,
    dump_full: bool,
    memory: [u8; 0xFFFF],
    pc: u16,
    ax: u16,
    bx: u16,
    cx: u16,
    dx: u16,
    si: u16,
    di: u16,
    sp: u16,
    bp: u16,
    r8: u64,
    r9: u64,
    r10: u64,
    r11: u64,
    r12: u64,
    r13: u64,
    r14: u64,
    r15: u64,
    cf: bool,
}

impl View for ProgramEnvironment {
    type V = EnvironmentView;

    closed spec fn view(&self) -> EnvironmentView {
        EnvironmentView {
            program_code: self.program_code@,
            dump_memory: self.dump_memory,
            dump_full: self.dump_full,
            memory: self.memory@,
            pc: self.pc,
            words: seq![
                self.ax as u64,
                self.bx as u64,
                self.cx as u64,
                self.dx as u64,
                self.si as u64,
                self.di as u64,
                self.sp as u64,
                self.bp as u64,
                self.r8,
                self.r9,
                self.r10,
                self.r11,
                self.r12,
                self.r13,
                self.r14,
                self.r15,
            ],
            cf: self.cf,
        }
    }
}

impl ProgramEnvironment {
    /// A machine with zeroed memory and registers, the program counter at the
    /// origin of compiled programs and the flag cleared.
    pub fn new(program_code: String, dump_memory: bool, dump_full: bool) -> (env: Self)
        ensures
            env@ == (EnvironmentView {
                program_code: program_code@,
                dump_memory,
                dump_full,
                memory: Seq::new(MEMORY_SIZE as nat, |i: int| 0u8),
                pc: ORIGIN,
                words: Seq::new(16, |i: int| 0u64),
                cf: false,
            }),
    {
        let env = ProgramEnvironment {
            program_code,
            dump_memory,
            dump_full,
            memory: [0u8; 0xFFFF],
            pc: ORIGIN,
            ax: 0,
            bx: 0,
            cx: 0,
            dx: 0,
            si: 0,
            di: 0,
            sp: 0,
            bp: 0,
            r8: 0,
            r9: 0,
            r10: 0,
            r11: 0,
            r12: 0,
            r13: 0,
            r14: 0,
            r15: 0,
            cf: false,
        };
        assert(env@.memory =~= Seq::new(MEMORY_SIZE as nat, |i: int| 0u8));
        assert(env@.words =~= Seq::new(16, |i: int| 0u64));
        env
    }

    /// The view of a machine state is well formed.
    pub proof fn lemma_view_wf(&self)
        ensures
            self@.wf(),
    {
    }

    /// The source text that `compile` compiles.
    pub fn program_code(&self) -> (code: &str)
        ensures
            code@ == self@.program_code,
    {
        self.program_code.as_str()
    }

    /// Whether a memory dump is asked for after compilation.
    pub fn dump_memory(&self) -> (flag: bool)
        ensures
            flag == self@.dump_memory,
    {
        self.dump_memory
    }

    /// Whether the dump is to show the whole image.
    pub fn dump_full(&self) -> (flag: bool)
        ensures
            flag == self@.dump_full,
    {
        self.dump_full
    }

    /// The memory image.
    pub fn memory(&self) -> (bytes: &[u8])
        ensures
            bytes@ == self@.memory,
    {
        self.memory.as_slice()
    }

    /// The program counter.
    pub fn pc(&self) -> (pc: u16)
        ensures
            pc == self@.pc,
    {
        self.pc
    }

    /// The condition flag.
    pub fn cf(&self) -> (flag: bool)
        ensures
            flag == self@.cf,
    {
        self.cf
    }

    /// Reads a register, widened to 64 bits. An 8-bit encoding yields its
    /// byte of the 16-bit register it belongs to.
    pub fn get_register_value(&self, byte: u8) -> (result: Result<u64, ErrorKind>)
        ensures
            valid_encoding(byte) ==> result == Ok::<u64, ErrorKind>(read_register(self@.words, byte)),
            !valid_encoding(byte) ==> result == Err::<u64, ErrorKind>(
                ErrorKind::InvalidRegisterEncoding,
            ),
    {
        match byte {
            0x00 => Ok(read_lower_16(self.ax) as u64),
            0x01 => Ok(read_lower_16(self.bx) as u64),
            0x02 => Ok(read_lower_16(self.cx) as u64),
            0x03 => Ok(read_lower_16(self.dx) as u64),
            0x04 => Ok(read_upper_16(self.ax) as u64),
            0x05 => Ok(read_upper_16(self.bx) as u64),
            0x06 => Ok(read_upper_16(self.cx) as u64),
            0x07 => Ok(read_upper_16(self.dx) as u64),
            0x08 => Ok(self.ax as u64),
            0x09 => Ok(self.bx as u64),
            0x0A => Ok(self.cx as u64),
            0x0B => Ok(self.dx as u64),
            0x0C => Ok(self.si as u64),
            0x0D => Ok(self.di as u64),
            0x0E => Ok(self.sp as u64),
            0x0F => Ok(self.bp as u64),
            0x10 => Ok(self.r8),
            0x11 => Ok(self.r9),
            0x12 => Ok(self.r10),
            0x13 => Ok(self.r11),
            0x14 => Ok(self.r12),
            0x15 => Ok(self.r13),
            0x16 => Ok(self.r14),
            0x17 => Ok(self.r15),
            _ => Err(ErrorKind::InvalidRegisterEncoding),
        }
    }

    /// Writes a register. An 8-bit encoding replaces one byte of its 16-bit
    /// register and keeps the other; a 16-bit encoding keeps the low 16 bits
    /// of `value`. Nothing but the addressed word changes, and nothing at all
    /// when the encoding is rejected. Reading the register back yields the
    /// value masked to the register's width.
    pub fn set_register_value(&mut self, byte: u8, value: u64) -> (result: Result<(), ErrorKind>)
        ensures
            valid_encoding(byte) ==> result == Ok::<(), ErrorKind>(()) && final(self)@ == (
            EnvironmentView { words: write_register(old(self)@.words, byte, value), ..old(self)@ }),
            !valid_encoding(byte) ==> result == Err::<(), ErrorKind>(
                ErrorKind::InvalidRegisterEncoding,
            ) && final(self)@ == old(self)@,
            valid_encoding(byte) ==> read_register(final(self)@.words, byte) == value & width_mask(
                byte,
            ),
            byte <= 0x07 ==> read_register(final(self)@.words, sibling(byte)) == read_register(
                old(self)@.words,
                sibling(byte),
            ),
    {
        proof {
            if valid_encoding(byte) {
                lemma_write_then_read(self@.words, byte, value);
            }
            if byte <= 0x07 {
                lemma_sibling_unchanged(self@.words, byte, value);
            }
        }
        let low: u8 = low_byte_of(value);
        let half: u16 = low_half_of(value);
        match byte {
            0x00 => set_lower_16(&mut self.ax, low),
            0x01 => set_lower_16(&mut self.bx, low),
            0x02 => set_lower_16(&mut self.cx, low),
            0x03 => set_lower_16(&mut self.dx, low),
            0x04 => set_upper_16(&mut self.ax, low),
            0x05 => set_upper_16(&mut self.bx, low),
            0x06 => set_upper_16(&mut self.cx, low),
            0x07 => set_upper_16(&mut self.dx, low),
            0x08 => self.ax = half,
            0x09 => self.bx = half,
            0x0A => self.cx = half,
            0x0B => self.dx = half,
            0x0C => self.si = half,
            0x0D => self.di = half,
            0x0E => self.sp = half,
            0x0F => self.bp = half,
            0x10 => self.r8 = value,
            0x11 => self.r9 = value,
            0x12 => self.r10 = value,
            0x13 => self.r11 = value,
            0x14 => self.r12 = value,
            0x15 => self.r13 = value,
            0x16 => self.r14 = value,
            0x17 => self.r15 = value,
            _ => {
                return Err(ErrorKind::InvalidRegisterEncoding);
            },
        }
        assert(self@.words =~= write_register(old(self)@.words, byte, value));
        Ok(())
    }

    /// Compiles the program code and loads it: on success the memory holds
    /// the compiled bytes from the origin on and zero everywhere else, and
    /// the labels and bytes are returned. The registers are not touched. On a
    /// fault nothing changes.
    pub fn compile(&mut self) -> (result: Result<Assembly, AsmError>)
        ensures
            match result {
                Ok(assembly) => {
                    &&& assembled(old(self)@.program_code) == Ok::<AssemblyView, AsmErrorView>(
                        assembly@,
                    )
                    &&& final(self)@ == (EnvironmentView {
                        memory: image_of(assembly.code@),
                        ..old(self)@
                    })
                },
                Err(error) => {
                    &&& assembled(old(self)@.program_code) == Err::<AssemblyView, AsmErrorView>(
                        error@,
                    )
                    &&& error.kind != ErrorKind::InternalLengthMismatch
                    &&& final(self)@ == old(self)@
                },
            },
    {
        let assembly = match assemble(self.program_code.as_str()) {
            Err(error) => {
                return Err(error);
            },
            Ok(assembly) => assembly,
        };
        self.memory = [0u8; 0xFFFF];
        let origin: usize = ORIGIN as usize;
        let mut i: usize = 0;
        while i < assembly.code.len()
            invariant
                origin == ORIGIN,
                i <= assembly.code@.len(),
                assembly.end == ORIGIN + assembly.code@.len(),
                self.memory@.len() == MEMORY_SIZE,
                forall|j: int|
                    0 <= j < MEMORY_SIZE ==> #[trigger] self.memory@[j] == if ORIGIN <= j < ORIGIN
                        + i {
                        assembly.code@[j - ORIGIN]
                    } else {
                        0u8
                    },
                self@ == (EnvironmentView { memory: self.memory@, ..old(self)@ }),
            decreases assembly.code@.len() - i,
        {
            self.memory[origin + i] = assembly.code[i];
            i += 1;
        }
        assert(self@.memory =~= image_of(assembly.code@));
        Ok(assembly)
    }
}

/// The low eight bits of a value.
fn low_byte_of(value: u64) -> (byte: u8)
    ensures
        byte == value % 256,
{
    assert(value & 0xFF == value % 256) by (bit_vector);
    (value & 0xFF) as u8
}

/// The low sixteen bits of a value.
fn low_half_of(value: u64) -> (half: u16)
    ensures
        half == value % 65536,
{
    assert(value & 0xFFFF == value % 65536) by (bit_vector);
    (value & 0xFFFF) as u16
}

} // verus!
