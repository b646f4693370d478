use toy_asm::error::ErrorKind;
use toy_asm::isa::AddressingMode::{Absolute, Immediate, Implicit, Registry, RegistryPointer};
use toy_asm::isa::{mnemonic, opcode, register_encoding, AddressingMode, Mnemonic};
use toy_asm::operand::{classify_operand, parse_hex_digits, Operand};
use toy_asm::text::{identifier, same_text, split_lines, text_eq, tokenize};
use toy_asm::utility::to_chars;

#[test]
fn immediate_literals_are_parsed() {
    assert_eq!(classify_operand(&to_chars("0x05")), Ok(Operand::Immediate(0x05)));
    assert_eq!(classify_operand(&to_chars("0xFf")), Ok(Operand::Immediate(0xFF)));
    assert_eq!(classify_operand(&to_chars("0xdeadBEEF")), Ok(Operand::Immediate(0xDEAD_BEEF)));
    assert_eq!(
        classify_operand(&to_chars("0xFFFFFFFFFFFFFFFF")),
        Ok(Operand::Immediate(u64::MAX))
    );
    assert_eq!(
        classify_operand(&to_chars("0x00000000000000000000A")),
        Ok(Operand::Immediate(10))
    );
    assert_eq!(classify_operand(&to_chars("0x05")).unwrap().mode(), AddressingMode::Immediate);
}

#[test]
fn invalid_hex_literal_is_malformed() {
    assert_eq!(classify_operand(&to_chars("0xGG")), Err(ErrorKind::MalformedImmediateLiteral));
    assert_eq!(classify_operand(&to_chars("0x")), Err(ErrorKind::MalformedImmediateLiteral));
    assert_eq!(classify_operand(&to_chars("0x12z")), Err(ErrorKind::MalformedImmediateLiteral));
    assert_eq!(
        classify_operand(&to_chars("0x10000000000000000")),
        Err(ErrorKind::MalformedImmediateLiteral)
    );
}

#[test]
fn register_names_classify_as_registry() {
    assert_eq!(classify_operand(&to_chars("ax")), Ok(Operand::Registry(to_chars("ax"))));
    assert_eq!(classify_operand(&to_chars("r15")), Ok(Operand::Registry(to_chars("r15"))));
    assert_eq!(classify_operand(&to_chars("ax")).unwrap().mode(), AddressingMode::Registry);
}

#[test]
fn bracketed_names_classify_as_pointer() {
    assert_eq!(classify_operand(&to_chars("[bx]")), Ok(Operand::RegistryPointer(to_chars("bx"))));
    assert_eq!(classify_operand(&to_chars("[zz]")), Ok(Operand::RegistryPointer(to_chars("zz"))));
    assert_eq!(classify_operand(&to_chars("[]")), Ok(Operand::RegistryPointer(Vec::new())));
    assert_eq!(
        classify_operand(&to_chars("[bx]")).unwrap().mode(),
        AddressingMode::RegistryPointer
    );
}

#[test]
fn other_identifiers_classify_as_label_reference() {
    assert_eq!(classify_operand(&to_chars("start")), Ok(Operand::Absolute(to_chars("start"))));
    assert_eq!(classify_operand(&to_chars("_l00p")), Ok(Operand::Absolute(to_chars("_l00p"))));
    assert_eq!(classify_operand(&to_chars("zz")), Ok(Operand::Absolute(to_chars("zz"))));
    assert_eq!(classify_operand(&to_chars("AX")), Ok(Operand::Absolute(to_chars("AX"))));
    assert_eq!(classify_operand(&to_chars("start")).unwrap().mode(), AddressingMode::Absolute);
    assert_eq!(Operand::Implicit.mode(), AddressingMode::Implicit);
}

#[test]
fn unknown_shapes_are_rejected() {
    for token in ["1abc", "[ax", "ax]", "a-b", "", "0X1F", "#5", "lab:el"] {
        assert_eq!(classify_operand(&to_chars(token)), Err(ErrorKind::UnknownOperandShape));
    }
}

#[test]
fn hex_digits_value() {
    assert_eq!(parse_hex_digits(&to_chars("")), Some(0));
    assert_eq!(parse_hex_digits(&to_chars("10")), Some(16));
    assert_eq!(parse_hex_digits(&to_chars("aF")), Some(0xAF));
    assert_eq!(parse_hex_digits(&to_chars("FFFFFFFFFFFFFFFF")), Some(u64::MAX));
    assert_eq!(parse_hex_digits(&to_chars("10000000000000000")), None);
    assert_eq!(parse_hex_digits(&to_chars("12g")), None);
}

#[test]
fn register_encoding_table() {
    let names = [
        "al", "bl", "cl", "dl", "ah", "bh", "ch", "dh", "ax", "bx", "cx", "dx", "si", "di", "sp",
        "bp", "r8", "r9", "r10", "r11", "r12", "r13", "r14", "r15",
    ];
    for (index, name) in names.iter().enumerate() {
        assert_eq!(register_encoding(&to_chars(name)), Some(index as u8));
    }
    for name in ["zz", "pc", "cf", "AX", "r16", "r7", "a", "", "axx"] {
        assert_eq!(register_encoding(&to_chars(name)), None);
    }
}

#[test]
fn mnemonic_table() {
    assert_eq!(mnemonic(&to_chars("mov")), Some(Mnemonic::Mov));
    assert_eq!(mnemonic(&to_chars("cmp")), Some(Mnemonic::Cmp));
    assert_eq!(mnemonic(&to_chars("jne")), Some(Mnemonic::Jne));
    assert_eq!(mnemonic(&to_chars("pusha")), Some(Mnemonic::Pusha));
    assert_eq!(mnemonic(&to_chars("popa")), Some(Mnemonic::Popa));
    assert_eq!(mnemonic(&to_chars("jmp")), Some(Mnemonic::Jmp));
    assert_eq!(mnemonic(&to_chars("call")), Some(Mnemonic::Call));
    assert_eq!(mnemonic(&to_chars("ret")), Some(Mnemonic::Ret));
    assert_eq!(mnemonic(&to_chars("prtc")), Some(Mnemonic::Prtc));
    assert_eq!(mnemonic(&to_chars("add")), Some(Mnemonic::Add));
    assert_eq!(mnemonic(&to_chars("MOV")), None);
    assert_eq!(mnemonic(&to_chars("nop")), None);
    assert_eq!(mnemonic(&to_chars("")), None);
}

#[test]
fn opcode_table() {
    let table = [
        (Mnemonic::Mov, Absolute, 0x01u8),
        (Mnemonic::Mov, Immediate, 0x02),
        (Mnemonic::Mov, Registry, 0x03),
        (Mnemonic::Mov, RegistryPointer, 0x04),
        (Mnemonic::Cmp, Immediate, 0x05),
        (Mnemonic::Jne, Absolute, 0x06),
        (Mnemonic::Pusha, Implicit, 0x07),
        (Mnemonic::Popa, Implicit, 0x00),
        (Mnemonic::Jmp, Absolute, 0x09),
        (Mnemonic::Call, Absolute, 0x0A),
        (Mnemonic::Ret, Implicit, 0x0B),
        (Mnemonic::Prtc, Immediate, 0x0C),
        (Mnemonic::Prtc, Registry, 0x0D),
        (Mnemonic::Prtc, RegistryPointer, 0x0E),
        (Mnemonic::Add, Immediate, 0x0F),
    ];
    let mnemonics = [
        Mnemonic::Mov,
        Mnemonic::Cmp,
        Mnemonic::Jne,
        Mnemonic::Pusha,
        Mnemonic::Popa,
        Mnemonic::Jmp,
        Mnemonic::Call,
        Mnemonic::Ret,
        Mnemonic::Prtc,
        Mnemonic::Add,
    ];
    let modes = [Implicit, Immediate, Absolute, Registry, RegistryPointer];
    let mut present = 0;
    for m in mnemonics {
        for mode in modes {
            let expected = table
                .iter()
                .find(|entry| entry.0 == m && entry.1 == mode)
                .map(|entry| entry.2);
            assert_eq!(opcode(m, mode), expected);
            if expected.is_some() {
                present += 1;
            }
        }
    }
    assert_eq!(present, 15);
}

#[test]
fn lines_are_split_at_line_feeds() {
    let lines = split_lines(&to_chars("a\nbc\n\nd"));
    assert_eq!(lines, vec![to_chars("a"), to_chars("bc"), to_chars(""), to_chars("d")]);
    assert_eq!(split_lines(&to_chars("")), vec![to_chars("")]);
    assert_eq!(split_lines(&to_chars("x\n")), vec![to_chars("x"), to_chars("")]);
    assert_eq!(split_lines(&to_chars("x\r\ny")), vec![to_chars("x\r"), to_chars("y")]);
}

#[test]
fn tokens_are_runs_between_separators() {
    assert_eq!(
        tokenize(&to_chars("  mov ax, 0x05\r")),
        vec![to_chars("mov"), to_chars("ax"), to_chars("0x05")]
    );
    assert_eq!(tokenize(&to_chars("a,,b\t c")), vec![to_chars("a"), to_chars("b"), to_chars("c")]);
    assert_eq!(tokenize(&to_chars("start:")), vec![to_chars("start:")]);
    assert_eq!(tokenize(&to_chars(" \t , ")), Vec::<Vec<char>>::new());
    assert_eq!(tokenize(&to_chars("")), Vec::<Vec<char>>::new());
}

#[test]
fn text_comparisons() {
    assert!(text_eq(&to_chars("mov"), "mov"));
    assert!(!text_eq(&to_chars("mov"), "mow"));
    assert!(!text_eq(&to_chars("mov"), "mo"));
    assert!(text_eq(&to_chars(""), ""));
    assert!(same_text(&to_chars("abc"), &to_chars("abc")));
    assert!(!same_text(&to_chars("abc"), &to_chars("abd")));
    assert!(!same_text(&to_chars("abc"), &to_chars("ab")));
    assert_eq!(to_chars("h\u{e9}!"), vec!['h', '\u{e9}', '!']);
}

#[test]
fn identifiers() {
    for text in ["a", "_", "start", "L1", "_x9_"] {
        assert!(identifier(&to_chars(text)));
    }
    for text in ["", "1a", "a b", "a-b", "a:", "\u{e9}t\u{e9}"] {
        assert!(!identifier(&to_chars(text)));
    }
}
