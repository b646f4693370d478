use toy_asm::assembler::{assemble, discover_labels, emit_code};
use toy_asm::error::{AsmError, ErrorKind};
use toy_asm::labels::LabelTable;
use toy_asm::program_environment::ProgramEnvironment;
use toy_asm::text::split_lines;
use toy_asm::utility::to_chars;

fn error_of(kind: ErrorKind, line: usize, token: &str) -> AsmError {
    AsmError { kind, line, token: to_chars(token) }
}

#[test]
fn end_to_end_example() {
    let assembly = assemble("start:\n  mov ax, 0x05\n  jmp start").unwrap();
    assert_eq!(assembly.labels.lookup(&to_chars("start")), Some(0x0200));
    assert_eq!(assembly.code, vec![0x02, 0x08, 0x05, 0x00, 0x09, 0x00, 0x02]);
    assert_eq!(assembly.code.len(), 7);
    assert_eq!(assembly.end, 0x0207);
}

#[test]
fn compile_loads_the_image_at_the_origin() {
    let source = "start:\n  mov ax, 0x05\n  jmp start";
    let mut env = ProgramEnvironment::new(String::from(source), false, false);
    assert_eq!(env.set_register_value(0x08, 0x1234), Ok(()));
    let assembly = env.compile().unwrap();
    assert_eq!(assembly.code, vec![0x02, 0x08, 0x05, 0x00, 0x09, 0x00, 0x02]);
    let memory = env.memory();
    assert_eq!(memory.len(), 65_535);
    assert_eq!(&memory[0x0200..0x0207], &[0x02, 0x08, 0x05, 0x00, 0x09, 0x00, 0x02]);
    assert!(memory[..0x0200].iter().all(|b| *b == 0));
    assert!(memory[0x0207..].iter().all(|b| *b == 0));
    assert_eq!(env.pc(), 0x0200);
    assert_eq!(env.get_register_value(0x08), Ok(0x1234));
    assert_eq!(env.program_code(), source);
}

#[test]
fn forward_and_backward_references_resolve_alike() {
    let assembly = assemble("jmp end\nend:\n  ret\n  jmp end").unwrap();
    assert_eq!(assembly.labels.lookup(&to_chars("end")), Some(0x0203));
    assert_eq!(assembly.code, vec![0x09, 0x03, 0x02, 0x0B, 0x09, 0x03, 0x02]);
    assert_eq!(&assembly.code[1..3], &assembly.code[5..7]);
}

#[test]
fn label_and_instruction_on_one_line() {
    let assembly = assemble("loop: add ax, 0x01\n cmp ax, 0x0A\n jne loop\nend: ret\n").unwrap();
    assert_eq!(assembly.labels.lookup(&to_chars("loop")), Some(0x0200));
    assert_eq!(assembly.labels.lookup(&to_chars("end")), Some(0x0209));
    assert_eq!(
        assembly.code,
        vec![0x0F, 0x08, 0x01, 0x05, 0x08, 0x0A, 0x06, 0x00, 0x02, 0x0B]
    );
    assert_eq!(assembly.end, 0x020A);
}

#[test]
fn blank_lines_and_carriage_returns_are_skipped() {
    let assembly = assemble("\r\n\n   \t\r\nret\r\n\r\n  popa  \r\n").unwrap();
    assert_eq!(assembly.code, vec![0x0B, 0x00]);
    assert_eq!(assembly.end, 0x0202);
    let empty = assemble("").unwrap();
    assert_eq!(empty.code, Vec::<u8>::new());
    assert_eq!(empty.end, 0x0200);
    assert_eq!(empty.labels.lookup(&to_chars("")), None);
}

#[test]
fn cursor_of_first_pass_matches_bytes_of_second_pass() {
    let source = "a: mov ax, b\n mov bx, 0x1\n mov cx, dx\nb: mov si, [di]\n prtc 0x41\n call a\n ret";
    let lines = split_lines(&to_chars(source));
    let (labels, cursor) = discover_labels(&lines).unwrap();
    let code = emit_code(&lines, &labels).unwrap();
    assert_eq!(cursor as usize, 0x0200 + code.len());
    assert_eq!(code.len(), 4 + 4 + 3 + 3 + 2 + 3 + 1);
    assert_eq!(labels.lookup(&to_chars("a")), Some(0x0200));
    assert_eq!(labels.lookup(&to_chars("b")), Some(0x020B));
    let assembly = assemble(source).unwrap();
    assert_eq!(assembly.code, code);
    assert_eq!(assembly.end, cursor);
}

#[test]
fn duplicate_label_fails_and_emits_nothing() {
    let source = "a:\n ret\na:\n ret";
    assert_eq!(assemble(source), Err(error_of(ErrorKind::DuplicateLabel, 3, "a")));
    let mut env = ProgramEnvironment::new(String::from(source), false, false);
    assert_eq!(env.compile(), Err(error_of(ErrorKind::DuplicateLabel, 3, "a")));
    assert!(env.memory().iter().all(|b| *b == 0));
}

#[test]
fn failed_compile_keeps_an_earlier_image() {
    let mut env = ProgramEnvironment::new(String::from("ret\n jmp nowhere"), false, false);
    let before: Vec<u8> = env.memory().to_vec();
    assert_eq!(env.compile(), Err(error_of(ErrorKind::UndefinedLabel, 2, "nowhere")));
    assert_eq!(env.memory(), &before[..]);
}

#[test]
fn undefined_label_fails() {
    assert_eq!(assemble("jmp nowhere"), Err(error_of(ErrorKind::UndefinedLabel, 1, "nowhere")));
    assert_eq!(
        assemble("start:\n mov ax, zz\n jmp start"),
        Err(error_of(ErrorKind::UndefinedLabel, 2, "zz"))
    );
}

#[test]
fn invalid_hex_literal_fails() {
    assert_eq!(
        assemble("ret\nmov ax, 0xGG"),
        Err(error_of(ErrorKind::MalformedImmediateLiteral, 2, "0xGG"))
    );
}

#[test]
fn unknown_register_operand_fails() {
    assert_eq!(assemble("mov zz, 0x05"), Err(error_of(ErrorKind::UnknownRegister, 1, "zz")));
    assert_eq!(assemble("\nprtc [zz]"), Err(error_of(ErrorKind::UnknownRegister, 2, "[zz]")));
}

#[test]
fn other_faults_carry_line_and_token() {
    assert_eq!(assemble("ret\n\nbogus"), Err(error_of(ErrorKind::UnknownMnemonic, 3, "bogus")));
    assert_eq!(
        assemble("x: jmp 0x0200"),
        Err(error_of(ErrorKind::UnsupportedAddressingMode, 1, "0x0200"))
    );
    assert_eq!(assemble("jmp"), Err(error_of(ErrorKind::UnsupportedAddressingMode, 1, "")));
    assert_eq!(assemble("jmp a b\na:\nb:"), Err(error_of(ErrorKind::UnknownOperandShape, 1, "b")));
    assert_eq!(assemble("jmp 9lives"), Err(error_of(ErrorKind::UnknownOperandShape, 1, "9lives")));
}

#[test]
fn first_pass_fault_comes_before_second_pass_fault() {
    assert_eq!(
        assemble("jmp nowhere\nbogus"),
        Err(error_of(ErrorKind::UnknownMnemonic, 2, "bogus"))
    );
    assert_eq!(
        assemble("a:\n bogus\na:"),
        Err(error_of(ErrorKind::UnknownMnemonic, 2, "bogus"))
    );
}

#[test]
fn program_may_fill_the_image_but_not_exceed_it() {
    let mut source = String::new();
    for _ in 0..16_255 {
        source.push_str("mov ax, 0x1\n");
    }
    source.push_str("ret\nret\nret");
    let assembly = assemble(&source).unwrap();
    assert_eq!(assembly.end, 0xFFFF);
    assert_eq!(assembly.code.len(), 0xFFFF - 0x0200);
    let mut env = ProgramEnvironment::new(source.clone(), false, false);
    assert!(env.compile().is_ok());
    assert_eq!(env.memory()[0xFFFE], 0x0B);
    source.push_str("\nlast: ret");
    assert_eq!(assemble(&source), Err(error_of(ErrorKind::ImageOverflow, 16_259, "")));
}

#[test]
fn second_pass_alone_reports_what_it_finds() {
    let lines = split_lines(&to_chars("a: jmp a\n jmp b"));
    let mut labels = LabelTable::new();
    assert_eq!(labels.insert(to_chars("a"), 0x1234), Ok(()));
    assert_eq!(emit_code(&lines, &labels), Err(error_of(ErrorKind::UndefinedLabel, 2, "b")));
    assert_eq!(labels.insert(to_chars("b"), 0x5678), Ok(()));
    assert_eq!(emit_code(&lines, &labels), Ok(vec![0x09, 0x34, 0x12, 0x09, 0x78, 0x56]));
}

#[test]
fn label_names_are_taken_as_written() {
    let assembly = assemble("ax: ret\n_x1: ret\n9: ret\n: ret").unwrap();
    assert_eq!(assembly.labels.lookup(&to_chars("ax")), Some(0x0200));
    assert_eq!(assembly.labels.lookup(&to_chars("_x1")), Some(0x0201));
    assert_eq!(assembly.labels.lookup(&to_chars("9")), Some(0x0202));
    assert_eq!(assembly.labels.lookup(&to_chars("")), Some(0x0203));
    assert_eq!(assembly.code, vec![0x0B, 0x0B, 0x0B, 0x0B]);
}
