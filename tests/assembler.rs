use iridium::parser::program;
use iridium::{
    Assembler, AssemblerError, AssemblerPhase, Symbol, SymbolTable, SymbolType, Token, VM,
};

#[test]
fn test_symbol_table() {
    let mut sym = SymbolTable::new();
    let new_symbol = Symbol::new("test".to_string(), SymbolType::Label, 12);
    sym.add_symbol(new_symbol);
    assert_eq!(sym.symbols.len(), 1);
    let v = sym.symbol_value("test");
    assert_eq!(true, v.is_some());
    let v = v.unwrap();
    assert_eq!(v, 12);
    let v = sym.symbol_value("does_not_exist");
    assert_eq!(v.is_some(), false);
}

#[test]
fn test_assemble_program() {
    let mut assembler = Assembler::new();
    let test_string = r"
        .data
        .code
        load $0 #100
        load $1 #1
        load $2 #0
        test: inc $0
        neq $0 $2
        jeq @test
        hlt
        ";
    let program = assembler.assemble(test_string).unwrap();
    let mut vm = VM::new();
    assert_eq!(program.len(), 93);
    vm.add_bytes(program);
    assert_eq!(vm.program.len(), 93);
    assert!(vm.run());
}

#[test]
fn test_code_start_offset_written() {
    let mut assembler = Assembler::new();
    let test_string = r"
        .data
        hello: .asciiz 'Hello'
        .code
        load $0 #100
        load $1 #1
        load $2 #0
        test: inc $0
        neq $0 $2
        jeq @test
        hlt
        ";
    let program = assembler.assemble(test_string);
    assert_eq!(program.is_ok(), true);
    let unwrapped = program.unwrap();
    assert_eq!(unwrapped[64], 6);
    assert_eq!(&unwrapped[72..78], b"Hello\0");
}

#[test]
fn test_ro_data_asciiz() {
    let mut assembler = Assembler::new();
    let test_string = r"
        .data
        test: .asciiz 'This is a test'
        .code
        ";
    let program = assembler.assemble(test_string);
    assert_eq!(program.is_ok(), true);
}

#[test]
fn test_ro_data_i32() {
    let mut assembler = Assembler::new();
    let test_string = r"
        .data
        test: .integer #300
        .code
        ";
    let program = assembler.assemble(test_string);
    assert_eq!(program.is_ok(), true);
    assert_eq!(assembler.ro, vec![0x2C, 0x01, 0x00, 0x00]);
    assert_eq!(&program.unwrap()[72..76], &[0x2C, 0x01, 0x00, 0x00]);
}

#[test]
fn test_bad_ro_data() {
    let mut assembler = Assembler::new();
    let test_string = r"
        .code
        test: .asciiz 'This is a test'
        .wrong
        ";
    let program = assembler.assemble(test_string);
    assert_eq!(program.is_ok(), false);
}

#[test]
fn test_first_phase_no_segment() {
    let mut assembler = Assembler::new();
    let test_string = "hello: .asciiz 'Fail'";
    let result = program(test_string);
    assert_eq!(result.is_ok(), true);
    let (_, mut p) = result.unwrap();
    assembler.process_first_phase(&mut p);
    assert_eq!(assembler.errors.len(), 1);
    assert_eq!(assembler.errors[0], AssemblerError::NoSegmentDeclarationFound { instruction: 0 });
}

#[test]
fn test_first_phase_inside_segment() {
    let mut assembler = Assembler::new();
    let test_string = r"
        .data
        test: .asciiz 'Hello'
        ";
    let result = program(test_string);
    assert_eq!(result.is_ok(), true);
    let (_, mut p) = result.unwrap();
    assembler.process_first_phase(&mut p);
    assert_eq!(assembler.errors.len(), 0);
    assert_eq!(assembler.phase, AssemblerPhase::Second);
    assert_eq!(assembler.symbols.symbol_value("test"), Some(0));
}

fn assemble(src: &str) -> Result<Vec<u8>, Vec<AssemblerError>> {
    Assembler::new().assemble(src)
}

#[test]
fn header_layout() {
    let out = assemble(".data\ns: .asciiz 'abc'\nn: .integer #-2\n.code\nhlt").unwrap();
    assert_eq!(&out[0..4], &[45, 50, 49, 45]);
    assert!(out[4..64].iter().all(|b| *b == 0));
    assert_eq!(&out[64..68], &[8, 0, 0, 0]);
    assert_eq!(&out[68..72], &[80, 0, 0, 0]);
    assert_eq!(&out[72..80], &[b'a', b'b', b'c', 0, 0xFE, 0xFF, 0xFF, 0xFF]);
    assert_eq!(&out[80..], &[5]);
}

#[test]
fn whole_words_of_code() {
    let out = assemble(".data\n.code\nload $1 #7\nadd $1 $2 $3\nhlt $0 $0 $0").unwrap();
    assert!(out.len() >= 72);
    assert_eq!((out.len() - 72) % 4, 0);
    assert_eq!(&out[72..], &[0, 1, 0, 7, 1, 1, 2, 3, 5, 0, 0, 0]);
}

#[test]
fn immediates_are_sixteen_bit_big_endian() {
    let out = assemble(".data\n.code\nload $0 #65535\nload $1 #-10\nload $2 #300").unwrap();
    assert_eq!(&out[72..], &[0, 0, 0xFF, 0xFF, 0, 1, 0xFF, 0xF6, 0, 2, 0x01, 0x2C]);
}

#[test]
fn data_labels_resolve_to_read_only_offsets() {
    let out =
        assemble(".data\na: .asciiz 'xy'\nb: .asciiz 'z'\n.code\nload $0 #1\nhere: jmp @here\nprts @b")
            .unwrap();
    // `b` sits after "xy\0"; `here` is the sixth instruction: 5 * 4 + 60.
    assert_eq!(&out[77..], &[0, 0, 0, 1, 6, 0, 80, 20, 0, 3]);
}

#[test]
fn only_one_kind_of_section_is_rejected() {
    assert_eq!(assemble(".data\nhlt"), Err(vec![AssemblerError::InsufficientSections]));
    assert_eq!(assemble(".code\nhlt"), Err(vec![AssemblerError::InsufficientSections]));
    assert_eq!(assemble(".code\n.code\nhlt"), Err(vec![AssemblerError::InsufficientSections]));
    assert_eq!(
        assemble(".data\n.code\n.data\nhlt"),
        Err(vec![AssemblerError::InsufficientSections])
    );
}

#[test]
fn undeclared_label_is_fatal() {
    assert_eq!(
        assemble(".data\n.code\njmp @nowhere"),
        Err(vec![AssemblerError::SymbolNotFound { name: "nowhere".to_string() }])
    );
}

#[test]
fn label_before_any_section() {
    let mut assembler = Assembler::new();
    let result = assembler.assemble("hello: .asciiz 'Fail'");
    assert_eq!(result, Err(vec![AssemblerError::NoSegmentDeclarationFound { instruction: 0 }]));
}

#[test]
fn constant_without_label() {
    assert_eq!(
        assemble(".data\n.asciiz 'x'\n.code"),
        Err(vec![AssemblerError::StringConstantDeclaredWithoutLabel { instruction: 1 }])
    );
}

#[test]
fn duplicate_label() {
    assert_eq!(
        assemble(".data\na: .integer #1\na: .integer #2\n.code"),
        Err(vec![AssemblerError::SymbolAlreadyDeclared])
    );
}

#[test]
fn unknown_directive_with_operands() {
    assert_eq!(
        assemble(".data\nx: .word #1\n.code"),
        Err(vec![AssemblerError::UnknownDirectiveFound { directive: "word".to_string() }])
    );
}

#[test]
fn unencodable_operand() {
    assert_eq!(assemble(".data\n.code\nload $0 'str'"), Err(vec![AssemblerError::InvalidOperand]));
}

#[test]
fn directive_has_no_code_encoding() {
    let (_, p) = program(".data").unwrap();
    assert_eq!(p.to_bytes(&SymbolTable::new()), Err(AssemblerError::NonOpcodeInOpcodeField));
}

#[test]
fn text_that_is_no_instruction() {
    let errors = assemble("$$$").unwrap_err();
    assert_eq!(errors.len(), 1);
    assert!(matches!(errors[0], AssemblerError::ParseError { .. }));
}

#[test]
fn set_offset_moves_only_the_named_symbol() {
    let mut t = SymbolTable::new();
    t.add_symbol(Symbol::new("a".to_string(), SymbolType::Label, 1));
    t.add_symbol(Symbol::new("b".to_string(), SymbolType::Label, 2));
    assert_eq!(t.symbol_value("a"), Some(1));
    assert!(t.set_symbol_offset("a", 40));
    assert_eq!(t.symbol_value("a"), Some(40));
    assert_eq!(t.symbol_value("b"), Some(2));
    assert!(!t.set_symbol_offset("c", 3));
    assert!(t.has_symbol("b"));
    assert!(!t.has_symbol("c"));
}

/// The magic bytes, then zeros up to and including byte 64; code follows.
fn behind_entry_header(code: &[u8]) -> Vec<u8> {
    let mut program = vec![45, 50, 49, 45];
    program.resize(65, 0);
    program.extend_from_slice(code);
    program
}

#[test]
fn assembled_load_runs() {
    let out = assemble(".data\n.code\nload $0 #500\nhlt").unwrap();
    let mut vm = VM::new();
    vm.program = behind_entry_header(&out[72..]);
    assert!(vm.run());
    assert_eq!(vm.registers[0], 500);
    assert_eq!(vm.pc, 70);
}

#[test]
fn assembled_add_runs() {
    let out = assemble(".data\n.code\nload $0 #10\nload $1 #15\nadd $0 $1 $2\nhlt").unwrap();
    let mut vm = VM::new();
    vm.program = behind_entry_header(&out[72..]);
    assert!(vm.run());
    assert_eq!(vm.registers[2], 25);
}

#[test]
fn token_operand_in_directive_slot() {
    let (_, p) = program(".data\nhello: .asciiz 'Hi'\n.code\nprts @hello").unwrap();
    assert_eq!(p.instructions.len(), 4);
    assert_eq!(p.instructions[1].operand1, Some(Token::IrString { name: "Hi".to_string() }));
}
