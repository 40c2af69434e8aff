use iridium::parser::{
    directive, instruction, integer_operand, irstring, label_declaration, label_usage, opcode_load,
    operand, program, register,
};
use iridium::{AssemblerInstruction, NoMatch, Opcode, SymbolTable, Token};

#[test]
fn test_string_directive() {
    let result = directive("test: .asciiz 'Hello'");
    assert_eq!(result.is_ok(), true);
    let (_, directive) = result.unwrap();

    let correct_instruction = AssemblerInstruction {
        opcode: None,
        label: Some(Token::LabelDeclaration { name: "test".to_string() }),
        directive: Some(Token::Directive { name: "asciiz".to_string() }),
        operand1: Some(Token::IrString { name: "Hello".to_string() }),
        operand2: None,
        operand3: None,
    };

    assert_eq!(directive, correct_instruction);
}

#[test]
fn test_parse_instruction_form_one() {
    let result = instruction("load $0 #100\n");
    assert_eq!(
        result,
        Ok((
            "",
            AssemblerInstruction {
                label: None,
                opcode: Some(Token::Op { code: Opcode::LOAD }),
                directive: None,
                operand1: Some(Token::Register { reg_num: 0 }),
                operand2: Some(Token::IntegerOperand { value: 100 }),
                operand3: None
            }
        ))
    );
}

#[test]
fn test_parse_instruction_form_two() {
    let result = instruction("hlt\n");
    assert_eq!(
        result,
        Ok((
            "",
            AssemblerInstruction {
                label: None,
                opcode: Some(Token::Op { code: Opcode::HLT }),
                directive: None,
                operand1: None,
                operand2: None,
                operand3: None
            }
        ))
    );
}

#[test]
fn test_parse_label_declaration() {
    let result = label_declaration("test:");
    assert_eq!(result.is_ok(), true);
    let (_, token) = result.unwrap();
    assert_eq!(token, Token::LabelDeclaration { name: "test".to_string() });
    let result = label_declaration("test");
    assert_eq!(result.is_ok(), false);
}

#[test]
fn test_parse_label_usage() {
    let result = label_usage("@test");
    assert_eq!(result.is_ok(), true);
    let (_, token) = result.unwrap();
    assert_eq!(token, Token::LabelUsage { name: "test".to_string() });
    let result = label_usage("test");
    assert_eq!(result.is_ok(), false);
}

#[test]
fn test_opcode_load() {
    let result = opcode_load("load");
    assert_eq!(result.is_ok(), true);
    let (rest, token) = result.unwrap();
    assert_eq!(token, Token::Op { code: Opcode::LOAD });
    assert_eq!(rest, "");

    let result = opcode_load("aold");
    assert_eq!(result.is_ok(), true);
    let (rest, token) = result.unwrap();
    assert_eq!(token, Token::Op { code: Opcode::IGL });
    assert_eq!(rest, "");
}

#[test]
fn test_parse_integer_operand() {
    let result = integer_operand("#-10");
    assert_eq!(result.is_ok(), true);
    let (rest, value) = result.unwrap();
    assert_eq!(rest, "");
    assert_eq!(value, Token::IntegerOperand { value: -10 });

    let result = integer_operand("10");
    assert_eq!(result.is_ok(), false);
}

#[test]
fn test_parse_string_operand() {
    let result = irstring("'This is a test'");
    assert_eq!(result.is_ok(), true);
}

#[test]
fn test_parse_program() {
    let result = program("load $0 #100\nload $3 #120");
    assert_eq!(result.is_ok(), true);
    let (leftover, p) = result.unwrap();
    assert_eq!(leftover, "");
    assert_eq!(2, p.instructions.len());
}

#[test]
fn test_program_to_bytes() {
    let result = program("load $0 #100\n");
    assert_eq!(result.is_ok(), true);
    let (_, program) = result.unwrap();
    let symbols = SymbolTable::new();
    let bytecode = program.to_bytes(&symbols).unwrap();
    assert_eq!(bytecode.len(), 4);
}

#[test]
fn test_parse_register() {
    let result = register("$1");
    assert_eq!(result.is_ok(), true);
    let (_, token) = result.unwrap();
    assert_eq!(token, Token::Register { reg_num: 1 });
    let result = register("0");
    assert_eq!(result.is_ok(), false);
    let result = register("$a");
    assert_eq!(result.is_ok(), false);
}

#[test]
fn register_numbers_must_fit_a_byte() {
    assert_eq!(register("  $255 rest"), Ok(("rest", Token::Register { reg_num: 255 })));
    assert_eq!(register("$256"), Err(NoMatch));
    assert_eq!(register("$0007"), Ok(("", Token::Register { reg_num: 7 })));
}

#[test]
fn integer_operand_limits() {
    assert_eq!(
        integer_operand("#2147483647"),
        Ok(("", Token::IntegerOperand { value: i32::MAX }))
    );
    assert_eq!(
        integer_operand("#-2147483648"),
        Ok(("", Token::IntegerOperand { value: i32::MIN }))
    );
    assert_eq!(integer_operand("#2147483648"), Err(NoMatch));
    assert_eq!(integer_operand("#-"), Err(NoMatch));
    assert_eq!(integer_operand("#65535 x"), Ok(("x", Token::IntegerOperand { value: 65535 })));
}

#[test]
fn string_operand_needs_closing_quote() {
    assert_eq!(
        irstring(" 'héllo wörld'  next"),
        Ok(("next", Token::IrString { name: "héllo wörld".to_string() }))
    );
    assert_eq!(irstring("'open"), Err(NoMatch));
    assert_eq!(irstring("''"), Ok(("", Token::IrString { name: String::new() })));
}

#[test]
fn label_usage_allows_space_after_at() {
    assert_eq!(
        label_usage("@ loop1\nhlt"),
        Ok(("\nhlt", Token::LabelUsage { name: "loop1".to_string() }))
    );
    assert_eq!(label_usage(" @x"), Err(NoMatch));
}

#[test]
fn operand_tries_each_form() {
    assert_eq!(operand("#5"), Ok(("", Token::IntegerOperand { value: 5 })));
    assert_eq!(operand("@a"), Ok(("", Token::LabelUsage { name: "a".to_string() })));
    assert_eq!(operand("$2"), Ok(("", Token::Register { reg_num: 2 })));
    assert_eq!(operand("'s'"), Ok(("", Token::IrString { name: "s".to_string() })));
    assert_eq!(operand("hlt"), Err(NoMatch));
}

#[test]
fn labelled_instruction_and_leftover() {
    let (rest, ins) = instruction("top: inc $0\nhlt").unwrap();
    assert_eq!(rest, "hlt");
    assert_eq!(ins.label_name(), Some("top".to_string()));
    assert!(ins.is_label());
    assert_eq!(ins.opcode, Some(Token::Op { code: Opcode::INC }));

    let (rest, p) = program("hlt\n!!").unwrap();
    assert_eq!(rest, "!!");
    assert_eq!(p.instructions.len(), 1);
    assert_eq!(program("!!").is_err(), true);
    assert_eq!(program("").is_err(), true);
}
