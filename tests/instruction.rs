use iridium::{Instruction, Opcode};

#[test]
fn test_create_hlt() {
    let opcode = Opcode::HLT;
    assert_eq!(opcode, Opcode::HLT);
}

#[test]
fn test_create_instruction() {
    let instruction = Instruction::new(Opcode::HLT);
    assert_eq!(instruction.opcode, Opcode::HLT);
}

#[test]
fn test_str_to_opcode() {
    let opcode = Opcode::from("load");
    assert_eq!(opcode, Opcode::LOAD);
    let opcode = Opcode::from("illegal");
    assert_eq!(opcode, Opcode::IGL);
}

const ALL: [(Opcode, &str, u8); 21] = [
    (Opcode::LOAD, "load", 0),
    (Opcode::ADD, "add", 1),
    (Opcode::SUB, "sub", 2),
    (Opcode::MUL, "mul", 3),
    (Opcode::DIV, "div", 4),
    (Opcode::HLT, "hlt", 5),
    (Opcode::JMP, "jmp", 6),
    (Opcode::JMPF, "jmpf", 7),
    (Opcode::JMPB, "jmpb", 8),
    (Opcode::EQ, "eq", 9),
    (Opcode::NEQ, "neq", 10),
    (Opcode::GT, "gt", 11),
    (Opcode::LT, "lt", 12),
    (Opcode::GTE, "gte", 13),
    (Opcode::LTE, "lte", 14),
    (Opcode::JEQ, "jeq", 15),
    (Opcode::NOP, "nop", 16),
    (Opcode::ALOC, "aloc", 17),
    (Opcode::INC, "inc", 18),
    (Opcode::DEC, "dec", 19),
    (Opcode::PRTS, "prts", 20),
];

#[test]
fn opcode_round_trips_through_byte_and_mnemonic() {
    for (op, mnemonic, code) in ALL {
        assert_eq!(op.code(), code);
        assert_eq!(Opcode::from(code), op);
        assert_eq!(Opcode::from(op.code()), op);
        assert_eq!(Opcode::from(mnemonic), op);
    }
}

#[test]
fn unknown_bytes_are_illegal() {
    assert_eq!(Opcode::from(21u8), Opcode::IGL);
    assert_eq!(Opcode::from(200u8), Opcode::IGL);
    assert_eq!(Opcode::from(255u8), Opcode::IGL);
    assert_eq!(Opcode::from(Opcode::IGL.code()), Opcode::IGL);
}

#[test]
fn mul_mnemonic_names_mul() {
    assert_eq!(Opcode::from("mul"), Opcode::MUL);
    assert_eq!(Opcode::from("div"), Opcode::DIV);
    assert_eq!(Opcode::from("LOAD"), Opcode::IGL);
    assert_eq!(Opcode::from(""), Opcode::IGL);
}
