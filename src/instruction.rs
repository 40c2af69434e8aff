use vstd::prelude::*;

use crate::text::{chars_of, word_is};

verus! {

/// The operations of the machine, each with a fixed numeric code.
#[derive(Debug, PartialEq, Eq, Clone, Copy, Structural)]
pub enum Opcode {
    LOAD,
    ADD,
    SUB,
    MUL,
    DIV,
    HLT,
    /// Absolute jump.
    JMP,
    /// Relative jump forward.
    JMPF,
    /// Relative jump backward.
    JMPB,
    EQ,
    NEQ,
    GT,
    LT,
    GTE,
    LTE,
    JEQ,
    NOP,
    ALOC,
    INC,
    DEC,
    PRTS,
    /// Any byte or mnemonic outside the defined set.
    IGL,
}

/// The byte that stands for each opcode in assembled code.
pub open spec fn opcode_code(o: Opcode) -> u8 {
    match o {
        Opcode::LOAD => 0,
        Opcode::ADD => 1,
        Opcode::SUB => 2,
        Opcode::MUL => 3,
        Opcode::DIV => 4,
        Opcode::HLT => 5,
        Opcode::JMP => 6,
        Opcode::JMPF => 7,
        Opcode::JMPB => 8,
        Opcode::EQ => 9,
        Opcode::NEQ => 10,
        Opcode::GT => 11,
        Opcode::LT => 12,
        Opcode::GTE => 13,
        Opcode::LTE => 14,
        Opcode::JEQ => 15,
        Opcode::NOP => 16,
        Opcode::ALOC => 17,
        Opcode::INC => 18,
        Opcode::DEC => 19,
        Opcode::PRTS => 20,
        Opcode::IGL => 255,
    }
}

/// The opcode that a byte of code decodes to.
pub open spec fn opcode_of_byte(b: u8) -> Opcode {
    if b == 0 {
        Opcode::LOAD
    } else if b == 1 {
        Opcode::ADD
    } else if b == 2 {
        Opcode::SUB
    } else if b == 3 {
        Opcode::MUL
    } else if b == 4 {
        Opcode::DIV
    } else if b == 5 {
        Opcode::HLT
    } else if b == 6 {
        Opcode::JMP
    } else if b == 7 {
        Opcode::JMPF
    } else if b == 8 {
        Opcode::JMPB
    } else if b == 9 {
        Opcode::EQ
    } else if b == 10 {
        Opcode::NEQ
    } else if b == 11 {
        Opcode::GT
    } else if b == 12 {
        Opcode::LT
    } else if b == 13 {
        Opcode::GTE
    } else if b == 14 {
        Opcode::LTE
    } else if b == 15 {
        Opcode::JEQ
    } else if b == 16 {
        Opcode::NOP
    } else if b == 17 {
        Opcode::ALOC
    } else if b == 18 {
        Opcode::INC
    } else if b == 19 {
        Opcode::DEC
    } else if b == 20 {
        Opcode::PRTS
    } else {
        Opcode::IGL
    }
}

/// The assembly mnemonic of each defined opcode.
pub open spec fn opcode_mnemonic(o: Opcode) -> Seq<char> {
    match o {
        Opcode::LOAD => "load"@,
        Opcode::ADD => "add"@,
        Opcode::SUB => "sub"@,
        Opcode::MUL => "mul"@,
        Opcode::DIV => "div"@,
        Opcode::HLT => "hlt"@,
        Opcode::JMP => "jmp"@,
        Opcode::JMPF => "jmpf"@,
        Opcode::JMPB => "jmpb"@,
        Opcode::EQ => "eq"@,
        Opcode::NEQ => "neq"@,
        Opcode::GT => "gt"@,
        Opcode::LT => "lt"@,
        Opcode::GTE => "gte"@,
        Opcode::LTE => "lte"@,
        Opcode::JEQ => "jeq"@,
        Opcode::NOP => "nop"@,
        Opcode::ALOC => "aloc"@,
        Opcode::INC => "inc"@,
        Opcode::DEC => "dec"@,
        Opcode::PRTS => "prts"@,
        Opcode::IGL => "igl"@,
    }
}

/// The opcode that a mnemonic names; an unknown word names `IGL`.
pub open spec fn opcode_of_mnemonic(w: Seq<char>) -> Opcode {
    if w == "load"@ {
        Opcode::LOAD
    } else if w == "add"@ {
        Opcode::ADD
    } else if w == "sub"@ {
        Opcode::SUB
    } else if w == "mul"@ {
        Opcode::MUL
    } else if w == "div"@ {
        Opcode::DIV
    } else if w == "hlt"@ {
        Opcode::HLT
    } else if w == "jmp"@ {
        Opcode::JMP
    } else if w == "jmpf"@ {
        Opcode::JMPF
    } else if w == "jmpb"@ {
        Opcode::JMPB
    } else if w == "jeq"@ {
        Opcode::JEQ
    } else if w == "eq"@ {
        Opcode::EQ
    } else if w == "neq"@ {
        Opcode::NEQ
    } else if w == "gte"@ {
        Opcode::GTE
    } else if w == "gt"@ {
        Opcode::GT
    } else if w == "lte"@ {
        Opcode::LTE
    } else if w == "lt"@ {
        Opcode::LT
    } else if w == "nop"@ {
        Opcode::NOP
    } else if w == "aloc"@ {
        Opcode::ALOC
    } else if w == "inc"@ {
        Opcode::INC
    } else if w == "dec"@ {
        Opcode::DEC
    } else if w == "prts"@ {
        Opcode::PRTS
    } else {
        Opcode::IGL
    }
}

/// Every defined opcode survives both round trips: through its byte, and
/// through its mnemonic.
pub proof fn lemma_opcode_round_trip(o: Opcode)
    requires
        o != Opcode::IGL,
    ensures
        opcode_of_byte(opcode_code(o)) == o,
        opcode_of_mnemonic(opcode_mnemonic(o)) == o,
{
    reveal_strlit("load");
    reveal_strlit("add");
    reveal_strlit("sub");
    reveal_strlit("mul");
    reveal_strlit("div");
    reveal_strlit("hlt");
    reveal_strlit("jmp");
    reveal_strlit("jmpf");
    reveal_strlit("jmpb");
    reveal_strlit("jeq");
    reveal_strlit("eq");
    reveal_strlit("neq");
    reveal_strlit("gte");
    reveal_strlit("gt");
    reveal_strlit("lte");
    reveal_strlit("lt");
    reveal_strlit("nop");
    reveal_strlit("aloc");
    reveal_strlit("inc");
    reveal_strlit("dec");
    reveal_strlit("prts");
    reveal_strlit("igl");
    assert("load"@[0] != "jmpf"@[0]);
    assert("load"@[0] != "jmpb"@[0]);
    assert("load"@[0] != "aloc"@[0]);
    assert("load"@[0] != "prts"@[0]);
    assert("add"@[0] != "sub"@[0]);
    assert("add"@[0] != "mul"@[0]);
    assert("add"@[0] != "div"@[0]);
    assert("add"@[0] != "hlt"@[0]);
    assert("add"@[0] != "jmp"@[0]);
    assert("add"@[0] != "jeq"@[0]);
    assert("add"@[0] != "neq"@[0]);
    assert("add"@[0] != "gte"@[0]);
    assert("add"@[0] != "lte"@[0]);
    assert("add"@[0] != "nop"@[0]);
    assert("add"@[0] != "inc"@[0]);
    assert("add"@[0] != "dec"@[0]);
    assert("add"@[0] != "igl"@[0]);
    assert("sub"@[0] != "mul"@[0]);
    assert("sub"@[0] != "div"@[0]);
    assert("sub"@[0] != "hlt"@[0]);
    assert("sub"@[0] != "jmp"@[0]);
    assert("sub"@[0] != "jeq"@[0]);
    assert("sub"@[0] != "neq"@[0]);
    assert("sub"@[0] != "gte"@[0]);
    assert("sub"@[0] != "lte"@[0]);
    assert("sub"@[0] != "nop"@[0]);
    assert("sub"@[0] != "inc"@[0]);
    assert("sub"@[0] != "dec"@[0]);
    assert("sub"@[0] != "igl"@[0]);
    assert("mul"@[0] != "div"@[0]);
    assert("mul"@[0] != "hlt"@[0]);
    assert("mul"@[0] != "jmp"@[0]);
    assert("mul"@[0] != "jeq"@[0]);
    assert("mul"@[0] != "neq"@[0]);
    assert("mul"@[0] != "gte"@[0]);
    assert("mul"@[0] != "lte"@[0]);
    assert("mul"@[0] != "nop"@[0]);
    assert("mul"@[0] != "inc"@[0]);
    assert("mul"@[0] != "dec"@[0]);
    assert("mul"@[0] != "igl"@[0]);
    assert("div"@[0] != "hlt"@[0]);
    assert("div"@[0] != "jmp"@[0]);
    assert("div"@[0] != "jeq"@[0]);
    assert("div"@[0] != "neq"@[0]);
    assert("div"@[0] != "gte"@[0]);
    assert("div"@[0] != "lte"@[0]);
    assert("div"@[0] != "nop"@[0]);
    assert("div"@[0] != "inc"@[0]);
    assert("div"@[1] != "dec"@[1]);
    assert("div"@[0] != "igl"@[0]);
    assert("hlt"@[0] != "jmp"@[0]);
    assert("hlt"@[0] != "jeq"@[0]);
    assert("hlt"@[0] != "neq"@[0]);
    assert("hlt"@[0] != "gte"@[0]);
    assert("hlt"@[0] != "lte"@[0]);
    assert("hlt"@[0] != "nop"@[0]);
    assert("hlt"@[0] != "inc"@[0]);
    assert("hlt"@[0] != "dec"@[0]);
    assert("hlt"@[0] != "igl"@[0]);
    assert("jmp"@[1] != "jeq"@[1]);
    assert("jmp"@[0] != "neq"@[0]);
    assert("jmp"@[0] != "gte"@[0]);
    assert("jmp"@[0] != "lte"@[0]);
    assert("jmp"@[0] != "nop"@[0]);
    assert("jmp"@[0] != "inc"@[0]);
    assert("jmp"@[0] != "dec"@[0]);
    assert("jmp"@[0] != "igl"@[0]);
    assert("jmpf"@[3] != "jmpb"@[3]);
    assert("jmpf"@[0] != "aloc"@[0]);
    assert("jmpf"@[0] != "prts"@[0]);
    assert("jmpb"@[0] != "aloc"@[0]);
    assert("jmpb"@[0] != "prts"@[0]);
    assert("jeq"@[0] != "neq"@[0]);
    assert("jeq"@[0] != "gte"@[0]);
    assert("jeq"@[0] != "lte"@[0]);
    assert("jeq"@[0] != "nop"@[0]);
    assert("jeq"@[0] != "inc"@[0]);
    assert("jeq"@[0] != "dec"@[0]);
    assert("jeq"@[0] != "igl"@[0]);
    assert("eq"@[0] != "gt"@[0]);
    assert("eq"@[0] != "lt"@[0]);
    assert("neq"@[0] != "gte"@[0]);
    assert("neq"@[0] != "lte"@[0]);
    assert("neq"@[1] != "nop"@[1]);
    assert("neq"@[0] != "inc"@[0]);
    assert("neq"@[0] != "dec"@[0]);
    assert("neq"@[0] != "igl"@[0]);
    assert("gte"@[0] != "lte"@[0]);
    assert("gte"@[0] != "nop"@[0]);
    assert("gte"@[0] != "inc"@[0]);
    assert("gte"@[0] != "dec"@[0]);
    assert("gte"@[0] != "igl"@[0]);
    assert("gt"@[0] != "lt"@[0]);
    assert("lte"@[0] != "nop"@[0]);
    assert("lte"@[0] != "inc"@[0]);
    assert("lte"@[0] != "dec"@[0]);
    assert("lte"@[0] != "igl"@[0]);
    assert("nop"@[0] != "inc"@[0]);
    assert("nop"@[0] != "dec"@[0]);
    assert("nop"@[0] != "igl"@[0]);
    assert("aloc"@[0] != "prts"@[0]);
    assert("inc"@[0] != "dec"@[0]);
    assert("inc"@[1] != "igl"@[1]);
    assert("dec"@[0] != "igl"@[0]);
    assert("load"@.len() == 4);
    assert("add"@.len() == 3);
    assert("sub"@.len() == 3);
    assert("mul"@.len() == 3);
    assert("div"@.len() == 3);
    assert("hlt"@.len() == 3);
    assert("jmp"@.len() == 3);
    assert("jmpf"@.len() == 4);
    assert("jmpb"@.len() == 4);
    assert("jeq"@.len() == 3);
    assert("eq"@.len() == 2);
    assert("neq"@.len() == 3);
    assert("gte"@.len() == 3);
    assert("gt"@.len() == 2);
    assert("lte"@.len() == 3);
    assert("lt"@.len() == 2);
    assert("nop"@.len() == 3);
    assert("aloc"@.len() == 4);
    assert("inc"@.len() == 3);
    assert("dec"@.len() == 3);
    assert("prts"@.len() == 4);
    assert("igl"@.len() == 3);
}

impl Opcode {
    /// The byte written for this opcode in assembled code.
    pub fn code(self) -> (r: u8)
        ensures
            r == opcode_code(self),
    {
        match self {
            Opcode::LOAD => 0,
            Opcode::ADD => 1,
            Opcode::SUB => 2,
            Opcode::MUL => 3,
            Opcode::DIV => 4,
            Opcode::HLT => 5,
            Opcode::JMP => 6,
            Opcode::JMPF => 7,
            Opcode::JMPB => 8,
            Opcode::EQ => 9,
            Opcode::NEQ => 10,
            Opcode::GT => 11,
            Opcode::LT => 12,
            Opcode::GTE => 13,
            Opcode::LTE => 14,
            Opcode::JEQ => 15,
            Opcode::NOP => 16,
            Opcode::ALOC => 17,
            Opcode::INC => 18,
            Opcode::DEC => 19,
            Opcode::PRTS => 20,
            Opcode::IGL => 255,
        }
    }
}

impl From<u8> for Opcode {
    fn from(v: u8) -> (r: Self)
        ensures
            r == opcode_of_byte(v),
    {
        if v == 0 {
            Opcode::LOAD
        } else if v == 1 {
            Opcode::ADD
        } else if v == 2 {
            Opcode::SUB
        } else if v == 3 {
            Opcode::MUL
        } else if v == 4 {
            Opcode::DIV
        } else if v == 5 {
            Opcode::HLT
        } else if v == 6 {
            Opcode::JMP
        } else if v == 7 {
            Opcode::JMPF
        } else if v == 8 {
            Opcode::JMPB
        } else if v == 9 {
            Opcode::EQ
        } else if v == 10 {
            Opcode::NEQ
        } else if v == 11 {
            Opcode::GT
        } else if v == 12 {
            Opcode::LT
        } else if v == 13 {
            Opcode::GTE
        } else if v == 14 {
            Opcode::LTE
        } else if v == 15 {
            Opcode::JEQ
        } else if v == 16 {
            Opcode::NOP
        } else if v == 17 {
            Opcode::ALOC
        } else if v == 18 {
            Opcode::INC
        } else if v == 19 {
            Opcode::DEC
        } else if v == 20 {
            Opcode::PRTS
        } else {
            Opcode::IGL
        }
    }
}

impl vstd::std_specs::convert::FromSpecImpl<u8> for Opcode {
    open spec fn obeys_from_spec() -> bool {
        true
    }

    open spec fn from_spec(v: u8) -> Opcode {
        opcode_of_byte(v)
    }
}

/// The opcode named by the word `s[a..b]`.
pub fn opcode_from_word(s: &Vec<char>, a: usize, b: usize) -> (r: Opcode)
    requires
        a <= b <= s@.len(),
    ensures
        r == opcode_of_mnemonic(s@.subrange(a as int, b as int)),
{
        if word_is(s, a, b, "load") {
            Opcode::LOAD
        } else if word_is(s, a, b, "add") {
            Opcode::ADD
        } else if word_is(s, a, b, "sub") {
            Opcode::SUB
        } else if word_is(s, a, b, "mul") {
            Opcode::MUL
        } else if word_is(s, a, b, "div") {
            Opcode::DIV
        } else if word_is(s, a, b, "hlt") {
            Opcode::HLT
        } else if word_is(s, a, b, "jmp") {
            Opcode::JMP
        } else if word_is(s, a, b, "jmpf") {
            Opcode::JMPF
        } else if word_is(s, a, b, "jmpb") {
            Opcode::JMPB
        } else if word_is(s, a, b, "jeq") {
            Opcode::JEQ
        } else if word_is(s, a, b, "eq") {
            Opcode::EQ
        } else if word_is(s, a, b, "neq") {
            Opcode::NEQ
        } else if word_is(s, a, b, "gte") {
            Opcode::GTE
        } else if word_is(s, a, b, "gt") {
            Opcode::GT
        } else if word_is(s, a, b, "lte") {
            Opcode::LTE
        } else if word_is(s, a, b, "lt") {
            Opcode::LT
        } else if word_is(s, a, b, "nop") {
            Opcode::NOP
        } else if word_is(s, a, b, "aloc") {
            Opcode::ALOC
        } else if word_is(s, a, b, "inc") {
            Opcode::INC
        } else if word_is(s, a, b, "dec") {
            Opcode::DEC
        } else if word_is(s, a, b, "prts") {
            Opcode::PRTS
        } else {
            Opcode::IGL
        }
}

impl<'a> From<&'a str> for Opcode {
    fn from(v: &'a str) -> (r: Self)
        ensures
            r == opcode_of_mnemonic(v@),
    {
        let s = chars_of(v);
        proof {
            assert(s@.subrange(0, s@.len() as int) =~= v@);
        }
        opcode_from_word(&s, 0, s.len())
    }
}

impl<'a> vstd::std_specs::convert::FromSpecImpl<&'a str> for Opcode {
    open spec fn obeys_from_spec() -> bool {
        true
    }

    open spec fn from_spec(v: &'a str) -> Opcode {
        opcode_of_mnemonic(v@)
    }
}

/// A decoded instruction of the machine.
#[derive(Debug, PartialEq, Eq, Clone, Copy, Structural)]
pub struct Instruction {
    pub opcode: Opcode,
}

impl Instruction {
    pub fn new(opcode: Opcode) -> (r: Instruction)
        ensures
            r.opcode == opcode,
    {
        Instruction { opcode }
    }
}

} // verus!
