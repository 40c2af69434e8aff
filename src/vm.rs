use vstd::prelude::*;

use crate::container::{has_magic, verify_magic};
use crate::instruction::{opcode_of_byte, Opcode};

verus! {

/// How far the interpreter advances the counter after the header check:
/// the first byte it decodes is byte 65 of the container.
pub const CODE_ENTRY_SKIP: usize = 65;

/// Offset in the container at which the read-only data begins.
pub const RO_DATA_START: usize = 72;

/// The abstract state of the machine.
#[verifier::ext_equal]
pub struct VmState {
    pub registers: Seq<i32>,
    pub pc: usize,
    pub program: Seq<u8>,
    pub heap: Seq<u8>,
    pub remainder: u32,
    pub equal_flag: bool,
    pub output: Seq<u8>,
}

/// The byte of code at `i`; positions outside the program read as zero.
pub open spec fn byte_at(p: Seq<u8>, i: int) -> u8 {
    if 0 <= i < p.len() {
        p[i]
    } else {
        0
    }
}

/// The program counter after one byte has been read.
pub open spec fn adv(pc: usize) -> usize {
    pc.wrapping_add(1)
}

/// The bytes from `i` up to, not including, the first zero byte or the end.
pub open spec fn cstr_at(p: Seq<u8>, i: int) -> Seq<u8>
    decreases p.len() - i,
{
    if i < 0 || i >= p.len() || p[i] == 0 {
        Seq::empty()
    } else {
        seq![p[i]] + cstr_at(p, i + 1)
    }
}

impl VmState {
    /// The `k`-th byte read from the current program counter (k < 3).
    pub open spec fn operand(self, k: int) -> u8 {
        if k == 0 {
            byte_at(self.program, self.pc as int)
        } else if k == 1 {
            byte_at(self.program, adv(self.pc) as int)
        } else {
            byte_at(self.program, adv(adv(self.pc)) as int)
        }
    }

    /// The big-endian 16-bit value of the first two bytes read.
    pub open spec fn imm16(self) -> u16 {
        (self.operand(0) as int * 256 + self.operand(1) as int) as u16
    }

    /// The state after `n` bytes (n <= 3) have been read.
    pub open spec fn skip(self, n: int) -> VmState {
        if n <= 0 {
            self
        } else if n == 1 {
            VmState { pc: adv(self.pc), ..self }
        } else if n == 2 {
            VmState { pc: adv(adv(self.pc)), ..self }
        } else {
            VmState { pc: adv(adv(adv(self.pc))), ..self }
        }
    }

    pub open spec fn reg(self, r: u8) -> i32 {
        self.registers[r as int]
    }

    pub open spec fn with_reg(self, r: u8, v: i32) -> VmState {
        VmState { registers: self.registers.update(r as int, v), ..self }
    }
}

/// `LOAD r imm16`: the register takes the zero-extended immediate.
pub open spec fn step_load(t: VmState) -> (VmState, bool) {
    let r = t.operand(0);
    let u = VmState { pc: adv(adv(adv(t.pc))), ..t };
    if r < 32 {
        (u.with_reg(r, (t.operand(1) as int * 256 + t.operand(2) as int) as i32), true)
    } else {
        (u, false)
    }
}

/// The quotient of a division by a non-zero divisor, wrapping on overflow.
pub open spec fn div_quotient(x: i32, y: i32) -> i32 {
    match x.checked_div(y) {
        Some(q) => q,
        None => x,
    }
}

/// The remainder of a division by a non-zero divisor, as stored by `DIV`.
pub open spec fn div_remainder(x: i32, y: i32) -> u32 {
    match x.checked_rem(y) {
        Some(m) => m as u32,
        None => 0,
    }
}

/// `ADD`, `SUB`, `MUL`, `DIV r1 r2 r3`: `r3` takes `r1 op r2`, wrapping on
/// overflow; `DIV` also keeps the remainder, and division by zero stops the
/// machine.
pub open spec fn step_arith(op: Opcode, t: VmState) -> (VmState, bool) {
    let (r1, r2, r3) = (t.operand(0), t.operand(1), t.operand(2));
    let u = t.skip(3);
    if r1 < 32 && r2 < 32 && r3 < 32 {
        let (x, y) = (t.reg(r1), t.reg(r2));
        match op {
            Opcode::ADD => (u.with_reg(r3, x.wrapping_add(y)), true),
            Opcode::SUB => (u.with_reg(r3, x.wrapping_sub(y)), true),
            Opcode::MUL => (u.with_reg(r3, x.wrapping_mul(y)), true),
            _ => if y == 0 {
                (u, false)
            } else {
                (
                    VmState { remainder: div_remainder(x, y), ..u.with_reg(r3, div_quotient(x, y)) },
                    true,
                )
            },
        }
    } else {
        (u, false)
    }
}

/// The outcome of comparing two register values.
pub open spec fn compare(op: Opcode, x: i32, y: i32) -> bool {
    match op {
        Opcode::EQ => x == y,
        Opcode::NEQ => x != y,
        Opcode::GT => x > y,
        Opcode::LT => x < y,
        Opcode::GTE => x >= y,
        _ => x <= y,
    }
}

/// `EQ`, `NEQ`, `GT`, `LT`, `GTE`, `LTE r1 r2 _`: the flag takes the comparison.
pub open spec fn step_compare(op: Opcode, t: VmState) -> (VmState, bool) {
    let (r1, r2) = (t.operand(0), t.operand(1));
    let u = t.skip(3);
    if r1 < 32 && r2 < 32 {
        (VmState { equal_flag: compare(op, t.reg(r1), t.reg(r2)), ..u }, true)
    } else {
        (u, false)
    }
}

/// `JMP`, `JMPF`, `JMPB`, `JEQ r`: one operand byte, then the jump.
pub open spec fn step_jump(op: Opcode, t: VmState) -> (VmState, bool) {
    let r = t.operand(0);
    let u = t.skip(1);
    if r < 32 {
        let v = t.reg(r) as usize;
        match op {
            Opcode::JMP => (VmState { pc: v, ..u }, true),
            Opcode::JMPF => (VmState { pc: u.pc.wrapping_add(v), ..u }, true),
            Opcode::JMPB => (VmState { pc: u.pc.wrapping_sub(v), ..u }, true),
            _ => if t.equal_flag {
                (VmState { pc: v, ..u }, true)
            } else {
                (u, true)
            },
        }
    } else {
        (u, false)
    }
}

/// `ALOC r _ _`: the heap grows by the register's value in zero bytes; a
/// negative size stops the machine.
pub open spec fn step_aloc(t: VmState) -> (VmState, bool) {
    let r = t.operand(0);
    let u = t.skip(3);
    if r < 32 && t.reg(r) >= 0 && t.heap.len() + t.reg(r) <= usize::MAX {
        (VmState { heap: t.heap + Seq::new(t.reg(r) as nat, |i: int| 0u8), ..u }, true)
    } else {
        (u, false)
    }
}

/// `INC r _ _` and `DEC r _ _`.
pub open spec fn step_incdec(op: Opcode, t: VmState) -> (VmState, bool) {
    let r = t.operand(0);
    let u = t.skip(3);
    if r < 32 {
        if op == Opcode::INC {
            (u.with_reg(r, t.reg(r).wrapping_add(1)), true)
        } else {
            (u.with_reg(r, t.reg(r).wrapping_sub(1)), true)
        }
    } else {
        (u, false)
    }
}

/// `PRTS imm16 _`: the string at that offset of the read-only data is output.
pub open spec fn step_prts(t: VmState) -> (VmState, bool) {
    let u = t.skip(3);
    let start = RO_DATA_START as int + t.imm16() as int;
    (VmState { output: t.output + cstr_at(t.program, start), ..u }, true)
}

/// One fetch-decode-execute cycle: the next state, and whether to go on.
/// Every instruction reads its operand bytes first (zero past the end of
/// the program); a register number of 32 or more stops the machine.
pub open spec fn step(s: VmState) -> (VmState, bool) {
    if s.pc >= s.program.len() {
        (s, false)
    } else {
        let op = opcode_of_byte(s.program[s.pc as int]);
        let t = s.skip(1);
        match op {
            Opcode::LOAD => step_load(t),
            Opcode::ADD | Opcode::SUB | Opcode::MUL | Opcode::DIV => step_arith(op, t),
            Opcode::JMP | Opcode::JMPF | Opcode::JMPB | Opcode::JEQ => step_jump(op, t),
            Opcode::EQ | Opcode::NEQ | Opcode::GT | Opcode::LT | Opcode::GTE | Opcode::LTE => {
                step_compare(op, t)
            },
            Opcode::NOP => (t.skip(3), true),
            Opcode::ALOC => step_aloc(t),
            Opcode::INC | Opcode::DEC => step_incdec(op, t),
            Opcode::PRTS => step_prts(t),
            Opcode::HLT | Opcode::IGL => (t, false),
        }
    }
}

/// The state after at most `n` cycles, stopping at the first that halts.
pub open spec fn run_steps(s: VmState, n: nat) -> VmState
    decreases n,
{
    if n == 0 {
        s
    } else {
        let (t, go_on) = step(s);
        if go_on {
            run_steps(t, (n - 1) as nat)
        } else {
            t
        }
    }
}

/// The register machine: 32 registers, the program counter, the loaded
/// container, a grow-only heap, the last division remainder, the comparison
/// flag, and the bytes that `PRTS` has printed so far.
pub struct VM {
    pub registers: [i32; 32],
    pub pc: usize,
    pub program: Vec<u8>,
    pub heap: Vec<u8>,
    pub remainder: u32,
    pub equal_flag: bool,
    pub output: Vec<u8>,
}

impl View for VM {
    type V = VmState;

    open spec fn view(&self) -> VmState {
        VmState {
            registers: self.registers@,
            pc: self.pc,
            program: self.program@,
            heap: self.heap@,
            remainder: self.remainder,
            equal_flag: self.equal_flag,
            output: self.output@,
        }
    }
}

impl VM {
    pub fn new() -> (r: VM)
        ensures
            forall|i: int| 0 <= i < 32 ==> r.registers@[i] == 0,
            r.pc == 0,
            r.program@ == Seq::<u8>::empty(),
            r.heap@ == Seq::<u8>::empty(),
            r.remainder == 0,
            !r.equal_flag,
            r.output@ == Seq::<u8>::empty(),
    {
        VM {
            registers: [0i32; 32],
            pc: 0,
            program: Vec::new(),
            heap: Vec::new(),
            remainder: 0,
            equal_flag: false,
            output: Vec::new(),
        }
    }

    /// Appends one byte to the loaded program.
    pub fn add_byte(&mut self, byte: u8)
        ensures
            final(self)@ == (VmState { program: old(self)@.program.push(byte), ..old(self)@ }),
    {
        self.program.push(byte);
    }

    /// Appends bytes to the loaded program, in order.
    pub fn add_bytes(&mut self, bytes: Vec<u8>)
        ensures
            final(self)@ == (VmState { program: old(self)@.program + bytes@, ..old(self)@ }),
    {
        let mut i: usize = 0;
        while i < bytes.len()
            invariant
                i <= bytes@.len(),
                self@ == (VmState {
                    program: old(self)@.program + bytes@.subrange(0, i as int),
                    ..old(self)@
                }),
            decreases bytes@.len() - i,
        {
            self.add_byte(bytes[i]);
            proof {
                assert(old(self)@.program + bytes@.subrange(0, i + 1) =~= old(self)@.program
                    + bytes@.subrange(0, i as int) + seq![bytes@[i as int]]);
            }
            i = i + 1;
        }
        proof {
            assert(bytes@.subrange(0, bytes@.len() as int) =~= bytes@);
        }
    }

    /// Whether the loaded program starts with the container's magic bytes.
    pub fn verify_header(&self) -> (r: bool)
        ensures
            r == has_magic(self.program@),
    {
        verify_magic(&self.program)
    }

    /// Reads one byte of code (zero past the end) and advances the counter.
    fn next_8_bits(&mut self) -> (r: u8)
        ensures
            r == old(self)@.operand(0),
            final(self)@ == old(self)@.skip(1),
    {
        let r = if self.pc < self.program.len() {
            self.program[self.pc]
        } else {
            0
        };
        self.pc = self.pc.wrapping_add(1);
        r
    }

    /// Reads two bytes of code as a big-endian value.
    fn next_16_bits(&mut self) -> (r: u16)
        ensures
            r == old(self)@.imm16(),
            final(self)@ == old(self)@.skip(2),
    {
        let hi = self.next_8_bits();
        let lo = self.next_8_bits();
        (hi as u16) * 256 + (lo as u16)
    }

    /// Reads three operand bytes.
    fn next_operands(&mut self) -> (r: (u8, u8, u8))
        ensures
            r == (old(self)@.operand(0), old(self)@.operand(1), old(self)@.operand(2)),
            final(self)@ == old(self)@.skip(3),
    {
        let a = self.next_8_bits();
        let b = self.next_8_bits();
        let c = self.next_8_bits();
        (a, b, c)
    }

    fn decode_opcode(&mut self) -> (r: Opcode)
        requires
            old(self).pc < old(self).program@.len(),
        ensures
            r == opcode_of_byte(old(self).program@[old(self).pc as int]),
            final(self)@ == old(self)@.skip(1),
    {
        let b = self.next_8_bits();
        Opcode::from(b)
    }

    fn exec_load(&mut self) -> (r: bool)
        ensures
            (final(self)@, r) == step_load(old(self)@),
    {
        let (reg, hi, lo) = self.next_operands();
        if reg < 32 {
            let v = (hi as i32) * 256 + (lo as i32);
            self.registers[reg as usize] = v;
            true
        } else {
            false
        }
    }

    fn exec_arith(&mut self, op: Opcode) -> (r: bool)
        requires
            op == Opcode::ADD || op == Opcode::SUB || op == Opcode::MUL || op == Opcode::DIV,
        ensures
            (final(self)@, r) == step_arith(op, old(self)@),
    {
        let (r1, r2, r3) = self.next_operands();
        if r1 < 32 && r2 < 32 && r3 < 32 {
            let x = self.registers[r1 as usize];
            let y = self.registers[r2 as usize];
            match op {
                Opcode::ADD => {
                    self.registers[r3 as usize] = x.wrapping_add(y);
                },
                Opcode::SUB => {
                    self.registers[r3 as usize] = x.wrapping_sub(y);
                },
                Opcode::MUL => {
                    self.registers[r3 as usize] = x.wrapping_mul(y);
                },
                _ => {
                    if y == 0 {
                        return false;
                    }
                    self.registers[r3 as usize] = x.checked_div(y).unwrap_or(x);
                    self.remainder = match x.checked_rem(y) {
                        Some(m) => m as u32,
                        None => 0,
                    };
                },
            }
            true
        } else {
            false
        }
    }

    fn exec_compare(&mut self, op: Opcode) -> (r: bool)
        requires
            op == Opcode::EQ || op == Opcode::NEQ || op == Opcode::GT || op == Opcode::LT
                || op == Opcode::GTE || op == Opcode::LTE,
        ensures
            (final(self)@, r) == step_compare(op, old(self)@),
    {
        let (r1, r2, _) = self.next_operands();
        if r1 < 32 && r2 < 32 {
            let x = self.registers[r1 as usize];
            let y = self.registers[r2 as usize];
            self.equal_flag = match op {
                Opcode::EQ => x == y,
                Opcode::NEQ => x != y,
                Opcode::GT => x > y,
                Opcode::LT => x < y,
                Opcode::GTE => x >= y,
                _ => x <= y,
            };
            true
        } else {
            false
        }
    }

    fn exec_jump(&mut self, op: Opcode) -> (r: bool)
        requires
            op == Opcode::JMP || op == Opcode::JMPF || op == Opcode::JMPB || op == Opcode::JEQ,
        ensures
            (final(self)@, r) == step_jump(op, old(self)@),
    {
        let reg = self.next_8_bits();
        if reg < 32 {
            let v = self.registers[reg as usize] as usize;
            match op {
                Opcode::JMP => {
                    self.pc = v;
                },
                Opcode::JMPF => {
                    self.pc = self.pc.wrapping_add(v);
                },
                Opcode::JMPB => {
                    self.pc = self.pc.wrapping_sub(v);
                },
                _ => {
                    if self.equal_flag {
                        self.pc = v;
                    }
                },
            }
            true
        } else {
            false
        }
    }

    fn exec_aloc(&mut self) -> (r: bool)
        ensures
            (final(self)@, r) == step_aloc(old(self)@),
    {
        let ghost t = self@;
        let (reg, _, _) = self.next_operands();
        if reg >= 32 {
            return false;
        }
        let n = self.registers[reg as usize];
        if n < 0 {
            return false;
        }
        match self.heap.len().checked_add(n as usize) {
            Some(new_len) => {
                self.heap.resize(new_len, 0u8);
                proof {
                    assert(self.heap@ =~= t.heap + Seq::new(n as nat, |i: int| 0u8));
                }
                true
            },
            None => false,
        }
    }

    fn exec_incdec(&mut self, op: Opcode) -> (r: bool)
        requires
            op == Opcode::INC || op == Opcode::DEC,
        ensures
            (final(self)@, r) == step_incdec(op, old(self)@),
    {
        let (reg, _, _) = self.next_operands();
        if reg < 32 {
            let x = self.registers[reg as usize];
            if op == Opcode::INC {
                self.registers[reg as usize] = x.wrapping_add(1);
            } else {
                self.registers[reg as usize] = x.wrapping_sub(1);
            }
            true
        } else {
            false
        }
    }

    fn exec_prts(&mut self) -> (r: bool)
        ensures
            (final(self)@, r) == step_prts(old(self)@),
    {
        let ghost t = self@;
        let offset = self.next_16_bits();
        self.next_8_bits();
        let start = RO_DATA_START + offset as usize;
        let mut i = start;
        while i < self.program.len() && self.program[i] != 0
            invariant
                start <= i,
                self.program@ == t.program,
                self@ == (VmState { output: self@.output, ..t.skip(3) }),
                self.output@ + cstr_at(t.program, i as int) == t.output + cstr_at(
                    t.program,
                    start as int,
                ),
            decreases self.program@.len() - i,
        {
            let b = self.program[i];
            let ghost prev = self.output@;
            self.output.push(b);
            proof {
                assert(cstr_at(t.program, i as int) == seq![b] + cstr_at(t.program, i + 1));
                assert(self.output@ + cstr_at(t.program, i + 1) =~= prev + (seq![b] + cstr_at(
                    t.program,
                    i + 1,
                )));
            }
            i = i + 1;
        }
        proof {
            assert(cstr_at(t.program, i as int) =~= Seq::<u8>::empty());
            assert(self.output@ + Seq::<u8>::empty() =~= self.output@);
            assert(self@ =~= (VmState { output: t.output + cstr_at(t.program, start as int), ..t.skip(3) }));
        }
        true
    }

    /// Executes one instruction; returns whether the machine may go on.
    fn execute_instruction(&mut self) -> (r: bool)
        ensures
            (final(self)@, r) == step(old(self)@),
    {
        if self.pc >= self.program.len() {
            return false;
        }
        let op = self.decode_opcode();
        match op {
            Opcode::LOAD => self.exec_load(),
            Opcode::ADD | Opcode::SUB | Opcode::MUL | Opcode::DIV => self.exec_arith(op),
            Opcode::JMP | Opcode::JMPF | Opcode::JMPB | Opcode::JEQ => self.exec_jump(op),
            Opcode::EQ | Opcode::NEQ | Opcode::GT | Opcode::LT | Opcode::GTE | Opcode::LTE => {
                self.exec_compare(op)
            },
            Opcode::NOP => {
                self.next_operands();
                true
            },
            Opcode::ALOC => self.exec_aloc(),
            Opcode::INC | Opcode::DEC => self.exec_incdec(op),
            Opcode::PRTS => self.exec_prts(),
            Opcode::HLT | Opcode::IGL => false,
        }
    }

    /// Executes one instruction, for stepping through a program.
    pub fn run_once(&mut self)
        ensures
            final(self)@ == step(old(self)@).0,
    {
        self.execute_instruction();
    }

    /// Checks the header, then executes instructions until one halts the
    /// machine or the program ends (at most `u64::MAX` of them). Returns
    /// whether the header was valid; if not, nothing is executed.
    pub fn run(&mut self) -> (ok: bool)
        ensures
            ok == has_magic(old(self).program@),
            ok ==> final(self)@ == run_steps(
                VmState { pc: old(self).pc.wrapping_add(CODE_ENTRY_SKIP), ..old(self)@ },
                u64::MAX as nat,
            ),
            !ok ==> final(self)@ == old(self)@,
    {
        if !self.verify_header() {
            return false;
        }
        self.pc = self.pc.wrapping_add(CODE_ENTRY_SKIP);
        let ghost start = self@;
        let mut budget: u64 = u64::MAX;
        loop
            invariant_except_break
                run_steps(start, u64::MAX as nat) == run_steps(self@, budget as nat),
            ensures
                run_steps(start, u64::MAX as nat) == self@,
            decreases budget,
        {
            if budget == 0 {
                break;
            }
            let go_on = self.execute_instruction();
            if !go_on {
                break;
            }
            budget = budget - 1;
        }
        true
    }
}

proof fn lemma_adv(pc: usize)
    requires
        pc < usize::MAX,
    ensures
        adv(pc) == pc + 1,
{
}

/// The three bytes after the opcode at `s.pc`, read with the counter past it.
proof fn lemma_operands_in_range(s: VmState)
    requires
        s.pc + 4 <= s.program.len() <= usize::MAX,
    ensures
        s.skip(1).pc == s.pc + 1,
        s.skip(1).operand(0) == s.program[s.pc + 1],
        s.skip(1).operand(1) == s.program[s.pc + 2],
        s.skip(1).operand(2) == s.program[s.pc + 3],
        s.skip(1).skip(1).pc == s.pc + 2,
        s.skip(1).skip(3).pc == s.pc + 4,
{
    lemma_adv(s.pc);
    lemma_adv((s.pc + 1) as usize);
    lemma_adv((s.pc + 2) as usize);
    lemma_adv((s.pc + 3) as usize);
}

/// After `LOAD r imm`, register `r` holds `imm`.
pub proof fn lemma_load_sets_register(s: VmState, r: u8, imm: u16)
    requires
        s.registers.len() == 32,
        s.program.len() <= usize::MAX,
        r < 32,
        s.pc + 4 <= s.program.len(),
        s.program[s.pc as int] == 0,
        s.program[s.pc + 1] == r,
        s.program[s.pc + 2] == imm / 256,
        s.program[s.pc + 3] == imm % 256,
    ensures
        step(s).1,
        step(s).0.registers[r as int] == imm,
        step(s).0.pc == s.pc + 4,
{
    lemma_operands_in_range(s);
    assert(opcode_of_byte(s.program[s.pc as int]) == Opcode::LOAD);
}

/// `INC r` followed by `DEC r` leaves every register as it was.
pub proof fn lemma_inc_then_dec(s: VmState, r: u8)
    requires
        s.registers.len() == 32,
        s.program.len() <= usize::MAX,
        r < 32,
        s.pc + 8 <= s.program.len(),
        s.program[s.pc as int] == 18,
        s.program[s.pc + 1] == r,
        s.program[s.pc + 4] == 19,
        s.program[s.pc + 5] == r,
    ensures
        step(s).1,
        step(step(s).0).1,
        step(step(s).0).0.registers == s.registers,
{
    lemma_operands_in_range(s);
    assert(opcode_of_byte(s.program[s.pc as int]) == Opcode::INC);
    let s1 = step(s).0;
    assert(s1.pc == s.pc + 4);
    assert(s1.program == s.program);
    lemma_operands_in_range(s1);
    assert(opcode_of_byte(s1.program[s1.pc as int]) == Opcode::DEC);
    assert(s1.registers[r as int] == s.registers[r as int].wrapping_add(1));
    assert(step(s1).0.registers =~= s.registers);
}

/// `EQ r r _` always sets the flag, and `NEQ r r _` always clears it.
pub proof fn lemma_compare_register_with_itself(s: VmState, r: u8)
    requires
        s.registers.len() == 32,
        s.program.len() <= usize::MAX,
        r < 32,
        s.pc + 4 <= s.program.len(),
        s.program[s.pc as int] == 9 || s.program[s.pc as int] == 10,
        s.program[s.pc + 1] == r,
        s.program[s.pc + 2] == r,
    ensures
        step(s).1,
        step(s).0.equal_flag == (s.program[s.pc as int] == 9),
{
    lemma_operands_in_range(s);
}

/// `JMPF` by `k` followed by `JMPB` by `k` lands just past the two
/// instructions' opcode and register bytes: four bytes past the start.
pub proof fn lemma_jump_forward_then_back(s: VmState, r1: u8, r2: u8)
    requires
        s.registers.len() == 32,
        s.program.len() <= usize::MAX,
        r1 < 32,
        r2 < 32,
        s.registers[r1 as int] == s.registers[r2 as int],
        s.pc + 4 <= s.program.len(),
        s.program[s.pc as int] == 7,
        s.program[s.pc + 1] == r1,
        step(s).0.pc + 2 <= s.program.len(),
        s.program[step(s).0.pc as int] == 8,
        s.program[step(s).0.pc + 1] == r2,
    ensures
        step(s).1,
        step(step(s).0).1,
        step(step(s).0).0.pc == s.pc + 4,
{
    lemma_adv(s.pc);
    lemma_adv((s.pc + 1) as usize);
    assert(opcode_of_byte(s.program[s.pc as int]) == Opcode::JMPF);
    assert(s.skip(1).operand(0) == r1);
    let s1 = step(s).0;
    assert(s1.program == s.program && s1.registers == s.registers);
    lemma_adv(s1.pc);
    lemma_adv((s1.pc + 1) as usize);
    assert(opcode_of_byte(s1.program[s1.pc as int]) == Opcode::JMPB);
    assert(s1.skip(1).operand(0) == r2);
    let v = s.registers[r1 as int] as usize;
    let a = (s.pc + 2) as usize;
    assert(s1.pc == a.wrapping_add(v));
    assert(step(s1).0.pc == ((s1.pc + 2) as usize).wrapping_sub(v));
    if a + v > usize::MAX {
        assert(s1.pc == a + v - (usize::MAX + 1));
        assert(((s1.pc + 2) as usize).wrapping_sub(v) == s.pc + 4);
    } else {
        assert(s1.pc == a + v);
        assert(((s1.pc + 2) as usize).wrapping_sub(v) == s.pc + 4);
    }
}

} // verus!
