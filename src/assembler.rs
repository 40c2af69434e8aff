use vstd::prelude::*;
use vstd::slice::slice_to_vec;
use vstd::string::*;

use crate::container::{header_bytes, le_bytes, le_i32, write_pie_header};
use crate::instruction::opcode_code;
use crate::lexer::{Token, TokenView};
use crate::parser::{
    instr_views, opt_view, program, program_spec, AssemblerInstruction, InstrView, Program,
};
use crate::symbols::{
    symbol_lookup, symbol_table_with_offset, Symbol, SymbolTable, SymbolType, SymbolView,
};
use crate::text::str_eq;
use vstd::utf8::encode_utf8;

verus! {

broadcast use vstd::string::group_string_axioms;

/// Which pass the assembler is in.
#[derive(Debug, PartialEq, Eq, Clone, Copy, Structural)]
pub enum AssemblerPhase {
    First,
    Second,
}

/// The sections a source can declare.
#[derive(Debug, PartialEq, Eq, Clone, Copy, Structural)]
pub enum AssemblerSection {
    Code,
    Data,
    Unknown,
}

/// What can go wrong while assembling.
#[derive(Debug, PartialEq, Clone)]
pub enum AssemblerError {
    NoSegmentDeclarationFound { instruction: u32 },
    StringConstantDeclaredWithoutLabel { instruction: u32 },
    SymbolAlreadyDeclared,
    UnknownDirectiveFound { directive: String },
    NonOpcodeInOpcodeField,
    InsufficientSections,
    ParseError { error: String },
    /// A label is used in an operand but declared nowhere.
    SymbolNotFound { name: String },
    /// An operand slot holds a token that has no encoding.
    InvalidOperand,
}

pub enum ErrorView {
    NoSegmentDeclarationFound { instruction: u32 },
    StringConstantDeclaredWithoutLabel { instruction: u32 },
    SymbolAlreadyDeclared,
    UnknownDirectiveFound { directive: Seq<char> },
    NonOpcodeInOpcodeField,
    InsufficientSections,
    ParseError { error: Seq<char> },
    SymbolNotFound { name: Seq<char> },
    InvalidOperand,
}

impl View for AssemblerError {
    type V = ErrorView;

    open spec fn view(&self) -> ErrorView {
        match self {
            AssemblerError::NoSegmentDeclarationFound {
                instruction,
            } => ErrorView::NoSegmentDeclarationFound { instruction: *instruction },
            AssemblerError::StringConstantDeclaredWithoutLabel {
                instruction,
            } => ErrorView::StringConstantDeclaredWithoutLabel { instruction: *instruction },
            AssemblerError::SymbolAlreadyDeclared => ErrorView::SymbolAlreadyDeclared,
            AssemblerError::UnknownDirectiveFound {
                directive,
            } => ErrorView::UnknownDirectiveFound { directive: directive@ },
            AssemblerError::NonOpcodeInOpcodeField => ErrorView::NonOpcodeInOpcodeField,
            AssemblerError::InsufficientSections => ErrorView::InsufficientSections,
            AssemblerError::ParseError { error } => ErrorView::ParseError { error: error@ },
            AssemblerError::SymbolNotFound { name } => ErrorView::SymbolNotFound { name: name@ },
            AssemblerError::InvalidOperand => ErrorView::InvalidOperand,
        }
    }
}

pub open spec fn errors_view(v: Seq<AssemblerError>) -> Seq<ErrorView> {
    v.map_values(|e: AssemblerError| e@)
}

/// The two-pass assembler and the state it keeps between passes.
pub struct Assembler {
    pub phase: AssemblerPhase,
    pub symbols: SymbolTable,
    /// The read-only data that directives produce.
    pub ro: Vec<u8>,
    pub bytecode: Vec<u8>,
    /// The sections declared so far, in order.
    pub sections: Vec<AssemblerSection>,
    /// The section the source is in.
    pub current_section: Option<AssemblerSection>,
    /// How many instructions the current pass has gone through.
    pub current_instruction: u32,
    /// The errors found so far.
    pub errors: Vec<AssemblerError>,
}

pub struct AsmView {
    pub phase: AssemblerPhase,
    pub symbols: Seq<SymbolView>,
    pub ro: Seq<u8>,
    pub bytecode: Seq<u8>,
    pub sections: Seq<AssemblerSection>,
    pub current_section: Option<AssemblerSection>,
    pub current_instruction: u32,
    pub errors: Seq<ErrorView>,
}

impl View for Assembler {
    type V = AsmView;

    open spec fn view(&self) -> AsmView {
        AsmView {
            phase: self.phase,
            symbols: self.symbols@,
            ro: self.ro@,
            bytecode: self.bytecode@,
            sections: self.sections@,
            current_section: self.current_section,
            current_instruction: self.current_instruction,
            errors: errors_view(self.errors@),
        }
    }
}

pub open spec fn section_of(name: Seq<char>) -> AssemblerSection {
    if name == "code"@ {
        AssemblerSection::Code
    } else if name == "data"@ {
        AssemblerSection::Data
    } else {
        AssemblerSection::Unknown
    }
}

pub open spec fn label_of(ins: InstrView) -> Option<Seq<char>> {
    match ins.label {
        Some(TokenView::LabelDeclaration { name }) => Some(name),
        _ => None,
    }
}

pub open spec fn has_operands(ins: InstrView) -> bool {
    ins.operand1 is Some || ins.operand2 is Some || ins.operand3 is Some
}

pub open spec fn with_error(st: AsmView, e: ErrorView) -> AsmView {
    AsmView { errors: st.errors.push(e), ..st }
}

/// Where a label is first placed: past the header, four bytes per
/// instruction before it.
pub open spec fn label_offset(ci: u32) -> u32 {
    ci.wrapping_mul(4).wrapping_add(60)
}

/// Pass one on an instruction's label.
pub open spec fn label_step(st: AsmView, ins: InstrView) -> AsmView {
    if ins.label is None {
        st
    } else if st.current_section is None {
        with_error(st, ErrorView::NoSegmentDeclarationFound { instruction: st.current_instruction })
    } else {
        match label_of(ins) {
            None => with_error(
                st,
                ErrorView::StringConstantDeclaredWithoutLabel { instruction: st.current_instruction },
            ),
            Some(name) => if symbol_lookup(st.symbols, name) is Some {
                with_error(st, ErrorView::SymbolAlreadyDeclared)
            } else {
                AsmView {
                    symbols: st.symbols.push((name, label_offset(st.current_instruction))),
                    ..st
                }
            },
        }
    }
}

/// A data directive: in pass one its label moves to the current end of the
/// read-only data, and `bytes` are appended there.
pub open spec fn data_step(st: AsmView, ins: InstrView, bytes: Seq<u8>) -> AsmView {
    if st.phase != AssemblerPhase::First {
        st
    } else {
        match label_of(ins) {
            Some(name) => AsmView {
                symbols: symbol_table_with_offset(st.symbols, name, st.ro.len() as u32),
                ro: st.ro + bytes,
                ..st
            },
            None => with_error(
                st,
                ErrorView::StringConstantDeclaredWithoutLabel { instruction: st.current_instruction },
            ),
        }
    }
}

/// `.asciiz 'text'`: the UTF-8 bytes of the text and a zero byte.
pub open spec fn asciiz_step(st: AsmView, ins: InstrView) -> AsmView {
    match ins.operand1 {
        Some(TokenView::IrString { name }) => data_step(st, ins, encode_utf8(name) + seq![0u8]),
        _ => st,
    }
}

/// `.integer #n`: the four little-endian bytes of `n`.
pub open spec fn integer_step(st: AsmView, ins: InstrView) -> AsmView {
    match ins.operand1 {
        Some(TokenView::IntegerOperand { value }) => data_step(st, ins, le_bytes(value as u32)),
        _ => st,
    }
}

/// A directive without operands names a section; unknown names are ignored.
pub open spec fn section_step(st: AsmView, name: Seq<char>) -> AsmView {
    let sec = section_of(name);
    if sec == AssemblerSection::Unknown {
        st
    } else {
        AsmView { sections: st.sections.push(sec), current_section: Some(sec), ..st }
    }
}

/// Pass one on an instruction's directive.
pub open spec fn directive_step(st: AsmView, ins: InstrView) -> AsmView {
    match ins.directive {
        Some(TokenView::Directive { name }) => if has_operands(ins) {
            if name == "asciiz"@ {
                asciiz_step(st, ins)
            } else if name == "integer"@ {
                integer_step(st, ins)
            } else {
                with_error(st, ErrorView::UnknownDirectiveFound { directive: name })
            }
        } else {
            section_step(st, name)
        },
        _ => st,
    }
}

/// Pass one on one instruction.
pub open spec fn first_pass_step(st: AsmView, ins: InstrView) -> AsmView {
    let st2 = if ins.directive is Some {
        directive_step(label_step(st, ins), ins)
    } else {
        label_step(st, ins)
    };
    AsmView { current_instruction: st.current_instruction.wrapping_add(1), ..st2 }
}

/// Pass one on the first `n` instructions of `v`.
pub open spec fn first_pass(st: AsmView, v: Seq<InstrView>, n: int) -> AsmView
    decreases n,
{
    if n <= 0 {
        st
    } else {
        first_pass_step(first_pass(st, v, n - 1), v[n - 1])
    }
}

/// Two bytes, high first, of the low 16 bits of `x`.
pub open spec fn be16(x: int) -> Seq<u8> {
    seq![((x / 256) % 256) as u8, (x % 256) as u8]
}

/// The bytes of one operand.
pub open spec fn encode_operand(t: TokenView, syms: Seq<SymbolView>) -> Result<Seq<u8>, ErrorView> {
    match t {
        TokenView::Register { reg_num } => Ok(seq![reg_num]),
        TokenView::IntegerOperand { value } => Ok(be16((value as u16) as int)),
        TokenView::LabelUsage { name } => match symbol_lookup(syms, name) {
            Some(v) => Ok(be16(v as int)),
            None => Err(ErrorView::SymbolNotFound { name }),
        },
        _ => Err(ErrorView::InvalidOperand),
    }
}

/// `acc` followed by the bytes of an optional operand.
pub open spec fn append_operand(
    acc: Result<Seq<u8>, ErrorView>,
    o: Option<TokenView>,
    syms: Seq<SymbolView>,
) -> Result<Seq<u8>, ErrorView> {
    match acc {
        Ok(b) => match o {
            Some(t) => match encode_operand(t, syms) {
                Ok(c) => Ok(b + c),
                Err(e) => Err(e),
            },
            None => Ok(b),
        },
        Err(e) => Err(e),
    }
}

/// The bytes of one instruction: its opcode, then its operands.
pub open spec fn encode_instruction(ins: InstrView, syms: Seq<SymbolView>) -> Result<
    Seq<u8>,
    ErrorView,
> {
    match ins.opcode {
        Some(TokenView::Op { code }) => append_operand(
            append_operand(
                append_operand(Ok(seq![opcode_code(code)]), ins.operand1, syms),
                ins.operand2,
                syms,
            ),
            ins.operand3,
            syms,
        ),
        _ => Err(ErrorView::NonOpcodeInOpcodeField),
    }
}

/// The bytes of the first `n` instructions, stopping at the first error;
/// with `opcodes_only`, instructions without an opcode are passed over.
pub open spec fn encode_upto(
    v: Seq<InstrView>,
    syms: Seq<SymbolView>,
    n: int,
    opcodes_only: bool,
) -> Result<Seq<u8>, ErrorView>
    decreases n,
{
    if n <= 0 {
        Ok(Seq::empty())
    } else {
        match encode_upto(v, syms, n - 1, opcodes_only) {
            Ok(b) => if opcodes_only && v[n - 1].opcode is None {
                Ok(b)
            } else {
                match encode_instruction(v[n - 1], syms) {
                    Ok(c) => Ok(b + c),
                    Err(e) => Err(e),
                }
            },
            Err(e) => Err(e),
        }
    }
}

/// Exactly two sections, and not the same one twice.
pub open spec fn sections_ok(secs: Seq<AssemblerSection>) -> bool {
    secs.len() == 2 && secs[0] != secs[1]
}

pub open spec fn parse_error_message() -> Seq<char> {
    "expected an instruction at the start of the input"@
}

/// The state after assembling `s` from `st`, and the container or errors.
pub open spec fn assemble_spec(st: AsmView, s: Seq<char>) -> (AsmView, Result<
    Seq<u8>,
    Seq<ErrorView>,
>) {
    match program_spec(s) {
        None => (st, Err(seq![ErrorView::ParseError { error: parse_error_message() }])),
        Some((_, v)) => {
            let st1 = AsmView { phase: AssemblerPhase::Second, ..first_pass(st, v, v.len() as int) };
            if st1.errors.len() > 0 {
                (st1, Err(st1.errors))
            } else if !sections_ok(st1.sections) {
                let st2 = with_error(st1, ErrorView::InsufficientSections);
                (st2, Err(st2.errors))
            } else {
                match encode_upto(v, st1.symbols, v.len() as int, true) {
                    Ok(code) => (st1, Ok(header_bytes(st1.ro.len()) + st1.ro + code)),
                    Err(e) => {
                        let st2 = with_error(st1, e);
                        (st2, Err(st2.errors))
                    },
                }
            }
        },
    }
}

pub open spec fn bytes_result(r: Result<Vec<u8>, AssemblerError>) -> Result<Seq<u8>, ErrorView> {
    match r {
        Ok(b) => Ok(b@),
        Err(e) => Err(e@),
    }
}

pub open spec fn assembled_view(r: Result<Vec<u8>, Vec<AssemblerError>>) -> Result<
    Seq<u8>,
    Seq<ErrorView>,
> {
    match r {
        Ok(b) => Ok(b@),
        Err(e) => Err(errors_view(e@)),
    }
}

impl<'a> From<&'a str> for AssemblerSection {
    fn from(header_name: &'a str) -> (r: Self)
        ensures
            r == section_of(header_name@),
    {
        if str_eq(header_name, "code") {
            AssemblerSection::Code
        } else if str_eq(header_name, "data") {
            AssemblerSection::Data
        } else {
            AssemblerSection::Unknown
        }
    }
}

impl<'a> vstd::std_specs::convert::FromSpecImpl<&'a str> for AssemblerSection {
    open spec fn obeys_from_spec() -> bool {
        true
    }

    open spec fn from_spec(v: &'a str) -> AssemblerSection {
        section_of(v@)
    }
}

fn copy_error(e: &AssemblerError) -> (r: AssemblerError)
    ensures
        r@ == e@,
{
    match e {
        AssemblerError::NoSegmentDeclarationFound { instruction } => {
            AssemblerError::NoSegmentDeclarationFound { instruction: *instruction }
        },
        AssemblerError::StringConstantDeclaredWithoutLabel { instruction } => {
            AssemblerError::StringConstantDeclaredWithoutLabel { instruction: *instruction }
        },
        AssemblerError::SymbolAlreadyDeclared => AssemblerError::SymbolAlreadyDeclared,
        AssemblerError::UnknownDirectiveFound { directive } => {
            AssemblerError::UnknownDirectiveFound { directive: directive.clone() }
        },
        AssemblerError::NonOpcodeInOpcodeField => AssemblerError::NonOpcodeInOpcodeField,
        AssemblerError::InsufficientSections => AssemblerError::InsufficientSections,
        AssemblerError::ParseError { error } => AssemblerError::ParseError { error: error.clone() },
        AssemblerError::SymbolNotFound { name } => AssemblerError::SymbolNotFound {
            name: name.clone(),
        },
        AssemblerError::InvalidOperand => AssemblerError::InvalidOperand,
    }
}

fn copy_errors(v: &Vec<AssemblerError>) -> (r: Vec<AssemblerError>)
    ensures
        errors_view(r@) == errors_view(v@),
{
    let mut out: Vec<AssemblerError> = Vec::new();
    let mut i: usize = 0;
    while i < v.len()
        invariant
            i <= v@.len(),
            errors_view(out@) == errors_view(v@.subrange(0, i as int)),
        decreases v@.len() - i,
    {
        out.push(copy_error(&v[i]));
        proof {
            assert(errors_view(v@.subrange(0, i + 1)) =~= errors_view(v@.subrange(0, i as int)).push(v@[i as int]@));
            assert(errors_view(out@) =~= errors_view(v@.subrange(0, i + 1)));
        }
        i = i + 1;
    }
    proof {
        assert(v@.subrange(0, v@.len() as int) =~= v@);
    }
    out
}

/// Appends `src` to `dst`.
fn append_bytes(dst: &mut Vec<u8>, src: &Vec<u8>)
    ensures
        final(dst)@ == old(dst)@ + src@,
{
    let mut i: usize = 0;
    while i < src.len()
        invariant
            i <= src@.len(),
            dst@ == old(dst)@ + src@.subrange(0, i as int),
        decreases src@.len() - i,
    {
        dst.push(src[i]);
        proof {
            assert(old(dst)@ + src@.subrange(0, i + 1) =~= old(dst)@ + src@.subrange(0, i as int)
                + seq![src@[i as int]]);
        }
        i = i + 1;
    }
    proof {
        assert(src@.subrange(0, src@.len() as int) =~= src@);
    }
}

/// The bytes of one operand token.
fn encode_token(t: &Token, symbols: &SymbolTable) -> (r: Result<Vec<u8>, AssemblerError>)
    ensures
        bytes_result(r) == encode_operand(t@, symbols@),
{
    match t {
        Token::Register { reg_num } => {
            let r = vec![*reg_num];
            assert(r@ =~= seq![*reg_num]);
            Ok(r)
        },
        Token::IntegerOperand { value } => {
            let c = #[verifier::truncate] (*value as u16);
            let r = vec![(c / 256) as u8, (c % 256) as u8];
            assert(r@ =~= be16(c as int));
            Ok(r)
        },
        Token::LabelUsage { name } => match symbols.symbol_value(name.as_str()) {
            Some(v) => {
                let r = vec![((v / 256) % 256) as u8, (v % 256) as u8];
                assert(r@ =~= be16(v as int));
                Ok(r)
            },
            None => Err(AssemblerError::SymbolNotFound { name: name.clone() }),
        },
        _ => Err(AssemblerError::InvalidOperand),
    }
}

/// Appends the bytes of an optional operand.
fn add_operand(results: &mut Vec<u8>, o: &Option<Token>, symbols: &SymbolTable) -> (r: Result<
    (),
    AssemblerError,
>)
    ensures
        append_operand(Ok(old(results)@), opt_view(*o), symbols@) == match r {
            Ok(_) => Ok(final(results)@),
            Err(e) => Err(e@),
        },
{
    match o {
        Some(t) => match encode_token(t, symbols) {
            Ok(mut b) => {
                results.append(&mut b);
                Ok(())
            },
            Err(e) => Err(e),
        },
        None => Ok(()),
    }
}

impl AssemblerInstruction {
    pub fn is_opcode(&self) -> (r: bool)
        ensures
            r == self.opcode.is_some(),
    {
        self.opcode.is_some()
    }

    pub fn is_directive(&self) -> (r: bool)
        ensures
            r == self.directive.is_some(),
    {
        self.directive.is_some()
    }

    pub fn has_operands(&self) -> (r: bool)
        ensures
            r == has_operands(self@),
    {
        self.operand1.is_some() || self.operand2.is_some() || self.operand3.is_some()
    }

    /// The encoded instruction: the opcode byte, then one byte per register,
    /// two per integer or label (high byte first).
    pub fn to_bytes(&self, symbols: &SymbolTable) -> (r: Result<Vec<u8>, AssemblerError>)
        ensures
            bytes_result(r) == encode_instruction(self@, symbols@),
    {
        let code = match &self.opcode {
            Some(Token::Op { code }) => *code,
            _ => {
                return Err(AssemblerError::NonOpcodeInOpcodeField);
            },
        };
        let mut results: Vec<u8> = vec![code.code()];
        assert(results@ =~= seq![opcode_code(code)]);
        match add_operand(&mut results, &self.operand1, symbols) {
            Ok(_) => {},
            Err(e) => {
                return Err(e);
            },
        }
        match add_operand(&mut results, &self.operand2, symbols) {
            Ok(_) => {},
            Err(e) => {
                return Err(e);
            },
        }
        match add_operand(&mut results, &self.operand3, symbols) {
            Ok(_) => {},
            Err(e) => {
                return Err(e);
            },
        }
        Ok(results)
    }
}

/// The encoding of instructions `0..n` of `v`, without passing over any.
fn encode_instructions(v: &Vec<AssemblerInstruction>, symbols: &SymbolTable, opcodes_only: bool) -> (r:
    Result<Vec<u8>, AssemblerError>)
    ensures
        bytes_result(r) == encode_upto(instr_views(v@), symbols@, v@.len() as int, opcodes_only),
{
    let ghost views = instr_views(v@);
    let mut out: Vec<u8> = Vec::new();
    let mut k: usize = 0;
    while k < v.len()
        invariant
            k <= v@.len(),
            views == instr_views(v@),
            encode_upto(views, symbols@, k as int, opcodes_only) == Ok::<Seq<u8>, ErrorView>(out@),
        decreases v@.len() - k,
    {
        let ins = &v[k];
        assert(views[k as int] == ins@);
        if !opcodes_only || ins.is_opcode() {
            match ins.to_bytes(symbols) {
                Ok(mut b) => {
                    out.append(&mut b);
                },
                Err(e) => {
                    proof {
                        lemma_encode_error_stays(views, symbols@, k + 1, v@.len() as int, opcodes_only);
                    }
                    return Err(e);
                },
            }
        }
        k = k + 1;
    }
    Ok(out)
}

/// Once encoding has failed, it fails the same way on any longer prefix.
proof fn lemma_encode_error_stays(
    v: Seq<InstrView>,
    syms: Seq<SymbolView>,
    n: int,
    m: int,
    opcodes_only: bool,
)
    requires
        encode_upto(v, syms, n, opcodes_only) is Err,
        n <= m,
    ensures
        encode_upto(v, syms, m, opcodes_only) == encode_upto(v, syms, n, opcodes_only),
    decreases m - n,
{
    if n < m {
        lemma_encode_error_stays(v, syms, n, m - 1, opcodes_only);
    }
}

impl Program {
    /// The encoding of every instruction in order; an instruction without an
    /// opcode is an error.
    pub fn to_bytes(&self, symbols: &SymbolTable) -> (r: Result<Vec<u8>, AssemblerError>)
        ensures
            bytes_result(r) == encode_upto(
                instr_views(self.instructions@),
                symbols@,
                self.instructions@.len() as int,
                false,
            ),
    {
        encode_instructions(&self.instructions, symbols, false)
    }
}

impl Assembler {
    pub fn new() -> (r: Assembler)
        ensures
            r@ == (AsmView {
                phase: AssemblerPhase::First,
                symbols: Seq::empty(),
                ro: Seq::empty(),
                bytecode: Seq::empty(),
                sections: Seq::empty(),
                current_section: None,
                current_instruction: 0,
                errors: Seq::empty(),
            }),
    {
        let r = Assembler {
            phase: AssemblerPhase::First,
            symbols: SymbolTable::new(),
            ro: Vec::new(),
            bytecode: Vec::new(),
            sections: Vec::new(),
            current_section: None,
            current_instruction: 0,
            errors: Vec::new(),
        };
        proof {
            assert(errors_view(r.errors@) =~= Seq::<ErrorView>::empty());
        }
        r
    }

    fn push_error(&mut self, e: AssemblerError)
        ensures
            final(self)@ == with_error(old(self)@, e@),
    {
        self.errors.push(e);
        proof {
            assert(errors_view(self.errors@) =~= errors_view(old(self).errors@).push(e@));
        }
    }

    /// Records the instruction's label at its code position.
    fn process_label_declaration(&mut self, i: &AssemblerInstruction)
        requires
            old(self).current_section is Some,
            i.label is Some,
        ensures
            final(self)@ == label_step(old(self)@, i@),
    {
        let name = match i.label_name() {
            Some(name) => name,
            None => {
                self.push_error(
                    AssemblerError::StringConstantDeclaredWithoutLabel {
                        instruction: self.current_instruction,
                    },
                );
                return;
            },
        };
        if self.symbols.has_symbol(name.as_str()) {
            self.push_error(AssemblerError::SymbolAlreadyDeclared);
            return;
        }
        let offset = self.current_instruction.wrapping_mul(4).wrapping_add(60);
        let symbol = Symbol::new(name, SymbolType::Label, offset);
        self.symbols.add_symbol(symbol);
    }

    /// Enters the section that `header_name` names, if it names one.
    fn process_section_header(&mut self, header_name: &str)
        ensures
            final(self)@ == section_step(old(self)@, header_name@),
    {
        let new_section = AssemblerSection::from(header_name);
        if new_section == AssemblerSection::Unknown {
            return;
        }
        self.sections.push(new_section);
        self.current_section = Some(new_section);
    }

    /// Moves the instruction's label to the end of the read-only data and
    /// appends `bytes` there.
    fn add_constant(&mut self, i: &AssemblerInstruction, bytes: &Vec<u8>)
        ensures
            final(self)@ == data_step(old(self)@, i@, bytes@),
    {
        if self.phase != AssemblerPhase::First {
            return;
        }
        match i.label_name() {
            Some(name) => {
                let offset = self.ro.len() as u32;
                self.symbols.set_symbol_offset(name.as_str(), offset);
            },
            None => {
                self.push_error(
                    AssemblerError::StringConstantDeclaredWithoutLabel {
                        instruction: self.current_instruction,
                    },
                );
                return;
            },
        }
        append_bytes(&mut self.ro, bytes);
    }

    /// `.asciiz 'text'`: a zero-terminated string constant.
    fn handle_asciiz(&mut self, i: &AssemblerInstruction)
        ensures
            final(self)@ == asciiz_step(old(self)@, i@),
    {
        match &i.operand1 {
            Some(Token::IrString { name }) => {
                let mut bytes = slice_to_vec(name.as_str().as_bytes());
                assert(bytes@ == encode_utf8(name@));
                bytes.push(0u8);
                assert(bytes@ =~= encode_utf8(name@) + seq![0u8]);
                self.add_constant(i, &bytes);
            },
            _ => {},
        }
    }

    /// `.integer #n`: a 32-bit integer constant.
    fn handle_integer(&mut self, i: &AssemblerInstruction)
        ensures
            final(self)@ == integer_step(old(self)@, i@),
    {
        match &i.operand1 {
            Some(Token::IntegerOperand { value }) => {
                let bytes = le_i32(*value);
                self.add_constant(i, &bytes);
            },
            _ => {},
        }
    }

    fn process_directive(&mut self, i: &AssemblerInstruction)
        ensures
            final(self)@ == directive_step(old(self)@, i@),
    {
        let name = match &i.directive {
            Some(Token::Directive { name }) => name,
            _ => {
                return;
            },
        };
        if i.has_operands() {
            if str_eq(name.as_str(), "asciiz") {
                self.handle_asciiz(i);
            } else if str_eq(name.as_str(), "integer") {
                self.handle_integer(i);
            } else {
                self.push_error(AssemblerError::UnknownDirectiveFound { directive: name.clone() });
            }
        } else {
            self.process_section_header(name.as_str());
        }
    }

    /// Pass one: records labels, sections and read-only data, and collects
    /// errors.
    pub fn process_first_phase(&mut self, p: &Program)
        ensures
            final(self)@ == (AsmView {
                phase: AssemblerPhase::Second,
                ..first_pass(old(self)@, instr_views(p.instructions@), p.instructions@.len() as int)
            }),
    {
        let ghost views = instr_views(p.instructions@);
        let mut k: usize = 0;
        while k < p.instructions.len()
            invariant
                k <= p.instructions@.len(),
                views == instr_views(p.instructions@),
                self@ == first_pass(old(self)@, views, k as int),
            decreases p.instructions@.len() - k,
        {
            let i = &p.instructions[k];
            assert(views[k as int] == i@);
            if i.is_label() {
                if self.current_section.is_some() {
                    self.process_label_declaration(i);
                } else {
                    self.push_error(
                        AssemblerError::NoSegmentDeclarationFound {
                            instruction: self.current_instruction,
                        },
                    );
                }
            }
            if i.is_directive() {
                self.process_directive(i);
            }
            self.current_instruction = self.current_instruction.wrapping_add(1);
            k = k + 1;
        }
        self.phase = AssemblerPhase::Second;
    }

    /// Pass two: the code bytes of the instructions that carry an opcode.
    fn process_second_phase(&self, p: &Program) -> (r: Result<Vec<u8>, AssemblerError>)
        ensures
            bytes_result(r) == encode_upto(
                instr_views(p.instructions@),
                self.symbols@,
                p.instructions@.len() as int,
                true,
            ),
    {
        encode_instructions(&p.instructions, &self.symbols, true)
    }

    /// Assembles `raw` into a container: the header, the read-only data,
    /// then the code. On failure, returns every error collected so far.
    pub fn assemble(&mut self, raw: &str) -> (r: Result<Vec<u8>, Vec<AssemblerError>>)
        ensures
            (final(self)@, assembled_view(r)) == assemble_spec(old(self)@, raw@),
    {
        let p = match program(raw) {
            Ok((_, p)) => p,
            Err(_) => {
                let error = "expected an instruction at the start of the input".to_owned();
                let errors = vec![AssemblerError::ParseError { error }];
                proof {
                    assert(errors_view(errors@) =~= seq![ErrorView::ParseError { error: parse_error_message() }]);
                }
                return Err(errors);
            },
        };
        self.process_first_phase(&p);
        if self.errors.len() > 0 {
            return Err(copy_errors(&self.errors));
        }
        if !(self.sections.len() == 2 && self.sections[0] != self.sections[1]) {
            self.push_error(AssemblerError::InsufficientSections);
            return Err(copy_errors(&self.errors));
        }
        match self.process_second_phase(&p) {
            Ok(mut body) => {
                let mut assembled = write_pie_header(self.ro.len());
                append_bytes(&mut assembled, &self.ro);
                assembled.append(&mut body);
                Ok(assembled)
            },
            Err(e) => {
                self.push_error(e);
                Err(copy_errors(&self.errors))
            },
        }
    }
}

/// How many bytes an operand takes in code.
pub open spec fn operand_width(o: Option<TokenView>) -> int {
    match o {
        Some(TokenView::Register { .. }) => 1,
        Some(TokenView::IntegerOperand { .. }) => 2,
        Some(TokenView::LabelUsage { .. }) => 2,
        _ => 0,
    }
}

/// An instruction whose operands fill the three bytes after its opcode.
pub open spec fn fills_word(ins: InstrView) -> bool {
    ins.opcode is None || operand_width(ins.operand1) + operand_width(ins.operand2)
        + operand_width(ins.operand3) == 3
}

/// Whether an operand names a label that the table does not hold.
pub open spec fn undeclared_label(o: Option<TokenView>, syms: Seq<SymbolView>) -> bool {
    match o {
        Some(TokenView::LabelUsage { name }) => symbol_lookup(syms, name) is None,
        _ => false,
    }
}

proof fn lemma_append_operand_len(acc: Result<Seq<u8>, ErrorView>, o: Option<TokenView>, syms: Seq<SymbolView>)
    requires
        append_operand(acc, o, syms) is Ok,
    ensures
        acc is Ok,
        append_operand(acc, o, syms)->Ok_0.len() == acc->Ok_0.len() + operand_width(o),
{
}

proof fn lemma_instruction_len(ins: InstrView, syms: Seq<SymbolView>)
    requires
        ins.opcode is Some,
        encode_instruction(ins, syms) is Ok,
    ensures
        encode_instruction(ins, syms)->Ok_0.len() == 1 + operand_width(ins.operand1)
            + operand_width(ins.operand2) + operand_width(ins.operand3),
{
    let code = ins.opcode->Some_0->Op_code;
    let a0: Result<Seq<u8>, ErrorView> = Ok(seq![opcode_code(code)]);
    let a1 = append_operand(a0, ins.operand1, syms);
    let a2 = append_operand(a1, ins.operand2, syms);
    lemma_append_operand_len(a2, ins.operand3, syms);
    lemma_append_operand_len(a1, ins.operand2, syms);
    lemma_append_operand_len(a0, ins.operand1, syms);
}

proof fn lemma_code_len(v: Seq<InstrView>, syms: Seq<SymbolView>, n: int)
    requires
        0 <= n <= v.len(),
        encode_upto(v, syms, n, true) is Ok,
        forall|k: int| 0 <= k < n ==> fills_word(#[trigger] v[k]),
    ensures
        encode_upto(v, syms, n, true)->Ok_0.len() % 4 == 0,
    decreases n,
{
    if n > 0 {
        lemma_code_len(v, syms, n - 1);
        assert(fills_word(v[n - 1]));
        if v[n - 1].opcode is Some {
            lemma_instruction_len(v[n - 1], syms);
        }
    }
}

/// Every assembled container starts with the magic bytes, then holds the
/// read-only data's length and end at bytes 64 and 68, and the data itself
/// from byte 72; so it is at least 72 bytes long.
pub proof fn lemma_container_header(st: AsmView, s: Seq<char>)
    requires
        assemble_spec(st, s).1 is Ok,
    ensures
        ({
            let b = assemble_spec(st, s).1->Ok_0;
            let ro = assemble_spec(st, s).0.ro;
            &&& b.len() >= 72 + ro.len()
            &&& b.subrange(0, 4) == seq![45u8, 50u8, 49u8, 45u8]
            &&& b.subrange(64, 68) == le_bytes(ro.len() as u32)
            &&& b.subrange(72, 72 + ro.len() as int) == ro
        }),
{
    let v = program_spec(s)->Some_0.1;
    let st1 = AsmView { phase: AssemblerPhase::Second, ..first_pass(st, v, v.len() as int) };
    let code = encode_upto(v, st1.symbols, v.len() as int, true)->Ok_0;
    let b = header_bytes(st1.ro.len()) + st1.ro + code;
    assert(b.subrange(0, 4) =~= seq![45u8, 50u8, 49u8, 45u8]);
    assert(b.subrange(64, 68) =~= le_bytes(st1.ro.len() as u32));
    assert(b.subrange(72, 72 + st1.ro.len() as int) =~= st1.ro);
}

/// When every instruction's operands fill the three bytes after its
/// opcode, the code after the header and the read-only data is a whole
/// number of four-byte words.
pub proof fn lemma_code_in_words(st: AsmView, s: Seq<char>)
    requires
        assemble_spec(st, s).1 is Ok,
        forall|k: int|
            0 <= k < program_spec(s)->Some_0.1.len() ==> fills_word(
                #[trigger] program_spec(s)->Some_0.1[k],
            ),
    ensures
        ({
            let b = assemble_spec(st, s).1->Ok_0;
            let ro = assemble_spec(st, s).0.ro;
            &&& b.len() >= 72 + ro.len()
            &&& (b.len() - 72 - ro.len()) % 4 == 0
        }),
{
    let v = program_spec(s)->Some_0.1;
    let st1 = AsmView { phase: AssemblerPhase::Second, ..first_pass(st, v, v.len() as int) };
    lemma_code_len(v, st1.symbols, v.len() as int);
}

/// A source whose first pass is clean but declares other than exactly one
/// code and one data section is rejected, the last error saying so.
pub proof fn lemma_sections_required(st: AsmView, s: Seq<char>)
    requires
        program_spec(s) is Some,
        ({
            let v = program_spec(s)->Some_0.1;
            let st1 = first_pass(st, v, v.len() as int);
            st1.errors.len() == 0 && !sections_ok(st1.sections)
        }),
    ensures
        assemble_spec(st, s).1 is Err,
        assemble_spec(st, s).1->Err_0.last() == ErrorView::InsufficientSections,
{
}

proof fn lemma_encode_fails_at(v: Seq<InstrView>, syms: Seq<SymbolView>, k: int, n: int)
    requires
        0 <= k < n,
        v[k].opcode is Some,
        encode_instruction(v[k], syms) is Err,
    ensures
        encode_upto(v, syms, n, true) is Err,
    decreases n,
{
    if n - 1 > k {
        lemma_encode_fails_at(v, syms, k, n - 1);
    }
}

/// A label that an instruction uses but that the source never declares
/// makes assembly fail.
pub proof fn lemma_undeclared_label_fails(st: AsmView, s: Seq<char>, k: int)
    requires
        program_spec(s) is Some,
        0 <= k < program_spec(s)->Some_0.1.len(),
        ({
            let v = program_spec(s)->Some_0.1;
            let syms = first_pass(st, v, v.len() as int).symbols;
            &&& v[k].opcode is Some
            &&& undeclared_label(v[k].operand1, syms) || undeclared_label(v[k].operand2, syms)
                || undeclared_label(v[k].operand3, syms)
        }),
    ensures
        assemble_spec(st, s).1 is Err,
{
    let v = program_spec(s)->Some_0.1;
    let syms = first_pass(st, v, v.len() as int).symbols;
    assert(encode_instruction(v[k], syms) is Err);
    lemma_encode_fails_at(v, syms, k, v.len() as int);
}

} // verus!
