use vstd::prelude::*;
use vstd::string::*;

use crate::lexer::{
    directive_declaration_at, directive_declaration_spec, in_bounds, integer_at, integer_spec,
    label_declaration_at, label_declaration_spec, label_usage_at, label_usage_spec, lift,
    opcode_at, opcode_spec, operand_at, operand_spec, register_at, register_spec, scan_class,
    skip_ws, string_at, string_spec, CharClass, NoMatch, Token, TokenView,
};
use crate::text::chars_of;

verus! {

broadcast use vstd::string::group_string_axioms;

/// One parsed line of assembly: an optional label, then an opcode or a
/// directive, then up to three operands.
#[derive(Debug, PartialEq, Clone)]
pub struct AssemblerInstruction {
    pub opcode: Option<Token>,
    pub label: Option<Token>,
    pub directive: Option<Token>,
    pub operand1: Option<Token>,
    pub operand2: Option<Token>,
    pub operand3: Option<Token>,
}

/// A parsed instruction with its tokens as views.
pub struct InstrView {
    pub opcode: Option<TokenView>,
    pub label: Option<TokenView>,
    pub directive: Option<TokenView>,
    pub operand1: Option<TokenView>,
    pub operand2: Option<TokenView>,
    pub operand3: Option<TokenView>,
}

pub open spec fn opt_view(t: Option<Token>) -> Option<TokenView> {
    match t {
        Some(t) => Some(t@),
        None => None,
    }
}

impl View for AssemblerInstruction {
    type V = InstrView;

    open spec fn view(&self) -> InstrView {
        InstrView {
            opcode: opt_view(self.opcode),
            label: opt_view(self.label),
            directive: opt_view(self.directive),
            operand1: opt_view(self.operand1),
            operand2: opt_view(self.operand2),
            operand3: opt_view(self.operand3),
        }
    }
}

/// A whole parsed program, in source order.
#[derive(Debug, PartialEq, Clone)]
pub struct Program {
    pub instructions: Vec<AssemblerInstruction>,
}

pub open spec fn instr_views(v: Seq<AssemblerInstruction>) -> Seq<InstrView> {
    v.map_values(|x: AssemblerInstruction| x@)
}

/// An optional part: where parsing goes on, and what was found.
pub open spec fn optional(r: Option<(int, TokenView)>, i: int) -> (int, Option<TokenView>) {
    match r {
        Some((j, t)) => (j, Some(t)),
        None => (i, None),
    }
}

/// Three optional operands from `i`: where they end, and the operands.
pub open spec fn operands_spec(s: Seq<char>, i: int) -> (
    int,
    (Option<TokenView>, Option<TokenView>, Option<TokenView>),
) {
    let (j1, o1) = optional(operand_spec(s, i), i);
    let (j2, o2) = optional(operand_spec(s, j1), j1);
    let (j3, o3) = optional(operand_spec(s, j2), j2);
    (j3, (o1, o2, o3))
}

/// An optional label declaration, a mnemonic and up to three operands.
pub open spec fn opcode_instruction_spec(s: Seq<char>, i: int) -> Option<(int, InstrView)> {
    let (j, label) = optional(label_declaration_spec(s, i), i);
    match opcode_spec(s, j) {
        Some((k, op)) => {
            let (e, (o1, o2, o3)) = operands_spec(s, k);
            Some(
                (
                    e,
                    InstrView {
                        opcode: Some(op),
                        label,
                        directive: None,
                        operand1: o1,
                        operand2: o2,
                        operand3: o3,
                    },
                ),
            )
        },
        None => None,
    }
}

/// Whitespace, an optional label declaration, a directive and up to three
/// operands, then whitespace.
pub open spec fn directive_spec(s: Seq<char>, i: int) -> Option<(int, InstrView)> {
    let a = skip_ws(s, i);
    let (j, label) = optional(label_declaration_spec(s, a), a);
    match directive_declaration_spec(s, j) {
        Some((k, d)) => {
            let (e, (o1, o2, o3)) = operands_spec(s, k);
            Some(
                (
                    skip_ws(s, e),
                    InstrView {
                        opcode: None,
                        label,
                        directive: Some(d),
                        operand1: o1,
                        operand2: o2,
                        operand3: o3,
                    },
                ),
            )
        },
        None => None,
    }
}

/// An instruction with an opcode, or failing that one with a directive.
pub open spec fn instruction_spec(s: Seq<char>, i: int) -> Option<(int, InstrView)> {
    if opcode_instruction_spec(s, i) is Some {
        opcode_instruction_spec(s, i)
    } else {
        directive_spec(s, i)
    }
}

/// As many instructions as follow one another from `i`, and where they end.
pub open spec fn instructions_spec(s: Seq<char>, i: int) -> (Seq<InstrView>, int)
    decreases s.len() - i,
{
    match instruction_spec(s, i) {
        Some((j, ins)) => if i < j <= s.len() {
            let (rest, k) = instructions_spec(s, j);
            (seq![ins] + rest, k)
        } else {
            (Seq::empty(), i)
        },
        None => (Seq::empty(), i),
    }
}

/// One or more instructions from the start of `s`.
pub open spec fn program_spec(s: Seq<char>) -> Option<(int, Seq<InstrView>)> {
    let (v, k) = instructions_spec(s, 0);
    if v.len() > 0 {
        Some((k, v))
    } else {
        None
    }
}

pub open spec fn instr_in_bounds(r: Option<(usize, AssemblerInstruction)>, i: int, n: int) -> bool {
    match r {
        Some((j, _)) => i <= j <= n,
        None => true,
    }
}

pub open spec fn lift_instr(r: Option<(usize, AssemblerInstruction)>) -> Option<(int, InstrView)> {
    match r {
        Some((j, x)) => Some((j as int, x@)),
        None => None,
    }
}

impl AssemblerInstruction {
    pub fn is_label(&self) -> (r: bool)
        ensures
            r == self.label.is_some(),
    {
        self.label.is_some()
    }

    /// The name of the declared label, if any.
    pub fn label_name(&self) -> (r: Option<String>)
        ensures
            match self@.label {
                Some(TokenView::LabelDeclaration { name }) => r is Some && r->0@ == name,
                _ => r is None,
            },
    {
        match &self.label {
            Some(Token::LabelDeclaration { name }) => Some(name.clone()),
            _ => None,
        }
    }
}

fn optional_operand(text: &str, s: &Vec<char>, i: usize) -> (r: (usize, Option<Token>))
    requires
        s@ == text@,
        i <= s@.len(),
    ensures
        (r.0 as int, opt_view(r.1)) == optional(operand_spec(s@, i as int), i as int),
        i <= r.0 <= s@.len(),
{
    match operand_at(text, s, i) {
        Some((j, t)) => (j, Some(t)),
        None => (i, None),
    }
}

fn operands_at(text: &str, s: &Vec<char>, i: usize) -> (r: (
    usize,
    Option<Token>,
    Option<Token>,
    Option<Token>,
))
    requires
        s@ == text@,
        i <= s@.len(),
    ensures
        operands_spec(s@, i as int) == (r.0 as int, (opt_view(r.1), opt_view(r.2), opt_view(r.3))),
        i <= r.0 <= s@.len(),
{
    let (j1, o1) = optional_operand(text, s, i);
    let (j2, o2) = optional_operand(text, s, j1);
    let (j3, o3) = optional_operand(text, s, j2);
    (j3, o1, o2, o3)
}

fn optional_label(text: &str, s: &Vec<char>, i: usize) -> (r: (usize, Option<Token>))
    requires
        s@ == text@,
        i <= s@.len(),
    ensures
        (r.0 as int, opt_view(r.1)) == optional(label_declaration_spec(s@, i as int), i as int),
        i <= r.0 <= s@.len(),
{
    match label_declaration_at(text, s, i) {
        Some((j, t)) => (j, Some(t)),
        None => (i, None),
    }
}

pub fn opcode_instruction_at(text: &str, s: &Vec<char>, i: usize) -> (r: Option<
    (usize, AssemblerInstruction),
>)
    requires
        s@ == text@,
        i <= s@.len(),
    ensures
        lift_instr(r) == opcode_instruction_spec(s@, i as int),
        instr_in_bounds(r, i as int, s@.len() as int),
{
    let (j, label) = optional_label(text, s, i);
    match opcode_at(s, j) {
        Some((k, op)) => {
            let (e, operand1, operand2, operand3) = operands_at(text, s, k);
            Some(
                (
                    e,
                    AssemblerInstruction {
                        opcode: Some(op),
                        label,
                        directive: None,
                        operand1,
                        operand2,
                        operand3,
                    },
                ),
            )
        },
        None => None,
    }
}

pub fn directive_at(text: &str, s: &Vec<char>, i: usize) -> (r: Option<
    (usize, AssemblerInstruction),
>)
    requires
        s@ == text@,
        i <= s@.len(),
    ensures
        lift_instr(r) == directive_spec(s@, i as int),
        instr_in_bounds(r, i as int, s@.len() as int),
{
    let a = scan_class(s, i, CharClass::Space);
    let (j, label) = optional_label(text, s, a);
    match directive_declaration_at(text, s, j) {
        Some((k, d)) => {
            let (e, operand1, operand2, operand3) = operands_at(text, s, k);
            let end = scan_class(s, e, CharClass::Space);
            Some(
                (
                    end,
                    AssemblerInstruction {
                        opcode: None,
                        label,
                        directive: Some(d),
                        operand1,
                        operand2,
                        operand3,
                    },
                ),
            )
        },
        None => None,
    }
}

pub fn instruction_at(text: &str, s: &Vec<char>, i: usize) -> (r: Option<
    (usize, AssemblerInstruction),
>)
    requires
        s@ == text@,
        i <= s@.len(),
    ensures
        lift_instr(r) == instruction_spec(s@, i as int),
        instr_in_bounds(r, i as int, s@.len() as int),
{
    let r = opcode_instruction_at(text, s, i);
    if r.is_some() {
        return r;
    }
    directive_at(text, s, i)
}

/// Parses instructions from the start of `s` while they follow one another.
pub fn instructions_at(text: &str, s: &Vec<char>) -> (r: (Vec<AssemblerInstruction>, usize))
    requires
        s@ == text@,
    ensures
        (instr_views(r.0@), r.1 as int) == instructions_spec(s@, 0),
{
    let mut out: Vec<AssemblerInstruction> = Vec::new();
    let mut i: usize = 0;
    loop
        invariant_except_break
            i <= s@.len(),
            s@ == text@,
            instructions_spec(s@, 0) == (instr_views(out@) + instructions_spec(s@, i as int).0,
            instructions_spec(s@, i as int).1),
        ensures
            instructions_spec(s@, 0) == (instr_views(out@), i as int),
        decreases s@.len() - i,
    {
        match instruction_at(text, s, i) {
            Some((j, ins)) => {
                if j == i {
                    proof {
                        assert(instr_views(out@) + Seq::<InstrView>::empty() =~= instr_views(out@));
                    }
                    break;
                }
                let ghost before = out@;
                let ghost rest = instructions_spec(s@, j as int);
                out.push(ins);
                proof {
                    assert(instr_views(out@) =~= instr_views(before).push(ins@));
                    assert(instr_views(before) + (seq![ins@] + rest.0) =~= instr_views(out@) + rest.0);
                }
                i = j;
            },
            None => {
                proof {
                    assert(instr_views(out@) + Seq::<InstrView>::empty() =~= instr_views(out@));
                }
                break;
            },
        }
    }
    (out, i)
}

/// The outcome of a recognizer run on the whole of `s`.
pub open spec fn token_outcome<'a>(
    r: Result<(&'a str, Token), NoMatch>,
    expected: Option<(int, TokenView)>,
    s: Seq<char>,
) -> bool {
    match expected {
        Some((j, t)) => match r {
            Ok((rest, tok)) => rest@ == s.subrange(j, s.len() as int) && tok@ == t,
            Err(_) => false,
        },
        None => r is Err,
    }
}

pub open spec fn instruction_outcome<'a>(
    r: Result<(&'a str, AssemblerInstruction), NoMatch>,
    expected: Option<(int, InstrView)>,
    s: Seq<char>,
) -> bool {
    match expected {
        Some((j, x)) => match r {
            Ok((rest, ins)) => rest@ == s.subrange(j, s.len() as int) && ins@ == x,
            Err(_) => false,
        },
        None => r is Err,
    }
}

fn token_result<'a>(text: &'a str, s: &Vec<char>, i: usize, r: Option<(usize, Token)>) -> (out:
    Result<(&'a str, Token), NoMatch>)
    requires
        s@ == text@,
        i <= s@.len(),
        in_bounds(r, i as int, s@.len() as int),
    ensures
        token_outcome(out, lift(r), text@),
{
    match r {
        Some((j, t)) => Ok((text.substring_char(j, s.len()), t)),
        None => Err(NoMatch),
    }
}

fn instruction_result<'a>(
    text: &'a str,
    s: &Vec<char>,
    i: usize,
    r: Option<(usize, AssemblerInstruction)>,
) -> (out: Result<(&'a str, AssemblerInstruction), NoMatch>)
    requires
        s@ == text@,
        i <= s@.len(),
        instr_in_bounds(r, i as int, s@.len() as int),
    ensures
        instruction_outcome(out, lift_instr(r), text@),
{
    match r {
        Some((j, x)) => Ok((text.substring_char(j, s.len()), x)),
        None => Err(NoMatch),
    }
}

/// Recognizes a register operand such as `$3` at the start of `input`.
pub fn register<'a>(input: &'a str) -> (r: Result<(&'a str, Token), NoMatch>)
    ensures
        token_outcome(r, register_spec(input@, 0), input@),
{
    let s = chars_of(input);
    token_result(input, &s, 0, register_at(input, &s, 0))
}

/// Recognizes an integer operand such as `#-10` at the start of `input`.
pub fn integer_operand<'a>(input: &'a str) -> (r: Result<(&'a str, Token), NoMatch>)
    ensures
        token_outcome(r, integer_spec(input@, 0), input@),
{
    let s = chars_of(input);
    token_result(input, &s, 0, integer_at(input, &s, 0))
}

/// Recognizes a single-quoted string at the start of `input`.
pub fn irstring<'a>(input: &'a str) -> (r: Result<(&'a str, Token), NoMatch>)
    ensures
        token_outcome(r, string_spec(input@, 0), input@),
{
    let s = chars_of(input);
    token_result(input, &s, 0, string_at(input, &s, 0))
}

/// Recognizes a label declaration such as `name:` at the start of `input`.
pub fn label_declaration<'a>(input: &'a str) -> (r: Result<(&'a str, Token), NoMatch>)
    ensures
        token_outcome(r, label_declaration_spec(input@, 0), input@),
{
    let s = chars_of(input);
    token_result(input, &s, 0, label_declaration_at(input, &s, 0))
}

/// Recognizes a label usage such as `@name` at the start of `input`.
pub fn label_usage<'a>(input: &'a str) -> (r: Result<(&'a str, Token), NoMatch>)
    ensures
        token_outcome(r, label_usage_spec(input@, 0), input@),
{
    let s = chars_of(input);
    token_result(input, &s, 0, label_usage_at(input, &s, 0))
}

/// Recognizes a mnemonic at the start of `input`.
pub fn opcode_load<'a>(input: &'a str) -> (r: Result<(&'a str, Token), NoMatch>)
    ensures
        token_outcome(r, opcode_spec(input@, 0), input@),
{
    let s = chars_of(input);
    token_result(input, &s, 0, opcode_at(&s, 0))
}

/// Recognizes any operand at the start of `input`.
pub fn operand<'a>(input: &'a str) -> (r: Result<(&'a str, Token), NoMatch>)
    ensures
        token_outcome(r, operand_spec(input@, 0), input@),
{
    let s = chars_of(input);
    token_result(input, &s, 0, operand_at(input, &s, 0))
}

/// Recognizes a directive instruction at the start of `input`.
pub fn directive<'a>(input: &'a str) -> (r: Result<(&'a str, AssemblerInstruction), NoMatch>)
    ensures
        instruction_outcome(r, directive_spec(input@, 0), input@),
{
    let s = chars_of(input);
    instruction_result(input, &s, 0, directive_at(input, &s, 0))
}

/// Recognizes one instruction at the start of `input`.
pub fn instruction<'a>(input: &'a str) -> (r: Result<(&'a str, AssemblerInstruction), NoMatch>)
    ensures
        instruction_outcome(r, instruction_spec(input@, 0), input@),
{
    let s = chars_of(input);
    instruction_result(input, &s, 0, instruction_at(input, &s, 0))
}

/// Parses one or more instructions from the start of `input`; returns
/// what follows them, and the program.
pub fn program<'a>(input: &'a str) -> (r: Result<(&'a str, Program), NoMatch>)
    ensures
        match program_spec(input@) {
            Some((j, v)) => match r {
                Ok((rest, p)) => rest@ == input@.subrange(j, input@.len() as int) && instr_views(
                    p.instructions@,
                ) == v,
                Err(_) => false,
            },
            None => r is Err,
        },
{
    let s = chars_of(input);
    let (instructions, end) = instructions_at(input, &s);
    if instructions.len() == 0 {
        return Err(NoMatch);
    }
    proof {
        lemma_instructions_end(s@, 0);
    }
    Ok((input.substring_char(end, s.len()), Program { instructions }))
}

proof fn lemma_instructions_end(s: Seq<char>, i: int)
    requires
        0 <= i <= s.len(),
    ensures
        i <= instructions_spec(s, i).1 <= s.len(),
    decreases s.len() - i,
{
    match instruction_spec(s, i) {
        Some((j, ins)) => if i < j <= s.len() {
            lemma_instructions_end(s, j);
        },
        None => {},
    }
}

} // verus!
