use vstd::prelude::*;
use vstd::string::*;

use crate::instruction::{opcode_from_word, opcode_of_mnemonic, Opcode};

verus! {

broadcast use vstd::string::group_string_axioms;

/// One lexical unit of assembly.
#[derive(Debug, PartialEq, Clone)]
pub enum Token {
    Op { code: Opcode },
    Register { reg_num: u8 },
    IntegerOperand { value: i32 },
    LabelDeclaration { name: String },
    LabelUsage { name: String },
    Directive { name: String },
    IrString { name: String },
}

/// A token with its text as characters.
pub enum TokenView {
    Op { code: Opcode },
    Register { reg_num: u8 },
    IntegerOperand { value: i32 },
    LabelDeclaration { name: Seq<char> },
    LabelUsage { name: Seq<char> },
    Directive { name: Seq<char> },
    IrString { name: Seq<char> },
}

impl View for Token {
    type V = TokenView;

    open spec fn view(&self) -> TokenView {
        match self {
            Token::Op { code } => TokenView::Op { code: *code },
            Token::Register { reg_num } => TokenView::Register { reg_num: *reg_num },
            Token::IntegerOperand { value } => TokenView::IntegerOperand { value: *value },
            Token::LabelDeclaration { name } => TokenView::LabelDeclaration { name: name@ },
            Token::LabelUsage { name } => TokenView::LabelUsage { name: name@ },
            Token::Directive { name } => TokenView::Directive { name: name@ },
            Token::IrString { name } => TokenView::IrString { name: name@ },
        }
    }
}

/// The input does not start with the form that was asked for.
#[derive(Debug, PartialEq, Eq, Clone, Copy, Structural)]
pub struct NoMatch;

/// The character classes of the grammar, all ASCII.
#[derive(PartialEq, Eq, Clone, Copy, Structural)]
pub enum CharClass {
    /// Space, tab, carriage return, line feed.
    Space,
    Alpha,
    AlphaNumeric,
    Digit,
    /// Anything but a single quote.
    NotQuote,
}

pub open spec fn in_class(c: char, k: CharClass) -> bool {
    let alpha = ('a' <= c && c <= 'z') || ('A' <= c && c <= 'Z');
    let digit = '0' <= c && c <= '9';
    match k {
        CharClass::Space => c == ' ' || c == '\t' || c == '\r' || c == '\n',
        CharClass::Alpha => alpha,
        CharClass::AlphaNumeric => alpha || digit,
        CharClass::Digit => digit,
        CharClass::NotQuote => c != '\'',
    }
}

/// The end of the longest run of characters of class `k` starting at `i`.
pub open spec fn scan(s: Seq<char>, i: int, k: CharClass) -> int
    decreases s.len() - i,
{
    if 0 <= i < s.len() && in_class(s[i], k) {
        scan(s, i + 1, k)
    } else {
        i
    }
}

pub open spec fn skip_ws(s: Seq<char>, i: int) -> int {
    scan(s, i, CharClass::Space)
}

/// Whether `s[i]` exists and is `c`.
pub open spec fn char_at(s: Seq<char>, i: int, c: char) -> bool {
    0 <= i < s.len() && s[i] == c
}

/// The decimal value of the digits `s[a..b]`.
pub open spec fn digits_value(s: Seq<char>, a: int, b: int) -> int
    decreases b - a,
{
    if b <= a {
        0
    } else {
        digits_value(s, a, b - 1) * 10 + (s[b - 1] as int - '0' as int)
    }
}

pub proof fn lemma_scan(s: Seq<char>, i: int, k: CharClass)
    requires
        0 <= i <= s.len(),
    ensures
        i <= scan(s, i, k) <= s.len(),
        forall|j: int| i <= j < scan(s, i, k) ==> in_class(#[trigger] s[j], k),
        scan(s, i, k) < s.len() ==> !in_class(s[scan(s, i, k)], k),
    decreases s.len() - i,
{
    if i < s.len() && in_class(s[i], k) {
        lemma_scan(s, i + 1, k);
    }
}

proof fn lemma_digits_value_nonneg(s: Seq<char>, a: int, b: int)
    requires
        forall|j: int| a <= j < b ==> in_class(#[trigger] s[j], CharClass::Digit),
    ensures
        digits_value(s, a, b) >= 0,
    decreases b - a,
{
    if b > a {
        lemma_digits_value_nonneg(s, a, b - 1);
    }
}

/// `$` and a decimal register number that fits in a byte, with the
/// whitespace around it.
pub open spec fn register_spec(s: Seq<char>, i: int) -> Option<(int, TokenView)> {
    let a = skip_ws(s, i);
    let e = scan(s, a + 1, CharClass::Digit);
    if char_at(s, a, '$') && e > a + 1 && digits_value(s, a + 1, e) <= 255 {
        Some((skip_ws(s, e), TokenView::Register { reg_num: digits_value(s, a + 1, e) as u8 }))
    } else {
        None
    }
}

/// `#`, an optional `-` and decimal digits whose value fits in an `i32`,
/// with the whitespace around it.
pub open spec fn integer_spec(s: Seq<char>, i: int) -> Option<(int, TokenView)> {
    let a = skip_ws(s, i);
    let neg = char_at(s, a + 1, '-');
    let d = if neg {
        a + 2
    } else {
        a + 1
    };
    let e = scan(s, d, CharClass::Digit);
    let v = digits_value(s, d, e);
    let value = if neg {
        -v
    } else {
        v
    };
    if char_at(s, a, '#') && e > d && i32::MIN <= value <= i32::MAX {
        Some((skip_ws(s, e), TokenView::IntegerOperand { value: value as i32 }))
    } else {
        None
    }
}

/// A single-quoted string without escapes, with the whitespace around it.
pub open spec fn string_spec(s: Seq<char>, i: int) -> Option<(int, TokenView)> {
    let a = skip_ws(s, i);
    let e = scan(s, a + 1, CharClass::NotQuote);
    if char_at(s, a, '\'') && e < s.len() {
        Some((skip_ws(s, e + 1), TokenView::IrString { name: s.subrange(a + 1, e) }))
    } else {
        None
    }
}

/// `@`, optional whitespace, and an alphanumeric name.
pub open spec fn label_usage_spec(s: Seq<char>, i: int) -> Option<(int, TokenView)> {
    let a = skip_ws(s, i + 1);
    let b = scan(s, a, CharClass::AlphaNumeric);
    if char_at(s, i, '@') && b > a {
        Some((b, TokenView::LabelUsage { name: s.subrange(a, b) }))
    } else {
        None
    }
}

/// An alphanumeric name and `:`, with the whitespace after it.
pub open spec fn label_declaration_spec(s: Seq<char>, i: int) -> Option<(int, TokenView)> {
    let b = scan(s, i, CharClass::AlphaNumeric);
    if b > i && char_at(s, b, ':') {
        Some((skip_ws(s, b + 1), TokenView::LabelDeclaration { name: s.subrange(i, b) }))
    } else {
        None
    }
}

/// `.` and an alphabetic name.
pub open spec fn directive_declaration_spec(s: Seq<char>, i: int) -> Option<(int, TokenView)> {
    let b = scan(s, i + 1, CharClass::Alpha);
    if char_at(s, i, '.') && b > i + 1 {
        Some((b, TokenView::Directive { name: s.subrange(i + 1, b) }))
    } else {
        None
    }
}

/// An alphabetic mnemonic, with the whitespace around it; unknown words
/// give `IGL`.
pub open spec fn opcode_spec(s: Seq<char>, i: int) -> Option<(int, TokenView)> {
    let a = skip_ws(s, i);
    let b = scan(s, a, CharClass::Alpha);
    if b > a {
        Some((skip_ws(s, b), TokenView::Op { code: opcode_of_mnemonic(s.subrange(a, b)) }))
    } else {
        None
    }
}

/// An integer, a label usage, a register or a string, tried in that order.
pub open spec fn operand_spec(s: Seq<char>, i: int) -> Option<(int, TokenView)> {
    if integer_spec(s, i) is Some {
        integer_spec(s, i)
    } else if label_usage_spec(s, i) is Some {
        label_usage_spec(s, i)
    } else if register_spec(s, i) is Some {
        register_spec(s, i)
    } else {
        string_spec(s, i)
    }
}

/// A recognizer's result with the token as its view.
pub open spec fn lift(r: Option<(usize, Token)>) -> Option<(int, TokenView)> {
    match r {
        Some((j, t)) => Some((j as int, t@)),
        None => None,
    }
}

/// A recognized token ends between where it started and the end of input.
pub open spec fn in_bounds(r: Option<(usize, Token)>, i: int, n: int) -> bool {
    match r {
        Some((j, _)) => i <= j <= n,
        None => true,
    }
}

/// The end of the run of class `k` at `i`.
pub fn scan_class(s: &Vec<char>, i: usize, k: CharClass) -> (r: usize)
    requires
        i <= s@.len(),
    ensures
        r == scan(s@, i as int, k),
        i <= r <= s@.len(),
        s@.len() <= usize::MAX,
{
    let mut j = i;
    while j < s.len() && is_in_class(s[j], k)
        invariant
            i <= j <= s@.len(),
            scan(s@, i as int, k) == scan(s@, j as int, k),
        decreases s@.len() - j,
    {
        j = j + 1;
    }
    j
}

pub fn is_in_class(c: char, k: CharClass) -> (r: bool)
    ensures
        r == in_class(c, k),
{
    let alpha = ('a' <= c && c <= 'z') || ('A' <= c && c <= 'Z');
    let digit = '0' <= c && c <= '9';
    match k {
        CharClass::Space => c == ' ' || c == '\t' || c == '\r' || c == '\n',
        CharClass::Alpha => alpha,
        CharClass::AlphaNumeric => alpha || digit,
        CharClass::Digit => digit,
        CharClass::NotQuote => c != '\'',
    }
}

fn has_char(s: &Vec<char>, i: usize, c: char) -> (r: bool)
    ensures
        r == char_at(s@, i as int, c),
        s@.len() <= usize::MAX,
{
    i < s.len() && s[i] == c
}

/// The value of the digits `s[a..b]`, or `cap + 1` if it exceeds `cap`.
fn digits_capped(s: &Vec<char>, a: usize, b: usize, cap: u64) -> (r: u64)
    requires
        a <= b <= s@.len(),
        cap < 0x1_0000_0000,
        forall|j: int| a <= j < b ==> in_class(#[trigger] s@[j], CharClass::Digit),
    ensures
        r == if digits_value(s@, a as int, b as int) <= cap {
            digits_value(s@, a as int, b as int)
        } else {
            cap + 1
        },
{
    let mut acc: u64 = 0;
    let mut i = a;
    while i < b
        invariant
            a <= i <= b <= s@.len(),
            cap < 0x1_0000_0000,
            forall|j: int| a <= j < b ==> in_class(#[trigger] s@[j], CharClass::Digit),
            acc == if digits_value(s@, a as int, i as int) <= cap {
                digits_value(s@, a as int, i as int)
            } else {
                cap + 1
            },
        decreases b - i,
    {
        proof {
            lemma_digits_value_nonneg(s@, a as int, i as int);
        }
        let d = (s[i] as u32 - '0' as u32) as u64;
        acc = acc * 10 + d;
        if acc > cap {
            acc = cap + 1;
        }
        i = i + 1;
    }
    acc
}

/// The characters `text[a..b]` as an owned string.
fn slice_string(text: &str, a: usize, b: usize) -> (r: String)
    requires
        a <= b <= text@.len(),
    ensures
        r@ == text@.subrange(a as int, b as int),
{
    text.substring_char(a, b).to_owned()
}

pub fn register_at(text: &str, s: &Vec<char>, i: usize) -> (r: Option<(usize, Token)>)
    requires
        s@ == text@,
        i <= s@.len(),
    ensures
        lift(r) == register_spec(s@, i as int),
        in_bounds(r, i as int, s@.len() as int),
{
    let a = scan_class(s, i, CharClass::Space);
    if !has_char(s, a, '$') {
        return None;
    }
    let e = scan_class(s, a + 1, CharClass::Digit);
    proof {
        lemma_scan(s@, a + 1, CharClass::Digit);
    }
    if e == a + 1 {
        return None;
    }
    let v = digits_capped(s, a + 1, e, 255);
    if v > 255 {
        return None;
    }
    let j = scan_class(s, e, CharClass::Space);
    Some((j, Token::Register { reg_num: v as u8 }))
}

pub fn integer_at(text: &str, s: &Vec<char>, i: usize) -> (r: Option<(usize, Token)>)
    requires
        s@ == text@,
        i <= s@.len(),
    ensures
        lift(r) == integer_spec(s@, i as int),
        in_bounds(r, i as int, s@.len() as int),
{
    let a = scan_class(s, i, CharClass::Space);
    if !has_char(s, a, '#') {
        return None;
    }
    let neg = has_char(s, a + 1, '-');
    let d = if neg {
        a + 2
    } else {
        a + 1
    };
    let e = scan_class(s, d, CharClass::Digit);
    proof {
        lemma_scan(s@, d as int, CharClass::Digit);
        lemma_digits_value_nonneg(s@, d as int, e as int);
    }
    if e == d {
        return None;
    }
    let cap: u64 = if neg {
        0x8000_0000
    } else {
        0x7fff_ffff
    };
    let v = digits_capped(s, d, e, cap);
    if v > cap {
        return None;
    }
    let value: i32 = if neg {
        (0 - (v as i64)) as i32
    } else {
        v as i32
    };
    let j = scan_class(s, e, CharClass::Space);
    Some((j, Token::IntegerOperand { value }))
}

pub fn string_at(text: &str, s: &Vec<char>, i: usize) -> (r: Option<(usize, Token)>)
    requires
        s@ == text@,
        i <= s@.len(),
    ensures
        lift(r) == string_spec(s@, i as int),
        in_bounds(r, i as int, s@.len() as int),
{
    let a = scan_class(s, i, CharClass::Space);
    if !has_char(s, a, '\'') {
        return None;
    }
    let e = scan_class(s, a + 1, CharClass::NotQuote);
    if e >= s.len() {
        return None;
    }
    let name = slice_string(text, a + 1, e);
    let j = scan_class(s, e + 1, CharClass::Space);
    Some((j, Token::IrString { name }))
}

pub fn label_usage_at(text: &str, s: &Vec<char>, i: usize) -> (r: Option<(usize, Token)>)
    requires
        s@ == text@,
        i <= s@.len(),
    ensures
        lift(r) == label_usage_spec(s@, i as int),
        in_bounds(r, i as int, s@.len() as int),
{
    if !has_char(s, i, '@') {
        return None;
    }
    let a = scan_class(s, i + 1, CharClass::Space);
    let b = scan_class(s, a, CharClass::AlphaNumeric);
    if b == a {
        return None;
    }
    let name = slice_string(text, a, b);
    Some((b, Token::LabelUsage { name }))
}

pub fn label_declaration_at(text: &str, s: &Vec<char>, i: usize) -> (r: Option<(usize, Token)>)
    requires
        s@ == text@,
        i <= s@.len(),
    ensures
        lift(r) == label_declaration_spec(s@, i as int),
        in_bounds(r, i as int, s@.len() as int),
{
    let b = scan_class(s, i, CharClass::AlphaNumeric);
    if b == i || !has_char(s, b, ':') {
        return None;
    }
    let name = slice_string(text, i, b);
    let j = scan_class(s, b + 1, CharClass::Space);
    Some((j, Token::LabelDeclaration { name }))
}

pub fn directive_declaration_at(text: &str, s: &Vec<char>, i: usize) -> (r: Option<
    (usize, Token),
>)
    requires
        s@ == text@,
        i <= s@.len(),
    ensures
        lift(r) == directive_declaration_spec(s@, i as int),
        in_bounds(r, i as int, s@.len() as int),
{
    if !has_char(s, i, '.') {
        return None;
    }
    let b = scan_class(s, i + 1, CharClass::Alpha);
    if b == i + 1 {
        return None;
    }
    let name = slice_string(text, i + 1, b);
    Some((b, Token::Directive { name }))
}

pub fn opcode_at(s: &Vec<char>, i: usize) -> (r: Option<(usize, Token)>)
    requires
        i <= s@.len(),
    ensures
        lift(r) == opcode_spec(s@, i as int),
        in_bounds(r, i as int, s@.len() as int),
{
    let a = scan_class(s, i, CharClass::Space);
    let b = scan_class(s, a, CharClass::Alpha);
    if b == a {
        return None;
    }
    let code = opcode_from_word(s, a, b);
    let j = scan_class(s, b, CharClass::Space);
    Some((j, Token::Op { code }))
}

pub fn operand_at(text: &str, s: &Vec<char>, i: usize) -> (r: Option<(usize, Token)>)
    requires
        s@ == text@,
        i <= s@.len(),
    ensures
        lift(r) == operand_spec(s@, i as int),
        in_bounds(r, i as int, s@.len() as int),
{
    let r = integer_at(text, s, i);
    if r.is_some() {
        return r;
    }
    let r = label_usage_at(text, s, i);
    if r.is_some() {
        return r;
    }
    let r = register_at(text, s, i);
    if r.is_some() {
        return r;
    }
    string_at(text, s, i)
}

} // verus!
