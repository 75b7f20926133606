//! Operators, tokens, and the tokenizer of preprocessor expressions.
use vstd::prelude::*;
use vstd::string::*;

use crate::errors::{Failure, FailureV, GeneralError, GeneralErrorV, SystemError, SystemErrorV};
use crate::structs::{State, TextMap};
use crate::text::{chars_of, concat, debug_str, debug_text, decimal, string_of, u32_to_string};

verus! {

#[derive(Debug, Clone, Copy, PartialEq, Eq, Structural)]
pub enum UnaryOperator {
    Plus,
    Minus,
    Not,
    BitwiseNot,
    Defined,
    Increment,
    Decrement,
}

#[derive(Debug, Clone, Copy, PartialEq, Eq, Structural)]
pub enum BinaryOperator {
    Add,
    Sub,
    Mul,
    Div,
    Mod,
    BitwiseAnd,
    BitwiseOr,
    BitwiseXor,
    And,
    Or,
    ShiftLeft,
    ShiftRight,
    NotEqual,
    Eequal,
    LessThan,
    GreaterThan,
    LessEqual,
    GreaterEqual,
    AddAssign,
    SubAssign,
    MulAssign,
    DivAssign,
    ModAssign,
    OrAssign,
    AndAssign,
    XorAssign,
    ShiftLeftAssign,
    ShiftRightAssign,
}

#[derive(Debug, Clone, Copy, PartialEq, Eq, Structural)]
pub enum Operator {
    Unary(UnaryOperator),
    Binary(BinaryOperator),
    Conditional,
}

#[derive(Debug, Clone, Copy, PartialEq, Eq, Structural)]
pub enum Associativity {
    LeftToRight,
    RightToLeft,
}

/// Precedence (lower binds tighter) and associativity of an operator.
pub trait OperatorTrait {
    spec fn precedence_spec(&self) -> u32;

    spec fn associativity_spec(&self) -> Associativity;

    fn precedence(&self) -> (r: u32)
        ensures
            r == self.precedence_spec(),
    ;

    fn associativity(&self) -> (r: Associativity)
        ensures
            r == self.associativity_spec(),
    ;
}

impl OperatorTrait for UnaryOperator {
    open spec fn precedence_spec(&self) -> u32 {
        match self {
            UnaryOperator::Defined => 0,
            UnaryOperator::Increment | UnaryOperator::Decrement => 1,
            UnaryOperator::Plus | UnaryOperator::Minus | UnaryOperator::Not | UnaryOperator::BitwiseNot => 2,
        }
    }

    open spec fn associativity_spec(&self) -> Associativity {
        match self {
            UnaryOperator::Plus | UnaryOperator::Minus | UnaryOperator::Not
            | UnaryOperator::BitwiseNot => Associativity::RightToLeft,
            UnaryOperator::Increment | UnaryOperator::Defined
            | UnaryOperator::Decrement => Associativity::LeftToRight,
        }
    }

    fn precedence(&self) -> (r: u32) {
        match self {
            UnaryOperator::Defined => 0,
            UnaryOperator::Increment | UnaryOperator::Decrement => 1,
            UnaryOperator::Plus | UnaryOperator::Minus | UnaryOperator::Not | UnaryOperator::BitwiseNot => 2,
        }
    }

    fn associativity(&self) -> (r: Associativity) {
        match self {
            UnaryOperator::Plus | UnaryOperator::Minus | UnaryOperator::Not
            | UnaryOperator::BitwiseNot => Associativity::RightToLeft,
            UnaryOperator::Increment | UnaryOperator::Defined
            | UnaryOperator::Decrement => Associativity::LeftToRight,
        }
    }
}

impl OperatorTrait for BinaryOperator {
    open spec fn precedence_spec(&self) -> u32 {
        match self {
            BinaryOperator::Mul | BinaryOperator::Div | BinaryOperator::Mod => 3,
            BinaryOperator::Add | BinaryOperator::Sub => 4,
            BinaryOperator::ShiftLeft | BinaryOperator::ShiftRight => 5,
            BinaryOperator::LessThan | BinaryOperator::LessEqual | BinaryOperator::GreaterThan
            | BinaryOperator::GreaterEqual => 6,
            BinaryOperator::Eequal | BinaryOperator::NotEqual => 7,
            BinaryOperator::BitwiseAnd => 8,
            BinaryOperator::BitwiseXor => 9,
            BinaryOperator::BitwiseOr => 10,
            BinaryOperator::And => 11,
            BinaryOperator::Or => 12,
            BinaryOperator::AddAssign | BinaryOperator::SubAssign | BinaryOperator::MulAssign
            | BinaryOperator::DivAssign | BinaryOperator::ModAssign | BinaryOperator::OrAssign
            | BinaryOperator::AndAssign | BinaryOperator::XorAssign
            | BinaryOperator::ShiftLeftAssign | BinaryOperator::ShiftRightAssign => 14,
        }
    }

    open spec fn associativity_spec(&self) -> Associativity {
        match self {
            BinaryOperator::AddAssign | BinaryOperator::SubAssign | BinaryOperator::DivAssign
            | BinaryOperator::ModAssign | BinaryOperator::OrAssign | BinaryOperator::AndAssign
            | BinaryOperator::XorAssign | BinaryOperator::ShiftLeftAssign
            | BinaryOperator::ShiftRightAssign => Associativity::RightToLeft,
            _ => Associativity::LeftToRight,
        }
    }

    fn precedence(&self) -> (r: u32) {
        match self {
            BinaryOperator::Mul | BinaryOperator::Div | BinaryOperator::Mod => 3,
            BinaryOperator::Add | BinaryOperator::Sub => 4,
            BinaryOperator::ShiftLeft | BinaryOperator::ShiftRight => 5,
            BinaryOperator::LessThan | BinaryOperator::LessEqual | BinaryOperator::GreaterThan
            | BinaryOperator::GreaterEqual => 6,
            BinaryOperator::Eequal | BinaryOperator::NotEqual => 7,
            BinaryOperator::BitwiseAnd => 8,
            BinaryOperator::BitwiseXor => 9,
            BinaryOperator::BitwiseOr => 10,
            BinaryOperator::And => 11,
            BinaryOperator::Or => 12,
            BinaryOperator::AddAssign | BinaryOperator::SubAssign | BinaryOperator::MulAssign
            | BinaryOperator::DivAssign | BinaryOperator::ModAssign | BinaryOperator::OrAssign
            | BinaryOperator::AndAssign | BinaryOperator::XorAssign
            | BinaryOperator::ShiftLeftAssign | BinaryOperator::ShiftRightAssign => 14,
        }
    }

    fn associativity(&self) -> (r: Associativity) {
        match self {
            BinaryOperator::AddAssign | BinaryOperator::SubAssign | BinaryOperator::DivAssign
            | BinaryOperator::ModAssign | BinaryOperator::OrAssign | BinaryOperator::AndAssign
            | BinaryOperator::XorAssign | BinaryOperator::ShiftLeftAssign
            | BinaryOperator::ShiftRightAssign => Associativity::RightToLeft,
            BinaryOperator::Sub | BinaryOperator::Mul | BinaryOperator::Div | BinaryOperator::Mod
            | BinaryOperator::BitwiseAnd | BinaryOperator::BitwiseOr | BinaryOperator::Add
            | BinaryOperator::BitwiseXor | BinaryOperator::And | BinaryOperator::Or
            | BinaryOperator::ShiftLeft | BinaryOperator::ShiftRight | BinaryOperator::NotEqual
            | BinaryOperator::Eequal | BinaryOperator::LessThan | BinaryOperator::GreaterThan
            | BinaryOperator::LessEqual | BinaryOperator::GreaterEqual
            | BinaryOperator::MulAssign => Associativity::LeftToRight,
        }
    }
}

impl OperatorTrait for Operator {
    open spec fn precedence_spec(&self) -> u32 {
        match self {
            Operator::Unary(op) => op.precedence_spec(),
            Operator::Binary(op) => op.precedence_spec(),
            Operator::Conditional => 13,
        }
    }

    open spec fn associativity_spec(&self) -> Associativity {
        match self {
            Operator::Unary(op) => op.associativity_spec(),
            Operator::Binary(op) => op.associativity_spec(),
            Operator::Conditional => Associativity::RightToLeft,
        }
    }

    fn precedence(&self) -> (r: u32) {
        match self {
            Operator::Unary(op) => op.precedence(),
            Operator::Binary(op) => op.precedence(),
            Operator::Conditional => 13,
        }
    }

    fn associativity(&self) -> (r: Associativity) {
        match self {
            Operator::Unary(op) => op.associativity(),
            Operator::Binary(op) => op.associativity(),
            Operator::Conditional => Associativity::RightToLeft,
        }
    }
}

pub open spec fn max_precedence_spec() -> u32 {
    15
}

impl Operator {
    /// The precedence that binds loosest: the context of a whole expression.
    pub fn max_precedence() -> (r: u32)
        ensures
            r == max_precedence_spec(),
    {
        15
    }
}

/// Every operator binds tighter than the context of a whole expression.
pub proof fn law_precedence_below_max(op: Operator)
    ensures
        op.precedence_spec() < max_precedence_spec(),
{
}

/// Operators group as in C: multiplicative binds tightest, then additive,
/// shifts, relations, equality, `&`, `^`, `|`, `&&`, `||`, and the
/// assignments loosest; prefix operators bind tighter than all of them.
/// (A smaller precedence binds tighter.)
pub proof fn law_c_precedence()
    ensures
        BinaryOperator::Mul.precedence_spec() == BinaryOperator::Div.precedence_spec(),
        BinaryOperator::Mul.precedence_spec() == BinaryOperator::Mod.precedence_spec(),
        BinaryOperator::Add.precedence_spec() == BinaryOperator::Sub.precedence_spec(),
        BinaryOperator::ShiftLeft.precedence_spec() == BinaryOperator::ShiftRight.precedence_spec(),
        BinaryOperator::LessThan.precedence_spec() == BinaryOperator::LessEqual.precedence_spec(),
        BinaryOperator::LessThan.precedence_spec() == BinaryOperator::GreaterThan.precedence_spec(),
        BinaryOperator::LessThan.precedence_spec() == BinaryOperator::GreaterEqual.precedence_spec(),
        BinaryOperator::Eequal.precedence_spec() == BinaryOperator::NotEqual.precedence_spec(),
        UnaryOperator::Minus.precedence_spec() < BinaryOperator::Mul.precedence_spec(),
        UnaryOperator::Plus.precedence_spec() < BinaryOperator::Mul.precedence_spec(),
        UnaryOperator::Not.precedence_spec() < BinaryOperator::Mul.precedence_spec(),
        UnaryOperator::BitwiseNot.precedence_spec() < BinaryOperator::Mul.precedence_spec(),
        BinaryOperator::Mul.precedence_spec() < BinaryOperator::Add.precedence_spec(),
        BinaryOperator::Add.precedence_spec() < BinaryOperator::ShiftLeft.precedence_spec(),
        BinaryOperator::ShiftLeft.precedence_spec() < BinaryOperator::LessThan.precedence_spec(),
        BinaryOperator::LessThan.precedence_spec() < BinaryOperator::Eequal.precedence_spec(),
        BinaryOperator::Eequal.precedence_spec() < BinaryOperator::BitwiseAnd.precedence_spec(),
        BinaryOperator::BitwiseAnd.precedence_spec() < BinaryOperator::BitwiseXor.precedence_spec(),
        BinaryOperator::BitwiseXor.precedence_spec() < BinaryOperator::BitwiseOr.precedence_spec(),
        BinaryOperator::BitwiseOr.precedence_spec() < BinaryOperator::And.precedence_spec(),
        BinaryOperator::And.precedence_spec() < BinaryOperator::Or.precedence_spec(),
        forall|b: BinaryOperator| #[trigger] crate::eval::is_assignment(b) ==> BinaryOperator::Or.precedence_spec()
            < b.precedence_spec(),
        forall|b: BinaryOperator|
            !crate::eval::is_assignment(b) ==> (#[trigger] b.associativity_spec()) == Associativity::LeftToRight,
{
}

#[derive(Debug, Clone, Copy, PartialEq, Eq, Structural)]
pub enum Bracing {
    LeftParenthesis,
    RightParenthesis,
    LeftBracket,
    RightBracket,
    LeftBrace,
    RightBrace,
}

#[derive(Debug, Clone, Copy, PartialEq, Eq, Structural)]
pub enum NonOpSymbol {
    Interrogation,
    Colon,
}

#[derive(Debug, PartialEq, Eq)]
pub enum PreprocessorToken {
    Operator(Operator),
    Bracing(Bracing),
    LiteralString(String),
    LiteralNumber(i32),
    Macro(String),
    NonOpSymbol(NonOpSymbol),
}

/// The mathematical value of a token.
pub enum TokenV {
    Operator(Operator),
    Bracing(Bracing),
    LiteralString(Seq<char>),
    LiteralNumber(i32),
    Macro(Seq<char>),
    NonOpSymbol(NonOpSymbol),
}

impl View for PreprocessorToken {
    type V = TokenV;

    open spec fn view(&self) -> TokenV {
        match self {
            PreprocessorToken::Operator(o) => TokenV::Operator(*o),
            PreprocessorToken::Bracing(b) => TokenV::Bracing(*b),
            PreprocessorToken::LiteralString(s) => TokenV::LiteralString(s@),
            PreprocessorToken::LiteralNumber(n) => TokenV::LiteralNumber(*n),
            PreprocessorToken::Macro(s) => TokenV::Macro(s@),
            PreprocessorToken::NonOpSymbol(s) => TokenV::NonOpSymbol(*s),
        }
    }
}

impl Clone for PreprocessorToken {
    fn clone(&self) -> (r: Self)
        ensures
            r == *self,
    {
        match self {
            PreprocessorToken::Operator(o) => PreprocessorToken::Operator(*o),
            PreprocessorToken::Bracing(b) => PreprocessorToken::Bracing(*b),
            PreprocessorToken::LiteralString(s) => PreprocessorToken::LiteralString(s.clone()),
            PreprocessorToken::LiteralNumber(n) => PreprocessorToken::LiteralNumber(*n),
            PreprocessorToken::Macro(s) => PreprocessorToken::Macro(s.clone()),
            PreprocessorToken::NonOpSymbol(s) => PreprocessorToken::NonOpSymbol(*s),
        }
    }
}

/// The views of a sequence of tokens.
pub open spec fn tokens_view(s: Seq<PreprocessorToken>) -> Seq<TokenV> {
    s.map_values(|t: PreprocessorToken| t@)
}

// ---------------------------------------------------------------------------
// `{:?}` renderings, used in error messages.

pub open spec fn unary_name(op: UnaryOperator) -> Seq<char> {
    match op {
        UnaryOperator::Plus => "Plus"@,
        UnaryOperator::Minus => "Minus"@,
        UnaryOperator::Not => "Not"@,
        UnaryOperator::BitwiseNot => "BitwiseNot"@,
        UnaryOperator::Defined => "Defined"@,
        UnaryOperator::Increment => "Increment"@,
        UnaryOperator::Decrement => "Decrement"@,
    }
}

pub open spec fn binary_name(op: BinaryOperator) -> Seq<char> {
    match op {
        BinaryOperator::Add => "Add"@,
        BinaryOperator::Sub => "Sub"@,
        BinaryOperator::Mul => "Mul"@,
        BinaryOperator::Div => "Div"@,
        BinaryOperator::Mod => "Mod"@,
        BinaryOperator::BitwiseAnd => "BitwiseAnd"@,
        BinaryOperator::BitwiseOr => "BitwiseOr"@,
        BinaryOperator::BitwiseXor => "BitwiseXor"@,
        BinaryOperator::And => "And"@,
        BinaryOperator::Or => "Or"@,
        BinaryOperator::ShiftLeft => "ShiftLeft"@,
        BinaryOperator::ShiftRight => "ShiftRight"@,
        BinaryOperator::NotEqual => "NotEqual"@,
        BinaryOperator::Eequal => "Eequal"@,
        BinaryOperator::LessThan => "LessThan"@,
        BinaryOperator::GreaterThan => "GreaterThan"@,
        BinaryOperator::LessEqual => "LessEqual"@,
        BinaryOperator::GreaterEqual => "GreaterEqual"@,
        BinaryOperator::AddAssign => "AddAssign"@,
        BinaryOperator::SubAssign => "SubAssign"@,
        BinaryOperator::MulAssign => "MulAssign"@,
        BinaryOperator::DivAssign => "DivAssign"@,
        BinaryOperator::ModAssign => "ModAssign"@,
        BinaryOperator::OrAssign => "OrAssign"@,
        BinaryOperator::AndAssign => "AndAssign"@,
        BinaryOperator::XorAssign => "XorAssign"@,
        BinaryOperator::ShiftLeftAssign => "ShiftLeftAssign"@,
        BinaryOperator::ShiftRightAssign => "ShiftRightAssign"@,
    }
}

pub open spec fn operator_debug(op: Operator) -> Seq<char> {
    match op {
        Operator::Unary(u) => "Unary("@ + unary_name(u) + ")"@,
        Operator::Binary(b) => "Binary("@ + binary_name(b) + ")"@,
        Operator::Conditional => "Conditional"@,
    }
}

pub open spec fn bracing_debug(b: Bracing) -> Seq<char> {
    match b {
        Bracing::LeftParenthesis => "LeftParenthesis"@,
        Bracing::RightParenthesis => "RightParenthesis"@,
        Bracing::LeftBracket => "LeftBracket"@,
        Bracing::RightBracket => "RightBracket"@,
        Bracing::LeftBrace => "LeftBrace"@,
        Bracing::RightBrace => "RightBrace"@,
    }
}

pub open spec fn symbol_debug(s: NonOpSymbol) -> Seq<char> {
    match s {
        NonOpSymbol::Interrogation => "Interrogation"@,
        NonOpSymbol::Colon => "Colon"@,
    }
}

/// The decimal numeral of a signed integer.
pub open spec fn int_decimal(v: int) -> Seq<char> {
    if v < 0 {
        "-"@ + decimal((-v) as nat)
    } else {
        decimal(v as nat)
    }
}

pub open spec fn token_debug(t: TokenV) -> Seq<char> {
    match t {
        TokenV::Operator(o) => "Operator("@ + operator_debug(o) + ")"@,
        TokenV::Bracing(b) => "Bracing("@ + bracing_debug(b) + ")"@,
        TokenV::LiteralString(s) => "LiteralString("@ + debug_text(s) + ")"@,
        TokenV::LiteralNumber(n) => "LiteralNumber("@ + int_decimal(n as int) + ")"@,
        TokenV::Macro(s) => "Macro("@ + debug_text(s) + ")"@,
        TokenV::NonOpSymbol(s) => "NonOpSymbol("@ + symbol_debug(s) + ")"@,
    }
}

impl UnaryOperator {
    pub fn name(&self) -> (r: String)
        ensures
            r@ == unary_name(*self),
    {
        match self {
            UnaryOperator::Plus => String::from_str("Plus"),
            UnaryOperator::Minus => String::from_str("Minus"),
            UnaryOperator::Not => String::from_str("Not"),
            UnaryOperator::BitwiseNot => String::from_str("BitwiseNot"),
            UnaryOperator::Defined => String::from_str("Defined"),
            UnaryOperator::Increment => String::from_str("Increment"),
            UnaryOperator::Decrement => String::from_str("Decrement"),
        }
    }
}

impl BinaryOperator {
    pub fn name(&self) -> (r: String)
        ensures
            r@ == binary_name(*self),
    {
        match self {
            BinaryOperator::Add => String::from_str("Add"),
            BinaryOperator::Sub => String::from_str("Sub"),
            BinaryOperator::Mul => String::from_str("Mul"),
            BinaryOperator::Div => String::from_str("Div"),
            BinaryOperator::Mod => String::from_str("Mod"),
            BinaryOperator::BitwiseAnd => String::from_str("BitwiseAnd"),
            BinaryOperator::BitwiseOr => String::from_str("BitwiseOr"),
            BinaryOperator::BitwiseXor => String::from_str("BitwiseXor"),
            BinaryOperator::And => String::from_str("And"),
            BinaryOperator::Or => String::from_str("Or"),
            BinaryOperator::ShiftLeft => String::from_str("ShiftLeft"),
            BinaryOperator::ShiftRight => String::from_str("ShiftRight"),
            BinaryOperator::NotEqual => String::from_str("NotEqual"),
            BinaryOperator::Eequal => String::from_str("Eequal"),
            BinaryOperator::LessThan => String::from_str("LessThan"),
            BinaryOperator::GreaterThan => String::from_str("GreaterThan"),
            BinaryOperator::LessEqual => String::from_str("LessEqual"),
            BinaryOperator::GreaterEqual => String::from_str("GreaterEqual"),
            BinaryOperator::AddAssign => String::from_str("AddAssign"),
            BinaryOperator::SubAssign => String::from_str("SubAssign"),
            BinaryOperator::MulAssign => String::from_str("MulAssign"),
            BinaryOperator::DivAssign => String::from_str("DivAssign"),
            BinaryOperator::ModAssign => String::from_str("ModAssign"),
            BinaryOperator::OrAssign => String::from_str("OrAssign"),
            BinaryOperator::AndAssign => String::from_str("AndAssign"),
            BinaryOperator::XorAssign => String::from_str("XorAssign"),
            BinaryOperator::ShiftLeftAssign => String::from_str("ShiftLeftAssign"),
            BinaryOperator::ShiftRightAssign => String::from_str("ShiftRightAssign"),
        }
    }
}

fn wrap_in(prefix: &str, inner: &str, suffix: &str) -> (r: String)
    ensures
        r@ == prefix@ + inner@ + suffix@,
{
    let mut r = concat(prefix, inner);
    r.append(suffix);
    r
}

impl Operator {
    /// The `{:?}` rendering of the operator.
    pub fn debug_text(&self) -> (r: String)
        ensures
            r@ == operator_debug(*self),
    {
        match self {
            Operator::Unary(u) => {
                let n = u.name();
                wrap_in("Unary(", n.as_str(), ")")
            },
            Operator::Binary(b) => {
                let n = b.name();
                wrap_in("Binary(", n.as_str(), ")")
            },
            Operator::Conditional => String::from_str("Conditional"),
        }
    }
}

impl Bracing {
    /// The `{:?}` rendering of the bracing.
    pub fn debug_text(&self) -> (r: String)
        ensures
            r@ == bracing_debug(*self),
    {
        match self {
            Bracing::LeftParenthesis => String::from_str("LeftParenthesis"),
            Bracing::RightParenthesis => String::from_str("RightParenthesis"),
            Bracing::LeftBracket => String::from_str("LeftBracket"),
            Bracing::RightBracket => String::from_str("RightBracket"),
            Bracing::LeftBrace => String::from_str("LeftBrace"),
            Bracing::RightBrace => String::from_str("RightBrace"),
        }
    }
}

impl NonOpSymbol {
    /// The `{:?}` rendering of the symbol.
    pub fn debug_text(&self) -> (r: String)
        ensures
            r@ == symbol_debug(*self),
    {
        match self {
            NonOpSymbol::Interrogation => String::from_str("Interrogation"),
            NonOpSymbol::Colon => String::from_str("Colon"),
        }
    }
}

/// The decimal numeral of a signed integer (as `v.to_string()`).
pub fn i32_to_string(v: i32) -> (r: String)
    ensures
        r@ == int_decimal(v as int),
{
    if v < 0 {
        let magnitude: i64 = -(v as i64);
        let digits = u32_to_string(magnitude as u32);
        concat("-", digits.as_str())
    } else {
        u32_to_string(v as u32)
    }
}

impl PreprocessorToken {
    /// The `{:?}` rendering of the token.
    pub fn debug_text(&self) -> (r: String)
        ensures
            r@ == token_debug(self@),
    {
        match self {
            PreprocessorToken::Operator(o) => {
                let t = o.debug_text();
                wrap_in("Operator(", t.as_str(), ")")
            },
            PreprocessorToken::Bracing(b) => {
                let t = b.debug_text();
                wrap_in("Bracing(", t.as_str(), ")")
            },
            PreprocessorToken::LiteralString(s) => {
                let t = debug_str(s.as_str());
                wrap_in("LiteralString(", t.as_str(), ")")
            },
            PreprocessorToken::LiteralNumber(n) => {
                let t = i32_to_string(*n);
                wrap_in("LiteralNumber(", t.as_str(), ")")
            },
            PreprocessorToken::Macro(s) => {
                let t = debug_str(s.as_str());
                wrap_in("Macro(", t.as_str(), ")")
            },
            PreprocessorToken::NonOpSymbol(s) => {
                let t = s.debug_text();
                wrap_in("NonOpSymbol(", t.as_str(), ")")
            },
        }
    }
}

// ---------------------------------------------------------------------------
// Characters and words.

/// The characters that end a word: blanks, operator and bracing signs.
pub open spec fn is_operator_char(c: char) -> bool {
    c == ' ' || c == '!' || c == '+' || c == '-' || c == '*' || c == '/' || c == '%' || c == '&'
        || c == '|' || c == '^' || c == '<' || c == '>' || c == '(' || c == ')' || c == '{' || c
        == '}' || c == '[' || c == ']' || c == '=' || c == ',' || c == ';' || c == ':' || c == '?'
        || c == '~' || c == '#' || c == '\\'
}

pub open spec fn no_operator(s: Seq<char>) -> bool {
    forall|i: int| 0 <= i < s.len() ==> !is_operator_char(#[trigger] s[i])
}

fn is_not_operator(ch: char) -> (b: bool)
    ensures
        b == !is_operator_char(ch),
{
    !(ch == ' ' || ch == '!' || ch == '+' || ch == '-' || ch == '*' || ch == '/' || ch == '%' || ch
        == '&' || ch == '|' || ch == '^' || ch == '<' || ch == '>' || ch == '(' || ch == ')' || ch
        == '{' || ch == '}' || ch == '[' || ch == ']' || ch == '=' || ch == ',' || ch == ';' || ch
        == ':' || ch == '?' || ch == '~' || ch == '#' || ch == '\\')
}

fn all_not_operator(s: &Vec<char>) -> (b: bool)
    ensures
        b == no_operator(s@),
{
    let mut i: usize = 0;
    while i < s.len()
        invariant
            i <= s@.len(),
            forall|j: int| 0 <= j < i ==> !is_operator_char(#[trigger] s@[j]),
        decreases s@.len() - i,
    {
        if !is_not_operator(s[i]) {
            return false;
        }
        i = i + 1;
    }
    true
}

// ---------------------------------------------------------------------------
// The texts that `str::parse::<f32>` accepts.

pub open spec fn is_ascii_digit(c: char) -> bool {
    '0' <= c && c <= '9'
}

/// Number of ASCII digits of `s` that follow one another from position `i`.
pub open spec fn digits_from(s: Seq<char>, i: int) -> nat
    decreases s.len() - i,
{
    if 0 <= i < s.len() && is_ascii_digit(s[i]) {
        1 + digits_from(s, i + 1)
    } else {
        0
    }
}

/// ASCII lower case of a character.
pub open spec fn ascii_lower(c: char) -> char {
    if 'A' <= c && c <= 'Z' {
        ((c as int) + 32) as char
    } else {
        c
    }
}

/// `s` equals the lower-case `word`, ignoring ASCII case.
pub open spec fn equals_ignoring_case(s: Seq<char>, word: Seq<char>) -> bool {
    s.len() == word.len() && forall|i: int| 0 <= i < s.len() ==> ascii_lower(#[trigger] s[i]) == word[i]
}

pub open spec fn is_sign(c: char) -> bool {
    c == '+' || c == '-'
}

/// `s` from position `i` on is empty or an exponent `e`, sign, digits.
pub open spec fn exponent_at(s: Seq<char>, i: int) -> bool {
    i == s.len() || (0 <= i < s.len() && (s[i] == 'e' || s[i] == 'E') && {
        let j = if i + 1 < s.len() && is_sign(s[i + 1]) { i + 2 } else { i + 1 };
        digits_from(s, j) > 0 && j + digits_from(s, j) == s.len()
    })
}

/// `Digit+ | Digit+ '.' Digit* | Digit* '.' Digit+`, then an optional exponent.
pub open spec fn decimal_number(s: Seq<char>) -> bool {
    let a = digits_from(s, 0);
    if a < s.len() && s[a as int] == '.' {
        let b = digits_from(s, (a + 1) as int);
        a + b > 0 && exponent_at(s, (a + 1 + b) as int)
    } else {
        a > 0 && exponent_at(s, a as int)
    }
}

/// The grammar of `f32::from_str`: an optional sign, then `inf`, `infinity`,
/// `nan` (in any case) or a decimal number.
pub open spec fn float_literal(s: Seq<char>) -> bool {
    let r = if s.len() > 0 && is_sign(s[0]) { s.drop_first() } else { s };
    ||| equals_ignoring_case(r, seq!['i', 'n', 'f'])
    ||| equals_ignoring_case(r, seq!['i', 'n', 'f', 'i', 'n', 'i', 't', 'y'])
    ||| equals_ignoring_case(r, seq!['n', 'a', 'n'])
    ||| decimal_number(r)
}

fn is_digit(c: char) -> (b: bool)
    ensures
        b == is_ascii_digit(c),
{
    '0' <= c && c <= '9'
}

fn count_digits(s: &Vec<char>, i: usize) -> (n: usize)
    requires
        i <= s@.len(),
    ensures
        n == digits_from(s@, i as int),
        i + n <= s@.len(),
    decreases s@.len() - i,
{
    if i < s.len() && is_digit(s[i]) {
        let m = count_digits(s, i + 1);
        m + 1
    } else {
        0
    }
}

fn lower_ascii(c: char) -> (r: char)
    ensures
        r == ascii_lower(c),
{
    if 'A' <= c && c <= 'Z' {
        let code: u8 = (c as u32 + 32) as u8;
        code as char
    } else {
        c
    }
}

fn matches_ignoring_case(s: &Vec<char>, start: usize, word: &Vec<char>) -> (b: bool)
    requires
        start <= s@.len(),
    ensures
        b == equals_ignoring_case(s@.skip(start as int), word@),
{
    let ghost r = s@.skip(start as int);
    if s.len() - start != word.len() {
        return false;
    }
    let n = s.len();
    let mut i: usize = 0;
    while i < word.len()
        invariant
            n == s@.len(),
            start <= s@.len(),
            r == s@.skip(start as int),
            s@.len() - start == word@.len(),
            i <= word@.len(),
            forall|j: int| 0 <= j < i ==> ascii_lower(#[trigger] r[j]) == word@[j],
        decreases word@.len() - i,
    {
        assert(start + i < n);
        if lower_ascii(s[start + i]) != word[i] {
            assert(r[i as int] == s@[start + i]);
            return false;
        }
        assert(r[i as int] == s@[start + i]);
        i = i + 1;
    }
    true
}

fn exponent_ok(s: &Vec<char>, i: usize) -> (b: bool)
    requires
        i <= s@.len(),
    ensures
        b == exponent_at(s@, i as int),
{
    if i == s.len() {
        return true;
    }
    if !(s[i] == 'e' || s[i] == 'E') {
        return false;
    }
    let j = if i + 1 < s.len() && (s[i + 1] == '+' || s[i + 1] == '-') { i + 2 } else { i + 1 };
    let d = count_digits(s, j);
    d > 0 && j + d == s.len()
}

fn decimal_number_at(s: &Vec<char>, start: usize) -> (b: bool)
    requires
        start <= s@.len(),
    ensures
        b == decimal_number(s@.skip(start as int)),
{
    let ghost r = s@.skip(start as int);
    let mut t: Vec<char> = Vec::new();
    let mut k = start;
    while k < s.len()
        invariant
            start <= k <= s@.len(),
            t@ == s@.subrange(start as int, k as int),
        decreases s@.len() - k,
    {
        t.push(s[k]);
        k = k + 1;
        assert(t@ =~= s@.subrange(start as int, k as int));
    }
    assert(t@ =~= r);
    let a = count_digits(&t, 0);
    if a < t.len() && t[a] == '.' {
        let b = count_digits(&t, a + 1);
        a + b > 0 && exponent_ok(&t, a + 1 + b)
    } else {
        a > 0 && exponent_ok(&t, a)
    }
}

/// Whether `s` reads as a float (`s.parse::<f32>().is_ok()`).
fn is_float_literal(s: &Vec<char>) -> (b: bool)
    ensures
        b == float_literal(s@),
{
    let start: usize = if s.len() > 0 && (s[0] == '+' || s[0] == '-') { 1 } else { 0 };
    proof {
        if start == 1 {
            assert(s@.skip(1) =~= s@.drop_first());
        } else {
            assert(s@.skip(0) =~= s@);
        }
    }
    let inf = vec!['i', 'n', 'f'];
    let infinity = vec!['i', 'n', 'f', 'i', 'n', 'i', 't', 'y'];
    let nan = vec!['n', 'a', 'n'];
    proof {
        assert(inf@ =~= seq!['i', 'n', 'f']);
        assert(infinity@ =~= seq!['i', 'n', 'f', 'i', 'n', 'i', 't', 'y']);
        assert(nan@ =~= seq!['n', 'a', 'n']);
    }
    matches_ignoring_case(s, start, &inf) || matches_ignoring_case(s, start, &infinity)
        || matches_ignoring_case(s, start, &nan) || decimal_number_at(s, start)
}

// ---------------------------------------------------------------------------
// Tokens of one, two or three signs.

pub open spec fn op_token(op: Operator) -> Option<TokenV> {
    Some(TokenV::Operator(op))
}

pub open spec fn sign_token1(c: char) -> Option<TokenV> {
    if c == '(' { Some(TokenV::Bracing(Bracing::LeftParenthesis)) }
    else if c == ')' { Some(TokenV::Bracing(Bracing::RightParenthesis)) }
    else if c == '[' { Some(TokenV::Bracing(Bracing::LeftBracket)) }
    else if c == ']' { Some(TokenV::Bracing(Bracing::RightBracket)) }
    else if c == '{' { Some(TokenV::Bracing(Bracing::LeftBrace)) }
    else if c == '}' { Some(TokenV::Bracing(Bracing::RightBrace)) }
    else if c == '?' { Some(TokenV::NonOpSymbol(NonOpSymbol::Interrogation)) }
    else if c == ':' { Some(TokenV::NonOpSymbol(NonOpSymbol::Colon)) }
    else if c == '*' { op_token(Operator::Binary(BinaryOperator::Mul)) }
    else if c == '/' { op_token(Operator::Binary(BinaryOperator::Div)) }
    else if c == '%' { op_token(Operator::Binary(BinaryOperator::Mod)) }
    else if c == '&' { op_token(Operator::Binary(BinaryOperator::BitwiseAnd)) }
    else if c == '|' { op_token(Operator::Binary(BinaryOperator::BitwiseOr)) }
    else if c == '^' { op_token(Operator::Binary(BinaryOperator::BitwiseXor)) }
    else if c == '<' { op_token(Operator::Binary(BinaryOperator::LessThan)) }
    else if c == '>' { op_token(Operator::Binary(BinaryOperator::GreaterThan)) }
    else if c == '!' { op_token(Operator::Unary(UnaryOperator::Not)) }
    else if c == '+' { op_token(Operator::Unary(UnaryOperator::Plus)) }
    else if c == '-' { op_token(Operator::Unary(UnaryOperator::Minus)) }
    else if c == '~' { op_token(Operator::Unary(UnaryOperator::BitwiseNot)) }
    else { None }
}

pub open spec fn sign_token2(a: char, b: char) -> Option<TokenV> {
    if a == '>' && b == '>' { op_token(Operator::Binary(BinaryOperator::ShiftRight)) }
    else if a == '<' && b == '<' { op_token(Operator::Binary(BinaryOperator::ShiftLeft)) }
    else if a == '!' && b == '=' { op_token(Operator::Binary(BinaryOperator::NotEqual)) }
    else if a == '=' && b == '=' { op_token(Operator::Binary(BinaryOperator::Eequal)) }
    else if a == '+' && b == '=' { op_token(Operator::Binary(BinaryOperator::AddAssign)) }
    else if a == '-' && b == '=' { op_token(Operator::Binary(BinaryOperator::SubAssign)) }
    else if a == '*' && b == '=' { op_token(Operator::Binary(BinaryOperator::MulAssign)) }
    else if a == '/' && b == '=' { op_token(Operator::Binary(BinaryOperator::DivAssign)) }
    else if a == '%' && b == '=' { op_token(Operator::Binary(BinaryOperator::ModAssign)) }
    else if a == '<' && b == '=' { op_token(Operator::Binary(BinaryOperator::LessEqual)) }
    else if a == '>' && b == '=' { op_token(Operator::Binary(BinaryOperator::GreaterEqual)) }
    else if a == '&' && b == '=' { op_token(Operator::Binary(BinaryOperator::AndAssign)) }
    else if a == '|' && b == '=' { op_token(Operator::Binary(BinaryOperator::OrAssign)) }
    else if a == '^' && b == '=' { op_token(Operator::Binary(BinaryOperator::XorAssign)) }
    else if a == '&' && b == '&' { op_token(Operator::Binary(BinaryOperator::And)) }
    else if a == '|' && b == '|' { op_token(Operator::Binary(BinaryOperator::Or)) }
    else if a == '+' && b == '+' { op_token(Operator::Unary(UnaryOperator::Increment)) }
    else if a == '-' && b == '-' { op_token(Operator::Unary(UnaryOperator::Decrement)) }
    else { None }
}

pub open spec fn sign_token3(a: char, b: char, c: char) -> Option<TokenV> {
    if a == '>' && b == '>' && c == '=' { op_token(Operator::Binary(BinaryOperator::ShiftRightAssign)) }
    else if a == '<' && b == '<' && c == '=' { op_token(Operator::Binary(BinaryOperator::ShiftLeftAssign)) }
    else { None }
}

pub open spec fn defined_word() -> Seq<char> {
    seq!['d', 'e', 'f', 'i', 'n', 'e', 'd']
}

/// The fixed spellings of operators, bracings, `?`, `:` and `defined`.
pub open spec fn fixed_token(s: Seq<char>) -> Option<TokenV> {
    if s.len() == 1 {
        sign_token1(s[0])
    } else if s.len() == 2 {
        sign_token2(s[0], s[1])
    } else if s.len() == 3 {
        sign_token3(s[0], s[1], s[2])
    } else if s == defined_word() {
        op_token(Operator::Unary(UnaryOperator::Defined))
    } else {
        None
    }
}

fn op(o: Operator) -> (r: Option<PreprocessorToken>)
    ensures
        r matches Some(t) && t@ == TokenV::Operator(o),
{
    Some(PreprocessorToken::Operator(o))
}

fn sign1(c: char) -> (r: Option<PreprocessorToken>)
    ensures
        match sign_token1(c) {
            Some(t) => r matches Some(x) && x@ == t,
            None => r is None,
        },
{
    match c {
        '(' => Some(PreprocessorToken::Bracing(Bracing::LeftParenthesis)),
        ')' => Some(PreprocessorToken::Bracing(Bracing::RightParenthesis)),
        '[' => Some(PreprocessorToken::Bracing(Bracing::LeftBracket)),
        ']' => Some(PreprocessorToken::Bracing(Bracing::RightBracket)),
        '{' => Some(PreprocessorToken::Bracing(Bracing::LeftBrace)),
        '}' => Some(PreprocessorToken::Bracing(Bracing::RightBrace)),
        '?' => Some(PreprocessorToken::NonOpSymbol(NonOpSymbol::Interrogation)),
        ':' => Some(PreprocessorToken::NonOpSymbol(NonOpSymbol::Colon)),
        '*' => op(Operator::Binary(BinaryOperator::Mul)),
        '/' => op(Operator::Binary(BinaryOperator::Div)),
        '%' => op(Operator::Binary(BinaryOperator::Mod)),
        '&' => op(Operator::Binary(BinaryOperator::BitwiseAnd)),
        '|' => op(Operator::Binary(BinaryOperator::BitwiseOr)),
        '^' => op(Operator::Binary(BinaryOperator::BitwiseXor)),
        '<' => op(Operator::Binary(BinaryOperator::LessThan)),
        '>' => op(Operator::Binary(BinaryOperator::GreaterThan)),
        '!' => op(Operator::Unary(UnaryOperator::Not)),
        '+' => op(Operator::Unary(UnaryOperator::Plus)),
        '-' => op(Operator::Unary(UnaryOperator::Minus)),
        '~' => op(Operator::Unary(UnaryOperator::BitwiseNot)),
        _ => None,
    }
}

fn sign2(a: char, b: char) -> (r: Option<PreprocessorToken>)
    ensures
        match sign_token2(a, b) {
            Some(t) => r matches Some(x) && x@ == t,
            None => r is None,
        },
{
    if a == '>' && b == '>' { op(Operator::Binary(BinaryOperator::ShiftRight)) }
    else if a == '<' && b == '<' { op(Operator::Binary(BinaryOperator::ShiftLeft)) }
    else if a == '!' && b == '=' { op(Operator::Binary(BinaryOperator::NotEqual)) }
    else if a == '=' && b == '=' { op(Operator::Binary(BinaryOperator::Eequal)) }
    else if a == '+' && b == '=' { op(Operator::Binary(BinaryOperator::AddAssign)) }
    else if a == '-' && b == '=' { op(Operator::Binary(BinaryOperator::SubAssign)) }
    else if a == '*' && b == '=' { op(Operator::Binary(BinaryOperator::MulAssign)) }
    else if a == '/' && b == '=' { op(Operator::Binary(BinaryOperator::DivAssign)) }
    else if a == '%' && b == '=' { op(Operator::Binary(BinaryOperator::ModAssign)) }
    else if a == '<' && b == '=' { op(Operator::Binary(BinaryOperator::LessEqual)) }
    else if a == '>' && b == '=' { op(Operator::Binary(BinaryOperator::GreaterEqual)) }
    else if a == '&' && b == '=' { op(Operator::Binary(BinaryOperator::AndAssign)) }
    else if a == '|' && b == '=' { op(Operator::Binary(BinaryOperator::OrAssign)) }
    else if a == '^' && b == '=' { op(Operator::Binary(BinaryOperator::XorAssign)) }
    else if a == '&' && b == '&' { op(Operator::Binary(BinaryOperator::And)) }
    else if a == '|' && b == '|' { op(Operator::Binary(BinaryOperator::Or)) }
    else if a == '+' && b == '+' { op(Operator::Unary(UnaryOperator::Increment)) }
    else if a == '-' && b == '-' { op(Operator::Unary(UnaryOperator::Decrement)) }
    else { None }
}

fn fixed(s: &Vec<char>) -> (r: Option<PreprocessorToken>)
    ensures
        match fixed_token(s@) {
            Some(t) => r matches Some(x) && x@ == t,
            None => r is None,
        },
{
    if s.len() == 1 {
        sign1(s[0])
    } else if s.len() == 2 {
        sign2(s[0], s[1])
    } else if s.len() == 3 {
        if s[0] == '>' && s[1] == '>' && s[2] == '=' {
            op(Operator::Binary(BinaryOperator::ShiftRightAssign))
        } else if s[0] == '<' && s[1] == '<' && s[2] == '=' {
            op(Operator::Binary(BinaryOperator::ShiftLeftAssign))
        } else {
            None
        }
    } else if s.len() == 7 && s[0] == 'd' && s[1] == 'e' && s[2] == 'f' && s[3] == 'i' && s[4] == 'n'
        && s[5] == 'e' && s[6] == 'd' {
        assert(s@ =~= defined_word());
        op(Operator::Unary(UnaryOperator::Defined))
    } else {
        proof {
            if s@ == defined_word() {
                assert(s@[0] == 'd' && s@[6] == 'd');
            }
        }
        None
    }
}

// ---------------------------------------------------------------------------
// One token from its text.

/// `s` starts with `q` and holds no other `q` but possibly as its last character.
pub open spec fn quoted_with(s: Seq<char>, q: char) -> bool {
    s.len() > 0 && s[0] == q && forall|k: int| 1 <= k < s.len() && #[trigger] s[k] == q ==> k == s.len() - 1
}

pub open spec fn quoted(s: Seq<char>) -> bool {
    quoted_with(s, '"') || quoted_with(s, '\'')
}

pub open spec fn delimiter_failure() -> FailureV {
    FailureV::System(SystemErrorV::CompilationError("Found string but could not parse the delimiters."@))
}

/// What the text `s` reads as: nothing, a token, or a failure. A numeric
/// literal takes its value from `values`; a literal that `values` does not
/// hold gives `LiteralValueNeeded`. A quoted text keeps what lies between
/// its first and its last character; it must have at least two characters
/// and end with an ASCII one.
pub open spec fn token_spec(s: Seq<char>, values: Map<Seq<char>, i32>) -> Result<Option<TokenV>, FailureV> {
    if s.len() == 0 {
        Ok(None)
    } else if float_literal(s) {
        if no_operator(s) {
            if values.contains_key(s) {
                Ok(Some(TokenV::LiteralNumber(values[s])))
            } else {
                Err(FailureV::LiteralValueNeeded(s))
            }
        } else {
            Ok(None)
        }
    } else if fixed_token(s) is Some {
        Ok(fixed_token(s))
    } else if quoted(s) {
        if s.len() >= 2 && (s.last() as u32) < 128 {
            Ok(Some(TokenV::LiteralString(s.subrange(1, s.len() - 1))))
        } else {
            Err(delimiter_failure())
        }
    } else if no_operator(s) {
        Ok(Some(TokenV::Macro(s)))
    } else {
        Ok(None)
    }
}

/// The C spelling of an operator; the conditional operator has none of its
/// own.
pub open spec fn spelling(o: Operator) -> Seq<char> {
    match o {
        Operator::Unary(u) => match u {
            UnaryOperator::Plus => seq!['+'],
            UnaryOperator::Minus => seq!['-'],
            UnaryOperator::Not => seq!['!'],
            UnaryOperator::BitwiseNot => seq!['~'],
            UnaryOperator::Defined => seq!['d', 'e', 'f', 'i', 'n', 'e', 'd'],
            UnaryOperator::Increment => seq!['+', '+'],
            UnaryOperator::Decrement => seq!['-', '-'],
        },
        Operator::Binary(b) => match b {
            BinaryOperator::Add => seq!['+'],
            BinaryOperator::Sub => seq!['-'],
            BinaryOperator::Mul => seq!['*'],
            BinaryOperator::Div => seq!['/'],
            BinaryOperator::Mod => seq!['%'],
            BinaryOperator::BitwiseAnd => seq!['&'],
            BinaryOperator::BitwiseOr => seq!['|'],
            BinaryOperator::BitwiseXor => seq!['^'],
            BinaryOperator::And => seq!['&', '&'],
            BinaryOperator::Or => seq!['|', '|'],
            BinaryOperator::ShiftLeft => seq!['<', '<'],
            BinaryOperator::ShiftRight => seq!['>', '>'],
            BinaryOperator::NotEqual => seq!['!', '='],
            BinaryOperator::Eequal => seq!['=', '='],
            BinaryOperator::LessThan => seq!['<'],
            BinaryOperator::GreaterThan => seq!['>'],
            BinaryOperator::LessEqual => seq!['<', '='],
            BinaryOperator::GreaterEqual => seq!['>', '='],
            BinaryOperator::AddAssign => seq!['+', '='],
            BinaryOperator::SubAssign => seq!['-', '='],
            BinaryOperator::MulAssign => seq!['*', '='],
            BinaryOperator::DivAssign => seq!['/', '='],
            BinaryOperator::ModAssign => seq!['%', '='],
            BinaryOperator::OrAssign => seq!['|', '='],
            BinaryOperator::AndAssign => seq!['&', '='],
            BinaryOperator::XorAssign => seq!['^', '='],
            BinaryOperator::ShiftLeftAssign => seq!['<', '<', '='],
            BinaryOperator::ShiftRightAssign => seq!['>', '>', '='],
        },
        Operator::Conditional => Seq::empty(),
    }
}

/// Each operator spelling is read as the operator C gives it, except that
/// a lone `+` or `-` is read as the prefix operator (the tree builder makes
/// it a binary one after an operand).
pub proof fn law_operator_spellings(o: Operator, values: Map<Seq<char>, i32>)
    requires
        !(o is Conditional),
        o != Operator::Binary(BinaryOperator::Add),
        o != Operator::Binary(BinaryOperator::Sub),
    ensures
        token_spec(spelling(o), values) == Ok::<Option<TokenV>, FailureV>(Some(TokenV::Operator(o))),
{
    let s = spelling(o);
    assert(!float_literal(s));
}

/// `+` and `-` are read as the prefix operators.
pub proof fn law_sign_spellings(values: Map<Seq<char>, i32>)
    ensures
        token_spec(seq!['+'], values) == Ok::<Option<TokenV>, FailureV>(
            Some(TokenV::Operator(Operator::Unary(UnaryOperator::Plus))),
        ),
        token_spec(seq!['-'], values) == Ok::<Option<TokenV>, FailureV>(
            Some(TokenV::Operator(Operator::Unary(UnaryOperator::Minus))),
        ),
{
    assert(!float_literal(seq!['+']));
    assert(!float_literal(seq!['-']));
}

pub open spec fn token_result_view(r: Result<Option<PreprocessorToken>, Failure>) -> Result<Option<TokenV>, FailureV> {
    match r {
        Ok(Some(t)) => Ok(Some(t@)),
        Ok(None) => Ok(None),
        Err(f) => Err(f@),
    }
}

fn is_quoted_with(s: &Vec<char>, q: char) -> (b: bool)
    ensures
        b == quoted_with(s@, q),
{
    if s.len() == 0 || s[0] != q {
        return false;
    }
    let mut k: usize = 1;
    while k < s.len()
        invariant
            1 <= k <= s@.len(),
            forall|j: int| 1 <= j < k && #[trigger] s@[j] == q ==> j == s@.len() - 1,
        decreases s@.len() - k,
    {
        if s[k] == q && k != s.len() - 1 {
            return false;
        }
        k = k + 1;
    }
    true
}

fn text_of(s: &Vec<char>) -> (r: String)
    ensures
        r@ == s@,
{
    string_of(s.as_slice())
}

/// The token that the characters `s` read as.
fn token_from_chars(s: &Vec<char>, values: &TextMap<i32>) -> (r: Result<Option<PreprocessorToken>, Failure>)
    ensures
        token_result_view(r) == token_spec(s@, values@),
{
    if s.len() == 0 {
        return Ok(None);
    }
    let no_op = all_not_operator(s);
    if is_float_literal(s) {
        if no_op {
            let word = text_of(s);
            match values.get(word.as_str()) {
                Some(v) => Ok(Some(PreprocessorToken::LiteralNumber(*v))),
                None => Err(Failure::LiteralValueNeeded(word)),
            }
        } else {
            Ok(None)
        }
    } else {
        let f = fixed(s);
        if f.is_some() {
            return Ok(f);
        }
        if is_quoted_with(s, '"') || is_quoted_with(s, '\'') {
            let last = s[s.len() - 1];
            if s.len() >= 2 && (last as u32) < 128 {
                let mut inner: Vec<char> = Vec::new();
                let mut k: usize = 1;
                while k < s.len() - 1
                    invariant
                        1 <= k <= s@.len() - 1,
                        inner@ == s@.subrange(1, k as int),
                    decreases s@.len() - 1 - k,
                {
                    inner.push(s[k]);
                    k = k + 1;
                    assert(inner@ =~= s@.subrange(1, k as int));
                }
                Ok(Some(PreprocessorToken::LiteralString(text_of(&inner))))
            } else {
                Err(Failure::System(SystemError::CompilationError(String::from_str("Found string but could not parse the delimiters."))))
            }
        } else if no_op {
            Ok(Some(PreprocessorToken::Macro(text_of(s))))
        } else {
            Ok(None)
        }
    }
}

/// The token that `token_str` reads as (see `token_spec`).
pub fn token_from_str(token_str: &str, values: &TextMap<i32>) -> (r: Result<Option<PreprocessorToken>, Failure>)
    ensures
        token_result_view(r) == token_spec(token_str@, values@),
{
    let s = chars_of(token_str);
    token_from_chars(&s, values)
}

// ---------------------------------------------------------------------------
// The tokenizer.

/// One character of the tokenizer: the current text grows by `ch` while it
/// still reads as a token; otherwise the current text is emitted (if it is a
/// token) and a new text starts at `ch`.
pub open spec fn tokenize_char(
    tokens: Seq<TokenV>,
    current: Seq<char>,
    ch: char,
    values: Map<Seq<char>, i32>,
) -> Result<(Seq<TokenV>, Seq<char>), FailureV> {
    match token_spec(current.push(ch), values) {
        Err(e) => Err(e),
        Ok(Some(_)) => Ok((tokens, current.push(ch))),
        Ok(None) => match token_spec(current, values) {
            Err(e) => Err(e),
            Ok(Some(t)) => Ok((tokens.push(t), seq![ch])),
            Ok(None) => Ok((tokens, seq![ch])),
        },
    }
}

/// The tokenizer after the first `n` characters of `s`: the tokens emitted,
/// the current text and the column; or the failure and the column then.
/// The column grows by one per character and may not pass `u32::MAX`.
pub open spec fn tokenize_prefix(s: Seq<char>, n: nat, values: Map<Seq<char>, i32>, col: u32) -> Result<
    (Seq<TokenV>, Seq<char>, u32),
    (FailureV, u32),
>
    decreases n,
{
    if n == 0 {
        Ok((Seq::empty(), Seq::empty(), col))
    } else {
        match tokenize_prefix(s, (n - 1) as nat, values, col) {
            Err(e) => Err(e),
            Ok((tokens, current, c)) => match tokenize_char(tokens, current, s[n - 1], values) {
                Err(e) => Err((e, c)),
                Ok((t2, c2)) => if c == u32::MAX {
                    Err((FailureV::General(GeneralErrorV::Overflow), c))
                } else {
                    Ok((t2, c2, (c + 1) as u32))
                },
            },
        }
    }
}

/// The tokens of `s`, and the column after it; or the failure and the
/// column at that point.
pub open spec fn tokenize(s: Seq<char>, values: Map<Seq<char>, i32>, col: u32) -> Result<
    (Seq<TokenV>, u32),
    (FailureV, u32),
> {
    match tokenize_prefix(s, s.len(), values, col) {
        Err(e) => Err(e),
        Ok((tokens, current, c)) => match token_spec(current, values) {
            Err(e) => Err((e, c)),
            Ok(Some(t)) => Ok((tokens.push(t), c)),
            Ok(None) => Ok((tokens, c)),
        },
    }
}

proof fn lemma_token_request(s: Seq<char>, values: Map<Seq<char>, i32>)
    ensures
        token_spec(s, values) matches Err(FailureV::LiteralValueNeeded(w)) ==> w == s && float_literal(w)
            && !values.contains_key(w),
{
}

proof fn lemma_tokenize_prefix_request(s: Seq<char>, n: nat, values: Map<Seq<char>, i32>, col: u32)
    ensures
        tokenize_prefix(s, n, values, col) matches Err((FailureV::LiteralValueNeeded(w), c)) ==> float_literal(w)
            && !values.contains_key(w),
    decreases n,
{
    if n > 0 {
        lemma_tokenize_prefix_request(s, (n - 1) as nat, values, col);
        if let Ok((tokens, current, c)) = tokenize_prefix(s, (n - 1) as nat, values, col) {
            lemma_token_request(current.push(s[n - 1]), values);
            lemma_token_request(current, values);
        }
    }
}

/// The tokenizer asks only for the value of a numeric literal (a text that
/// reads as a 32-bit float) that the table of values does not hold yet.
pub proof fn law_literal_requests_are_new(s: Seq<char>, values: Map<Seq<char>, i32>, col: u32)
    ensures
        tokenize(s, values, col) matches Err((FailureV::LiteralValueNeeded(w), c)) ==> float_literal(w)
            && !values.contains_key(w),
{
    lemma_tokenize_prefix_request(s, s.len(), values, col);
    if let Ok((tokens, current, c)) = tokenize_prefix(s, s.len(), values, col) {
        lemma_token_request(current, values);
    }
}


/// Once the tokenizer fails, it stays failed with the same failure.
proof fn lemma_tokenize_failure_sticks(s: Seq<char>, k: nat, n: nat, values: Map<Seq<char>, i32>, col: u32)
    requires
        k <= n <= s.len(),
        tokenize_prefix(s, k, values, col) is Err,
    ensures
        tokenize(s, values, col) is Err && tokenize(s, values, col)->Err_0 == tokenize_prefix(s, k, values, col)->Err_0,
{
    lemma_tokenize_failure_sticks_prefix(s, k, s.len(), values, col);
}

proof fn lemma_tokenize_failure_sticks_prefix(s: Seq<char>, k: nat, n: nat, values: Map<Seq<char>, i32>, col: u32)
    requires
        k <= n <= s.len(),
        tokenize_prefix(s, k, values, col) is Err,
    ensures
        tokenize_prefix(s, n, values, col) == tokenize_prefix(s, k, values, col),
    decreases n - k,
{
    if n > k {
        lemma_tokenize_failure_sticks_prefix(s, k, (n - 1) as nat, values, col);
    }
}

/// Splits a preprocessor expression into tokens. The column of the current
/// position advances by one per character; nothing else of the state
/// changes.
pub fn parse_preprocessor(string: &str, state: &mut State) -> (r: Result<Vec<PreprocessorToken>, Failure>)
    ensures
        final(state).comment_level == old(state).comment_level,
        final(state).inline_comment == old(state).inline_comment,
        final(state).directive_parsing == old(state).directive_parsing,
        final(state).comment_unclosed_positon == old(state).comment_unclosed_positon,
        final(state).defines == old(state).defines,
        final(state).if_writing == old(state).if_writing,
        final(state).if_level == old(state).if_level,
        final(state).include_stack == old(state).include_stack,
        final(state).literal_values == old(state).literal_values,
        final(state).warnings == old(state).warnings,
        final(state).current_position.line == old(state).current_position.line,
        final(state).current_position.filename == old(state).current_position.filename,
        final(state).current_position.filepath == old(state).current_position.filepath,
        match tokenize(string@, old(state).literal_values@, old(state).current_position.col) {
            Ok((tokens, col)) => r matches Ok(v) && tokens_view(v@) == tokens
                && final(state).current_position.col == col,
            Err((e, col)) => r matches Err(f) && f@ == e && final(state).current_position.col == col,
        },
{
    let chars = chars_of(string);
    let mut tokens: Vec<PreprocessorToken> = Vec::new();
    let mut current: Vec<char> = Vec::new();
    let mut i: usize = 0;
    assert(tokens_view(tokens@) =~= Seq::<TokenV>::empty());
    assert(current@ =~= Seq::<char>::empty());
    while i < chars.len()
        invariant
            chars@ == string@,
            i <= chars@.len(),
            state.comment_level == old(state).comment_level,
            state.inline_comment == old(state).inline_comment,
            state.directive_parsing == old(state).directive_parsing,
            state.comment_unclosed_positon == old(state).comment_unclosed_positon,
            state.defines == old(state).defines,
            state.if_writing == old(state).if_writing,
            state.if_level == old(state).if_level,
            state.include_stack == old(state).include_stack,
            state.literal_values == old(state).literal_values,
            state.warnings == old(state).warnings,
            state.current_position.line == old(state).current_position.line,
            state.current_position.filename == old(state).current_position.filename,
            state.current_position.filepath == old(state).current_position.filepath,
            tokenize_prefix(string@, i as nat, old(state).literal_values@, old(state).current_position.col)
                == Ok::<_, (FailureV, u32)>((tokens_view(tokens@), current@, state.current_position.col)),
        decreases chars@.len() - i,
    {
        let ch = chars[i];
        let ghost before_tokens = tokens_view(tokens@);
        let ghost before_current = current@;
        current.push(ch);
        let grown = token_from_chars(&current, &state.literal_values);
        proof {
            assert(before_current.push(ch) == current@);
        }
        match grown {
            Err(e) => {
                proof {
                    lemma_tokenize_failure_sticks(string@, (i + 1) as nat, string@.len(), old(state).literal_values@, old(state).current_position.col);
                }
                return Err(e);
            },
            Ok(Some(_)) => {},
            Ok(None) => {
                current.pop();
                assert(current@ =~= before_current);
                let previous = token_from_chars(&current, &state.literal_values);
                match previous {
                    Err(e) => {
                        proof {
                            lemma_tokenize_failure_sticks(string@, (i + 1) as nat, string@.len(), old(state).literal_values@, old(state).current_position.col);
                        }
                        return Err(e);
                    },
                    Ok(Some(t)) => {
                        tokens.push(t);
                        assert(tokens_view(tokens@) =~= before_tokens.push(t@));
                    },
                    Ok(None) => {},
                }
                current = vec![ch];
                assert(current@ =~= seq![ch]);
            },
        }
        match state.current_position.col.checked_add(1) {
            Some(c) => {
                state.current_position.col = c;
            },
            None => {
                proof {
                    lemma_tokenize_failure_sticks(string@, (i + 1) as nat, string@.len(), old(state).literal_values@, old(state).current_position.col);
                }
                return Err(Failure::General(GeneralError::Overflow));
            },
        }
        i = i + 1;
    }
    let last = token_from_chars(&current, &state.literal_values);
    match last {
        Err(e) => Err(e),
        Ok(Some(t)) => {
            let ghost before_tokens = tokens_view(tokens@);
            tokens.push(t);
            assert(tokens_view(tokens@) =~= before_tokens.push(t@));
            Ok(tokens)
        },
        Ok(None) => Ok(tokens),
    }
}

} // verus!
