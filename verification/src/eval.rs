//! From tokens to a tree, and from a tree to its value.
use vstd::prelude::*;
use vstd::string::*;

use crate::errors::{
    FailError, Failure, FailureV, FilePosition, FilePositionV, GeneralError, GeneralErrorV,
    PreprocessorError, PreprocessorErrorV, report, preprocessor_code, PREPROCESSOR_INCREMENT,
};
use crate::parser::{
    parse_preprocessor, tokenize, tokens_view, token_debug, operator_debug, bracing_debug,
    symbol_debug, Associativity, BinaryOperator, Bracing, NonOpSymbol, Operator, OperatorTrait,
    PreprocessorToken, TokenV, UnaryOperator, max_precedence_spec,
};
use crate::structs::{strings_view, MacroValue, MacroValueV, State};
use crate::text::concat;

verus! {

/// The tree of a preprocessor expression.
#[derive(Debug, PartialEq)]
pub enum PreprocessorAst {
    Empty,
    TernaryTree {
        left: Box<PreprocessorAst>,
        center: Box<PreprocessorAst>,
        right: Box<PreprocessorAst>,
    },
    BinaryTree {
        binary_operator: BinaryOperator,
        left: Box<PreprocessorAst>,
        right: Box<PreprocessorAst>,
    },
    UnaryTree {
        unary_operator: UnaryOperator,
        child: Box<PreprocessorAst>,
    },
    Leaf(PreprocessorToken),
}

/// The mathematical value of a tree.
pub enum AstV {
    Empty,
    TernaryTree { left: Box<AstV>, center: Box<AstV>, right: Box<AstV> },
    BinaryTree { binary_operator: BinaryOperator, left: Box<AstV>, right: Box<AstV> },
    UnaryTree { unary_operator: UnaryOperator, child: Box<AstV> },
    Leaf(TokenV),
}

pub open spec fn ast_view(a: &PreprocessorAst) -> AstV
    decreases a,
{
    match a {
        PreprocessorAst::Empty => AstV::Empty,
        PreprocessorAst::TernaryTree { left, center, right } => AstV::TernaryTree {
            left: Box::new(ast_view(left)),
            center: Box::new(ast_view(center)),
            right: Box::new(ast_view(right)),
        },
        PreprocessorAst::BinaryTree { binary_operator, left, right } => AstV::BinaryTree {
            binary_operator: *binary_operator,
            left: Box::new(ast_view(left)),
            right: Box::new(ast_view(right)),
        },
        PreprocessorAst::UnaryTree { unary_operator, child } => AstV::UnaryTree {
            unary_operator: *unary_operator,
            child: Box::new(ast_view(child)),
        },
        PreprocessorAst::Leaf(t) => AstV::Leaf(t@),
    }
}

impl View for PreprocessorAst {
    type V = AstV;

    open spec fn view(&self) -> AstV {
        ast_view(self)
    }
}

impl Default for PreprocessorAst {
    fn default() -> (r: Self)
        ensures
            r@ == AstV::Empty,
    {
        PreprocessorAst::Empty
    }
}

impl PreprocessorAst {
    /// Whether the tree is `Empty`.
    pub fn is_empty(&self) -> (b: bool)
        ensures
            b == (self@ is Empty),
    {
        match self {
            PreprocessorAst::Empty => true,
            _ => false,
        }
    }
}

// ---------------------------------------------------------------------------
// From tokens to a tree.

/// The precedence of the context an operator is read in.
pub open spec fn context_precedence(previous: Option<Operator>) -> u32 {
    match previous {
        Some(op) => op.precedence_spec(),
        None => max_precedence_spec(),
    }
}

pub open spec fn is_assignment(b: BinaryOperator) -> bool {
    match b {
        BinaryOperator::AddAssign | BinaryOperator::SubAssign | BinaryOperator::MulAssign
        | BinaryOperator::DivAssign | BinaryOperator::ModAssign | BinaryOperator::OrAssign
        | BinaryOperator::AndAssign | BinaryOperator::XorAssign
        | BinaryOperator::ShiftLeftAssign | BinaryOperator::ShiftRightAssign => true,
        _ => false,
    }
}

pub open spec fn preprocessor_failure(e: PreprocessorErrorV) -> FailureV {
    FailureV::Preprocessor(e)
}

pub open spec fn clamp(k: nat, low: nat, high: nat) -> nat {
    if k < low {
        low
    } else if k > high {
        high
    } else {
        k
    }
}

/// What the tree builder gives back: the tree, the position after it, the
/// depth of parentheses then, the third accumulator and the warnings.
pub struct Built {
    pub tree: AstV,
    pub index: nat,
    pub level: nat,
    pub acc3: AstV,
    pub warnings: Seq<Seq<char>>,
}

/// The diagnostic for a `)` that closes no parenthesis.
pub open spec fn unmatched_parenthesis() -> Seq<char> {
    "Overflow on subtract (this is totally normal, don't worry)"@
}

/// A failure of the tree builder, with the warnings given before it.
pub type BuildFailure = (FailureV, Seq<Seq<char>>);

/// The tree builder on the tokens `t` from position `i`, with the tree read
/// so far `acc`, the operator whose operand is being read `previous`, the
/// depth of parentheses `pl`, the third accumulator `a3` and the warnings
/// `w`; or a failure.
///
/// A value replaces the tree read so far; `(` starts a new expression, whose
/// value is the result; `)` ends the expression being read (a `)` at depth
/// zero adds a warning); a binary operator that binds less tightly than
/// `previous` (or as tightly, left to right) is left unread for the caller;
/// otherwise its right operand is read, and reading goes on with the new
/// tree unless the right operand closed a parenthesis. A prefix `+` or `-`
/// on an empty tree applies to what follows up to the first looser
/// operator, and ends the expression. Where reading goes on after an
/// operator while the third accumulator holds a tree, the rest is read into
/// that accumulator and the tree given back is empty.
pub open spec fn ast_from(
    t: Seq<TokenV>,
    i: nat,
    acc: AstV,
    previous: Option<Operator>,
    pl: nat,
    a3: AstV,
    w: Seq<Seq<char>>,
) -> Result<Built, BuildFailure>
    decreases t.len() - i, 0nat,
{
    if i >= t.len() {
        Ok(Built { tree: acc, index: i, level: pl, acc3: a3, warnings: w })
    } else {
        let j = i + 1;
        let prev_prec = context_precedence(previous);
        match t[i as int] {
            TokenV::Operator(op) => match op {
                Operator::Unary(u) => match u {
                    UnaryOperator::Plus | UnaryOperator::Minus => {
                        if acc is Empty {
                            match ast_from(t, j, acc, Some(op), pl, a3, w) {
                                Err(e) => Err(e),
                                Ok(b) => Ok(
                                    Built {
                                        tree: AstV::UnaryTree { unary_operator: u, child: Box::new(b.tree) },
                                        ..b
                                    },
                                ),
                            }
                        } else {
                            let bop = if u is Plus { BinaryOperator::Add } else { BinaryOperator::Sub };
                            ast_binary(t, j, acc, previous, bop, prev_prec, pl, a3, w)
                        }
                    },
                    UnaryOperator::Not | UnaryOperator::BitwiseNot | UnaryOperator::Defined => {
                        if op.precedence_spec() > prev_prec {
                            Err((preprocessor_failure(PreprocessorErrorV::DefinedChildNotMacro), w))
                        } else if acc is Empty {
                            match ast_from(t, j, AstV::Empty, Some(op), pl, AstV::Empty, w) {
                                Err(e) => Err(e),
                                Ok(b) => ast_continue(
                                    t,
                                    clamp(b.index, j, t.len()),
                                    AstV::UnaryTree { unary_operator: u, child: Box::new(b.tree) },
                                    previous,
                                    b.level,
                                    a3,
                                    b.warnings,
                                ),
                            }
                        } else {
                            Err((preprocessor_failure(PreprocessorErrorV::IncompleteOperator), w))
                        }
                    },
                    UnaryOperator::Increment | UnaryOperator::Decrement => Err(
                        (preprocessor_failure(PreprocessorErrorV::InvalidOperator(operator_debug(op))), w),
                    ),
                },
                Operator::Binary(bop) => if is_assignment(bop) {
                    Err((preprocessor_failure(PreprocessorErrorV::InvalidOperator(operator_debug(op))), w))
                } else {
                    ast_binary(t, j, acc, previous, bop, prev_prec, pl, a3, w)
                },
                Operator::Conditional => Err(
                    (preprocessor_failure(PreprocessorErrorV::Internal("Not intented to be found in this scope"@)), w),
                ),
            },
            TokenV::Bracing(br) => match br {
                Bracing::LeftParenthesis => match ast_from(t, j, AstV::Empty, None, pl + 1, AstV::Empty, w) {
                    Err(e) => Err(e),
                    Ok(b) => Ok(Built { acc3: a3, ..b }),
                },
                Bracing::RightParenthesis => if pl == 0 {
                    Ok(Built { tree: acc, index: j, level: 0, acc3: a3, warnings: w.push(unmatched_parenthesis()) })
                } else {
                    Ok(Built { tree: acc, index: j, level: (pl - 1) as nat, acc3: a3, warnings: w })
                },
                _ => Err((preprocessor_failure(PreprocessorErrorV::InvalidOperator(bracing_debug(br))), w)),
            },
            TokenV::NonOpSymbol(sym) => Err(
                (preprocessor_failure(PreprocessorErrorV::InvalidOperator("Ternary ? "@ + symbol_debug(sym))), w),
            ),
            leaf => ast_from(t, j, AstV::Leaf(leaf), previous, pl, a3, w),
        }
    }
}

/// Reading goes on from position `i` with the tree `acc`; while the third
/// accumulator holds a tree, what is read goes there and the tree given
/// back is empty.
pub open spec fn ast_continue(
    t: Seq<TokenV>,
    i: nat,
    acc: AstV,
    previous: Option<Operator>,
    pl: nat,
    a3: AstV,
    w: Seq<Seq<char>>,
) -> Result<Built, BuildFailure>
    decreases t.len() - i, 1nat,
{
    if a3 is Empty {
        ast_from(t, i, acc, previous, pl, a3, w)
    } else {
        match ast_from(t, i, acc, previous, pl, a3, w) {
            Err(e) => Err(e),
            Ok(b) => Ok(Built { tree: AstV::Empty, acc3: b.tree, ..b }),
        }
    }
}

/// Reading on with a third accumulator: with an empty one it is the plain
/// reading; with a tree in it, the reading goes on as the plain one, stops
/// at the same position and depth, stores what was read in the accumulator
/// and gives back the empty tree.
pub proof fn law_reading_into_acc3(
    t: Seq<TokenV>,
    i: nat,
    acc: AstV,
    previous: Option<Operator>,
    pl: nat,
    a3: AstV,
    w: Seq<Seq<char>>,
)
    ensures
        a3 is Empty ==> ast_continue(t, i, acc, previous, pl, a3, w) == ast_from(t, i, acc, previous, pl, a3, w),
        !(a3 is Empty) ==> match ast_from(t, i, acc, previous, pl, a3, w) {
            Err(e) => ast_continue(t, i, acc, previous, pl, a3, w) == Err::<Built, BuildFailure>(e),
            Ok(b) => ast_continue(t, i, acc, previous, pl, a3, w) == Ok::<Built, BuildFailure>(
                Built { tree: AstV::Empty, index: b.index, level: b.level, acc3: b.tree, warnings: b.warnings },
            ),
        },
{
}

/// The binary operator `b` was read just before position `i`.
pub open spec fn ast_binary(
    t: Seq<TokenV>,
    i: nat,
    acc: AstV,
    previous: Option<Operator>,
    b: BinaryOperator,
    prev_prec: u32,
    pl: nat,
    a3: AstV,
    w: Seq<Seq<char>>,
) -> Result<Built, BuildFailure>
    decreases t.len() - i, 2nat,
{
    let cur = b.precedence_spec();
    let close_left = cur > prev_prec || (cur == prev_prec && b.associativity_spec() == Associativity::LeftToRight);
    if close_left {
        if acc is Empty {
            Err((preprocessor_failure(PreprocessorErrorV::IncompleteOperator), w))
        } else {
            Ok(Built { tree: acc, index: (i - 1) as nat, level: pl, acc3: a3, warnings: w })
        }
    } else {
        match ast_from(t, i, AstV::Empty, Some(Operator::Binary(b)), pl, AstV::Empty, w) {
            Err(e) => Err(e),
            Ok(r) => {
                let tree = AstV::BinaryTree { binary_operator: b, left: Box::new(acc), right: Box::new(r.tree) };
                if r.level < pl {
                    Ok(Built { tree, index: r.index, level: r.level, acc3: a3, warnings: r.warnings })
                } else {
                    ast_continue(
                        t,
                        clamp(r.index, i, if t.len() < i { i } else { t.len() }),
                        tree,
                        previous,
                        r.level,
                        a3,
                        r.warnings,
                    )
                }
            },
        }
    }
}

/// The tree of the tokens `t`, and the warnings `w` with those of the
/// reading added.
pub open spec fn tokens_tree(t: Seq<TokenV>, w: Seq<Seq<char>>) -> (Result<AstV, FailureV>, Seq<Seq<char>>) {
    match ast_from(t, 0, AstV::Empty, None, 0, AstV::Empty, w) {
        Ok(b) => (Ok(b.tree), b.warnings),
        Err((e, w2)) => (Err(e), w2),
    }
}

pub open spec fn operator_view(op: Option<&Operator>) -> Option<Operator> {
    match op {
        Some(o) => Some(*o),
        None => None,
    }
}

pub open spec fn ast_result_matches(
    r: Result<PreprocessorAst, Failure>,
    spec: Result<Built, BuildFailure>,
    index: usize,
    pl: usize,
    acc3: AstV,
    warnings: Seq<Seq<char>>,
) -> bool {
    match spec {
        Ok(b) => r matches Ok(x) && x@ == b.tree && index == b.index && pl == b.level && acc3 == b.acc3
            && warnings == b.warnings,
        Err((e, w)) => r matches Err(f) && f@ == e && warnings == w,
    }
}

/// Room left for the depth of parentheses: the depth may grow by one for
/// each token still to read.
pub open spec fn level_room(pl: usize, len: nat, index: usize) -> int {
    pl + len - index
}

fn go_back_in_tokens(index: &mut usize, acc: PreprocessorAst) -> (r: PreprocessorAst)
    requires
        *old(index) >= 1,
        !(acc@ is Empty),
    ensures
        r@ == acc@,
        *final(index) == *old(index) - 1,
{
    *index -= 1;
    acc
}

fn handle_binary(
    tokens: &Vec<PreprocessorToken>,
    index: &mut usize,
    acc: PreprocessorAst,
    acc3: &mut Box<PreprocessorAst>,
    previous_operator: Option<&Operator>,
    current_position: &mut FilePosition,
    current_operator: &BinaryOperator,
    previous_precedence: u32,
    parenthesis_level: &mut usize,
    warnings: &mut Vec<String>,
) -> (r: Result<PreprocessorAst, Failure>)
    requires
        *old(index) >= 1,
        level_room(*old(parenthesis_level), tokens@.len(), *old(index)) + 1 <= usize::MAX,
    ensures
        *final(current_position) == *old(current_position),
        ast_result_matches(
            r,
            ast_binary(
                tokens_view(tokens@),
                *old(index) as nat,
                acc@,
                operator_view(previous_operator),
                *current_operator,
                previous_precedence,
                *old(parenthesis_level) as nat,
                ast_view(&**old(acc3)),
                strings_view(old(warnings)@),
            ),
            *final(index),
            *final(parenthesis_level),
            ast_view(&**final(acc3)),
            strings_view(final(warnings)@),
        ),
        r is Ok ==> *old(index) - 1 <= *final(index) && (*old(index) <= tokens@.len() ==> *final(index)
            <= tokens@.len()) && level_room(*final(parenthesis_level), tokens@.len(), *final(index)) <= level_room(
            *old(parenthesis_level),
            tokens@.len(),
            *old(index),
        ) + 1,
    decreases tokens@.len() - *old(index), 2nat,
{
    let current_precedence = current_operator.precedence();
    let close_left = current_precedence > previous_precedence || (current_precedence == previous_precedence
        && current_operator.associativity() == Associativity::LeftToRight);
    if close_left {
        if acc.is_empty() {
            Err(Failure::Preprocessor(PreprocessorError::IncompleteOperator))
        } else {
            Ok(go_back_in_tokens(index, acc))
        }
    } else {
        let current_parenthesis_level: usize = *parenthesis_level;
        let operator = Operator::Binary(*current_operator);
        let mut fresh = Box::new(PreprocessorAst::Empty);
        let right = tokens_to_ast_impl(
            tokens,
            index,
            PreprocessorAst::Empty,
            &mut fresh,
            Some(&operator),
            current_position,
            parenthesis_level,
            warnings,
        )?;
        let binary_tree = PreprocessorAst::BinaryTree {
            binary_operator: *current_operator,
            left: Box::new(acc),
            right: Box::new(right),
        };
        if *parenthesis_level < current_parenthesis_level {
            Ok(binary_tree)
        } else {
            tokens_to_ast_impl_or_acc3(
                tokens,
                index,
                binary_tree,
                acc3,
                previous_operator,
                current_position,
                parenthesis_level,
                warnings,
            )
        }
    }
}

fn tokens_to_ast_impl_or_acc3(
    tokens: &Vec<PreprocessorToken>,
    index: &mut usize,
    acc: PreprocessorAst,
    acc3: &mut Box<PreprocessorAst>,
    previous_operator: Option<&Operator>,
    current_position: &mut FilePosition,
    parenthesis_level: &mut usize,
    warnings: &mut Vec<String>,
) -> (r: Result<PreprocessorAst, Failure>)
    requires
        level_room(*old(parenthesis_level), tokens@.len(), *old(index)) <= usize::MAX,
    ensures
        *final(current_position) == *old(current_position),
        ast_result_matches(
            r,
            ast_continue(
                tokens_view(tokens@),
                *old(index) as nat,
                acc@,
                operator_view(previous_operator),
                *old(parenthesis_level) as nat,
                ast_view(&**old(acc3)),
                strings_view(old(warnings)@),
            ),
            *final(index),
            *final(parenthesis_level),
            ast_view(&**final(acc3)),
            strings_view(final(warnings)@),
        ),
        r is Ok ==> *old(index) <= *final(index) && (*old(index) <= tokens@.len() ==> *final(index)
            <= tokens@.len()) && level_room(*final(parenthesis_level), tokens@.len(), *final(index)) <= level_room(
            *old(parenthesis_level),
            tokens@.len(),
            *old(index),
        ),
    decreases tokens@.len() - *old(index), 1nat,
{
    if acc3.is_empty() {
        tokens_to_ast_impl(tokens, index, acc, acc3, previous_operator, current_position, parenthesis_level, warnings)
    } else {
        let result = tokens_to_ast_impl(
            tokens,
            index,
            acc,
            acc3,
            previous_operator,
            current_position,
            parenthesis_level,
            warnings,
        )?;
        *acc3 = Box::new(result);
        Ok(PreprocessorAst::Empty)
    }
}

fn tokens_to_ast_impl(
    tokens: &Vec<PreprocessorToken>,
    index: &mut usize,
    acc: PreprocessorAst,
    acc3: &mut Box<PreprocessorAst>,
    previous_operator: Option<&Operator>,
    current_position: &mut FilePosition,
    parenthesis_level: &mut usize,
    warnings: &mut Vec<String>,
) -> (r: Result<PreprocessorAst, Failure>)
    requires
        level_room(*old(parenthesis_level), tokens@.len(), *old(index)) <= usize::MAX,
    ensures
        *final(current_position) == *old(current_position),
        ast_result_matches(
            r,
            ast_from(
                tokens_view(tokens@),
                *old(index) as nat,
                acc@,
                operator_view(previous_operator),
                *old(parenthesis_level) as nat,
                ast_view(&**old(acc3)),
                strings_view(old(warnings)@),
            ),
            *final(index),
            *final(parenthesis_level),
            ast_view(&**final(acc3)),
            strings_view(final(warnings)@),
        ),
        r is Ok ==> *old(index) <= *final(index) && (*old(index) <= tokens@.len() ==> *final(index)
            <= tokens@.len()) && level_room(*final(parenthesis_level), tokens@.len(), *final(index)) <= level_room(
            *old(parenthesis_level),
            tokens@.len(),
            *old(index),
        ),
    decreases tokens@.len() - *old(index), 0nat,
{
    let ghost t = tokens_view(tokens@);
    let previous_precedence = match previous_operator {
        Some(op) => op.precedence(),
        None => Operator::max_precedence(),
    };
    if *index < tokens.len() {
        let token = &tokens[*index];
        *index += 1;
        assert(t[*index - 1] == token@);
        match token {
            PreprocessorToken::Operator(operator) => match operator {
                Operator::Unary(unary_operator) => match unary_operator {
                    UnaryOperator::Plus | UnaryOperator::Minus => {
                        if acc.is_empty() {
                            let child = tokens_to_ast_impl(
                                tokens,
                                index,
                                acc,
                                acc3,
                                Some(operator),
                                current_position,
                                parenthesis_level,
                                warnings,
                            )?;
                            Ok(PreprocessorAst::UnaryTree { unary_operator: *unary_operator, child: Box::new(child) })
                        } else {
                            let current_operator = match unary_operator {
                                UnaryOperator::Plus => BinaryOperator::Add,
                                _ => BinaryOperator::Sub,
                            };
                            handle_binary(
                                tokens,
                                index,
                                acc,
                                acc3,
                                previous_operator,
                                current_position,
                                &current_operator,
                                previous_precedence,
                                parenthesis_level,
                                warnings,
                            )
                        }
                    },
                    UnaryOperator::Not | UnaryOperator::BitwiseNot | UnaryOperator::Defined => {
                        if operator.precedence() > previous_precedence {
                            Err(Failure::Preprocessor(PreprocessorError::DefinedChildNotMacro))
                        } else if acc.is_empty() {
                            let mut fresh = Box::new(PreprocessorAst::Empty);
                            let child = tokens_to_ast_impl(
                                tokens,
                                index,
                                PreprocessorAst::Empty,
                                &mut fresh,
                                Some(operator),
                                current_position,
                                parenthesis_level,
                                warnings,
                            )?;
                            let unary_tree = PreprocessorAst::UnaryTree {
                                unary_operator: *unary_operator,
                                child: Box::new(child),
                            };
                            tokens_to_ast_impl_or_acc3(
                                tokens,
                                index,
                                unary_tree,
                                acc3,
                                previous_operator,
                                current_position,
                                parenthesis_level,
                                warnings,
                            )
                        } else {
                            Err(Failure::Preprocessor(PreprocessorError::IncompleteOperator))
                        }
                    },
                    UnaryOperator::Increment | UnaryOperator::Decrement => {
                        Err(Failure::Preprocessor(PreprocessorError::InvalidOperator(operator.debug_text())))
                    },
                },
                Operator::Binary(binary_operator) => match binary_operator {
                    BinaryOperator::AddAssign | BinaryOperator::SubAssign | BinaryOperator::MulAssign
                    | BinaryOperator::DivAssign | BinaryOperator::ModAssign | BinaryOperator::OrAssign
                    | BinaryOperator::AndAssign | BinaryOperator::XorAssign
                    | BinaryOperator::ShiftLeftAssign | BinaryOperator::ShiftRightAssign => {
                        Err(Failure::Preprocessor(PreprocessorError::InvalidOperator(operator.debug_text())))
                    },
                    _ => handle_binary(
                        tokens,
                        index,
                        acc,
                        acc3,
                        previous_operator,
                        current_position,
                        binary_operator,
                        previous_precedence,
                        parenthesis_level,
                        warnings,
                    ),
                },
                Operator::Conditional => Err(
                    Failure::Preprocessor(PreprocessorError::Internal(String::from_str("Not intented to be found in this scope"))),
                ),
            },
            PreprocessorToken::Bracing(bracing) => match bracing {
                Bracing::LeftParenthesis => {
                    *parenthesis_level += 1;
                    let mut fresh = Box::new(PreprocessorAst::Empty);
                    let inner = tokens_to_ast_impl(
                        tokens,
                        index,
                        PreprocessorAst::Empty,
                        &mut fresh,
                        None,
                        current_position,
                        parenthesis_level,
                        warnings,
                    );
                    inner
                },
                Bracing::RightParenthesis => {
                    if *parenthesis_level == 0 {
                        let ghost before = warnings@;
                        let message = String::from_str("Overflow on subtract (this is totally normal, don't worry)");
                        warnings.push(message);
                        assert(strings_view(warnings@) =~= strings_view(before).push(message@));
                    } else {
                        *parenthesis_level -= 1;
                    }
                    Ok(acc)
                },
                _ => Err(Failure::Preprocessor(PreprocessorError::InvalidOperator(bracing.debug_text()))),
            },
            PreprocessorToken::NonOpSymbol(symbol) => {
                let name = symbol.debug_text();
                Err(Failure::Preprocessor(PreprocessorError::InvalidOperator(concat("Ternary ? ", name.as_str()))))
            },
            PreprocessorToken::LiteralString(_) | PreprocessorToken::LiteralNumber(_)
            | PreprocessorToken::Macro(_) => {
                let macro_leaf = PreprocessorAst::Leaf(token.clone());
                tokens_to_ast_impl(
                    tokens,
                    index,
                    macro_leaf,
                    acc3,
                    previous_operator,
                    current_position,
                    parenthesis_level,
                    warnings,
                )
            },
        }
    } else {
        Ok(acc)
    }
}

/// The tree of a preprocessor expression (see `tokens_tree`); warnings of
/// the reading are added to `warnings`.
pub fn tokens_to_ast(
    tokens: &Vec<PreprocessorToken>,
    current_position: &mut FilePosition,
    warnings: &mut Vec<String>,
) -> (r: Result<PreprocessorAst, Failure>)
    ensures
        *final(current_position) == *old(current_position),
        tokens_tree(tokens_view(tokens@), strings_view(old(warnings)@)) == (tree_result_view(r), strings_view(
            final(warnings)@,
        )),
{
    let mut index: usize = 0;
    let mut level: usize = 0;
    let _count: usize = tokens.len();
    let mut acc3 = Box::new(PreprocessorAst::Empty);
    tokens_to_ast_impl(
        tokens,
        &mut index,
        PreprocessorAst::Empty,
        &mut acc3,
        None,
        current_position,
        &mut level,
        warnings,
    )
}

pub open spec fn tree_result_view(r: Result<PreprocessorAst, Failure>) -> Result<AstV, FailureV> {
    match r {
        Ok(a) => Ok(a@),
        Err(f) => Err(f@),
    }
}

// ---------------------------------------------------------------------------
// The value of a tree.

/// How deep macro values may be expanded inside one another: one more than
/// the number of macros (at most `usize::MAX`). Expansion that goes deeper
/// has met a macro again inside its own value, and would never end.
pub open spec fn expansion_budget(defines: Map<Seq<char>, MacroValueV>) -> nat {
    if defines.dom().len() < usize::MAX {
        defines.dom().len() + 1
    } else {
        usize::MAX as nat
    }
}

/// What evaluation reads of the state.
pub struct EvalEnv {
    pub defines: Map<Seq<char>, MacroValueV>,
    pub values: Map<Seq<char>, i32>,
    pub line: u32,
    pub filename: Seq<char>,
    pub filepath: Seq<char>,
}

pub open spec fn env_of(state: &State) -> EvalEnv {
    EvalEnv {
        defines: state.defines@,
        values: state.literal_values@,
        line: state.current_position.line,
        filename: state.current_position.filename@,
        filepath: state.current_position.filepath@,
    }
}

pub open spec fn position_at(env: EvalEnv, col: u32) -> FilePositionV {
    FilePositionV { line: env.line, col, filename: env.filename, filepath: env.filepath }
}

pub open spec fn bool_int(b: bool) -> i32 {
    if b { 1 } else { 0 }
}

/// The value of `x b y`; `None` where the operation overflows, divides by
/// zero or shifts by a negative amount or by 32 or more.
pub open spec fn binary_value(b: BinaryOperator, x: i32, y: i32) -> Option<i32> {
    match b {
        BinaryOperator::Add => x.checked_add(y),
        BinaryOperator::Sub => x.checked_sub(y),
        BinaryOperator::Mul => x.checked_mul(y),
        BinaryOperator::Div => x.checked_div(y),
        BinaryOperator::Mod => x.checked_rem(y),
        BinaryOperator::ShiftLeft => if 0 <= y < 32 { Some(x << (y as u32)) } else { None },
        BinaryOperator::ShiftRight => if 0 <= y < 32 { Some(x >> (y as u32)) } else { None },
        BinaryOperator::BitwiseAnd => Some(x & y),
        BinaryOperator::BitwiseOr => Some(x | y),
        BinaryOperator::BitwiseXor => Some(x ^ y),
        BinaryOperator::And => Some(bool_int(x != 0 && y != 0)),
        BinaryOperator::Or => Some(bool_int(x != 0 || y != 0)),
        BinaryOperator::NotEqual => Some(bool_int(x != y)),
        BinaryOperator::Eequal => Some(bool_int(x == y)),
        BinaryOperator::LessThan => Some(bool_int(x < y)),
        BinaryOperator::GreaterThan => Some(bool_int(x > y)),
        BinaryOperator::LessEqual => Some(bool_int(x <= y)),
        BinaryOperator::GreaterEqual => Some(bool_int(x >= y)),
        _ => None,
    }
}

/// Each binary operator computes what C computes on `int`, where the result
/// fits: sums, differences and products exactly; quotient and remainder
/// truncated toward zero, with the remainder taking the sign of the
/// dividend; shifts by 0 to 31; bitwise operators; comparisons and logical
/// operators as 0 or 1. Otherwise there is no value.
pub proof fn law_binary_value(x: i32, y: i32)
    ensures
        binary_value(BinaryOperator::Add, x, y) == (if i32::MIN <= x + y <= i32::MAX {
            Some((x + y) as i32)
        } else {
            None
        }),
        binary_value(BinaryOperator::Sub, x, y) == (if i32::MIN <= x - y <= i32::MAX {
            Some((x - y) as i32)
        } else {
            None
        }),
        binary_value(BinaryOperator::Mul, x, y) == (if i32::MIN <= x * y <= i32::MAX {
            Some((x * y) as i32)
        } else {
            None
        }),
        y == 0 ==> binary_value(BinaryOperator::Div, x, y) is None && binary_value(BinaryOperator::Mod, x, y) is None,
        x == i32::MIN && y == -1 ==> binary_value(BinaryOperator::Div, x, y) is None
            && binary_value(BinaryOperator::Mod, x, y) is None,
        y != 0 && !(x == i32::MIN && y == -1) ==> ({
            let q = binary_value(BinaryOperator::Div, x, y);
            let m = binary_value(BinaryOperator::Mod, x, y);
            &&& q is Some && m is Some
            &&& q->0 * y + m->0 == x
            &&& (if m->0 < 0 { -(m->0 as int) } else { m->0 as int }) < (if y < 0 { -(y as int) } else { y as int })
            &&& (m->0 == 0 || (m->0 < 0) == (x < 0))
        }),
        0 <= y < 32 ==> binary_value(BinaryOperator::ShiftLeft, x, y) == Some(x << (y as u32))
            && binary_value(BinaryOperator::ShiftRight, x, y) == Some(x >> (y as u32)),
        !(0 <= y < 32) ==> binary_value(BinaryOperator::ShiftLeft, x, y) is None
            && binary_value(BinaryOperator::ShiftRight, x, y) is None,
        binary_value(BinaryOperator::BitwiseAnd, x, y) == Some(x & y),
        binary_value(BinaryOperator::BitwiseOr, x, y) == Some(x | y),
        binary_value(BinaryOperator::BitwiseXor, x, y) == Some(x ^ y),
        binary_value(BinaryOperator::And, x, y) == Some(bool_int(x != 0 && y != 0)),
        binary_value(BinaryOperator::Or, x, y) == Some(bool_int(x != 0 || y != 0)),
        binary_value(BinaryOperator::NotEqual, x, y) == Some(bool_int(x != y)),
        binary_value(BinaryOperator::Eequal, x, y) == Some(bool_int(x == y)),
        binary_value(BinaryOperator::LessThan, x, y) == Some(bool_int(x < y)),
        binary_value(BinaryOperator::GreaterThan, x, y) == Some(bool_int(x > y)),
        binary_value(BinaryOperator::LessEqual, x, y) == Some(bool_int(x <= y)),
        binary_value(BinaryOperator::GreaterEqual, x, y) == Some(bool_int(x >= y)),
{
    if y != 0 && !(x == i32::MIN && y == -1) {
        lemma_truncated_division(x as int, y as int);
    }
}

proof fn lemma_truncated_division(x: int, d: int)
    requires
        d != 0,
        i32::MIN <= x <= i32::MAX,
        i32::MIN <= d <= i32::MAX,
        !(x == i32::MIN && d == -1),
    ensures
        ({
            let q = if x == 0 {
                0
            } else if x > 0 && d > 0 {
                x / d
            } else if x < 0 && d < 0 {
                (x * -1) / (d * -1)
            } else if x < 0 {
                ((x * -1) / d) * -1
            } else {
                (x / (d * -1)) * -1
            };
            let m = if x == 0 {
                0
            } else if x > 0 && d > 0 {
                x % d
            } else if x < 0 && d < 0 {
                ((x * -1) % (d * -1)) * -1
            } else if x < 0 {
                ((x * -1) % d) * -1
            } else {
                x % (d * -1)
            };
            &&& q * d + m == x
            &&& (if m < 0 { -m } else { m }) < (if d < 0 { -d } else { d })
            &&& (m == 0 || (m < 0) == (x < 0))
            &&& i32::MIN <= q <= i32::MAX
            &&& i32::MIN <= m <= i32::MAX
        }),
{
    if x > 0 && d > 0 {
        assert(x / d * d + x % d == x && 0 <= x % d < d && 0 <= x / d <= x) by (nonlinear_arith)
            requires
                x > 0,
                d > 0,
        ;
    } else if x < 0 && d < 0 {
        let a = -x;
        let b = -d;
        assert(a / b * b + a % b == a && 0 <= a % b < b && 0 <= a / b <= a) by (nonlinear_arith)
            requires
                a > 0,
                b > 0,
        ;
        assert((x * -1) == a && (d * -1) == b);
        if b >= 2 {
            assert(a / b < a) by (nonlinear_arith)
                requires
                    a > 0,
                    b >= 2,
            ;
        }
        assert((a / b) * d + (a % b) * -1 == x) by (nonlinear_arith)
            requires
                a / b * b + a % b == a,
                b == -d,
                a == -x,
        ;
    } else if x < 0 {
        let a = -x;
        assert(a / d * d + a % d == a && 0 <= a % d < d && 0 <= a / d <= a) by (nonlinear_arith)
            requires
                a > 0,
                d > 0,
        ;
        assert((x * -1) == a);
        assert(((a / d) * -1) * d + (a % d) * -1 == x) by (nonlinear_arith)
            requires
                a / d * d + a % d == a,
                a == -x,
        ;
    } else if x > 0 {
        let b = -d;
        assert(x / b * b + x % b == x && 0 <= x % b < b && 0 <= x / b <= x) by (nonlinear_arith)
            requires
                x > 0,
                b > 0,
        ;
        assert((d * -1) == b);
        assert(((x / b) * -1) * d + x % b == x) by (nonlinear_arith)
            requires
                x / b * b + x % b == x,
                b == -d,
        ;
    }
}

/// Comparisons and the logical operators give 0 or 1.
pub proof fn law_comparison_is_boolean(b: BinaryOperator, x: i32, y: i32)
    requires
        b is And || b is Or || b is NotEqual || b is Eequal || b is LessThan || b is GreaterThan || b is LessEqual
            || b is GreaterEqual,
    ensures
        binary_value(b, x, y) == Some(0i32) || binary_value(b, x, y) == Some(1i32),
{
}

pub open spec fn overflow_failure() -> FailureV {
    FailureV::General(GeneralErrorV::Overflow)
}

/// The report of a warning on an invalid leaf.
pub open spec fn invalid_leaf_report(env: EvalEnv, col: u32, leaf: TokenV) -> Seq<char> {
    let e = PreprocessorErrorV::InvalidLeaf(token_debug(leaf));
    report("ERROR "@, (preprocessor_code(e).0 + PREPROCESSOR_INCREMENT) as nat, position_at(env, col), preprocessor_code(e).1)
}

/// The value of the tree `a`, with the column and the warnings after it.
/// Operands are evaluated left to right and a failure stops evaluation. A
/// macro leaf stands for the value of its text (a macro that is not defined
/// for the text `0`), read with the tokenizer and the tree builder, which
/// move the column; a function-like macro counts as 0 with a warning.
/// `defined` evaluates its operand first, then tells whether the macro it
/// names is defined. At most `depth` macro values are expanded inside one
/// another.
pub open spec fn eval_ast(a: AstV, env: EvalEnv, col: u32, w: Seq<Seq<char>>, depth: nat) -> (
    Result<i32, FailureV>,
    u32,
    Seq<Seq<char>>,
)
    decreases depth, a,
{
    match a {
        AstV::Empty => (Ok(0), col, w),
        AstV::TernaryTree { left, center, right } => {
            let (r1, c1, w1) = eval_ast(*left, env, col, w, depth);
            match r1 {
                Err(e) => (Err(e), c1, w1),
                Ok(x) => if x != 0 {
                    eval_ast(*center, env, c1, w1, depth)
                } else {
                    eval_ast(*right, env, c1, w1, depth)
                },
            }
        },
        AstV::BinaryTree { binary_operator, left, right } => {
            let (r1, c1, w1) = eval_ast(*left, env, col, w, depth);
            match r1 {
                Err(e) => (Err(e), c1, w1),
                Ok(x) => {
                    let (r2, c2, w2) = eval_ast(*right, env, c1, w1, depth);
                    match r2 {
                        Err(e) => (Err(e), c2, w2),
                        Ok(y) => if is_assignment(binary_operator) {
                            (Err(preprocessor_failure(PreprocessorErrorV::InvalidOperator(crate::parser::binary_name(binary_operator)))), c2, w2)
                        } else {
                            match binary_value(binary_operator, x, y) {
                                Some(v) => (Ok(v), c2, w2),
                                None => (Err(overflow_failure()), c2, w2),
                            }
                        },
                    }
                },
            }
        },
        AstV::UnaryTree { unary_operator, child } => {
            let (r1, c1, w1) = eval_ast(*child, env, col, w, depth);
            match r1 {
                Err(e) => (Err(e), c1, w1),
                Ok(x) => match unary_operator {
                    UnaryOperator::Defined => match *child {
                        AstV::Leaf(TokenV::Macro(name)) => (Ok(bool_int(env.defines.contains_key(name))), c1, w1),
                        AstV::Leaf(_) => (Err(preprocessor_failure(PreprocessorErrorV::DefinedChildNotMacro)), c1, w1),
                        _ => (Err(preprocessor_failure(PreprocessorErrorV::DefinedChildNotLeaf)), c1, w1),
                    },
                    UnaryOperator::Plus => (Ok(x), c1, w1),
                    UnaryOperator::Minus => if x == i32::MIN {
                        (Err(overflow_failure()), c1, w1)
                    } else {
                        (Ok((-x) as i32), c1, w1)
                    },
                    UnaryOperator::Not => (Ok(bool_int(x == 0)), c1, w1),
                    UnaryOperator::BitwiseNot => (Ok(!x), c1, w1),
                    _ => (Err(preprocessor_failure(PreprocessorErrorV::InvalidOperator(crate::parser::unary_name(unary_operator)))), c1, w1),
                },
            }
        },
        AstV::Leaf(leaf) => match leaf {
            TokenV::Macro(name) => {
                let value = if env.defines.contains_key(name) { env.defines[name] } else { MacroValueV::String("0"@) };
                match value {
                    MacroValueV::String(text) => if depth == 0 {
                        (Err(overflow_failure()), col, w)
                    } else {
                        match tokenize(text, env.values, col) {
                            Err((e, c2)) => (Err(e), c2, w),
                            Ok((tokens, c2)) => match tokens_tree(tokens, w) {
                                (Err(e), w2) => (Err(e), c2, w2),
                                (Ok(tree), w2) => eval_ast(tree, env, c2, w2, (depth - 1) as nat),
                            },
                        }
                    },
                    MacroValueV::Function { .. } => (Ok(0), col, w.push(invalid_leaf_report(env, col, leaf))),
                }
            },
            TokenV::LiteralNumber(x) => (Ok(x), col, w),
            TokenV::LiteralString(_) => (Err(preprocessor_failure(PreprocessorErrorV::StringsNotAllowed)), col, w),
            _ => (Err(preprocessor_failure(PreprocessorErrorV::InvalidLeaf(token_debug(leaf)))), col, w),
        },
    }
}

/// A binary operator other than an assignment is applied to the values of
/// its operands, the left one read first (see `law_binary_value` for what
/// each operator computes); where there is no value, evaluation fails with
/// an overflow.
pub proof fn law_binary_tree(
    b: BinaryOperator,
    left: AstV,
    right: AstV,
    env: EvalEnv,
    col: u32,
    w: Seq<Seq<char>>,
    depth: nat,
)
    requires
        !is_assignment(b),
    ensures
        ({
            let (r1, c1, w1) = eval_ast(left, env, col, w, depth);
            let (r2, c2, w2) = eval_ast(right, env, c1, w1, depth);
            r1 is Ok && r2 is Ok ==> eval_ast(
                AstV::BinaryTree { binary_operator: b, left: Box::new(left), right: Box::new(right) },
                env,
                col,
                w,
                depth,
            ) == (
                match binary_value(b, r1->Ok_0, r2->Ok_0) {
                    Some(v) => Ok::<i32, FailureV>(v),
                    None => Err(overflow_failure()),
                },
                c2,
                w2,
            )
        }),
{
}

pub open spec fn int_result_view(r: Result<i32, Failure>) -> Result<i32, FailureV> {
    match r {
        Ok(v) => Ok(v),
        Err(f) => Err(f@),
    }
}

/// Evaluation changes only the column of the position and the warnings.
pub open spec fn only_column_and_warnings_changed(before: &State, after: &State) -> bool {
    &&& after.comment_level == before.comment_level
    &&& after.inline_comment == before.inline_comment
    &&& after.directive_parsing == before.directive_parsing
    &&& after.comment_unclosed_positon == before.comment_unclosed_positon
    &&& after.defines == before.defines
    &&& after.if_writing == before.if_writing
    &&& after.if_level == before.if_level
    &&& after.include_stack == before.include_stack
    &&& after.literal_values == before.literal_values
    &&& after.current_position.line == before.current_position.line
    &&& after.current_position.filename == before.current_position.filename
    &&& after.current_position.filepath == before.current_position.filepath
}

pub open spec fn warnings_view(s: &State) -> Seq<Seq<char>> {
    crate::structs::strings_view(s.warnings@)
}

fn binary_apply(binary_operator: &BinaryOperator, x: i32, y: i32) -> (r: Result<i32, Failure>)
    ensures
        if is_assignment(*binary_operator) {
            r matches Err(f) && f@ == preprocessor_failure(PreprocessorErrorV::InvalidOperator(crate::parser::binary_name(*binary_operator)))
        } else {
            match binary_value(*binary_operator, x, y) {
                Some(v) => r == Ok::<i32, Failure>(v),
                None => r matches Err(f) && f@ == overflow_failure(),
            }
        },
{
    let v: Option<i32> = match binary_operator {
        BinaryOperator::Add => x.checked_add(y),
        BinaryOperator::Sub => x.checked_sub(y),
        BinaryOperator::Mul => x.checked_mul(y),
        BinaryOperator::Div => x.checked_div(y),
        BinaryOperator::Mod => x.checked_rem(y),
        BinaryOperator::ShiftLeft => if 0 <= y && y < 32 { Some(x.wrapping_shl(y as u32)) } else { None },
        BinaryOperator::ShiftRight => if 0 <= y && y < 32 { Some(x >> (y as u32)) } else { None },
        BinaryOperator::BitwiseAnd => Some(x & y),
        BinaryOperator::BitwiseOr => Some(x | y),
        BinaryOperator::BitwiseXor => Some(x ^ y),
        BinaryOperator::And => Some(if x != 0 && y != 0 { 1 } else { 0 }),
        BinaryOperator::Or => Some(if x != 0 || y != 0 { 1 } else { 0 }),
        BinaryOperator::NotEqual => Some(if x != y { 1 } else { 0 }),
        BinaryOperator::Eequal => Some(if x == y { 1 } else { 0 }),
        BinaryOperator::LessThan => Some(if x < y { 1 } else { 0 }),
        BinaryOperator::GreaterThan => Some(if x > y { 1 } else { 0 }),
        BinaryOperator::LessEqual => Some(if x <= y { 1 } else { 0 }),
        BinaryOperator::GreaterEqual => Some(if x >= y { 1 } else { 0 }),
        BinaryOperator::AddAssign | BinaryOperator::SubAssign | BinaryOperator::MulAssign
        | BinaryOperator::DivAssign | BinaryOperator::ModAssign | BinaryOperator::OrAssign
        | BinaryOperator::AndAssign | BinaryOperator::XorAssign
        | BinaryOperator::ShiftLeftAssign | BinaryOperator::ShiftRightAssign => {
            return Err(Failure::Preprocessor(PreprocessorError::InvalidOperator(binary_operator.name())));
        },
    };
    match v {
        Some(v) => Ok(v),
        None => Err(Failure::General(GeneralError::Overflow)),
    }
}

#[verifier::rlimit(60)]
#[verifier::spinoff_prover]
fn binary_ast_to_int_impl(ast: &PreprocessorAst, state: &mut State, depth: usize) -> (r: Result<i32, Failure>)
    ensures
        only_column_and_warnings_changed(old(state), final(state)),
        eval_ast(ast@, env_of(old(state)), old(state).current_position.col, warnings_view(old(state)), depth as nat)
            == (int_result_view(r), final(state).current_position.col, warnings_view(final(state))),
    decreases depth, ast,
{
    let ghost env = env_of(state);
    match ast {
        PreprocessorAst::Empty => Ok(0),
        PreprocessorAst::TernaryTree { left, center, right } => {
            if binary_ast_to_int_impl(left, state, depth)? != 0 {
                binary_ast_to_int_impl(center, state, depth)
            } else {
                binary_ast_to_int_impl(right, state, depth)
            }
        },
        PreprocessorAst::BinaryTree { binary_operator, left, right } => {
            let x = binary_ast_to_int_impl(left, state, depth)?;
            let y = binary_ast_to_int_impl(right, state, depth)?;
            binary_apply(binary_operator, x, y)
        },
        PreprocessorAst::UnaryTree { unary_operator, child } => {
            let x = binary_ast_to_int_impl(child, state, depth)?;
            match unary_operator {
                UnaryOperator::Defined => match &**child {
                    PreprocessorAst::Leaf(macro_token) => match macro_token {
                        PreprocessorToken::Macro(macro_name) => {
                            Ok(if state.defines.contains_key(macro_name.as_str()) { 1 } else { 0 })
                        },
                        _ => Err(Failure::Preprocessor(PreprocessorError::DefinedChildNotMacro)),
                    },
                    _ => Err(Failure::Preprocessor(PreprocessorError::DefinedChildNotLeaf)),
                },
                UnaryOperator::Plus => Ok(x),
                UnaryOperator::Minus => if x == i32::MIN {
                    Err(Failure::General(GeneralError::Overflow))
                } else {
                    Ok(-x)
                },
                UnaryOperator::Not => Ok(if x == 0 { 1 } else { 0 }),
                UnaryOperator::BitwiseNot => Ok(!x),
                UnaryOperator::Increment | UnaryOperator::Decrement => {
                    Err(Failure::Preprocessor(PreprocessorError::InvalidOperator(unary_operator.name())))
                },
            }
        },
        PreprocessorAst::Leaf(leaf) => match leaf {
            PreprocessorToken::Macro(macro_name) => {
                let text: Option<String> = match state.defines.get(macro_name.as_str()) {
                    Some(MacroValue::String(macro_string)) => Some(macro_string.clone()),
                    Some(MacroValue::Function { .. }) => None,
                    None => Some(String::from_str("0")),
                };
                match text {
                    Some(macro_string) => {
                        if depth == 0 {
                            return Err(Failure::General(GeneralError::Overflow));
                        }
                        let tokens = parse_preprocessor(macro_string.as_str(), state)?;
                        let tree = tokens_to_ast(&tokens, &mut state.current_position, &mut state.warnings)?;
                        binary_ast_to_int_impl(&tree, state, depth - 1)
                    },
                    None => {
                        let message = PreprocessorError::InvalidLeaf(leaf.debug_text()).fail(&state.current_position);
                        state.warnings.push(message);
                        proof {
                            assert(warnings_view(state) =~= warnings_view(old(state)).push(invalid_leaf_report(env, old(state).current_position.col, leaf@)));
                        }
                        Ok(0)
                    },
                }
            },
            PreprocessorToken::LiteralNumber(x) => Ok(*x),
            PreprocessorToken::LiteralString(_) => Err(Failure::Preprocessor(PreprocessorError::StringsNotAllowed)),
            _ => Err(Failure::Preprocessor(PreprocessorError::InvalidLeaf(leaf.debug_text()))),
        },
    }
}

/// The value of a preprocessor expression tree (see `eval_ast`), with at
/// most `expansion_budget` macro expansions inside one another.
pub fn binary_ast_to_int(ast: &PreprocessorAst, state: &mut State) -> (r: Result<i32, Failure>)
    ensures
        only_column_and_warnings_changed(old(state), final(state)),
        eval_ast(
            ast@,
            env_of(old(state)),
            old(state).current_position.col,
            warnings_view(old(state)),
            expansion_budget(old(state)@.defines),
        ) == (int_result_view(r), final(state).current_position.col, warnings_view(final(state))),
{
    let count = state.defines.len();
    let budget = if count < usize::MAX {
        count + 1
    } else {
        count
    };
    binary_ast_to_int_impl(ast, state, budget)
}

} // verus!
