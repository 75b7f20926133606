//! Evaluation of expressions with the conditional operator `? :`.
use vstd::prelude::*;

use crate::errors::{Failure, FailureV, PreprocessorError, PreprocessorErrorV};
use crate::eval::{
    ast_binary, ast_continue, ast_from, bool_int, expansion_budget, AstV, Built, binary_ast_to_int, env_of, eval_ast, int_result_view,
    only_column_and_warnings_changed, tokens_to_ast, tokens_tree, warnings_view, EvalEnv,
};
use crate::parser::{tokens_view, BinaryOperator, NonOpSymbol, Operator, PreprocessorToken, TokenV};
use crate::structs::State;

verus! {

/// The tokens from position `q` up to the first `:` (which is consumed), and
/// the position after it; `None` where a `?` comes first.
pub open spec fn middle_part(t: Seq<TokenV>, q: nat) -> Option<(Seq<TokenV>, nat)>
    decreases t.len() - q,
{
    if q >= t.len() {
        Some((Seq::empty(), q))
    } else {
        match t[q as int] {
            TokenV::NonOpSymbol(NonOpSymbol::Colon) => Some((Seq::empty(), q + 1)),
            TokenV::NonOpSymbol(NonOpSymbol::Interrogation) => None,
            tok => match middle_part(t, q + 1) {
                None => None,
                Some((rest, e)) => Some((seq![tok] + rest, e)),
            },
        }
    }
}

pub open spec fn incomplete_operator() -> FailureV {
    FailureV::Preprocessor(PreprocessorErrorV::IncompleteOperator)
}

/// The value of the tokens `b` without conditional operators.
pub open spec fn plain_value(b: Seq<TokenV>, env: EvalEnv, col: u32, w: Seq<Seq<char>>) -> (
    Result<i32, FailureV>,
    u32,
    Seq<Seq<char>>,
) {
    match tokens_tree(b, w) {
        (Err(e), w2) => (Err(e), col, w2),
        (Ok(a), w2) => eval_ast(a, env, col, w2, expansion_budget(env.defines)),
    }
}

/// Reading the tokens `t` from position `p` with the tokens `b` gathered so
/// far. At `?` the gathered tokens are the condition and the tokens up to
/// `:` the value if it holds; if it holds, its value is gathered in place of
/// the condition and reading goes on after the `:`; otherwise the rest is
/// read as an expression of its own, whose value is gathered. At the end the
/// gathered tokens are evaluated.
pub open spec fn conditional_from(
    t: Seq<TokenV>,
    p: nat,
    b: Seq<TokenV>,
    env: EvalEnv,
    col: u32,
    w: Seq<Seq<char>>,
) -> (Result<i32, FailureV>, u32, Seq<Seq<char>>)
    decreases t.len(), t.len() - p when b.len() <= p <= t.len()
{
    if p >= t.len() {
        plain_value(b, env, col, w)
    } else {
        match t[p as int] {
            TokenV::NonOpSymbol(NonOpSymbol::Interrogation) => match middle_part(t, p + 1) {
                None => (Err(incomplete_operator()), col, w),
                Some((second, p2)) => {
                    proof {
                        lemma_middle_part_bounds(t, p + 1);
                    }
                    let p2 = if p2 < p + 1 { p + 1 } else if p2 > t.len() { t.len() } else { p2 };
                    let (rc, c1, w1) = conditional_value(b, env, col, w);
                    match rc {
                        Err(e) => (Err(e), c1, w1),
                        Ok(c) => if c != 0 {
                            let (rv, c2, w2) = conditional_value(second, env, c1, w1);
                            match rv {
                                Err(e) => (Err(e), c2, w2),
                                Ok(v) => conditional_from(t, p2, seq![TokenV::LiteralNumber(v)], env, c2, w2),
                            }
                        } else {
                            let (rv, c2, w2) = conditional_from(t, p2, Seq::empty(), env, c1, w1);
                            match rv {
                                Err(e) => (Err(e), c2, w2),
                                Ok(v) => conditional_from(t, t.len(), seq![TokenV::LiteralNumber(v)], env, c2, w2),
                            }
                        },
                    }
                },
            },
            TokenV::NonOpSymbol(NonOpSymbol::Colon) => (Err(incomplete_operator()), col, w),
            tok => conditional_from(t, p + 1, b.push(tok), env, col, w),
        }
    }
}

/// The value of the tokens `v`, read with `conditional_from`.
pub open spec fn conditional_value(v: Seq<TokenV>, env: EvalEnv, col: u32, w: Seq<Seq<char>>) -> (
    Result<i32, FailureV>,
    u32,
    Seq<Seq<char>>,
)
    decreases v.len(), v.len() + 1,
{
    conditional_from(v, 0, Seq::empty(), env, col, w)
}

pub proof fn lemma_middle_part_bounds(t: Seq<TokenV>, q: nat)
    requires
        q <= t.len(),
    ensures
        middle_part(t, q) matches Some((s, e)) ==> q <= e <= t.len() && s.len() + q <= e,
    decreases t.len() - q,
{
    if q < t.len() {
        lemma_middle_part_bounds(t, q + 1);
    }
}

fn push_second_and_third(tokens: &Vec<PreprocessorToken>, pos: &mut usize, middle_buffer: &mut Vec<PreprocessorToken>) -> (r: Result<(), Failure>)
    requires
        *old(pos) <= tokens@.len(),
    ensures
        match middle_part(tokens_view(tokens@), *old(pos) as nat) {
            None => r matches Err(f) && f@ == incomplete_operator(),
            Some((s, e)) => r is Ok && tokens_view(final(middle_buffer)@) == tokens_view(old(middle_buffer)@) + s
                && *final(pos) == e,
        },
    decreases tokens@.len() - *old(pos),
{
    let ghost t = tokens_view(tokens@);
    if *pos >= tokens.len() {
        assert(tokens_view(middle_buffer@) =~= tokens_view(old(middle_buffer)@) + Seq::<TokenV>::empty());
        return Ok(());
    }
    let token = &tokens[*pos];
    *pos += 1;
    assert(t[*pos - 1] == token@);
    match token {
        PreprocessorToken::NonOpSymbol(NonOpSymbol::Colon) => {
            assert(tokens_view(middle_buffer@) =~= tokens_view(old(middle_buffer)@) + Seq::<TokenV>::empty());
            Ok(())
        },
        PreprocessorToken::NonOpSymbol(NonOpSymbol::Interrogation) => Err(
            Failure::Preprocessor(PreprocessorError::IncompleteOperator),
        ),
        _ => {
            let ghost before = tokens_view(middle_buffer@);
            middle_buffer.push(token.clone());
            assert(tokens_view(middle_buffer@) =~= before.push(token@));
            let r = push_second_and_third(tokens, pos, middle_buffer);
            proof {
                if let Some((s, e)) = middle_part(t, *old(pos) as nat + 1) {
                    assert(before.push(token@) + s =~= before + (seq![token@] + s));
                }
            }
            r
        },
    }
}

pub open spec fn state_effect(before: &State, after: &State, r: Result<i32, Failure>) -> (Result<i32, FailureV>, u32, Seq<Seq<char>>) {
    (int_result_view(r), after.current_position.col, warnings_view(after))
}

/// The value of the gathered tokens.
fn plain_eval(buffer: &Vec<PreprocessorToken>, state: &mut State) -> (r: Result<i32, Failure>)
    ensures
        only_column_and_warnings_changed(old(state), final(state)),
        plain_value(tokens_view(buffer@), env_of(old(state)), old(state).current_position.col, warnings_view(old(state)))
            == state_effect(old(state), final(state), r),
{
    let tree = tokens_to_ast(buffer, &mut state.current_position, &mut state.warnings)?;
    binary_ast_to_int(&tree, state)
}

#[verifier::rlimit(40)]
fn eval_expression_impl(tokens: &Vec<PreprocessorToken>, pos: &mut usize, state: &mut State) -> (r: Result<i32, Failure>)
    requires
        *old(pos) <= tokens@.len(),
    ensures
        only_column_and_warnings_changed(old(state), final(state)),
        conditional_from(tokens_view(tokens@), *old(pos) as nat, Seq::empty(), env_of(old(state)), old(state).current_position.col, warnings_view(old(state)))
            == state_effect(old(state), final(state), r),
        r is Ok ==> *final(pos) == tokens@.len(),
    decreases tokens@.len(), tokens@.len() - *old(pos),
{
    let ghost t = tokens_view(tokens@);
    let ghost env = env_of(state);
    let ghost start = *pos;
    let ghost goal = conditional_from(t, start as nat, Seq::empty(), env, state.current_position.col, warnings_view(state));
    let mut no_ternary_vec: Vec<PreprocessorToken> = Vec::new();
    assert(tokens_view(no_ternary_vec@) =~= Seq::<TokenV>::empty());
    while *pos < tokens.len()
        invariant
            start == *old(pos),
            goal == conditional_from(t, start as nat, Seq::empty(), env_of(old(state)), old(state).current_position.col, warnings_view(old(state))),
            start <= *pos <= tokens@.len(),
            t == tokens_view(tokens@),
            no_ternary_vec@.len() + start <= *pos,
            only_column_and_warnings_changed(old(state), state),
            env == env_of(old(state)),
            goal == conditional_from(t, *pos as nat, tokens_view(no_ternary_vec@), env, state.current_position.col, warnings_view(state)),
        decreases tokens@.len() - *pos,
    {
        let ghost p = *pos as nat;
        let ghost b = tokens_view(no_ternary_vec@);
        let token = &tokens[*pos];
        *pos += 1;
        assert(t[p as int] == token@);
        match token {
            PreprocessorToken::NonOpSymbol(NonOpSymbol::Interrogation) => {
                let ghost c0 = state.current_position.col;
                let ghost w0 = warnings_view(state);
                let mut first: Vec<PreprocessorToken> = Vec::new();
                core::mem::swap(&mut first, &mut no_ternary_vec);
                assert(tokens_view(first@) == b);
                let mut second: Vec<PreprocessorToken> = Vec::new();
                proof {
                    lemma_middle_part_bounds(t, p + 1);
                }
                let pushed = push_second_and_third(tokens, pos, &mut second);
                if let Err(e) = pushed {
                    assert(middle_part(t, p + 1) is None);
                    assert(goal == (Err::<i32, FailureV>(incomplete_operator()), c0, w0));
                    return Err(e);
                }
                assert(tokens_view(second@) =~= Seq::<TokenV>::empty() + tokens_view(second@));
                let ghost sv = tokens_view(second@);
                let ghost p2 = *pos as nat;
                assert(middle_part(t, p + 1) == Some((sv, p2)));
                let condition = match eval_expression(first, state) {
                    Ok(c) => c,
                    Err(e) => {
                        return Err(e);
                    },
                };
                let ghost c1 = state.current_position.col;
                let ghost w1 = warnings_view(state);
                let res = if condition != 0 {
                    match eval_expression(second, state) {
                        Ok(v) => v,
                        Err(e) => {
                            return Err(e);
                        },
                    }
                } else {
                    match eval_expression_impl(tokens, pos, state) {
                        Ok(v) => v,
                        Err(e) => {
                            return Err(e);
                        },
                    }
                };
                no_ternary_vec.push(PreprocessorToken::LiteralNumber(res));
                assert(tokens_view(no_ternary_vec@) =~= seq![TokenV::LiteralNumber(res)]);
            },
            PreprocessorToken::NonOpSymbol(NonOpSymbol::Colon) => {
                return Err(Failure::Preprocessor(PreprocessorError::IncompleteOperator));
            },
            _ => {
                no_ternary_vec.push(token.clone());
                assert(tokens_view(no_ternary_vec@) =~= b.push(token@));
            },
        }
    }
    plain_eval(&no_ternary_vec, state)
}

/// The value of a preprocessor expression with conditional operators (see
/// `conditional_from`).
pub fn eval_expression(tokens: Vec<PreprocessorToken>, state: &mut State) -> (r: Result<i32, Failure>)
    ensures
        only_column_and_warnings_changed(old(state), final(state)),
        conditional_value(tokens_view(tokens@), env_of(old(state)), old(state).current_position.col, warnings_view(old(state)))
            == state_effect(old(state), final(state), r),
    decreases tokens@.len(), tokens@.len() + 1,
{
    let mut pos: usize = 0;
    eval_expression_impl(&tokens, &mut pos, state)
}

proof fn lemma_single_literal(x: i32, env: EvalEnv, col: u32, w: Seq<Seq<char>>)
    ensures
        plain_value(seq![TokenV::LiteralNumber(x)], env, col, w) == (Ok::<i32, FailureV>(x), col, w),
        conditional_value(seq![TokenV::LiteralNumber(x)], env, col, w) == (Ok::<i32, FailureV>(x), col, w),
{
    let t = seq![TokenV::LiteralNumber(x)];
    let built = Built { tree: AstV::Leaf(TokenV::LiteralNumber(x)), index: 1, level: 0, acc3: AstV::Empty, warnings: w };
    assert(ast_from(t, 1, AstV::Leaf(TokenV::LiteralNumber(x)), None, 0, AstV::Empty, w) == Ok::<Built, (FailureV, Seq<Seq<char>>)>(built));
    assert(ast_from(t, 0, AstV::Empty, None, 0, AstV::Empty, w) == Ok::<Built, (FailureV, Seq<Seq<char>>)>(built));
    assert(conditional_from(t, 1, t, env, col, w) == plain_value(t, env, col, w));
    assert(Seq::<TokenV>::empty().push(TokenV::LiteralNumber(x)) =~= t);
}

/// `0 ? a : b` has the value `b`. (When the condition is not zero, the
/// value of the middle part is gathered and what follows the `:` is read
/// after it, so `1 ? 2 : 3` has the value 3.)
pub proof fn law_conditional_on_zero(a: i32, b: i32, env: EvalEnv, col: u32, w: Seq<Seq<char>>)
    ensures
        conditional_value(
            seq![
                TokenV::LiteralNumber(0),
                TokenV::NonOpSymbol(NonOpSymbol::Interrogation),
                TokenV::LiteralNumber(a),
                TokenV::NonOpSymbol(NonOpSymbol::Colon),
                TokenV::LiteralNumber(b),
            ],
            env,
            col,
            w,
        ) == (Ok::<i32, FailureV>(b), col, w),
{
    let t = seq![
        TokenV::LiteralNumber(0),
        TokenV::NonOpSymbol(NonOpSymbol::Interrogation),
        TokenV::LiteralNumber(a),
        TokenV::NonOpSymbol(NonOpSymbol::Colon),
        TokenV::LiteralNumber(b),
    ];
    let zero = seq![TokenV::LiteralNumber(0i32)];
    let lb = seq![TokenV::LiteralNumber(b)];
    lemma_single_literal(0, env, col, w);
    lemma_single_literal(b, env, col, w);
    assert(middle_part(t, 3) == Some::<(Seq<TokenV>, nat)>((Seq::empty(), 4)));
    assert(seq![TokenV::LiteralNumber(a)] + Seq::<TokenV>::empty() =~= seq![TokenV::LiteralNumber(a)]);
    assert(middle_part(t, 2) == Some::<(Seq<TokenV>, nat)>((seq![TokenV::LiteralNumber(a)], 4)));
    assert(conditional_from(t, 5, lb, env, col, w) == (Ok::<i32, FailureV>(b), col, w));
    assert(Seq::<TokenV>::empty().push(TokenV::LiteralNumber(b)) =~= lb);
    assert(conditional_from(t, 4, Seq::empty(), env, col, w) == (Ok::<i32, FailureV>(b), col, w));
    assert(Seq::<TokenV>::empty().push(TokenV::LiteralNumber(0)) =~= zero);
    assert(conditional_from(t, 1, zero, env, col, w) == (Ok::<i32, FailureV>(b), col, w));
}

proof fn lemma_plain_from(t: Seq<TokenV>, p: nat, b: Seq<TokenV>, env: EvalEnv, col: u32, w: Seq<Seq<char>>)
    requires
        b.len() <= p <= t.len(),
        forall|i: int| 0 <= i < t.len() ==> !(#[trigger] t[i] is NonOpSymbol),
    ensures
        conditional_from(t, p, b, env, col, w) == plain_value(b + t.subrange(p as int, t.len() as int), env, col, w),
    decreases t.len() - p,
{
    if p < t.len() {
        assert(!(t[p as int] is NonOpSymbol));
        lemma_plain_from(t, p + 1, b.push(t[p as int]), env, col, w);
        assert(b.push(t[p as int]) + t.subrange((p + 1) as int, t.len() as int) =~= b + t.subrange(p as int, t.len() as int));
    } else {
        assert(b + t.subrange(p as int, t.len() as int) =~= b);
    }
}

/// An expression with no `?` and no `:` has the value of its tree, as
/// `tokens_to_ast` and `binary_ast_to_int` give it.
pub proof fn law_no_conditional_is_plain(t: Seq<TokenV>, env: EvalEnv, col: u32, w: Seq<Seq<char>>)
    requires
        forall|i: int| 0 <= i < t.len() ==> !(#[trigger] t[i] is NonOpSymbol),
    ensures
        conditional_value(t, env, col, w) == plain_value(t, env, col, w),
{
    lemma_plain_from(t, 0, Seq::empty(), env, col, w);
    assert(Seq::<TokenV>::empty() + t.subrange(0, t.len() as int) =~= t);
}

/// `a == b && c == d` groups as `(a == b) && (c == d)`: `&&` binds looser
/// than `==`, and its value is 1 exactly when both equalities hold.
pub proof fn law_and_of_equalities(a: i32, b: i32, c: i32, d: i32, env: EvalEnv, col: u32, w: Seq<Seq<char>>)
    ensures
        ({
            let eq = TokenV::Operator(Operator::Binary(BinaryOperator::Eequal));
            let and = TokenV::Operator(Operator::Binary(BinaryOperator::And));
            let t = seq![
                TokenV::LiteralNumber(a),
                eq,
                TokenV::LiteralNumber(b),
                and,
                TokenV::LiteralNumber(c),
                eq,
                TokenV::LiteralNumber(d),
            ];
            &&& tokens_tree(t, w) == (
                Ok::<AstV, FailureV>(
                    AstV::BinaryTree {
                        binary_operator: BinaryOperator::And,
                        left: Box::new(
                            AstV::BinaryTree {
                                binary_operator: BinaryOperator::Eequal,
                                left: Box::new(AstV::Leaf(TokenV::LiteralNumber(a))),
                                right: Box::new(AstV::Leaf(TokenV::LiteralNumber(b))),
                            },
                        ),
                        right: Box::new(
                            AstV::BinaryTree {
                                binary_operator: BinaryOperator::Eequal,
                                left: Box::new(AstV::Leaf(TokenV::LiteralNumber(c))),
                                right: Box::new(AstV::Leaf(TokenV::LiteralNumber(d))),
                            },
                        ),
                    },
                ),
                w,
            )
            &&& conditional_value(t, env, col, w) == (Ok::<i32, FailureV>(bool_int(a == b && c == d)), col, w)
        }),
{
    let eq = TokenV::Operator(Operator::Binary(BinaryOperator::Eequal));
    let and = TokenV::Operator(Operator::Binary(BinaryOperator::And));
    let t = seq![
        TokenV::LiteralNumber(a),
        eq,
        TokenV::LiteralNumber(b),
        and,
        TokenV::LiteralNumber(c),
        eq,
        TokenV::LiteralNumber(d),
    ];
    let la = AstV::Leaf(TokenV::LiteralNumber(a));
    let lb = AstV::Leaf(TokenV::LiteralNumber(b));
    let lc = AstV::Leaf(TokenV::LiteralNumber(c));
    let ld = AstV::Leaf(TokenV::LiteralNumber(d));
    let e = AstV::Empty;
    let opeq = Some(Operator::Binary(BinaryOperator::Eequal));
    let opand = Some(Operator::Binary(BinaryOperator::And));
    let ab = AstV::BinaryTree { binary_operator: BinaryOperator::Eequal, left: Box::new(la), right: Box::new(lb) };
    let cd = AstV::BinaryTree { binary_operator: BinaryOperator::Eequal, left: Box::new(lc), right: Box::new(ld) };
    let all = AstV::BinaryTree { binary_operator: BinaryOperator::And, left: Box::new(ab), right: Box::new(cd) };
    let done = |tree: AstV, i: nat| Built { tree, index: i, level: 0, acc3: e, warnings: w };
    // The right operand of the second `==`.
    assert(ast_from(t, 7, ld, opeq, 0, e, w) == Ok::<Built, (FailureV, Seq<Seq<char>>)>(done(ld, 7)));
    assert(ast_from(t, 6, e, opeq, 0, e, w) == Ok::<Built, (FailureV, Seq<Seq<char>>)>(done(ld, 7)));
    assert(ast_continue(t, 7, cd, opand, 0, e, w) == Ok::<Built, (FailureV, Seq<Seq<char>>)>(done(cd, 7)));
    assert(ast_binary(t, 6, lc, opand, BinaryOperator::Eequal, 11, 0, e, w) == Ok::<Built, (FailureV, Seq<Seq<char>>)>(done(cd, 7)));
    assert(ast_from(t, 5, lc, opand, 0, e, w) == Ok::<Built, (FailureV, Seq<Seq<char>>)>(done(cd, 7)));
    assert(ast_from(t, 4, e, opand, 0, e, w) == Ok::<Built, (FailureV, Seq<Seq<char>>)>(done(cd, 7)));
    // The `&&` after `a == b`.
    assert(ast_continue(t, 7, all, None, 0, e, w) == Ok::<Built, (FailureV, Seq<Seq<char>>)>(done(all, 7)));
    assert(ast_binary(t, 4, ab, None, BinaryOperator::And, 15, 0, e, w) == Ok::<Built, (FailureV, Seq<Seq<char>>)>(done(all, 7)));
    assert(ast_from(t, 3, ab, None, 0, e, w) == Ok::<Built, (FailureV, Seq<Seq<char>>)>(done(all, 7)));
    // The right operand of the first `==` stops before `&&`.
    assert(ast_binary(t, 4, lb, opeq, BinaryOperator::And, 7, 0, e, w) == Ok::<Built, (FailureV, Seq<Seq<char>>)>(done(lb, 3)));
    assert(ast_from(t, 3, lb, opeq, 0, e, w) == Ok::<Built, (FailureV, Seq<Seq<char>>)>(done(lb, 3)));
    assert(ast_from(t, 2, e, opeq, 0, e, w) == Ok::<Built, (FailureV, Seq<Seq<char>>)>(done(lb, 3)));
    assert(ast_continue(t, 3, ab, None, 0, e, w) == Ok::<Built, (FailureV, Seq<Seq<char>>)>(done(all, 7)));
    assert(ast_binary(t, 2, la, None, BinaryOperator::Eequal, 15, 0, e, w) == Ok::<Built, (FailureV, Seq<Seq<char>>)>(done(all, 7)));
    assert(ast_from(t, 1, la, None, 0, e, w) == Ok::<Built, (FailureV, Seq<Seq<char>>)>(done(all, 7)));
    assert(ast_from(t, 0, e, None, 0, e, w) == Ok::<Built, (FailureV, Seq<Seq<char>>)>(done(all, 7)));
    // Its value.
    let depth = expansion_budget(env.defines);
    assert(eval_ast(la, env, col, w, depth) == (Ok::<i32, FailureV>(a), col, w));
    assert(eval_ast(lb, env, col, w, depth) == (Ok::<i32, FailureV>(b), col, w));
    assert(eval_ast(lc, env, col, w, depth) == (Ok::<i32, FailureV>(c), col, w));
    assert(eval_ast(ld, env, col, w, depth) == (Ok::<i32, FailureV>(d), col, w));
    assert(eval_ast(ab, env, col, w, depth) == (Ok::<i32, FailureV>(bool_int(a == b)), col, w));
    assert(eval_ast(cd, env, col, w, depth) == (Ok::<i32, FailureV>(bool_int(c == d)), col, w));
    assert(eval_ast(all, env, col, w, depth) == (Ok::<i32, FailureV>(bool_int(a == b && c == d)), col, w));
    assert forall|i: int| 0 <= i < t.len() implies !(#[trigger] t[i] is NonOpSymbol) by {}
    law_no_conditional_is_plain(t, env, col, w);
}

} // verus!
