//! Evaluation of an expression group by group: each parenthesized group
//! becomes one value, and the outermost group gives the result.
use vstd::prelude::*;
use vstd::string::*;
use vstd::utf8::encode_utf8;

use crate::errors::{Failure, FailureV, PreprocessorError, PreprocessorErrorV};
use crate::eval::{env_of, only_column_and_warnings_changed, warnings_view, EvalEnv, clamp, bool_int};
use crate::parser::{tokens_view, token_debug, is_ascii_digit, Bracing, PreprocessorToken, TokenV};
use crate::structs::{MacroValue, MacroValueV, State};
use crate::ternary::{conditional_value, eval_expression};
use crate::text::{chars_of, concat};

verus! {

// ---------------------------------------------------------------------------
// `str::parse::<i32>`.

/// The value of a text of decimal digits.
pub open spec fn digits_value(s: Seq<char>) -> int
    decreases s.len(),
{
    if s.len() == 0 {
        0
    } else {
        digits_value(s.drop_last()) * 10 + (s.last() as int - '0' as int)
    }
}

pub open spec fn all_digits(s: Seq<char>) -> bool {
    forall|i: int| 0 <= i < s.len() ==> is_ascii_digit(#[trigger] s[i])
}

/// What `s.parse::<i32>()` gives: an optional sign, then at least one digit
/// and nothing else, for a value that fits.
pub open spec fn parse_i32_spec(s: Seq<char>) -> Option<i32> {
    let negative = s.len() > 0 && s[0] == '-';
    let body = if s.len() > 0 && (s[0] == '-' || s[0] == '+') { s.drop_first() } else { s };
    let v = if negative { -digits_value(body) } else { digits_value(body) };
    if body.len() == 0 || !all_digits(body) || v < i32::MIN || v > i32::MAX {
        None
    } else {
        Some(v as i32)
    }
}

proof fn lemma_digits_value_grows(s: Seq<char>, k: int)
    requires
        all_digits(s),
        0 <= k <= s.len(),
    ensures
        digits_value(s.take(k)) <= digits_value(s),
        0 <= digits_value(s.take(k)),
    decreases s.len() - k,
{
    if k < s.len() {
        lemma_digits_value_grows(s, k + 1);
        assert(s.take(k + 1).drop_last() =~= s.take(k));
        assert(s.take(k + 1).last() == s[k]);
    } else {
        assert(s.take(k) =~= s);
    }
    lemma_digits_value_nonneg(s.take(k));
}

proof fn lemma_digits_value_nonneg(s: Seq<char>)
    requires
        all_digits(s),
    ensures
        0 <= digits_value(s),
    decreases s.len(),
{
    if s.len() > 0 {
        assert(all_digits(s.drop_last())) by {
            assert forall|i: int| 0 <= i < s.drop_last().len() implies is_ascii_digit(#[trigger] s.drop_last()[i]) by {
                assert(s.drop_last()[i] == s[i]);
            }
        }
        lemma_digits_value_nonneg(s.drop_last());
        assert(is_ascii_digit(s[s.len() - 1]));
    }
}

/// `s.parse::<i32>()`.
pub fn parse_i32(s: &str) -> (r: Option<i32>)
    ensures
        r == parse_i32_spec(s@),
{
    let c = chars_of(s);
    let negative = c.len() > 0 && c[0] == '-';
    let start: usize = if c.len() > 0 && (c[0] == '-' || c[0] == '+') { 1 } else { 0 };
    let ghost body = if start == 1 { c@.drop_first() } else { c@ };
    assert(body =~= c@.skip(start as int));
    if start == c.len() {
        return None;
    }
    let mut acc: i64 = 0;
    let mut k: usize = start;
    while k < c.len()
        invariant
            c@ == s@,
            start == (if c@.len() > 0 && (c@[0] == '-' || c@[0] == '+') { 1usize } else { 0usize }),
            negative == (c@.len() > 0 && c@[0] == '-'),
            body == (if start == 1 { c@.drop_first() } else { c@ }),
            start <= k <= c@.len(),
            body == c@.skip(start as int),
            all_digits(body.take(k - start)),
            acc == digits_value(body.take(k - start)),
            0 <= acc <= 2147483648,
        decreases c@.len() - k,
    {
        let ch = c[k];
        if !('0' <= ch && ch <= '9') {
            proof {
                assert(body[k - start] == ch);
                assert(!is_ascii_digit(body[k - start]));
                assert(!all_digits(body));
                assert(parse_i32_spec(s@) is None);
            }
            return None;
        }
        let d = (ch as u32 - '0' as u32) as i64;
        let next = acc * 10 + d;
        proof {
            let pre = body.take(k - start);
            let post = body.take(k + 1 - start);
            assert(post.drop_last() =~= pre);
            assert(post.last() == ch);
            assert(all_digits(post)) by {
                assert forall|i: int| 0 <= i < post.len() implies is_ascii_digit(#[trigger] post[i]) by {
                    if i < pre.len() {
                        assert(post[i] == pre[i]);
                    }
                }
            }
        }
        assert(digits_value(body.take(k + 1 - start)) == next);
        if next > 2147483648 {
            proof {
                let post = body.take(k + 1 - start);
                if all_digits(body) {
                    lemma_digits_value_grows(body, k + 1 - start);
                }
            }
            return None;
        }
        acc = next;
        k = k + 1;
    }
    assert(body.take(k - start) =~= body);
    if negative {
        Some((-acc) as i32)
    } else if acc > 2147483647 {
        None
    } else {
        Some(acc as i32)
    }
}

/// The byte length of a string, if it fits in an `i32`; otherwise 0
/// (`i32::try_from(s.len()).unwrap_or_default()`).
pub open spec fn byte_length_or_zero(s: Seq<char>) -> i32 {
    let n = encode_utf8(s).len() as usize;
    if n <= i32::MAX {
        n as i32
    } else {
        0
    }
}

// ---------------------------------------------------------------------------
// Groups.

/// The end of a group: no token is an error, one token is the value, more
/// tokens are evaluated (with `conditional_value`) to a number.
pub open spec fn group_result(out: Seq<TokenV>, k: nat, env: EvalEnv, col: u32, w: Seq<Seq<char>>) -> (
    Result<(TokenV, nat), FailureV>,
    u32,
    Seq<Seq<char>>,
) {
    if out.len() == 0 {
        (Err(FailureV::Preprocessor(PreprocessorErrorV::EmptyParenthesis)), col, w)
    } else if out.len() == 1 {
        (Ok((out[0], k)), col, w)
    } else {
        let (r, c, w2) = conditional_value(out, env, col, w);
        match r {
            Err(e) => (Err(e), c, w2),
            Ok(v) => (Ok((TokenV::LiteralNumber(v), k)), c, w2),
        }
    }
}

/// Reading a group from position `i` with the tokens `out` gathered: a `(`
/// reads an inner group, whose result is gathered as one token; a `)` or the
/// end closes the group.
pub open spec fn group_from(t: Seq<TokenV>, i: nat, out: Seq<TokenV>, env: EvalEnv, col: u32, w: Seq<Seq<char>>) -> (
    Result<(TokenV, nat), FailureV>,
    u32,
    Seq<Seq<char>>,
)
    decreases t.len() - i,
{
    if i >= t.len() {
        group_result(out, i, env, col, w)
    } else {
        match t[i as int] {
            TokenV::Bracing(Bracing::LeftParenthesis) => {
                let (r, c, w2) = group_from(t, i + 1, Seq::empty(), env, col, w);
                match r {
                    Err(e) => (Err(e), c, w2),
                    Ok((tok, k)) => group_from(t, clamp(k, i + 1, t.len()), out.push(tok), env, c, w2),
                }
            },
            TokenV::Bracing(Bracing::RightParenthesis) => group_result(out, i + 1, env, col, w),
            tok => group_from(t, i + 1, out.push(tok), env, col, w),
        }
    }
}

pub open spec fn group_effect(r: Result<PreprocessorToken, Failure>, index: usize, after: &State) -> (
    Result<(TokenV, nat), FailureV>,
    u32,
    Seq<Seq<char>>,
) {
    (
        match r {
            Ok(t) => Ok((t@, index as nat)),
            Err(f) => Err(f@),
        },
        after.current_position.col,
        warnings_view(after),
    )
}

#[verifier::rlimit(40)]
fn eval_between_parenthesis(intokens: &Vec<PreprocessorToken>, inindex: &mut usize, state: &mut State) -> (r: Result<PreprocessorToken, Failure>)
    requires
        *old(inindex) <= intokens@.len(),
    ensures
        only_column_and_warnings_changed(old(state), final(state)),
        group_from(tokens_view(intokens@), *old(inindex) as nat, Seq::empty(), env_of(old(state)), old(state).current_position.col, warnings_view(old(state)))
            == group_effect(r, *final(inindex), final(state)),
        r is Ok ==> *old(inindex) <= *final(inindex) <= intokens@.len(),
    decreases intokens@.len() - *old(inindex),
{
    let ghost t = tokens_view(intokens@);
    let ghost env = env_of(state);
    let ghost start = *inindex;
    let ghost goal = group_from(t, start as nat, Seq::empty(), env, state.current_position.col, warnings_view(state));
    let mut outtokens: Vec<PreprocessorToken> = Vec::new();
    assert(tokens_view(outtokens@) =~= Seq::<TokenV>::empty());
    let mut closed = false;
    while !closed && *inindex < intokens.len()
        invariant
            start == *old(inindex),
            goal == group_from(t, start as nat, Seq::empty(), env_of(old(state)), old(state).current_position.col, warnings_view(old(state))),
            env == env_of(old(state)),
            t == tokens_view(intokens@),
            start <= *inindex <= intokens@.len(),
            only_column_and_warnings_changed(old(state), state),
            !closed ==> goal == group_from(t, *inindex as nat, tokens_view(outtokens@), env, state.current_position.col, warnings_view(state)),
            closed ==> goal == group_result(tokens_view(outtokens@), *inindex as nat, env, state.current_position.col, warnings_view(state)),
            closed ==> *inindex >= 1,
        decreases intokens@.len() - *inindex, if closed { 0int } else { 1int },
    {
        let ghost i = *inindex as nat;
        let ghost out = tokens_view(outtokens@);
        let token = &intokens[*inindex];
        *inindex += 1;
        assert(t[i as int] == token@);
        match token {
            PreprocessorToken::Bracing(Bracing::LeftParenthesis) => {
                let inner = eval_between_parenthesis(intokens, inindex, state)?;
                let ghost tv = inner@;
                outtokens.push(inner);
                assert(tokens_view(outtokens@) =~= out.push(tv));
            },
            PreprocessorToken::Bracing(Bracing::RightParenthesis) => {
                closed = true;
            },
            _ => {
                outtokens.push(token.clone());
                assert(tokens_view(outtokens@) =~= out.push(token@));
            },
        }
    }
    let ghost out = tokens_view(outtokens@);
    if outtokens.len() == 0 {
        Err(Failure::Preprocessor(PreprocessorError::EmptyParenthesis))
    } else if outtokens.len() == 1 {
        assert(out[0] == outtokens@[0]@);
        Ok(outtokens[0].clone())
    } else {
        let v = eval_expression(outtokens, state)?;
        Ok(PreprocessorToken::LiteralNumber(v))
    }
}

/// The number that the value token of a whole expression stands for.
pub open spec fn token_number(tok: TokenV, defines: Map<Seq<char>, MacroValueV>) -> Result<i32, FailureV> {
    match tok {
        TokenV::LiteralNumber(n) => Ok(n),
        TokenV::LiteralString(v) => Ok(bool_int(v.len() != 0)),
        TokenV::Macro(name) => if !defines.contains_key(name) {
            Ok(0)
        } else {
            match defines[name] {
                MacroValueV::String(value) => match parse_i32_spec(value) {
                    Some(n) => Ok(n),
                    None => Ok(byte_length_or_zero(value)),
                },
                MacroValueV::Function { .. } => Err(
                    FailureV::Preprocessor(PreprocessorErrorV::InvalidLeaf("functions are not yet implemented"@)),
                ),
            }
        },
        _ => Err(FailureV::Preprocessor(PreprocessorErrorV::InvalidLeaf("expected number, but got "@ + token_debug(tok)))),
    }
}

/// The value of an expression read group by group (see `group_from` and
/// `token_number`).
pub open spec fn tokens_value(t: Seq<TokenV>, env: EvalEnv, col: u32, w: Seq<Seq<char>>) -> (
    Result<i32, FailureV>,
    u32,
    Seq<Seq<char>>,
) {
    let (r, c, w2) = group_from(t, 0, Seq::empty(), env, col, w);
    match r {
        Err(e) => (Err(e), c, w2),
        Ok((tok, _)) => (token_number(tok, env.defines), c, w2),
    }
}

/// Evaluates an expression group by group (see `tokens_value`).
pub fn eval_tokens(tokens: &Vec<PreprocessorToken>, state: &mut State) -> (r: Result<i32, Failure>)
    ensures
        only_column_and_warnings_changed(old(state), final(state)),
        tokens_value(tokens_view(tokens@), env_of(old(state)), old(state).current_position.col, warnings_view(old(state)))
            == (crate::eval::int_result_view(r), final(state).current_position.col, warnings_view(final(state))),
{
    let mut inindex: usize = 0;
    let ghost env = env_of(state);
    let token = eval_between_parenthesis(tokens, &mut inindex, state)?;
    assert(env_of(state).defines == env.defines);
    match token {
        PreprocessorToken::LiteralNumber(num) => Ok(num),
        PreprocessorToken::LiteralString(val) => Ok(if val.as_str().is_empty() { 0 } else { 1 }),
        PreprocessorToken::Macro(macro_name) => match state.defines.get(macro_name.as_str()) {
            None => Ok(0),
            Some(MacroValue::String(value)) => match parse_i32(value.as_str()) {
                Some(n) => Ok(n),
                None => {
                    let length = value.as_str().len();
                    Ok(if length <= 2147483647 { length as i32 } else { 0 })
                },
            },
            Some(MacroValue::Function { .. }) => Err(
                Failure::Preprocessor(PreprocessorError::InvalidLeaf(String::from_str("functions are not yet implemented"))),
            ),
        },
        tok => {
            let shown = tok.debug_text();
            Err(Failure::Preprocessor(PreprocessorError::InvalidLeaf(concat("expected number, but got ", shown.as_str()))))
        },
    }
}

} // verus!
