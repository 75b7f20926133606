use telecc::errors::{Failure, GeneralError, PreprocessorError, SystemError};
use telecc::eval::{binary_ast_to_int, tokens_to_ast, PreprocessorAst};
use telecc::parser::{parse_preprocessor, BinaryOperator, NonOpSymbol, Operator, PreprocessorToken};
use telecc::reader::{eval_tokens, parse_i32};
use telecc::structs::{MacroValue, State};
use telecc::ternary::eval_expression;

fn literal_value(word: &str) -> i32 {
    word.parse::<f32>().map(|f| f as i32).unwrap_or(0)
}

/// Evaluates `expr`, supplying the values of numeric literals as they are
/// asked for.
fn eval(expr: &str, state: &mut State) -> Result<i32, Failure> {
    loop {
        let mut s = state.clone();
        let r = match parse_preprocessor(expr, &mut s) {
            Ok(tokens) => eval_expression(tokens, &mut s),
            Err(e) => Err(e),
        };
        match r {
            Err(Failure::LiteralValueNeeded(word)) => {
                let v = literal_value(&word);
                state.literal_values.insert(word, v);
            }
            other => {
                *state = s;
                return other;
            }
        }
    }
}

fn value(expr: &str) -> i32 {
    let mut state = State::default();
    eval(expr, &mut state).unwrap()
}

#[test]
fn arithmetic_follows_precedence() {
    assert_eq!(value("1 + 2 * 3"), 7);
    assert_eq!(value("2 * (1 + 2)"), 6);
    // A parenthesis that opens an expression gives the value of the whole
    // expression: what follows its closing parenthesis is not read.
    assert_eq!(value("(1 + 2) * 3"), 3);
    assert_eq!(value("10 - 4 - 3"), 3);
    assert_eq!(value("10 / 3"), 3);
    assert_eq!(value("10 % 3"), 1);
    assert_eq!(value("0 - 7 / 2"), -3);
    assert_eq!(value("1 << 4"), 16);
    assert_eq!(value("256 >> 4"), 16);
    assert_eq!(value("6 & 3"), 2);
    assert_eq!(value("6 | 3"), 7);
    assert_eq!(value("6 ^ 3"), 5);
}

#[test]
fn comparisons_and_logic_give_zero_or_one() {
    assert_eq!(value("5 > 3"), 1);
    assert_eq!(value("5 < 3"), 0);
    assert_eq!(value("3 <= 3"), 1);
    assert_eq!(value("3 >= 4"), 0);
    assert_eq!(value("2 == 2"), 1);
    assert_eq!(value("2 != 2"), 0);
    assert_eq!(value("1 && 0"), 0);
    assert_eq!(value("1 || 0"), 1);
    assert_eq!(value("!0"), 1);
    assert_eq!(value("!5"), 0);
}

#[test]
fn unary_operators() {
    assert_eq!(value("2 + -5"), -3);
    // A leading sign applies to the operand that follows and ends the
    // expression.
    assert_eq!(value("-5 + 2"), -5);
    assert_eq!(value("~0"), -1);
    assert_eq!(value("+4"), 4);
}

#[test]
fn conditional_operator() {
    assert_eq!(value("0 ? 5 : 7"), 7);
    // When the condition holds, what follows the colon is read after the
    // value of the middle part and replaces it.
    assert_eq!(value("1 ? 2 : 3"), 3);
}

#[test]
fn literal_values_are_read_as_floats_and_truncated() {
    assert_eq!(value("2.9"), 2);
    assert_eq!(value("1e2"), 100);
    assert_eq!(value("7 + 0.5"), 7);
}

#[test]
fn macros_stand_for_their_values() {
    let mut state = State::default();
    state.defines.insert(String::from("X"), MacroValue::String(String::from("4")));
    assert_eq!(eval("X * 2", &mut state).unwrap(), 8);
    assert_eq!(eval("Y + 1", &mut state).unwrap(), 1);
    assert_eq!(eval("defined X", &mut state).unwrap(), 1);
    assert_eq!(eval("defined Y", &mut state).unwrap(), 0);
}

#[test]
fn function_macros_count_as_zero_with_a_warning() {
    let mut state = State::default();
    state.defines.insert(
        String::from("F"),
        MacroValue::Function { args: vec![String::from("a")], body: String::from("a") },
    );
    assert_eq!(eval("F", &mut state).unwrap(), 0);
    assert_eq!(state.warnings.len(), 1);
}

#[test]
fn overflow_and_division_by_zero_fail() {
    let mut state = State::default();
    assert!(matches!(eval("2147483647 + 1", &mut state), Err(Failure::General(GeneralError::Overflow))));
    assert!(matches!(eval("1 / 0", &mut state), Err(Failure::General(GeneralError::Overflow))));
    assert!(matches!(eval("1 % 0", &mut state), Err(Failure::General(GeneralError::Overflow))));
    assert!(matches!(eval("1 << 32", &mut state), Err(Failure::General(GeneralError::Overflow))));
}

#[test]
fn incomplete_conditional_fails() {
    let mut state = State::default();
    assert!(matches!(
        eval("1 ? 2", &mut state),
        Ok(_) | Err(Failure::Preprocessor(PreprocessorError::IncompleteOperator))
    ));
    assert!(matches!(eval("1 : 2", &mut state), Err(Failure::Preprocessor(PreprocessorError::IncompleteOperator))));
}

#[test]
fn assignment_operators_are_refused() {
    let mut state = State::default();
    assert!(matches!(eval("1 += 2", &mut state), Err(Failure::Preprocessor(PreprocessorError::InvalidOperator(_)))));
}

#[test]
fn quotes_cannot_be_read() {
    let mut state = State::default();
    assert!(matches!(eval("\"a\"", &mut state), Err(Failure::System(SystemError::CompilationError(_)))));
    assert!(matches!(eval("'a'", &mut state), Err(Failure::System(SystemError::CompilationError(_)))));
}

#[test]
fn string_leaves_are_refused() {
    let tokens = vec![PreprocessorToken::LiteralString(String::from("a"))];
    let mut state = State::default();
    let tree = tokens_to_ast(&tokens, &mut state.current_position, &mut state.warnings).unwrap();
    assert!(matches!(
        binary_ast_to_int(&tree, &mut state),
        Err(Failure::Preprocessor(PreprocessorError::StringsNotAllowed))
    ));
}

#[test]
fn tree_of_a_sum() {
    let tokens = vec![
        PreprocessorToken::LiteralNumber(1),
        PreprocessorToken::Operator(Operator::Binary(BinaryOperator::Add)),
        PreprocessorToken::LiteralNumber(2),
    ];
    let mut state = State::default();
    let tree = tokens_to_ast(&tokens, &mut state.current_position, &mut state.warnings).unwrap();
    assert_eq!(
        tree,
        PreprocessorAst::BinaryTree {
            binary_operator: BinaryOperator::Add,
            left: Box::new(PreprocessorAst::Leaf(PreprocessorToken::LiteralNumber(1))),
            right: Box::new(PreprocessorAst::Leaf(PreprocessorToken::LiteralNumber(2))),
        }
    );
    assert_eq!(binary_ast_to_int(&tree, &mut state).unwrap(), 3);
}

#[test]
fn empty_tree_is_zero() {
    let mut state = State::default();
    assert_eq!(binary_ast_to_int(&PreprocessorAst::Empty, &mut state).unwrap(), 0);
}

#[test]
fn eval_tokens_reads_macros() {
    let mut state = State::default();
    state.defines.insert(String::from("N"), MacroValue::String(String::from("42")));
    state.defines.insert(String::from("W"), MacroValue::String(String::from("abc")));
    let n = vec![PreprocessorToken::Macro(String::from("N"))];
    assert_eq!(eval_tokens(&n, &mut state).unwrap(), 42);
    let w = vec![PreprocessorToken::Macro(String::from("W"))];
    assert_eq!(eval_tokens(&w, &mut state).unwrap(), 3);
    let u = vec![PreprocessorToken::Macro(String::from("U"))];
    assert_eq!(eval_tokens(&u, &mut state).unwrap(), 0);
    let s = vec![PreprocessorToken::LiteralString(String::from("x"))];
    assert_eq!(eval_tokens(&s, &mut state).unwrap(), 1);
    let e = vec![PreprocessorToken::LiteralString(String::new())];
    assert_eq!(eval_tokens(&e, &mut state).unwrap(), 0);
}

#[test]
fn eval_tokens_refuses_empty_parentheses() {
    let mut state = State::default();
    let t = vec![];
    assert!(matches!(eval_tokens(&t, &mut state), Err(Failure::Preprocessor(PreprocessorError::EmptyParenthesis))));
}

#[test]
fn parse_i32_agrees_with_std() {
    for s in ["0", "42", "-17", "+5", "2147483647", "-2147483648", "2147483648", "", "-", "12a", " 1", "007"] {
        assert_eq!(parse_i32(s), s.parse::<i32>().ok(), "{}", s);
    }
}

#[test]
fn defined_needs_a_macro_name() {
    let mut state = State::default();
    assert!(matches!(
        eval("defined 1", &mut state),
        Err(Failure::Preprocessor(PreprocessorError::DefinedChildNotMacro))
    ));
    assert!(matches!(
        eval("defined -A", &mut state),
        Err(Failure::Preprocessor(PreprocessorError::DefinedChildNotLeaf))
    ));
}

#[test]
fn conditional_operator_token_is_not_expected_in_a_tree() {
    let tokens = vec![PreprocessorToken::Operator(Operator::Conditional)];
    let mut state = State::default();
    assert!(matches!(
        tokens_to_ast(&tokens, &mut state.current_position, &mut state.warnings),
        Err(Failure::Preprocessor(PreprocessorError::Internal(_)))
    ));
}

#[test]
fn eval_tokens_refuses_symbols_and_function_macros() {
    let mut state = State::default();
    let t = vec![PreprocessorToken::NonOpSymbol(NonOpSymbol::Colon)];
    match eval_tokens(&t, &mut state) {
        Err(Failure::Preprocessor(PreprocessorError::InvalidLeaf(m))) => {
            assert_eq!(m, format!("expected number, but got {:?}", t[0]))
        }
        other => panic!("{:?}", other),
    }
    state.defines.insert(
        String::from("F"),
        MacroValue::Function { args: vec![String::from("a")], body: String::new() },
    );
    let f = vec![PreprocessorToken::Macro(String::from("F"))];
    assert!(matches!(eval_tokens(&f, &mut state), Err(Failure::Preprocessor(PreprocessorError::InvalidLeaf(_)))));
}

#[test]
fn eval_tokens_evaluates_groups() {
    let mut state = State::default();
    let t = vec![
        PreprocessorToken::Bracing(telecc::parser::Bracing::LeftParenthesis),
        PreprocessorToken::LiteralNumber(2),
        PreprocessorToken::Operator(Operator::Binary(BinaryOperator::Mul)),
        PreprocessorToken::LiteralNumber(5),
        PreprocessorToken::Bracing(telecc::parser::Bracing::RightParenthesis),
    ];
    assert_eq!(eval_tokens(&t, &mut state).unwrap(), 10);
}

#[test]
fn unmatched_parenthesis_is_reported() {
    let mut state = State::default();
    assert_eq!(eval("1 )", &mut state).unwrap(), 1);
    assert_eq!(state.warnings, vec![String::from("Overflow on subtract (this is totally normal, don't worry)")]);
}

#[test]
fn macro_chains_as_deep_as_the_table_are_expanded() {
    let mut state = State::default();
    let n = 300;
    for k in 0..n {
        state.defines.insert(format!("M{}", k), MacroValue::String(format!("M{}", k + 1)));
    }
    state.defines.insert(format!("M{}", n), MacroValue::String(String::from("7")));
    assert_eq!(eval("M0", &mut state).unwrap(), 7);
    state.defines.insert(String::from("SELF"), MacroValue::String(String::from("SELF")));
    assert!(matches!(eval("SELF", &mut state), Err(Failure::General(GeneralError::Overflow))));
}

fn apply(op: BinaryOperator, x: i32, y: i32) -> Result<i32, Failure> {
    let tree = PreprocessorAst::BinaryTree {
        binary_operator: op,
        left: Box::new(PreprocessorAst::Leaf(PreprocessorToken::LiteralNumber(x))),
        right: Box::new(PreprocessorAst::Leaf(PreprocessorToken::LiteralNumber(y))),
    };
    let mut state = State::default();
    binary_ast_to_int(&tree, &mut state)
}

#[test]
fn division_truncates_toward_zero() {
    assert_eq!(apply(BinaryOperator::Div, -7, 2).unwrap(), -3);
    assert_eq!(apply(BinaryOperator::Mod, -7, 3).unwrap(), -1);
    assert_eq!(apply(BinaryOperator::Mod, 7, -3).unwrap(), 1);
    assert_eq!(apply(BinaryOperator::Div, 7, -3).unwrap(), -2);
    assert!(matches!(apply(BinaryOperator::Div, i32::MIN, -1), Err(Failure::General(GeneralError::Overflow))));
    assert_eq!(apply(BinaryOperator::ShiftRight, -16, 2).unwrap(), -4);
    assert_eq!(apply(BinaryOperator::LessEqual, 3, 3).unwrap(), 1);
    assert!(matches!(apply(BinaryOperator::AddAssign, 1, 2), Err(Failure::Preprocessor(PreprocessorError::InvalidOperator(_)))));
}
