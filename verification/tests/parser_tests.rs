use telecc::errors::{Failure, SystemError};
use telecc::parser::{
    parse_preprocessor, token_from_str, Associativity, BinaryOperator, Bracing, NonOpSymbol, Operator, OperatorTrait,
    PreprocessorToken, UnaryOperator,
};
use telecc::structs::{State, TextMap};

fn literal_value(word: &str) -> i32 {
    word.parse::<f32>().map(|f| f as i32).unwrap_or(0)
}

fn tokens(expr: &str) -> (Vec<PreprocessorToken>, State) {
    let mut state = State::default();
    loop {
        let mut s = state.clone();
        match parse_preprocessor(expr, &mut s) {
            Err(Failure::LiteralValueNeeded(word)) => {
                let v = literal_value(&word);
                state.literal_values.insert(word, v);
            }
            Err(e) => panic!("{:?}", e),
            Ok(t) => return (t, s),
        }
    }
}

#[test]
fn tokens_of_an_expression() {
    let (t, state) = tokens("A+12 >= (b)");
    assert_eq!(
        t,
        vec![
            PreprocessorToken::Macro(String::from("A")),
            PreprocessorToken::Operator(Operator::Unary(UnaryOperator::Plus)),
            PreprocessorToken::LiteralNumber(12),
            PreprocessorToken::Operator(Operator::Binary(BinaryOperator::GreaterEqual)),
            PreprocessorToken::Bracing(Bracing::LeftParenthesis),
            PreprocessorToken::Macro(String::from("b")),
            PreprocessorToken::Bracing(Bracing::RightParenthesis),
        ]
    );
    // The column moves by one for each character read.
    assert_eq!(state.current_position.col, 11);
}

#[test]
fn longest_operators_win() {
    let (t, _) = tokens("a<<=b&&c||!d");
    assert_eq!(
        t,
        vec![
            PreprocessorToken::Macro(String::from("a")),
            PreprocessorToken::Operator(Operator::Binary(BinaryOperator::ShiftLeftAssign)),
            PreprocessorToken::Macro(String::from("b")),
            PreprocessorToken::Operator(Operator::Binary(BinaryOperator::And)),
            PreprocessorToken::Macro(String::from("c")),
            PreprocessorToken::Operator(Operator::Binary(BinaryOperator::Or)),
            PreprocessorToken::Operator(Operator::Unary(UnaryOperator::Not)),
            PreprocessorToken::Macro(String::from("d")),
        ]
    );
}

#[test]
fn defined_and_conditional_symbols() {
    let (t, _) = tokens("defined X ? 1 : 2");
    assert_eq!(t[0], PreprocessorToken::Operator(Operator::Unary(UnaryOperator::Defined)));
    assert_eq!(t[1], PreprocessorToken::Macro(String::from("X")));
    assert_eq!(t[2], PreprocessorToken::NonOpSymbol(NonOpSymbol::Interrogation));
    assert_eq!(t[4], PreprocessorToken::NonOpSymbol(NonOpSymbol::Colon));
}

#[test]
fn numbers_need_their_values() {
    let mut state = State::default();
    match parse_preprocessor("1.5e1", &mut state) {
        // Each prefix of the word is tried in turn, so the first value asked
        // for is that of "1".
        Err(Failure::LiteralValueNeeded(w)) => assert_eq!(w, "1"),
        other => panic!("{:?}", other),
    }
    let (t, _) = tokens("1.5e1");
    assert_eq!(t, vec![PreprocessorToken::LiteralNumber(15)]);
    let (t, _) = tokens("inf");
    assert_eq!(t, vec![PreprocessorToken::LiteralNumber(i32::MAX)]);
}

#[test]
fn token_from_str_cases() {
    let mut values: TextMap<i32> = TextMap::new();
    values.insert(String::from("3"), 3);
    assert_eq!(token_from_str("", &values).unwrap(), None);
    assert_eq!(token_from_str("3", &values).unwrap(), Some(PreprocessorToken::LiteralNumber(3)));
    assert_eq!(token_from_str("x1", &values).unwrap(), Some(PreprocessorToken::Macro(String::from("x1"))));
    assert_eq!(token_from_str("a+", &values).unwrap(), None);
    assert_eq!(
        token_from_str("\"ab\"", &values).unwrap(),
        Some(PreprocessorToken::LiteralString(String::from("ab")))
    );
    assert!(matches!(token_from_str("\"", &values), Err(Failure::System(SystemError::CompilationError(_)))));
    assert!(matches!(token_from_str("4", &values), Err(Failure::LiteralValueNeeded(_))));
}

#[test]
fn precedences() {
    assert_eq!(Operator::max_precedence(), 15);
    assert_eq!(BinaryOperator::Mul.precedence(), 3);
    assert_eq!(BinaryOperator::Add.precedence(), 4);
    assert_eq!(BinaryOperator::Or.precedence(), 12);
    assert_eq!(Operator::Conditional.precedence(), 13);
    assert_eq!(UnaryOperator::Defined.precedence(), 0);
    assert!(Operator::Binary(BinaryOperator::AddAssign).precedence() < Operator::max_precedence());
    assert!(BinaryOperator::AddAssign.associativity() == Associativity::RightToLeft);
    assert!(BinaryOperator::MulAssign.associativity() == Associativity::LeftToRight);
    assert!(UnaryOperator::Minus.associativity() == Associativity::RightToLeft);
}

#[test]
fn debug_text_matches_debug_formatting() {
    let all = vec![
        PreprocessorToken::Operator(Operator::Unary(UnaryOperator::BitwiseNot)),
        PreprocessorToken::Operator(Operator::Binary(BinaryOperator::ShiftRightAssign)),
        PreprocessorToken::Operator(Operator::Conditional),
        PreprocessorToken::Bracing(Bracing::RightBrace),
        PreprocessorToken::LiteralString(String::from("a \"q\"\n")),
        PreprocessorToken::LiteralNumber(-2147483648),
        PreprocessorToken::LiteralNumber(42),
        PreprocessorToken::Macro(String::from("NAME")),
        PreprocessorToken::NonOpSymbol(NonOpSymbol::Colon),
    ];
    for t in all {
        assert_eq!(t.debug_text(), format!("{:?}", t));
    }
}
