use telecc::arithmetic::CheckedOperations;
use telecc::errors::{
    FailError, Failure, FilePosition, GeneralError, PreprocessorError, SystemError, GENERAL_INCREMENT,
    PREPROCESSOR_INCREMENT, SYSTEM_INCREMENT,
};
use telecc::structs::{State, TextMap};
use telecc::text::{is_whitespace, trim, trim_start};
use telecc::tools;

fn position() -> FilePosition {
    FilePosition { line: 12, col: 5, filename: String::from("a.c"), filepath: String::from("src/a.c") }
}

#[test]
fn checked_operations() {
    let p = position();
    assert_eq!(120i8.checked_add_unwrap(7, &p).unwrap(), 127);
    assert!(matches!(127i8.checked_add_unwrap(1, &p), Err(Failure::General(GeneralError::Overflow))));
    assert!(matches!(0u8.checked_sub_unwrap(1, &p), Err(Failure::General(GeneralError::Overflow))));
    assert_eq!(6u64.checked_mul_unwrap(7, &p).unwrap(), 42);
    assert!(matches!(i32::MIN.checked_neg_unwrap(&p), Err(Failure::General(GeneralError::Overflow))));
    assert_eq!(5i64.checked_neg_unwrap(&p).unwrap(), -5);
    assert_eq!(0u32.checked_neg_unwrap(&p).unwrap(), 0);
    assert!(1u32.checked_neg_unwrap(&p).is_err());
    let mut x: usize = 3;
    x.checked_add_assign_unwrap(4, &p).unwrap();
    assert_eq!(x, 7);
    x.checked_sub_assign_unwrap(7, &p).unwrap();
    assert_eq!(x, 0);
    assert!(x.checked_sub_assign_unwrap(1, &p).is_err());
    assert_eq!(x, 0);
    let mut y: i16 = i16::MAX;
    assert!(y.checked_add_assign_unwrap(1, &p).is_err());
    assert_eq!(y, i16::MAX);
    assert_eq!((-3isize).checked_mul_unwrap(-3, &p).unwrap(), 9);
}

#[test]
fn error_codes_and_reports() {
    let p = position();
    assert_eq!(SystemError::UnsupportedOS.get_code().0, 1);
    assert_eq!(GeneralError::Overflow.get_code().0, 9);
    assert_eq!(PreprocessorError::FileNotFound(String::from("x.h")).get_code().1, "file x.h not found");
    assert_eq!(
        SystemError::AccessLibraryDenied(String::from("m")).fail(&p),
        format!("\n[ERROR {:0>3}]\t{}:{}:{}   {:?}", 9, "src/a.c", 12, 5, "path to the library m is denied")
    );
    let start = FilePosition { line: 2, col: 3, filename: String::from("a.c"), filepath: String::from("src/a.c") };
    assert_eq!(
        GeneralError::UnclosedComment { file_position: start, level: 2 }.fail(&p),
        format!(
            "\n[ERROR: {:0>3}]\t{}:{}:{}   {:?}",
            101, "src/a.c", 12, 5, "unclosed comment that started src/a.c:2:3 with level 2"
        )
    );
    assert_eq!(
        PreprocessorError::Internal(String::from("x")).fail(&p),
        format!("\n[ERROR {:0>3}]\t{}:{}:{}   {:?}", 299, "src/a.c", 12, 5, "internal error: x.\nPlease raise an issue")
    );
}

#[test]
fn error_kinds_lie_in_separate_hundreds() {
    assert_eq!(SYSTEM_INCREMENT, 0);
    assert_eq!(GENERAL_INCREMENT, 100);
    assert_eq!(PREPROCESSOR_INCREMENT, 200);
    assert!(SystemError::AccessLibraryDenied(String::new()).get_code().0 + SYSTEM_INCREMENT < 100);
    assert!(GeneralError::NotImplemented(String::new()).get_code().0 + GENERAL_INCREMENT < 200);
    assert!(PreprocessorError::Internal(String::new()).get_code().0 + PREPROCESSOR_INCREMENT < 300);
}

#[test]
fn scientific_reports() {
    let p = tools::FilePosition { line: 4, col: 9, filename: String::from("b.c"), filepath: String::from("b.c") };
    assert_eq!(
        tools::GeneralError::UnclosedBrace.fail(&p),
        format!("\n[ERROR: {:2e}]\t{}:{}:{}   {:?}", 6, "b.c", 4, 9, "unclosed brace")
    );
    assert_eq!(
        tools::PreprocessorError::IncompleteOperator(String::from("+")).fail(&p),
        format!("\n[ERROR: {:2e}]\t{}:{}:{}   {:?}", 131, "b.c", 4, 9, "incomplete operator +: missing argument")
    );
    let start = tools::FilePosition { line: 1, col: 2, filename: String::new(), filepath: String::from("s.c") };
    assert_eq!(
        tools::GeneralError::UnclosedComment(start, String::from("3")).fail(&p),
        format!("\n[ERROR: {:2e}]\t{}:{}:{}   {:?}", 1, "b.c", 4, 9, "unclosed comment that started s.c:1:2 with level 3")
    );
}

#[test]
fn text_map_keeps_the_last_value_of_each_key() {
    let mut m: TextMap<i32> = TextMap::new();
    m.insert(String::from("a"), 1);
    m.insert(String::from("b"), 2);
    m.insert(String::from("a"), 3);
    assert_eq!(m.get("a"), Some(&3));
    assert_eq!(m.get("b"), Some(&2));
    assert_eq!(m.get("c"), None);
    assert_eq!(m.remove("a"), Some(3));
    assert!(!m.contains_key("a"));
    assert!(m.contains_key("b"));
    assert_eq!(m.remove("a"), None);
    let copy = m.clone();
    assert_eq!(copy.get("b"), Some(&2));
}

#[test]
fn entering_and_leaving_a_file() {
    let mut state = State::default();
    state.current_position.line = 7;
    state.if_level = 3;
    state.new_file(String::from("h.h"), String::from("/usr/include/h.h"));
    assert_eq!(state.include_stack.len(), 1);
    assert_eq!(state.include_stack[0].line, 7);
    assert_eq!(state.current_position.filepath, "/usr/include/h.h");
    assert_eq!(state.current_position.line, 0);
    assert_eq!(state.if_level, 0);
    assert!(state.if_writing);
    state.end_file();
    assert!(state.include_stack.is_empty());
    state.end_file();
    assert!(state.include_stack.is_empty());
}

#[test]
fn trimming_agrees_with_std() {
    for s in ["", "  a b  ", "\u{a0}x\u{3000}", "\t\n", "abc", " \u{2028}y"] {
        assert_eq!(trim(s), s.trim());
        assert_eq!(trim_start(s), s.trim_start());
    }
    for c in [' ', '\t', '\u{85}', '\u{200b}', 'a', '\u{205f}'] {
        assert_eq!(is_whitespace(c), c.is_whitespace());
    }
}
