use telecc::directives::{convert_define_from_store, preprocess_directive, DirectiveOutcome};
use telecc::errors::{FailError, Failure, FilePosition, GeneralError, PreprocessorError};
use telecc::preprocessor::{add_default_macro, preprocess, preprocess_line, unit_state, Stop, Unit};
use telecc::structs::{Directive, MacroValue, State};

fn literal_value(word: &str) -> i32 {
    word.parse::<f32>().map(|f| f as i32).unwrap_or(0)
}

/// Reads `unit` until it stops, supplying literal values when asked.
fn run(unit: &mut Unit, state: &mut State) -> Result<Stop, Failure> {
    loop {
        let mut u = unit.clone();
        let mut s = state.clone();
        match preprocess(&mut u, &mut s) {
            Err(Failure::LiteralValueNeeded(word)) => {
                let v = literal_value(&word);
                state.literal_values.insert(word, v);
            }
            other => {
                *unit = u;
                *state = s;
                return other;
            }
        }
    }
}

fn start() -> State {
    unit_state(String::from("file.c"), String::from("./test/file.c"))
}

/// The output of a text without includes.
fn output(text: &str) -> Result<String, Failure> {
    let mut state = start();
    let mut unit = Unit::new(text);
    match run(&mut unit, &mut state)? {
        Stop::End => Ok(unit.output),
        Stop::Include { .. } => panic!("unexpected include"),
    }
}

#[test]
fn plain_lines_are_copied() {
    assert_eq!(output("int a;\nint b;\n").unwrap(), "int a;\nint b;\n");
    assert_eq!(output("x\n\n   \ny").unwrap(), "x\n   y\n");
}

#[test]
fn comments_are_removed() {
    assert_eq!(output("a /* c */ b\n").unwrap(), "a  b\n");
    assert_eq!(output("a // c\n").unwrap(), "a \n");
    assert_eq!(output("a /* one\ntwo */ b\n").unwrap(), "a \n b\n");
    assert_eq!(output("/* a /* b */ c */ d\n").unwrap(), " d\n");
}

#[test]
fn conditionals_select_lines() {
    let text = "#define X 1\n#ifdef X\nyes\n#else\nno\n#endif\n";
    assert_eq!(output(text).unwrap(), "yes\n");
    let text = "#ifndef X\nyes\n#else\nno\n#endif\n";
    assert_eq!(output(text).unwrap(), "yes\n");
    let text = "#if 0\nx\n#endif\ny\n";
    assert_eq!(output(text).unwrap(), "y\n");
    let text = "#if 2 > 1\nx\n#elif 1\nz\n#endif\n";
    assert_eq!(output(text).unwrap(), "x\n");
    let text = "#if 0\nx\n#elif 1\nz\n#endif\n";
    assert_eq!(output(text).unwrap(), "z\n");
}

#[test]
fn undef_removes_a_macro() {
    let text = "#define X\n#undef X\n#ifdef X\nyes\n#endif\nend\n";
    assert_eq!(output(text).unwrap(), "end\n");
}

#[test]
fn continuation_lines_are_joined() {
    let unit = Unit::new("a \\\n   b\nc\r\nd");
    let lines: Vec<(u32, &str)> = unit.lines.iter().map(|(n, l)| (*n, l.as_str())).collect();
    assert_eq!(lines, vec![(1, "a b"), (3, "c"), (4, "d")]);
    assert_eq!(output("#define X \\\n 1\n#if X\nok\n#endif\n").unwrap(), "ok\n");
}

#[test]
fn lines_as_str_lines_gives_them() {
    for text in ["", "a", "a\n", "a\r\nb", "a\rb\n", "\n\n", "x\r", "a\n\r"] {
        let unit = Unit::new(text);
        let lines: Vec<String> = unit.lines.iter().map(|(_, l)| l.clone()).collect();
        let expected: Vec<String> = text.lines().map(String::from).collect();
        assert_eq!(lines, expected, "{:?}", text);
    }
}

#[test]
fn include_stops_the_reading() {
    let mut state = start();
    let mut unit = Unit::new("a\n#include \"foo.h\"\nb\n");
    match run(&mut unit, &mut state).unwrap() {
        Stop::Include { filename } => assert_eq!(filename, "foo.h"),
        Stop::End => panic!("include expected"),
    }
    assert_eq!(unit.output, "a\n");
    assert_eq!(unit.next, 2);
    unit.output.push_str("included\n");
    assert!(matches!(run(&mut unit, &mut state).unwrap(), Stop::End));
    assert_eq!(unit.output, "a\nincluded\nb\n");
    assert!(state.include_stack.is_empty());
}

#[test]
fn include_with_angle_brackets() {
    let mut state = start();
    let mut unit = Unit::new("#include <stdio.h>\n");
    match run(&mut unit, &mut state).unwrap() {
        Stop::Include { filename } => assert_eq!(filename, "stdio.h"),
        Stop::End => panic!("include expected"),
    }
}

#[test]
fn short_include_name_is_refused() {
    assert!(matches!(
        output("#include x\n"),
        Err(Failure::Preprocessor(PreprocessorError::InvalidFileName(_)))
    ));
}

#[test]
fn warning_is_reported_and_reading_goes_on() {
    let mut state = start();
    let mut unit = Unit::new("#warning careful\nz\n");
    assert!(matches!(run(&mut unit, &mut state).unwrap(), Stop::End));
    assert_eq!(unit.output, "z\n");
    assert_eq!(state.warnings.len(), 1);
    let expected = format!(
        "\n[ERROR {:0>3}]\t{}:{}:{}   {:?}",
        252, "./test/file.c", 1, 16, "#warning raised careful"
    );
    assert_eq!(state.warnings[0], expected);
}

#[test]
fn pragma_is_reported_as_unknown() {
    let mut state = start();
    let mut unit = Unit::new("#pragma once\n");
    assert!(matches!(run(&mut unit, &mut state).unwrap(), Stop::End));
    assert_eq!(state.warnings.len(), 1);
    assert!(state.warnings[0].contains("directive once unknown by compiler"));
}

#[test]
fn error_directive_stops() {
    assert!(matches!(
        output("#error bad\n"),
        Err(Failure::Preprocessor(PreprocessorError::DirectiveError(m))) if m == "bad"
    ));
}

#[test]
fn unknown_directive_fails() {
    assert!(matches!(
        output("#foo bar\n"),
        Err(Failure::Preprocessor(PreprocessorError::DirectiveUnknown(m))) if m == "foobar"
    ));
    assert!(matches!(
        output("#endif extra\n"),
        Err(Failure::Preprocessor(PreprocessorError::DirectiveUnknown(m))) if m == "endifextra"
    ));
}

#[test]
fn unclosed_comment_fails_at_the_end() {
    match output("a /* b\nc\n") {
        Err(Failure::General(GeneralError::UnclosedComment { file_position, level })) => {
            assert_eq!(level, 1);
            assert_eq!(file_position.line, 1);
            assert_eq!(file_position.col, 4);
        }
        other => panic!("{:?}", other),
    }
}

#[test]
fn comment_end_outside_a_comment_fails() {
    assert!(matches!(output("a */\n"), Err(Failure::General(GeneralError::UnclosedComment { level: 0, .. }))));
    assert!(matches!(output("// */\n"), Err(Failure::General(GeneralError::UnOpenedComment { level: 0 }))));
}

#[test]
fn open_argument_list_fails() {
    assert!(matches!(output("#define (a\n"), Err(Failure::Preprocessor(PreprocessorError::MacroArgsNotClosed))));
    assert!(matches!(
        output("#define ((\n"),
        Err(Failure::General(GeneralError::NotImplemented(_)))
    ));
}

#[test]
fn define_forms() {
    match convert_define_from_store("X 1").unwrap() {
        Directive::Define { macro_name, macro_args, macro_value } => {
            assert_eq!(macro_name, "X");
            assert!(macro_args.is_empty());
            assert_eq!(macro_value, "1");
        }
        other => panic!("{:?}", other),
    }
    match convert_define_from_store("F(a,b) a+b").unwrap() {
        Directive::Define { macro_name, macro_args, macro_value } => {
            assert_eq!(macro_name, "F");
            assert_eq!(macro_args, vec![String::from("a"), String::from("b")]);
            assert_eq!(macro_value, " a+b");
        }
        other => panic!("{:?}", other),
    }
    match convert_define_from_store("X").unwrap() {
        Directive::Define { macro_name, macro_args, macro_value } => {
            assert_eq!(macro_name, "X");
            assert!(macro_args.is_empty());
            assert_eq!(macro_value, "()");
        }
        other => panic!("{:?}", other),
    }
    assert!(matches!(
        convert_define_from_store("A)"),
        Err(Failure::Preprocessor(PreprocessorError::InvalidMacroName(_)))
    ));
}

#[test]
fn define_line_records_the_macro() {
    let mut state = start();
    let (text, outcome) = preprocess_line("#define F(a,b) a+b", 1, &mut state).unwrap();
    assert_eq!(text, "");
    assert!(matches!(outcome, DirectiveOutcome::Handled));
    match state.defines.get("F") {
        Some(MacroValue::Function { args, body }) => {
            assert_eq!(args, &vec![String::from("a"), String::from("b")]);
            assert_eq!(body, " a+b");
        }
        other => panic!("{:?}", other),
    }
}

#[test]
fn default_macros_are_defined() {
    let mut state = State::default();
    add_default_macro(&mut state);
    match state.defines.get("__STDC_VERSION__") {
        Some(MacroValue::String(v)) => assert_eq!(v, "199910L"),
        other => panic!("{:?}", other),
    }
    match state.defines.get("__VERSION__") {
        Some(MacroValue::String(v)) => assert_eq!(v, "TeleCC 1.0"),
        other => panic!("{:?}", other),
    }
    assert!(state.defines.contains_key("__CHAR_BIT__"));
    assert!(!state.defines.contains_key("__INT_MAX__"));
    let s = start();
    assert!(s.if_writing);
    assert_eq!(s.include_stack.len(), 1);
    assert_eq!(s.current_position.filename, "file.c");
}

#[test]
fn output_is_off_in_a_false_branch() {
    assert_eq!(output("#if 0\na /* b */ c\n#endif\n").unwrap(), "");
}

#[test]
fn failure_reports() {
    let position = FilePosition { line: 3, col: 7, filename: String::from("f.c"), filepath: String::from("./f.c") };
    let report = Failure::Preprocessor(PreprocessorError::MacroArgsNotClosed).report(&position).unwrap();
    assert_eq!(
        report,
        format!("\n[ERROR {:0>3}]\t{}:{}:{}   {:?}", 222, "./f.c", 3, 7, "macro arguments not closed")
    );
    let report = Failure::General(GeneralError::Overflow).report(&position).unwrap();
    assert_eq!(
        report,
        format!("\n[ERROR: {:0>3}]\t{}:{}:{}   {:?}", 109, "./f.c", 3, 7, "overflow on airthmetic operation")
    );
    assert!(Failure::LiteralValueNeeded(String::from("1")).report(&position).is_none());
    let direct = PreprocessorError::DirectiveError(String::from("x \"y\"")).fail(&position);
    assert_eq!(direct, format!("\n[ERROR {:0>3}]\t{}:{}:{}   {:?}", 251, "./f.c", 3, 7, "#error raised x \"y\""));
}

#[test]
fn nameless_directive_fails() {
    let mut state = start();
    assert!(matches!(
        preprocess_directive(&Directive::Nameless, &mut state),
        Err(Failure::Preprocessor(PreprocessorError::DirectiveNameMissing))
    ));
}

#[test]
fn directives_in_a_skipped_branch_change_nothing() {
    let text = "#if 0\n#define X 1\n#endif\n#ifdef X\ny\n#endif\nend\n";
    assert_eq!(output(text).unwrap(), "end\n");
}

#[test]
fn comment_pair_writes_nothing() {
    assert_eq!(output("a/**/b\n").unwrap(), "ab\n");
}

#[test]
fn nested_if_in_a_skipped_branch() {
    // The level of the inner `#if` is counted, and its `#endif` turns
    // output on again.
    let text = "#if 0\n#if 1\n#endif\nx\n#endif\ny\n";
    assert_eq!(output(text).unwrap(), "x\ny\n");
}

#[test]
fn failure_leaves_the_position_where_it_happened() {
    let mut state = start();
    let mut unit = Unit::new("x\nab */\n");
    assert!(matches!(
        preprocess(&mut unit, &mut state),
        Err(Failure::General(GeneralError::UnclosedComment { level: 0, .. }))
    ));
    assert_eq!(state.current_position.line, 2);
    assert_eq!(state.current_position.col, 5);
}
