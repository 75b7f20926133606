//! The character-level scan of source lines: comments, the pieces of a
//! directive line, and the text that is written out.
use vstd::prelude::*;
use vstd::string::*;

use crate::directives::{
    convert_from_store, convert_spec, directive_spec, preprocess_directive, with_col,
    DirectiveOutcome, DirectiveOutcomeV,
};
use crate::eval::overflow_failure;
use crate::errors::{
    Failure, FailureAt, FailureV, FilePositionV, GeneralError, GeneralErrorV, PreprocessorError, PreprocessorErrorV,
};
use crate::structs::{
    MacroValue, MacroValueV, positions_view, stack_after_end_file, strings_view, Pips, PipsV, State, StateV, StoreDirective,
};
use crate::text::{
    chars_of, is_white_space, is_whitespace, push_char, string_of, string_of_char, trim, trim_spec, trim_start,
    trim_start_spec,
};

verus! {

/// The failure for a `(` inside the argument list of a directive.
pub open spec fn nested_parenthesis() -> FailureV {
    FailureV::General(GeneralErrorV::NotImplemented("Nested parenthesis are not supported"@))
}

/// One character read outside comments, while the line is scanned as
/// `pips`, with the directive pieces `values` gathered so far: the text it
/// gives, the new scan state and the new pieces.
///
/// On a directive line the name is gathered until white space; after the
/// name `define` come the optional parenthesised arguments, then the value.
pub open spec fn deal_spec(c: char, pips: PipsV, values: Seq<Seq<char>>) -> Result<
    (Seq<char>, PipsV, Seq<Seq<char>>),
    FailureV,
> {
    match pips {
        PipsV::Idle => Ok((seq![c], PipsV::Idle, values)),
        PipsV::DirectiveName(name) => if is_white_space(c) && name.len() == 0 {
            Ok((Seq::empty(), pips, values))
        } else if is_white_space(c) {
            let next = if trim_spec(name) == "define"@ {
                PipsV::DirectiveArgs(Seq::empty())
            } else {
                PipsV::DirectiveValue(Seq::empty())
            };
            Ok((Seq::empty(), next, values.push(name)))
        } else {
            Ok((Seq::empty(), PipsV::DirectiveName(name.push(c)), values))
        },
        PipsV::DirectiveArgs(args) => if c == '(' && args.len() == 0 {
            Ok((Seq::empty(), PipsV::DirectiveArgs(seq![Seq::empty()]), values))
        } else if c == '(' {
            Err(nested_parenthesis())
        } else if c == ')' {
            Ok((Seq::empty(), PipsV::DirectiveValue(Seq::empty()), values + args))
        } else if args.len() == 0 {
            Ok((Seq::empty(), PipsV::DirectiveValue(seq![c]), values))
        } else {
            Ok((Seq::empty(), PipsV::DirectiveArgs(args.update(args.len() - 1, args.last().push(c))), values))
        },
        PipsV::DirectiveValue(value) => Ok((Seq::empty(), PipsV::DirectiveValue(value.push(c)), values)),
    }
}

/// Reads one character outside comments (see `deal_spec`); only the scan
/// state of `state` changes.
pub fn deal_with_c(c: char, state: &mut State, current_directive: &mut StoreDirective) -> (r: Result<String, Failure>)
    ensures
        final(state)@ == (StateV { directive_parsing: final(state)@.directive_parsing, ..old(state)@ }),
        match deal_spec(c, old(state).directive_parsing@, strings_view(old(current_directive).values@)) {
            Ok((out, pips, values)) => r matches Ok(s) && s@ == out && final(state).directive_parsing@ == pips
                && strings_view(final(current_directive).values@) == values,
            Err(e) => r matches Err(f) && f@ == e,
        },
{
    let ghost values0 = strings_view(current_directive.values@);
    let mut pips = Pips::Idle;
    core::mem::swap(&mut pips, &mut state.directive_parsing);
    match pips {
        Pips::Idle => Ok(string_of_char(c)),
        Pips::DirectiveName(mut name) => {
            let ws = is_whitespace(c);
            if ws && name.as_str().is_empty() {
                state.directive_parsing = Pips::DirectiveName(name);
                Ok(String::new())
            } else if ws {
                let trimmed = trim(name.as_str());
                let is_define = trimmed == String::from_str("define");
                state.directive_parsing = if is_define {
                    let empty: Vec<String> = Vec::new();
                    assert(strings_view(empty@) =~= Seq::<Seq<char>>::empty());
                    Pips::DirectiveArgs(empty)
                } else {
                    Pips::DirectiveValue(String::new())
                };
                let ghost nv = name@;
                current_directive.values.push(name);
                assert(strings_view(current_directive.values@) =~= values0.push(nv));
                Ok(String::new())
            } else {
                push_char(&mut name, c);
                state.directive_parsing = Pips::DirectiveName(name);
                Ok(String::new())
            }
        },
        Pips::DirectiveArgs(mut args) => {
            if c == '(' && args.len() == 0 {
                args.push(String::new());
                assert(strings_view(args@) =~= seq![Seq::<char>::empty()]);
                state.directive_parsing = Pips::DirectiveArgs(args);
                Ok(String::new())
            } else if c == '(' {
                state.directive_parsing = Pips::DirectiveArgs(args);
                Err(Failure::General(GeneralError::NotImplemented(String::from_str("Nested parenthesis are not supported"))))
            } else if c == ')' {
                let ghost a = strings_view(args@);
                let mut i: usize = 0;
                while i < args.len()
                    invariant
                        i <= args@.len(),
                        a == strings_view(args@),
                        strings_view(current_directive.values@) == values0 + a.take(i as int),
                    decreases args@.len() - i,
                {
                    let ghost before = current_directive.values@;
                    let arg = args[i].clone();
                    assert(arg@ == a[i as int]);
                    current_directive.values.push(arg);
                    assert(current_directive.values@ == before.push(arg));
                    assert(strings_view(before.push(arg)) =~= strings_view(before).push(arg@));
                    assert(a.take(i + 1) =~= a.take(i as int).push(a[i as int]));
                    i = i + 1;
                    assert(strings_view(current_directive.values@) =~= values0 + a.take(i as int));
                }
                assert(a.take(args@.len() as int) =~= a);
                state.directive_parsing = Pips::DirectiveValue(String::new());
                Ok(String::new())
            } else if args.len() == 0 {
                state.directive_parsing = Pips::DirectiveValue(string_of_char(c));
                Ok(String::new())
            } else {
                let ghost a = strings_view(args@);
                let last = args.len() - 1;
                let mut arg = args.remove(last);
                push_char(&mut arg, c);
                args.push(arg);
                assert(strings_view(args@) =~= a.update(a.len() - 1, a.last().push(c)));
                state.directive_parsing = Pips::DirectiveArgs(args);
                Ok(String::new())
            }
        },
        Pips::DirectiveValue(mut value) => {
            push_char(&mut value, c);
            state.directive_parsing = Pips::DirectiveValue(value);
            Ok(String::new())
        },
    }
}

/// Whether the scan is inside a comment.
pub open spec fn in_comment(s: StateV) -> bool {
    s.comment_level > 0 || s.inline_comment
}

/// The failure for a comment closed at nesting level zero.
pub open spec fn unopened_comment() -> FailureV {
    FailureV::General(GeneralErrorV::UnOpenedComment { level: 0 })
}

/// The failure for a comment closed outside any comment.
pub open spec fn unclosed_comment(s: StateV) -> FailureV {
    FailureV::General(GeneralErrorV::UnclosedComment { file_position: s.current_position, level: s.comment_level })
}

/// The step of the scan for character `c`, the previous character being
/// `prev`: the text it gives (before the check on `if_writing`), the new
/// state, the new directive pieces and the character that counts as
/// previous for the next step.
///
/// `/*` opens a (nested) comment, `*/` closes one, `//` starts a comment
/// that runs to the end of the line. A `/` or `*` is held back until the
/// next character shows whether it starts or ends a comment. A `#` outside
/// a directive starts one.
#[verifier::opaque]
pub open spec fn char_raw(c: char, prev: char, s: StateV, values: Seq<Seq<char>>) -> Result<
    (Seq<char>, StateV, Seq<Seq<char>>, char),
    FailureAt,
> {
    let inc = in_comment(s);
    if c == '/' && prev == '*' && inc {
        if s.comment_level == 0 {
            Err((unopened_comment(), s.current_position))
        } else {
            Ok((Seq::empty(), StateV { comment_level: (s.comment_level - 1) as u32, inline_comment: false, ..s }, values, ' '))
        }
    } else if c == '/' && prev == '*' {
        Err((unclosed_comment(s), s.current_position))
    } else if c == '/' && prev == '/' {
        Ok((Seq::empty(), StateV { inline_comment: true, ..s }, values, ' '))
    } else if c == '*' && prev == '/' {
        if s.comment_level == u32::MAX {
            Err((overflow_failure(), s.current_position))
        } else {
            Ok((
                Seq::empty(),
                StateV {
                    comment_level: (s.comment_level + 1) as u32,
                    comment_unclosed_positon: s.comment_unclosed_positon.push(s.current_position),
                    ..s
                },
                values,
                ' ',
            ))
        }
    } else if (prev == '/' || prev == '*') && inc {
        Ok((Seq::empty(), s, values, c))
    } else if prev == '/' || prev == '*' {
        match deal_spec(prev, s.directive_parsing, values) {
            Err(e) => Err((e, s.current_position)),
            Ok((o1, p1, v1)) => match deal_spec(c, p1, v1) {
                Err(e) => Err((e, s.current_position)),
                Ok((o2, p2, v2)) => Ok((o1 + o2, StateV { directive_parsing: p2, ..s }, v2, c)),
            },
        }
    } else if c == '/' || c == '*' || inc {
        Ok((Seq::empty(), s, values, c))
    } else if c == '#' && s.directive_parsing is Idle {
        Ok((Seq::empty(), StateV { directive_parsing: PipsV::DirectiveName(Seq::empty()), ..s }, values, c))
    } else {
        match deal_spec(c, s.directive_parsing, values) {
            Err(e) => Err((e, s.current_position)),
            Ok((o, p, v)) => Ok((o, StateV { directive_parsing: p, ..s }, v, c)),
        }
    }
}

/// The step of the scan for one character: as `char_raw`, with no text
/// given while `if_writing` is off.
pub open spec fn char_step(c: char, prev: char, s: StateV, values: Seq<Seq<char>>) -> Result<
    (Seq<char>, StateV, Seq<Seq<char>>, char),
    FailureAt,
> {
    match char_raw(c, prev, s, values) {
        Err(e) => Err(e),
        Ok((o, s2, v, p)) => Ok((if s.if_writing { o } else { Seq::empty() }, s2, v, p)),
    }
}

fn is_idle(p: &Pips) -> (b: bool)
    ensures
        b == (p@ is Idle),
{
    match p {
        Pips::Idle => true,
        _ => false,
    }
}

/// Reads one character of a line (see `char_step`).
pub fn preprocess_character(
    c: char,
    state: &mut State,
    previous_char: &mut char,
    current_directive: &mut StoreDirective,
) -> (r: Result<String, Failure>)
    ensures
        match char_step(c, *old(previous_char), old(state)@, strings_view(old(current_directive).values@)) {
            Ok((out, s, values, prev)) => r matches Ok(t) && t@ == out && final(state)@ == s
                && strings_view(final(current_directive).values@) == values && *final(previous_char) == prev,
            Err((e, p)) => r matches Err(f) && f@ == e && final(state).current_position@ == p,
        },
{
    proof {
        reveal(char_raw);
    }
    let in_comment = state.comment_level > 0 || state.inline_comment;
    let prev = *previous_char;
    *previous_char = c;
    let character = if c == '/' && prev == '*' && in_comment {
        if state.comment_level == 0 {
            return Err(Failure::General(GeneralError::UnOpenedComment { level: 0 }));
        }
        state.comment_level = state.comment_level - 1;
        *previous_char = ' ';
        state.inline_comment = false;
        String::new()
    } else if c == '/' && prev == '*' {
        return Err(
            Failure::General(
                GeneralError::UnclosedComment { file_position: state.current_position.clone(), level: state.comment_level },
            ),
        );
    } else if c == '/' && prev == '/' {
        state.inline_comment = true;
        *previous_char = ' ';
        String::new()
    } else if c == '*' && prev == '/' {
        if state.comment_level == u32::MAX {
            return Err(Failure::General(GeneralError::Overflow));
        }
        state.comment_level = state.comment_level + 1;
        let position = state.current_position.clone();
        state.comment_unclosed_positon.push(position);
        assert(positions_view(state.comment_unclosed_positon@) =~= positions_view(old(state).comment_unclosed_positon@).push(state.current_position@));
        *previous_char = ' ';
        String::new()
    } else if (prev == '/' || prev == '*') && in_comment {
        String::new()
    } else if prev == '/' || prev == '*' {
        let mut first = deal_with_c(prev, state, current_directive)?;
        let second = deal_with_c(c, state, current_directive)?;
        first.append(second.as_str());
        first
    } else if c == '/' || c == '*' || in_comment {
        String::new()
    } else if c == '#' && is_idle(&state.directive_parsing) {
        state.directive_parsing = Pips::DirectiveName(String::new());
        String::new()
    } else {
        deal_with_c(c, state, current_directive)?
    };
    if state.if_writing {
        Ok(character)
    } else {
        Ok(String::new())
    }
}

/// The state at the start of line `line_no`: column zero, no line comment,
/// no directive.
pub open spec fn line_start(s: StateV, line_no: u32) -> StateV {
    StateV {
        current_position: FilePositionV { col: 0, line: line_no, ..s.current_position },
        inline_comment: false,
        directive_parsing: PipsV::Idle,
        ..s
    }
}

/// The scan of the first `n` characters of a line from state `s0`: the text
/// given, the state, the directive pieces and the previous character. The
/// column counts the characters read.
pub open spec fn scan_prefix(cs: Seq<char>, n: nat, s0: StateV) -> Result<
    (Seq<char>, StateV, Seq<Seq<char>>, char),
    FailureAt,
>
    decreases n,
{
    if n == 0 {
        Ok((Seq::empty(), s0, Seq::empty(), ' '))
    } else {
        match scan_prefix(cs, (n - 1) as nat, s0) {
            Err(e) => Err(e),
            Ok((out, s, values, prev)) => if s.current_position.col == u32::MAX {
                Err((overflow_failure(), s.current_position))
            } else {
                match char_step(cs[n - 1], prev, with_col(s, (s.current_position.col + 1) as u32), values) {
                    Err(e) => Err(e),
                    Ok((o, s2, v2, p2)) => Ok((out + o, s2, v2, p2)),
                }
            },
        }
    }
}

/// A failed scan stays failed.
pub proof fn lemma_scan_prefix_failed(cs: Seq<char>, n: nat, m: nat, s0: StateV)
    requires
        n <= m,
        scan_prefix(cs, n, s0) is Err,
    ensures
        scan_prefix(cs, m, s0) == scan_prefix(cs, n, s0),
    decreases m - n,
{
    if n < m {
        lemma_scan_prefix_failed(cs, n, (m - 1) as nat, s0);
    }
}

/// A directive line with pieces `values`: read and carried out. It gives no
/// text of its own.
#[verifier::opaque]
pub open spec fn directive_line(values: Seq<Seq<char>>, s: StateV) -> Result<
    (Seq<char>, DirectiveOutcomeV, StateV),
    FailureAt,
> {
    match convert_spec(values, s) {
        Err(e) => Err(e),
        Ok((d, s2)) => match directive_spec(d, s2) {
            Err(e) => Err(e),
            Ok((o, s3)) => Ok((Seq::empty(), o, s3)),
        },
    }
}

/// One line, numbered `line_no`: the text it gives, what it asks of the
/// caller, and the new state. A line that gives text ends with a newline,
/// unless all it gives is white space.
#[verifier::opaque]
pub open spec fn line_spec(cs: Seq<char>, line_no: u32, s: StateV) -> Result<
    (Seq<char>, DirectiveOutcomeV, StateV),
    FailureAt,
> {
    match scan_prefix(cs, cs.len(), line_start(s, line_no)) {
        Err(e) => Err(e),
        Ok((out, s1, values, _)) => {
            let text = if trim_spec(out).len() != 0 {
                out + "\n"@
            } else {
                out
            };
            match s1.directive_parsing {
                PipsV::Idle => Ok((text, DirectiveOutcomeV::Handled, s1)),
                PipsV::DirectiveValue(v) => directive_line(if v.len() != 0 { values.push(v) } else { values }, s1),
                PipsV::DirectiveName(name) => directive_line(values.push(name), s1),
                PipsV::DirectiveArgs(args) => if args.len() != 0 {
                    Err((FailureV::Preprocessor(PreprocessorErrorV::MacroArgsNotClosed), s1.current_position))
                } else {
                    directive_line(values, s1)
                },
            }
        },
    }
}

/// Processes one line (see `line_spec`).
pub fn preprocess_line(line: &str, line_no: u32, state: &mut State) -> (r: Result<(String, DirectiveOutcome), Failure>)
    ensures
        match line_spec(line@, line_no, old(state)@) {
            Ok((text, o, s)) => r matches Ok((t, x)) && t@ == text && x@ == o && final(state)@ == s,
            Err((e, p)) => r matches Err(f) && f@ == e && final(state).current_position@ == p,
        },
{
    proof {
        reveal(line_spec);
        reveal(directive_line);
    }
    let chars = chars_of(line);
    state.current_position.col = 0;
    state.current_position.line = line_no;
    state.inline_comment = false;
    state.directive_parsing = Pips::Idle;
    let ghost s0 = state@;
    assert(s0 == line_start(old(state)@, line_no));
    let mut current_directive = StoreDirective::default();
    let mut previous_char = ' ';
    let mut out = String::new();
    let mut i: usize = 0;
    assert(strings_view(current_directive.values@) =~= Seq::<Seq<char>>::empty());
    while i < chars.len()
        invariant
            i <= chars@.len(),
            chars@ == line@,
            s0 == line_start(old(state)@, line_no),
            scan_prefix(line@, i as nat, s0) == Ok::<(Seq<char>, StateV, Seq<Seq<char>>, char), FailureAt>(
                (out@, state@, strings_view(current_directive.values@), previous_char),
            ),
        decreases chars@.len() - i,
    {
        if state.current_position.col == u32::MAX {
            proof {
                lemma_scan_prefix_failed(line@, (i + 1) as nat, line@.len(), s0);
                reveal(line_spec);
            }
            return Err(Failure::General(GeneralError::Overflow));
        }
        state.current_position.col = state.current_position.col + 1;
        let piece = match preprocess_character(chars[i], state, &mut previous_char, &mut current_directive) {
            Ok(p) => p,
            Err(e) => {
                proof {
                    lemma_scan_prefix_failed(line@, (i + 1) as nat, line@.len(), s0);
                    reveal(line_spec);
                }
                return Err(e);
            },
        };
        out.append(piece.as_str());
        i = i + 1;
    }
    let trimmed = trim(out.as_str());
    if !trimmed.as_str().is_empty() {
        out.append("\n");
    }
    let mut pips = Pips::Idle;
    core::mem::swap(&mut pips, &mut state.directive_parsing);
    let ghost s1 = state@;
    match pips {
        Pips::Idle => Ok((out, DirectiveOutcome::Handled)),
        Pips::DirectiveValue(value) => {
            if !value.as_str().is_empty() {
                let ghost before = current_directive.values@;
                current_directive.values.push(value.clone());
                assert(strings_view(before.push(value)) =~= strings_view(before).push(value@));
            }
            state.directive_parsing = Pips::DirectiveValue(value);
            let d = convert_from_store(&current_directive, state)?;
            let o = preprocess_directive(&d, state)?;
            Ok((String::new(), o))
        },
        Pips::DirectiveName(name) => {
            let ghost before = current_directive.values@;
            current_directive.values.push(name.clone());
            assert(strings_view(before.push(name)) =~= strings_view(before).push(name@));
            state.directive_parsing = Pips::DirectiveName(name);
            let d = convert_from_store(&current_directive, state)?;
            let o = preprocess_directive(&d, state)?;
            Ok((String::new(), o))
        },
        Pips::DirectiveArgs(args) => {
            if args.len() != 0 {
                return Err(Failure::Preprocessor(PreprocessorError::MacroArgsNotClosed));
            }
            state.directive_parsing = Pips::DirectiveArgs(args);
            let d = convert_from_store(&current_directive, state)?;
            let o = preprocess_directive(&d, state)?;
            Ok((String::new(), o))
        },
    }
}

/// `l` without a final carriage return.
pub open spec fn strip_cr(l: Seq<char>) -> Seq<char> {
    if l.len() > 0 && l.last() == '\r' {
        l.drop_last()
    } else {
        l
    }
}

/// The lines ended so far within the first `n` characters of `s`, and the
/// line being read.
pub open spec fn lines_scan(s: Seq<char>, n: nat) -> (Seq<Seq<char>>, Seq<char>)
    decreases n,
{
    if n == 0 {
        (Seq::empty(), Seq::empty())
    } else {
        let (done, current) = lines_scan(s, (n - 1) as nat);
        if s[n - 1] == '\n' {
            (done.push(strip_cr(current)), Seq::empty())
        } else {
            (done, current.push(s[n - 1]))
        }
    }
}

/// The lines of `s` as `str::lines` gives them: split at `\n`, each without
/// its `\n` or `\r\n`; a last line without `\n` counts if it is not empty.
pub open spec fn text_lines(s: Seq<char>) -> Seq<Seq<char>> {
    let (done, current) = lines_scan(s, s.len());
    if current.len() > 0 {
        done.push(current)
    } else {
        done
    }
}

/// The numbered lines made from the first `n` lines of `ls`, and whether
/// the last of them ended with a backslash. A line that ends with a
/// backslash goes on with the next one, whose leading white space is
/// dropped; a line keeps the number of its first part.
pub open spec fn join_lines(ls: Seq<Seq<char>>, n: nat) -> (Seq<(u32, Seq<char>)>, bool)
    decreases n,
{
    if n == 0 {
        (Seq::empty(), false)
    } else {
        let (acc, previous_escaped) = join_lines(ls, (n - 1) as nat);
        let l = ls[n - 1];
        let escaped = l.len() > 0 && l.last() == '\\';
        let t = if escaped {
            l.drop_last()
        } else {
            l
        };
        if previous_escaped && acc.len() > 0 {
            (acc.update(acc.len() - 1, (acc.last().0, acc.last().1 + trim_start_spec(t))), escaped)
        } else {
            (acc.push((n as u32, t)), escaped)
        }
    }
}

/// The numbered logical lines of a source text.
pub open spec fn logical_lines(content: Seq<char>) -> Seq<(u32, Seq<char>)> {
    join_lines(text_lines(content), text_lines(content).len()).0
}

/// A source text under way: its numbered logical lines, the index of the
/// next line to read, and the text given so far.
#[derive(Debug, Clone)]
pub struct Unit {
    pub lines: Vec<(u32, String)>,
    pub next: usize,
    pub output: String,
}

pub open spec fn numbered_view(v: Seq<(u32, String)>) -> Seq<(u32, Seq<char>)> {
    v.map_values(|p: (u32, String)| (p.0, p.1@))
}

fn raw_lines(content: &str) -> (r: Vec<Vec<char>>)
    ensures
        r@.map_values(|l: Vec<char>| l@) == text_lines(content@),
{
    let chars = chars_of(content);
    let mut done: Vec<Vec<char>> = Vec::new();
    let mut current: Vec<char> = Vec::new();
    let mut i: usize = 0;
    while i < chars.len()
        invariant
            i <= chars@.len(),
            chars@ == content@,
            lines_scan(content@, i as nat) == (done@.map_values(|l: Vec<char>| l@), current@),
        decreases chars@.len() - i,
    {
        let c = chars[i];
        if c == '\n' {
            let ghost before = done@;
            let n = current.len();
            if n > 0 && current[n - 1] == '\r' {
                current.pop();
            }
            let mut line: Vec<char> = Vec::new();
            core::mem::swap(&mut line, &mut current);
            done.push(line);
            assert(done@.map_values(|l: Vec<char>| l@) =~= before.map_values(|l: Vec<char>| l@).push(line@));
        } else {
            current.push(c);
        }
        i = i + 1;
    }
    if current.len() > 0 {
        let ghost before = done@;
        done.push(current);
        assert(done@.map_values(|l: Vec<char>| l@) =~= before.map_values(|l: Vec<char>| l@).push(current@));
    }
    done
}

impl Unit {
    /// A unit at its start, made of the logical lines of `content`. The
    /// lines are numbered from 1, so there must be fewer of them than the
    /// largest `u32`.
    pub fn new(content: &str) -> (u: Unit)
        requires
            text_lines(content@).len() < u32::MAX,
        ensures
            numbered_view(u.lines@) == logical_lines(content@),
            u.next == 0,
            u.output@ == Seq::<char>::empty(),
    {
        let raw = raw_lines(content);
        let ghost ls = text_lines(content@);
        let mut lines: Vec<(u32, String)> = Vec::new();
        let mut previous_escaped = false;
        let mut line_number: u32 = 1;
        let mut k: usize = 0;
        assert(numbered_view(lines@) =~= Seq::<(u32, Seq<char>)>::empty());
        while k < raw.len()
            invariant
                k <= raw@.len(),
                raw@.map_values(|l: Vec<char>| l@) == ls,
                ls.len() < u32::MAX,
                line_number == k + 1,
                join_lines(ls, k as nat) == (numbered_view(lines@), previous_escaped),
                previous_escaped ==> lines@.len() > 0,
            decreases raw@.len() - k,
        {
            let l = &raw[k];
            assert(l@ == ls[k as int]);
            let n = l.len();
            let escaped = n > 0 && l[n - 1] == '\\';
            let end = if escaped { n - 1 } else { n };
            let t = string_of(&l.as_slice()[0..end]);
            assert(t@ =~= (if escaped { ls[k as int].drop_last() } else { ls[k as int] }));
            let ghost before = lines@;
            if previous_escaped {
                let last = lines.len() - 1;
                let (no, mut text) = lines.remove(last);
                let rest = trim_start(t.as_str());
                text.append(rest.as_str());
                lines.push((no, text));
                assert(numbered_view(lines@) =~= numbered_view(before).update(
                    numbered_view(before).len() - 1,
                    (numbered_view(before).last().0, numbered_view(before).last().1 + trim_start_spec(t@)),
                ));
            } else {
                lines.push((line_number, t));
                assert(numbered_view(lines@) =~= numbered_view(before).push((line_number, t@)));
            }
            previous_escaped = escaped;
            line_number = line_number + 1;
            k = k + 1;
        }
        Unit { lines, next: 0, output: String::new() }
    }
}

/// Why the reading of a unit stopped: at an `#include` line, whose file's
/// text is to be added to the output before reading on, or at its end.
#[derive(Debug, Clone)]
pub enum Stop {
    Include { filename: String },
    End,
}

pub enum StopV {
    Include { filename: Seq<char> },
    End,
}

impl View for Stop {
    type V = StopV;

    open spec fn view(&self) -> StopV {
        match self {
            Stop::Include { filename } => StopV::Include { filename: filename@ },
            Stop::End => StopV::End,
        }
    }
}

/// The end of a unit: no comment may be left open; the file is left.
pub open spec fn finish_spec(s: StateV) -> Result<StateV, FailureAt> {
    if s.comment_level != 0 {
        if s.comment_unclosed_positon.len() == 0 {
            Err((FailureV::Preprocessor(PreprocessorErrorV::Internal("Error raised but everything is fine!"@)), s.current_position))
        } else {
            Err(
                (
                    FailureV::General(
                        GeneralErrorV::UnclosedComment {
                            file_position: s.comment_unclosed_positon.last(),
                            level: s.comment_level,
                        },
                    ),
                    s.current_position,
                ),
            )
        }
    } else {
        Ok(StateV { include_stack: stack_after_end_file(s.include_stack), ..s })
    }
}

/// Reading the lines from index `i` on: the text given, why the reading
/// stopped, the index of the next line to read, and the state.
pub open spec fn run_from(lines: Seq<(u32, Seq<char>)>, i: nat, s: StateV) -> Result<
    (Seq<char>, StopV, nat, StateV),
    FailureAt,
>
    decreases lines.len() - i,
{
    if i >= lines.len() {
        match finish_spec(s) {
            Err(e) => Err(e),
            Ok(s2) => Ok((Seq::empty(), StopV::End, i, s2)),
        }
    } else {
        match line_spec(lines[i as int].1, lines[i as int].0, s) {
            Err(e) => Err(e),
            Ok((text, o, s1)) => match o {
                DirectiveOutcomeV::Include { filename } => Ok((text, StopV::Include { filename }, i + 1, s1)),
                DirectiveOutcomeV::Handled => match run_from(lines, i + 1, s1) {
                    Err(e) => Err(e),
                    Ok((rest, stop, next, s2)) => Ok((text + rest, stop, next, s2)),
                },
            },
        }
    }
}

/// `r` with `prefix` in front of its text.
pub open spec fn prefixed(prefix: Seq<char>, r: Result<(Seq<char>, StopV, nat, StateV), FailureAt>) -> Result<
    (Seq<char>, StopV, nat, StateV),
    FailureAt,
> {
    match r {
        Err(e) => Err(e),
        Ok((text, stop, next, s)) => Ok((prefix + text, stop, next, s)),
    }
}

pub proof fn lemma_prefixed_twice(a: Seq<char>, b: Seq<char>, r: Result<(Seq<char>, StopV, nat, StateV), FailureAt>)
    ensures
        prefixed(a, prefixed(b, r)) == prefixed(a + b, r),
{
    if let Ok((text, stop, next, s)) = r {
        assert(a + (b + text) =~= (a + b) + text);
    }
}

/// Reads the lines of `unit` from `unit.next` on (see `run_from`), adding
/// their text to `unit.output`, until an `#include` line or the end.
pub fn preprocess(unit: &mut Unit, state: &mut State) -> (r: Result<Stop, Failure>)
    ensures
        final(unit).lines == old(unit).lines,
        match run_from(numbered_view(old(unit).lines@), old(unit).next as nat, old(state)@) {
            Ok((text, stop, next, s)) => r matches Ok(x) && x@ == stop && final(state)@ == s
                && final(unit).output@ == old(unit).output@ + text && final(unit).next == next,
            Err((e, p)) => r matches Err(f) && f@ == e && final(state).current_position@ == p,
        },
{
    let ghost lines = numbered_view(unit.lines@);
    let ghost goal = run_from(lines, unit.next as nat, state@);
    let ghost mut acc: Seq<char> = Seq::empty();
    assert(goal == prefixed(acc, run_from(lines, unit.next as nat, state@)));
    while unit.next < unit.lines.len()
        invariant
            unit.lines == old(unit).lines,
            lines == numbered_view(unit.lines@),
            goal == run_from(lines, old(unit).next as nat, old(state)@),
            goal == prefixed(acc, run_from(lines, unit.next as nat, state@)),
            unit.output@ == old(unit).output@ + acc,
        decreases unit.lines@.len() - unit.next,
    {
        let i = unit.next;
        assert(lines[i as int] == (unit.lines@[i as int].0, unit.lines@[i as int].1@));
        let (text, o) = preprocess_line(unit.lines[i].1.as_str(), unit.lines[i].0, state)?;
        unit.output.append(text.as_str());
        proof {
            lemma_prefixed_twice(acc, text@, run_from(lines, (i + 1) as nat, state@));
            acc = acc + text@;
        }
        unit.next = i + 1;
        match o {
            DirectiveOutcome::Include { filename } => {
                return Ok(Stop::Include { filename });
            },
            DirectiveOutcome::Handled => {},
        }
    }
    if state.comment_level != 0 {
        let n = state.comment_unclosed_positon.len();
        if n == 0 {
            return Err(
                Failure::Preprocessor(PreprocessorError::Internal(String::from_str("Error raised but everything is fine!"))),
            );
        }
        return Err(
            Failure::General(
                GeneralError::UnclosedComment {
                    file_position: state.comment_unclosed_positon[n - 1].clone(),
                    level: state.comment_level,
                },
            ),
        );
    }
    let ghost stack = state.include_stack@;
    state.end_file();
    assert(positions_view(state.include_stack@) =~= stack_after_end_file(positions_view(stack)));
    Ok(Stop::End)
}

/// The macros that every unit starts with, with their values.
pub open spec fn default_macros() -> Seq<(Seq<char>, Seq<char>)> {
    seq![
        ("__FILE__"@, "forgotten"@),
        ("__LINE__"@, "1"@),
        ("__DATE__"@, "forgotten"@),
        ("__TIME__"@, "forgotten"@),
        ("__STDC__"@, "1"@),
        ("__STDC_VERSION__"@, "199910L"@),
        ("__STDC_HOSTED__"@, "1"@),
        ("__COUNTER__"@, "0"@),
        ("__GNUC__"@, "10"@),
        ("__GNUC_MINOR__"@, "3"@),
        ("__GNUC_PATCHLEVEL__"@, "0"@),
        ("__GNUG__"@, "0"@),
        ("__BASE__FILE__"@, "forgotten"@),
        ("__FILE_NAME__"@, "forgotten"@),
        ("__INCLUDE_LEVEL__"@, "0"@),
        ("__VERSION__"@, "TeleCC 1.0"@),
        ("__GNUC_GNU_INLINE"@, "1"@),
        ("__USER_LABEL_PREFIX__"@, "not understood"@),
        ("__REGISTER_PREFIX__"@, "not understood"@),
        ("__SIZE_TYPE__"@, "long unsigned int"@),
        ("__PTRDIFF_TYPE__"@, "long int"@),
        ("__WCHAR_TYPE__"@, "int"@),
        ("__WINT_TYPE__"@, "unsigned int"@),
        ("__INTMAX_TYPE__"@, "long int"@),
        ("__UINTMAX_TYPE__"@, "long unsigned int"@),
        ("__INT8_TYPE__"@, "signed char"@),
        ("__INT16_TYPE__"@, "short"@),
        ("__INT32_TYPE__"@, "int"@),
        ("__INT64_TYPE__"@, "long int"@),
        ("__UINT8_TYPE__"@, "unsigned char"@),
        ("__UINT16_TYPE__"@, "unsigned short"@),
        ("__UINT32_TYPE__"@, "unsigned int"@),
        ("__UINT64_TYPE__"@, "long unsigned int"@),
        ("__INT_LEAST8_TYPE__"@, "signed char"@),
        ("__INT_LEAST16_TYPE__"@, "short"@),
        ("__INT_LEAST32_TYPE__"@, "int"@),
        ("__INT_LEAST64_TYPE__"@, "long int"@),
        ("__UINT_LEAST8_TYPE__"@, "unsigned char"@),
        ("__UINT_LEAST16_TYPE__"@, "unsigned short"@),
        ("__UINT_LEAST32_TYPE__"@, "unsigned int"@),
        ("__UINT_LEAST64_TYPE__"@, "long unsigned int"@),
        ("__INT_FAST8_TYPE__"@, "signed char"@),
        ("__INT_FAST16_TYPE__"@, "short"@),
        ("__INT_FAST32_TYPE__"@, "int"@),
        ("__INT_FAST64_TYPE__"@, "long int"@),
        ("__UINT_FAST8_TYPE__"@, "unsigned char"@),
        ("__UINT_FAST16_TYPE__"@, "unsigned short"@),
        ("__UINT_FAST32_TYPE__"@, "unsigned int"@),
        ("__UINT_FAST64_TYPE__"@, "long unsigned int"@),
        ("__INTPTR_TYPE__"@, "long int"@),
        ("__UINTPTR_TYPE__"@, "long unsigned int"@),
        ("__CHAR_BIT__"@, "8"@),
    ]
}

/// `m` with each name of `table` defined as its text.
pub open spec fn with_text_macros(m: Map<Seq<char>, MacroValueV>, table: Seq<(Seq<char>, Seq<char>)>) -> Map<
    Seq<char>,
    MacroValueV,
>
    decreases table.len(),
{
    if table.len() == 0 {
        m
    } else {
        with_text_macros(m, table.drop_last()).insert(table.last().0, MacroValueV::String(table.last().1))
    }
}

/// Defines the predefined macros (see `default_macros`).
pub fn add_default_macro(state: &mut State)
    ensures
        final(state)@ == (StateV { defines: with_text_macros(old(state)@.defines, default_macros()), ..old(state)@ }),
{
    let macros: Vec<(&str, &str)> = vec![
        ("__FILE__", "forgotten"),
        ("__LINE__", "1"),
        ("__DATE__", "forgotten"),
        ("__TIME__", "forgotten"),
        ("__STDC__", "1"),
        ("__STDC_VERSION__", "199910L"),
        ("__STDC_HOSTED__", "1"),
        ("__COUNTER__", "0"),
        ("__GNUC__", "10"),
        ("__GNUC_MINOR__", "3"),
        ("__GNUC_PATCHLEVEL__", "0"),
        ("__GNUG__", "0"),
        ("__BASE__FILE__", "forgotten"),
        ("__FILE_NAME__", "forgotten"),
        ("__INCLUDE_LEVEL__", "0"),
        ("__VERSION__", "TeleCC 1.0"),
        ("__GNUC_GNU_INLINE", "1"),
        ("__USER_LABEL_PREFIX__", "not understood"),
        ("__REGISTER_PREFIX__", "not understood"),
        ("__SIZE_TYPE__", "long unsigned int"),
        ("__PTRDIFF_TYPE__", "long int"),
        ("__WCHAR_TYPE__", "int"),
        ("__WINT_TYPE__", "unsigned int"),
        ("__INTMAX_TYPE__", "long int"),
        ("__UINTMAX_TYPE__", "long unsigned int"),
        ("__INT8_TYPE__", "signed char"),
        ("__INT16_TYPE__", "short"),
        ("__INT32_TYPE__", "int"),
        ("__INT64_TYPE__", "long int"),
        ("__UINT8_TYPE__", "unsigned char"),
        ("__UINT16_TYPE__", "unsigned short"),
        ("__UINT32_TYPE__", "unsigned int"),
        ("__UINT64_TYPE__", "long unsigned int"),
        ("__INT_LEAST8_TYPE__", "signed char"),
        ("__INT_LEAST16_TYPE__", "short"),
        ("__INT_LEAST32_TYPE__", "int"),
        ("__INT_LEAST64_TYPE__", "long int"),
        ("__UINT_LEAST8_TYPE__", "unsigned char"),
        ("__UINT_LEAST16_TYPE__", "unsigned short"),
        ("__UINT_LEAST32_TYPE__", "unsigned int"),
        ("__UINT_LEAST64_TYPE__", "long unsigned int"),
        ("__INT_FAST8_TYPE__", "signed char"),
        ("__INT_FAST16_TYPE__", "short"),
        ("__INT_FAST32_TYPE__", "int"),
        ("__INT_FAST64_TYPE__", "long int"),
        ("__UINT_FAST8_TYPE__", "unsigned char"),
        ("__UINT_FAST16_TYPE__", "unsigned short"),
        ("__UINT_FAST32_TYPE__", "unsigned int"),
        ("__UINT_FAST64_TYPE__", "long unsigned int"),
        ("__INTPTR_TYPE__", "long int"),
        ("__UINTPTR_TYPE__", "long unsigned int"),
        ("__CHAR_BIT__", "8"),
    ];
    let ghost table = default_macros();
    assert(macros@.map_values(|p: (&str, &str)| (p.0@, p.1@)) =~= table);
    let mut i: usize = 0;
    while i < macros.len()
        invariant
            i <= macros@.len(),
            macros@.map_values(|p: (&str, &str)| (p.0@, p.1@)) == table,
            state@ == (StateV { defines: with_text_macros(old(state)@.defines, table.take(i as int)), ..old(state)@ }),
        decreases macros@.len() - i,
    {
        let (name, value) = macros[i];
        assert(table[i as int] == (name@, value@));
        state.defines.insert(String::from_str(name), MacroValue::String(String::from_str(value)));
        assert(table.take(i + 1).drop_last() =~= table.take(i as int));
        i = i + 1;
    }
    assert(table.take(macros@.len() as int) =~= table);
}

/// The state in which a unit whose file is `filename` at `filepath` is
/// read.
pub open spec fn unit_start(filename: Seq<char>, filepath: Seq<char>) -> StateV {
    StateV {
        comment_level: 0,
        inline_comment: false,
        directive_parsing: PipsV::Idle,
        comment_unclosed_positon: Seq::empty(),
        defines: with_text_macros(Map::empty(), default_macros()),
        if_writing: true,
        if_level: 0,
        include_stack: seq![FilePositionV { line: 0, col: 0, filename: Seq::empty(), filepath: Seq::empty() }],
        current_position: FilePositionV { line: 0, col: 0, filename, filepath },
        literal_values: Map::empty(),
        warnings: Seq::empty(),
    }
}

/// The state in which a unit is read: output on, the predefined macros
/// defined, and the position at the start of the unit's file.
pub fn unit_state(filename: String, filepath: String) -> (state: State)
    ensures
        state@ == unit_start(filename@, filepath@),
        state.comment_level == 0,
        !state.inline_comment,
        state.directive_parsing@ == PipsV::Idle,
        state@.comment_unclosed_positon.len() == 0,
        state@.defines == with_text_macros(Map::empty(), default_macros()),
        state.if_writing,
        state.if_level == 0,
        state@.include_stack == seq![FilePositionV { line: 0, col: 0, filename: Seq::empty(), filepath: Seq::empty() }],
        state@.current_position == (FilePositionV { line: 0, col: 0, filename: filename@, filepath: filepath@ }),
        state@.literal_values == Map::<Seq<char>, i32>::empty(),
        state@.warnings.len() == 0,
{
    let mut state = State::default();
    state.if_writing = true;
    add_default_macro(&mut state);
    let ghost before = state.include_stack@;
    state.new_file(filename, filepath);
    assert(positions_view(state.include_stack@) =~= positions_view(before).push(FilePositionV { line: 0, col: 0, filename: Seq::empty(), filepath: Seq::empty() }));
    assert(state@.comment_unclosed_positon =~= Seq::<FilePositionV>::empty());
    assert(state@.warnings =~= Seq::<Seq<char>>::empty());
    assert(state@.include_stack =~= seq![FilePositionV { line: 0, col: 0, filename: Seq::empty(), filepath: Seq::empty() }]);
    assert(state@.literal_values =~= Map::<Seq<char>, i32>::empty());
    assert(state@.defines == with_text_macros(Map::empty(), default_macros()));
    assert(state@.directive_parsing == PipsV::Idle);
    state
}

/// A character that neither starts nor ends a comment nor starts a
/// directive.
pub open spec fn plain_char(c: char) -> bool {
    c != '/' && c != '*' && c != '#'
}

proof fn lemma_plain_prefix(cs: Seq<char>, n: nat, s0: StateV)
    requires
        n <= cs.len(),
        forall|i: int| 0 <= i < cs.len() ==> plain_char(#[trigger] cs[i]),
        s0.comment_level == 0,
        !s0.inline_comment,
        s0.directive_parsing == PipsV::Idle,
        s0.if_writing,
        s0.current_position.col + cs.len() <= u32::MAX,
    ensures
        scan_prefix(cs, n, s0) == Ok::<(Seq<char>, StateV, Seq<Seq<char>>, char), FailureAt>(
            (
                cs.take(n as int),
                with_col(s0, (s0.current_position.col + n) as u32),
                Seq::empty(),
                if n == 0 {
                    ' '
                } else {
                    cs[n - 1]
                },
            ),
        ),
    decreases n,
{
    if n > 0 {
        lemma_plain_prefix(cs, (n - 1) as nat, s0);
        reveal(char_raw);
        let before = with_col(s0, (s0.current_position.col + n - 1) as u32);
        let s1 = with_col(s0, (s0.current_position.col + n) as u32);
        assert(with_col(before, (before.current_position.col + 1) as u32) == s1);
        let prev = if n == 1 { ' ' } else { cs[n - 2] };
        assert(plain_char(cs[n - 1]));
        if n > 1 {
            assert(plain_char(cs[n - 2]));
        }
        assert((StateV { directive_parsing: PipsV::Idle, ..s1 }) == s1);
        assert(deal_spec(cs[n - 1], PipsV::Idle, Seq::empty()) == Ok::<(Seq<char>, PipsV, Seq<Seq<char>>), FailureV>(
            (seq![cs[n - 1]], PipsV::Idle, Seq::empty()),
        ));
        assert(char_step(cs[n - 1], prev, s1, Seq::empty()) == Ok::<(Seq<char>, StateV, Seq<Seq<char>>, char), FailureAt>(
            (seq![cs[n - 1]], s1, Seq::empty(), cs[n - 1]),
        ));
        assert(cs.take(n as int) =~= cs.take(n - 1) + seq![cs[n - 1]]);
    } else {
        assert(cs.take(0) =~= Seq::<char>::empty());
        assert(with_col(s0, s0.current_position.col) == s0);
    }
}

/// A line of plain characters, read outside comments while output is on,
/// is written as it is, followed by a newline unless it is blank.
pub proof fn law_plain_line_copied(cs: Seq<char>, line_no: u32, s: StateV)
    requires
        forall|i: int| 0 <= i < cs.len() ==> plain_char(#[trigger] cs[i]),
        s.comment_level == 0,
        s.if_writing,
        cs.len() <= u32::MAX,
    ensures
        line_spec(cs, line_no, s) == Ok::<(Seq<char>, DirectiveOutcomeV, StateV), FailureAt>(
            (
                if trim_spec(cs).len() != 0 {
                    cs + "\n"@
                } else {
                    cs
                },
                DirectiveOutcomeV::Handled,
                with_col(line_start(s, line_no), cs.len() as u32),
            ),
        ),
{
    reveal(line_spec);
    lemma_plain_prefix(cs, cs.len(), line_start(s, line_no));
    assert(cs.take(cs.len() as int) =~= cs);
}

proof fn lemma_silent_prefix(cs: Seq<char>, n: nat, s0: StateV)
    requires
        n <= cs.len(),
        !s0.if_writing,
    ensures
        scan_prefix(cs, n, s0) matches Ok((out, s, v, p)) ==> out.len() == 0 && !s.if_writing,
    decreases n,
{
    if n > 0 {
        lemma_silent_prefix(cs, (n - 1) as nat, s0);
        reveal(char_raw);
    }
}

/// While output is off, a line writes nothing.
pub proof fn law_no_text_while_not_writing(cs: Seq<char>, line_no: u32, s: StateV)
    requires
        !s.if_writing,
    ensures
        line_spec(cs, line_no, s) matches Ok((text, o, s2)) ==> text.len() == 0,
{
    reveal(line_spec);
    reveal(directive_line);
    lemma_silent_prefix(cs, cs.len(), line_start(s, line_no));
    if let Ok((out, s1, values, p)) = scan_prefix(cs, cs.len(), line_start(s, line_no)) {
        assert(trim_spec(out) =~= Seq::<char>::empty());
    }
}

/// A comment opened and closed again (`/**/`) outside any comment writes
/// nothing and leaves the nesting level of comments as it was.
pub proof fn law_comment_pair(s0: StateV)
    requires
        s0.comment_level < u32::MAX,
        !s0.inline_comment,
        s0.current_position.col + 4 <= u32::MAX,
    ensures
        scan_prefix(seq!['/', '*', '*', '/'], 4, s0) matches Ok((text, s, values, p)) && text.len() == 0
            && s.comment_level == s0.comment_level && !s.inline_comment && s.directive_parsing == s0.directive_parsing,
{
    reveal(char_raw);
    let cs = seq!['/', '*', '*', '/'];
    assert(cs[0] == '/' && cs[1] == '*' && cs[2] == '*' && cs[3] == '/');
    let c = s0.current_position.col;
    let s1 = with_col(s0, (c + 1) as u32);
    assert(scan_prefix(cs, 0, s0) == Ok::<(Seq<char>, StateV, Seq<Seq<char>>, char), FailureAt>((Seq::empty(), s0, Seq::empty(), ' ')));
    assert(char_raw('/', ' ', s1, Seq::empty()) == Ok::<(Seq<char>, StateV, Seq<Seq<char>>, char), FailureAt>((Seq::empty(), s1, Seq::empty(), '/')));
    assert(scan_prefix(cs, 1, s0) == Ok::<(Seq<char>, StateV, Seq<Seq<char>>, char), FailureAt>((Seq::empty(), s1, Seq::empty(), '/')));
    let s2 = with_col(s1, (c + 2) as u32);
    let s2b = StateV {
        comment_level: (s0.comment_level + 1) as u32,
        comment_unclosed_positon: s0.comment_unclosed_positon.push(s2.current_position),
        ..s2
    };
    assert(scan_prefix(cs, 2, s0) == Ok::<(Seq<char>, StateV, Seq<Seq<char>>, char), FailureAt>((Seq::empty(), s2b, Seq::empty(), ' ')));
    let s3 = with_col(s2b, (c + 3) as u32);
    assert(scan_prefix(cs, 3, s0) == Ok::<(Seq<char>, StateV, Seq<Seq<char>>, char), FailureAt>((Seq::empty(), s3, Seq::empty(), '*')));
}

proof fn lemma_join_lines(ls: Seq<Seq<char>>, n: nat)
    requires
        n <= ls.len(),
        ls.len() < u32::MAX,
    ensures
        join_lines(ls, n).0.len() <= n,
        join_lines(ls, n).1 ==> join_lines(ls, n).0.len() > 0,
        forall|i: int| 0 <= i < join_lines(ls, n).0.len() ==> 1 <= #[trigger] join_lines(ls, n).0[i].0 <= n,
        forall|i: int, j: int|
            0 <= i < j < join_lines(ls, n).0.len() ==> join_lines(ls, n).0[i].0 < join_lines(ls, n).0[j].0,
    decreases n,
{
    if n > 0 {
        lemma_join_lines(ls, (n - 1) as nat);
    }
}

/// The logical lines are at most as many as the lines of the text, and
/// their numbers, each the number of the line where it starts, increase.
pub proof fn law_logical_lines(content: Seq<char>)
    requires
        text_lines(content).len() < u32::MAX,
    ensures
        logical_lines(content).len() <= text_lines(content).len(),
        forall|i: int|
            0 <= i < logical_lines(content).len() ==> 1 <= #[trigger] logical_lines(content)[i].0 <= text_lines(
                content,
            ).len(),
        forall|i: int, j: int|
            0 <= i < j < logical_lines(content).len() ==> logical_lines(content)[i].0 < logical_lines(content)[j].0,
{
    lemma_join_lines(text_lines(content), text_lines(content).len());
}

proof fn lemma_scan_keeps_stack(cs: Seq<char>, n: nat, s0: StateV)
    ensures
        scan_prefix(cs, n, s0) matches Ok((out, s1, v, p)) ==> s1.include_stack == s0.include_stack,
    decreases n,
{
    if n > 0 {
        lemma_scan_keeps_stack(cs, (n - 1) as nat, s0);
        reveal(char_raw);
    }
}

proof fn lemma_directive_line_keeps_stack(values: Seq<Seq<char>>, s: StateV)
    ensures
        directive_line(values, s) matches Ok((text, o, s2)) ==> s2.include_stack == s.include_stack,
{
    reveal(directive_line);
}

proof fn lemma_line_keeps_stack(cs: Seq<char>, line_no: u32, s: StateV)
    ensures
        line_spec(cs, line_no, s) matches Ok((text, o, s2)) ==> s2.include_stack == s.include_stack,
{
    reveal(line_spec);
    lemma_scan_keeps_stack(cs, cs.len(), line_start(s, line_no));
    if let Ok((out, s1, values, p)) = scan_prefix(cs, cs.len(), line_start(s, line_no)) {
        lemma_directive_line_keeps_stack(values, s1);
        if let PipsV::DirectiveValue(v) = s1.directive_parsing {
            lemma_directive_line_keeps_stack(values.push(v), s1);
        }
        if let PipsV::DirectiveName(name) = s1.directive_parsing {
            lemma_directive_line_keeps_stack(values.push(name), s1);
        }
    }
}

/// Reading the rest of a unit to its end leaves the file: the include stack
/// is as before the reading, less the entry made when the file was entered.
pub proof fn law_unit_leaves_file(lines: Seq<(u32, Seq<char>)>, i: nat, s: StateV)
    ensures
        run_from(lines, i, s) matches Ok((text, stop, next, s2)) ==> (stop is End ==> s2.include_stack
            == stack_after_end_file(s.include_stack)),
    decreases lines.len() - i,
{
    if i < lines.len() {
        lemma_line_keeps_stack(lines[i as int].1, lines[i as int].0, s);
        if let Ok((text, o, s1)) = line_spec(lines[i as int].1, lines[i as int].0, s) {
            law_unit_leaves_file(lines, i + 1, s1);
        }
    }
}

/// A unit read from its start (see `unit_start`) to its end, with no
/// `#include` on the way, leaves its file: the include stack is empty
/// again.
pub proof fn law_unit_read_to_end(content: Seq<char>, filename: Seq<char>, filepath: Seq<char>)
    ensures
        ({
            let r = run_from(logical_lines(content), 0, unit_start(filename, filepath));
            r is Ok && r->Ok_0.1 is End ==> r->Ok_0.3.include_stack.len() == 0
        }),
{
    law_unit_leaves_file(logical_lines(content), 0, unit_start(filename, filepath));
}

/// Whether `c` is a sign that may start or end a comment.
pub open spec fn slash_or_star(c: char) -> bool {
    c == '/' || c == '*'
}

/// A line with no `#`, no two signs `/` or `*` next to each other (so no
/// comment delimiter), and no `/` or `*` at its end.
pub open spec fn code_line(cs: Seq<char>) -> bool {
    &&& forall|i: int| 0 <= i < cs.len() ==> #[trigger] cs[i] != '#'
    &&& forall|i: int| 0 <= i < cs.len() - 1 ==> !(slash_or_star(#[trigger] cs[i]) && slash_or_star(cs[i + 1]))
    &&& cs.len() > 0 ==> !slash_or_star(cs.last())
}

/// The text written for the first `n` characters of a code line: all of
/// them, but a `/` or `*` just read is held back until the next character.
pub open spec fn written_prefix(cs: Seq<char>, n: nat) -> Seq<char> {
    if n > 0 && slash_or_star(cs[n - 1]) {
        cs.take(n - 1)
    } else {
        cs.take(n as int)
    }
}

proof fn lemma_code_prefix(cs: Seq<char>, n: nat, s0: StateV)
    requires
        n <= cs.len(),
        forall|i: int| 0 <= i < cs.len() ==> #[trigger] cs[i] != '#',
        forall|i: int| 0 <= i < cs.len() - 1 ==> !(slash_or_star(#[trigger] cs[i]) && slash_or_star(cs[i + 1])),
        s0.comment_level == 0,
        !s0.inline_comment,
        s0.directive_parsing == PipsV::Idle,
        s0.if_writing,
        s0.current_position.col + cs.len() <= u32::MAX,
    ensures
        scan_prefix(cs, n, s0) == Ok::<(Seq<char>, StateV, Seq<Seq<char>>, char), FailureAt>(
            (
                written_prefix(cs, n),
                with_col(s0, (s0.current_position.col + n) as u32),
                Seq::empty(),
                if n == 0 {
                    ' '
                } else {
                    cs[n - 1]
                },
            ),
        ),
    decreases n,
{
    if n > 0 {
        lemma_code_prefix(cs, (n - 1) as nat, s0);
        reveal(char_raw);
        let before = with_col(s0, (s0.current_position.col + n - 1) as u32);
        let s1 = with_col(s0, (s0.current_position.col + n) as u32);
        assert(with_col(before, (before.current_position.col + 1) as u32) == s1);
        let c = cs[n - 1];
        let prev = if n == 1 { ' ' } else { cs[n - 2] };
        assert(c != '#');
        assert((StateV { directive_parsing: PipsV::Idle, ..s1 }) == s1);
        if slash_or_star(c) {
            if n > 1 {
                assert(!(slash_or_star(cs[n - 2]) && slash_or_star(cs[n - 1])));
            }
            assert(char_step(c, prev, s1, Seq::empty()) == Ok::<(Seq<char>, StateV, Seq<Seq<char>>, char), FailureAt>(
                (Seq::empty(), s1, Seq::empty(), c),
            ));
            assert(written_prefix(cs, (n - 1) as nat) + Seq::<char>::empty() =~= written_prefix(cs, n));
        } else if n > 1 && slash_or_star(prev) {
            assert(cs[n - 2] != '#');
            assert(deal_spec(prev, PipsV::Idle, Seq::empty()) == Ok::<(Seq<char>, PipsV, Seq<Seq<char>>), FailureV>(
                (seq![prev], PipsV::Idle, Seq::empty()),
            ));
            assert(deal_spec(c, PipsV::Idle, Seq::empty()) == Ok::<(Seq<char>, PipsV, Seq<Seq<char>>), FailureV>(
                (seq![c], PipsV::Idle, Seq::empty()),
            ));
            assert(char_step(c, prev, s1, Seq::empty()) == Ok::<(Seq<char>, StateV, Seq<Seq<char>>, char), FailureAt>(
                (seq![prev] + seq![c], s1, Seq::empty(), c),
            ));
            assert(cs.take(n - 2) + (seq![prev] + seq![c]) =~= cs.take(n as int));
        } else {
            assert(deal_spec(c, PipsV::Idle, Seq::empty()) == Ok::<(Seq<char>, PipsV, Seq<Seq<char>>), FailureV>(
                (seq![c], PipsV::Idle, Seq::empty()),
            ));
            assert(char_step(c, prev, s1, Seq::empty()) == Ok::<(Seq<char>, StateV, Seq<Seq<char>>, char), FailureAt>(
                (seq![c], s1, Seq::empty(), c),
            ));
            assert(cs.take(n - 1) + seq![c] =~= cs.take(n as int));
        }
    } else {
        assert(cs.take(0) =~= Seq::<char>::empty());
        assert(with_col(s0, s0.current_position.col) == s0);
    }
}

/// A line of code, read outside comments while output is on, is written as
/// it is (its signs `*` and `/` included), followed by a newline unless it
/// is blank.
pub proof fn law_code_line_copied(cs: Seq<char>, line_no: u32, s: StateV)
    requires
        code_line(cs),
        s.comment_level == 0,
        s.if_writing,
        cs.len() <= u32::MAX,
    ensures
        line_spec(cs, line_no, s) == Ok::<(Seq<char>, DirectiveOutcomeV, StateV), FailureAt>(
            (
                if trim_spec(cs).len() != 0 {
                    cs + "\n"@
                } else {
                    cs
                },
                DirectiveOutcomeV::Handled,
                with_col(line_start(s, line_no), cs.len() as u32),
            ),
        ),
{
    reveal(line_spec);
    lemma_code_prefix(cs, cs.len(), line_start(s, line_no));
    assert(cs.take(cs.len() as int) =~= cs);
}

} // verus!
