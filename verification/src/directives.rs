//! Directive lines: reading a directive from its pieces, and carrying it out
//! on the state.
use vstd::prelude::*;
use vstd::string::*;

use crate::errors::{
    preprocessor_report, FailError, Failure, FailureAt, FailureV, FilePositionV, GeneralError, GeneralErrorV,
    PreprocessorError, PreprocessorErrorV,
};
use crate::eval::{env_of, overflow_failure, EvalEnv};
use crate::parser::{parse_preprocessor, tokenize, tokens_view};
use crate::structs::{
    strings_view, Directive, DirectiveV, MacroValue, MacroValueV, State, StateV, StoreDirective,
};
use crate::ternary::{conditional_value, eval_expression};
use crate::text::{chars_of, push_char, same_text, trim, trim_spec};

verus! {

/// Where the reading of a `#define` line stands.
#[derive(Debug, Clone, Copy, PartialEq, Eq, Structural)]
pub enum DirectiveParsingState {
    Name,
    AfterName,
    Args,
    Value,
}

/// What has been read of a `#define` line so far.
pub struct DefineScan {
    pub mode: DirectiveParsingState,
    pub brace: nat,
    pub name: Seq<char>,
    pub args: Seq<Seq<char>>,
    pub value: Seq<char>,
}

pub open spec fn define_start() -> DefineScan {
    DefineScan {
        mode: DirectiveParsingState::Name,
        brace: 0,
        name: Seq::empty(),
        args: Seq::empty(),
        value: Seq::empty(),
    }
}

/// `args` with `c` added to its last element.
pub open spec fn push_last(args: Seq<Seq<char>>, c: char) -> Seq<Seq<char>> {
    args.update(args.len() - 1, args.last().push(c))
}

/// One character of a `#define` line: the macro name comes first, then an
/// optional parenthesised, comma-separated argument list, then the value.
/// A `)` inside the name is refused (`None`).
pub open spec fn define_step(d: DefineScan, c: char) -> Option<DefineScan> {
    let in_name = d.mode == DirectiveParsingState::Name;
    if d.mode == DirectiveParsingState::Value {
        Some(DefineScan { value: d.value.push(c), ..d })
    } else if c == '(' && (in_name || d.mode == DirectiveParsingState::AfterName) {
        Some(
            DefineScan {
                brace: d.brace + 1,
                mode: DirectiveParsingState::Args,
                args: d.args.push(Seq::empty()),
                value: d.value.push(c),
                ..d
            },
        )
    } else if c == '(' && d.brace > 0 {
        Some(DefineScan { mode: DirectiveParsingState::Value, args: Seq::empty(), value: d.value.push(c), ..d })
    } else if c == '(' {
        Some(DefineScan { brace: d.brace + 1, value: d.value.push(c), ..d })
    } else if c == ' ' && in_name {
        Some(DefineScan { mode: DirectiveParsingState::AfterName, ..d })
    } else if c == ' ' {
        Some(d)
    } else if c == ')' && in_name {
        None
    } else if c == ')' && d.brace > 1 {
        Some(DefineScan { brace: (d.brace - 1) as nat, value: d.value.push(c), args: push_last(d.args, c), ..d })
    } else if c == ')' && d.mode == DirectiveParsingState::Args {
        Some(DefineScan { brace: (d.brace - 1) as nat, mode: DirectiveParsingState::Value, value: Seq::empty(), ..d })
    } else if c == ')' {
        Some(DefineScan { value: d.value.push(c), ..d })
    } else if c == ',' {
        Some(DefineScan { args: d.args.push(Seq::empty()), ..d })
    } else if in_name {
        Some(DefineScan { name: d.name.push(c), ..d })
    } else if d.mode == DirectiveParsingState::AfterName {
        Some(DefineScan { mode: DirectiveParsingState::Value, value: d.value.push(c), ..d })
    } else {
        Some(DefineScan { args: push_last(d.args, c), value: d.value.push(c), ..d })
    }
}

/// The reading of the first `n` characters of `s`.
pub open spec fn define_scan(s: Seq<char>, n: nat) -> Option<DefineScan>
    decreases n,
{
    if n == 0 {
        Some(define_start())
    } else {
        match define_scan(s, (n - 1) as nat) {
            None => None,
            Some(d) => define_step(d, s[n - 1]),
        }
    }
}

/// The concatenation of all the strings of `s`.
pub open spec fn concat_all(s: Seq<Seq<char>>) -> Seq<char>
    decreases s.len(),
{
    if s.len() == 0 {
        Seq::empty()
    } else {
        concat_all(s.drop_last()) + s.last()
    }
}

/// The `#define` directive read from the text after `define`. Where no
/// value follows the arguments, the value is the arguments, concatenated in
/// parentheses, and the macro takes none.
pub open spec fn define_spec(values: Seq<char>) -> Option<DirectiveV> {
    match define_scan(values, values.len()) {
        None => None,
        Some(d) => Some(
            if d.value.len() == 0 {
                DirectiveV::Define {
                    macro_name: d.name,
                    macro_args: Seq::empty(),
                    macro_value: "("@ + concat_all(d.args) + ")"@,
                }
            } else {
                DirectiveV::Define { macro_name: d.name, macro_args: d.args, macro_value: d.value }
            },
        ),
    }
}

/// What every reachable reading keeps: the name part has seen no `(`, the
/// argument part has exactly one open `(` and at least one argument.
pub open spec fn define_scan_wf(d: DefineScan) -> bool {
    &&& (d.mode == DirectiveParsingState::Name || d.mode == DirectiveParsingState::AfterName) ==> d.brace == 0
    &&& d.mode == DirectiveParsingState::Args ==> d.brace == 1 && d.args.len() > 0
    &&& d.brace <= 1
}

/// A refused prefix stays refused.
pub proof fn lemma_define_scan_refused(s: Seq<char>, n: nat, m: nat)
    requires
        n <= m,
        define_scan(s, n) is None,
    ensures
        define_scan(s, m) is None,
    decreases m - n,
{
    if n < m {
        lemma_define_scan_refused(s, n, (m - 1) as nat);
    }
}

fn concat_strings(args: &Vec<String>) -> (r: String)
    ensures
        r@ == concat_all(strings_view(args@)),
{
    let ghost a = strings_view(args@);
    let mut r = String::new();
    let mut i: usize = 0;
    while i < args.len()
        invariant
            i <= args@.len(),
            a == strings_view(args@),
            r@ == concat_all(a.take(i as int)),
        decreases args@.len() - i,
    {
        r.append(args[i].as_str());
        assert(a.take(i + 1).drop_last() =~= a.take(i as int));
        i = i + 1;
    }
    assert(a.take(args@.len() as int) =~= a);
    r
}

/// Reads a `#define` directive from the text after `define` (see
/// `define_spec`); a `)` inside the macro name is refused.
pub fn convert_define_from_store(values: &str) -> (r: Result<Directive, Failure>)
    ensures
        match define_spec(values@) {
            Some(d) => r matches Ok(x) && x@ == d,
            None => r matches Err(f) && f@ == FailureV::Preprocessor(PreprocessorErrorV::InvalidMacroName(values@)),
        },
{
    let chars = chars_of(values);
    let mut mode = DirectiveParsingState::Name;
    let mut brace_level: usize = 0;
    let mut macro_name = String::new();
    let mut args: Vec<String> = Vec::new();
    let mut value = String::new();
    let mut i: usize = 0;
    assert(strings_view(args@) =~= Seq::<Seq<char>>::empty());
    while i < chars.len()
        invariant
            i <= chars@.len(),
            chars@ == values@,
            define_scan(values@, i as nat) == Some(
                DefineScan { mode, brace: brace_level as nat, name: macro_name@, args: strings_view(args@), value: value@ },
            ),
            define_scan_wf(DefineScan { mode, brace: brace_level as nat, name: macro_name@, args: strings_view(args@), value: value@ }),
        decreases chars@.len() - i,
    {
        let c = chars[i];
        let ghost a = strings_view(args@);
        let in_name = mode == DirectiveParsingState::Name;
        if mode == DirectiveParsingState::Value {
            push_char(&mut value, c);
        } else if c == '(' && (in_name || mode == DirectiveParsingState::AfterName) {
            brace_level = brace_level + 1;
            mode = DirectiveParsingState::Args;
            args.push(String::new());
            assert(strings_view(args@) =~= a.push(Seq::empty()));
            push_char(&mut value, c);
        } else if c == '(' && brace_level > 0 {
            mode = DirectiveParsingState::Value;
            args = Vec::new();
            assert(strings_view(args@) =~= Seq::<Seq<char>>::empty());
            push_char(&mut value, c);
        } else if c == '(' {
            brace_level = brace_level + 1;
            push_char(&mut value, c);
        } else if c == ' ' && in_name {
            mode = DirectiveParsingState::AfterName;
        } else if c == ' ' {
        } else if c == ')' && in_name {
            proof {
                lemma_define_scan_refused(values@, (i + 1) as nat, values@.len());
            }
            return Err(Failure::Preprocessor(PreprocessorError::InvalidMacroName(String::from_str(values))));
        } else if c == ')' && brace_level > 1 {
            brace_level = brace_level - 1;
            push_char(&mut value, c);
            let last = args.len() - 1;
            let mut arg = args.remove(last);
            push_char(&mut arg, c);
            args.push(arg);
            assert(strings_view(args@) =~= push_last(a, c));
        } else if c == ')' && mode == DirectiveParsingState::Args {
            brace_level = brace_level - 1;
            mode = DirectiveParsingState::Value;
            value = String::new();
        } else if c == ')' {
            push_char(&mut value, c);
        } else if c == ',' {
            args.push(String::new());
            assert(strings_view(args@) =~= a.push(Seq::empty()));
        } else if in_name {
            push_char(&mut macro_name, c);
        } else if mode == DirectiveParsingState::AfterName {
            mode = DirectiveParsingState::Value;
            push_char(&mut value, c);
        } else {
            let last = args.len() - 1;
            let mut arg = args.remove(last);
            push_char(&mut arg, c);
            args.push(arg);
            assert(strings_view(args@) =~= push_last(a, c));
            push_char(&mut value, c);
        }
        i = i + 1;
    }
    if value.as_str().is_empty() {
        let mut v = String::from_str("(");
        let inner = concat_strings(&args);
        v.append(inner.as_str());
        v.append(")");
        let empty: Vec<String> = Vec::new();
        assert(strings_view(empty@) =~= Seq::<Seq<char>>::empty());
        Ok(Directive::Define { macro_name, macro_args: empty, macro_value: v })
    } else {
        Ok(Directive::Define { macro_name, macro_args: args, macro_value: value })
    }
}

/// What evaluation reads of a state.
pub open spec fn env_view(s: StateV) -> EvalEnv {
    EvalEnv {
        defines: s.defines,
        values: s.literal_values,
        line: s.current_position.line,
        filename: s.current_position.filename,
        filepath: s.current_position.filepath,
    }
}

/// `s` with the column of its position set to `col`.
pub open spec fn with_col(s: StateV, col: u32) -> StateV {
    StateV { current_position: FilePositionV { col, ..s.current_position }, ..s }
}

/// The truth of the condition of an `#if` or `#elif` line, and the state
/// after its evaluation (column and warnings move on).
pub open spec fn condition_spec(expr: Seq<char>, s: StateV) -> Result<(bool, StateV), FailureAt> {
    match tokenize(expr, s.literal_values, s.current_position.col) {
        Err((e, col)) => Err((e, with_col(s, col).current_position)),
        Ok((tokens, col)) => {
            let (r, col2, w2) = conditional_value(tokens, env_view(s), col, s.warnings);
            match r {
                Err(e) => Err((e, with_col(s, col2).current_position)),
                Ok(v) => Ok((v != 0, StateV { warnings: w2, ..with_col(s, col2) })),
            }
        },
    }
}

pub open spec fn is_ascii_char(c: char) -> bool {
    (c as u32) < 128
}

/// The file name of an `#include` line: the text between its first and last
/// characters (the quotes or angle brackets), which must be ASCII.
pub open spec fn include_name(f: Seq<char>) -> Result<Seq<char>, FailureV> {
    if f.len() >= 2 && is_ascii_char(f[0]) && is_ascii_char(f.last()) {
        Ok(f.subrange(1, f.len() - 1))
    } else {
        Err(FailureV::Preprocessor(PreprocessorErrorV::InvalidFileName(f)))
    }
}

pub open spec fn trimmed_values(values: Seq<Seq<char>>) -> Seq<Seq<char>> {
    values.map_values(|v: Seq<char>| trim_spec(v))
}

/// The directive of a line whose pieces are `values` (name first), each
/// taken without surrounding white space, and the state after reading it.
pub open spec fn convert_spec(values: Seq<Seq<char>>, s: StateV) -> Result<(DirectiveV, StateV), FailureAt> {
    let t = trimmed_values(values);
    let two = t.len() == 2;
    let name = t[0];
    if two && name == "define"@ {
        match define_spec(t[1]) {
            Some(d) => Ok((d, s)),
            None => Err((FailureV::Preprocessor(PreprocessorErrorV::InvalidMacroName(t[1])), s.current_position)),
        }
    } else if two && name == "undef"@ {
        Ok((DirectiveV::Undef { macro_name: t[1] }, s))
    } else if two && name == "if"@ {
        match condition_spec(t[1], s) {
            Err(e) => Err(e),
            Ok((b, s2)) => Ok((DirectiveV::If { expression: b }, s2)),
        }
    } else if two && name == "elif"@ {
        match condition_spec(t[1], s) {
            Err(e) => Err(e),
            Ok((b, s2)) => Ok((DirectiveV::Elif { expression: b }, s2)),
        }
    } else if t.len() == 1 && name == "endif"@ {
        Ok((DirectiveV::EndIf, s))
    } else if t.len() == 1 && name == "else"@ {
        Ok((DirectiveV::Else, s))
    } else if two && name == "ifdef"@ {
        Ok((DirectiveV::IfDef { macro_name: t[1] }, s))
    } else if two && name == "ifndef"@ {
        Ok((DirectiveV::IfnDef { macro_name: t[1] }, s))
    } else if two && name == "include"@ {
        match include_name(trim_spec(t[1])) {
            Err(e) => Err((e, s.current_position)),
            Ok(f) => Ok((DirectiveV::Include { filename: f }, s)),
        }
    } else if two && name == "error"@ {
        Ok((DirectiveV::Error { message: t[1] }, s))
    } else if two && name == "warning"@ {
        Ok((DirectiveV::Warning { message: t[1] }, s))
    } else if two && name == "pragma"@ {
        Ok((DirectiveV::Pragma { message: t[1] }, s))
    } else {
        Err((FailureV::Preprocessor(PreprocessorErrorV::DirectiveUnknown(concat_all(t))), s.current_position))
    }
}

fn trim_all(values: &Vec<String>) -> (r: Vec<String>)
    ensures
        strings_view(r@) == trimmed_values(strings_view(values@)),
{
    let ghost goal = trimmed_values(strings_view(values@));
    let mut r: Vec<String> = Vec::new();
    let mut i: usize = 0;
    while i < values.len()
        invariant
            i <= values@.len(),
            goal == trimmed_values(strings_view(values@)),
            strings_view(r@) == goal.take(i as int),
        decreases values@.len() - i,
    {
        let ghost before = r@;
        let t = trim(values[i].as_str());
        r.push(t);
        assert(strings_view(before.push(t)) =~= strings_view(before).push(t@));
        assert(goal.take(i + 1) =~= goal.take(i as int).push(goal[i as int]));
        i = i + 1;
    }
    assert(goal.take(values@.len() as int) =~= goal);
    r
}

/// Evaluates the condition of an `#if` or `#elif` line (see
/// `condition_spec`).
fn eval_condition(expr: &str, state: &mut State) -> (r: Result<bool, Failure>)
    ensures
        match condition_spec(expr@, old(state)@) {
            Ok((b, s)) => r == Ok::<bool, Failure>(b) && final(state)@ == s,
            Err((e, p)) => r matches Err(f) && f@ == e && final(state).current_position@ == p,
        },
{
    let ghost s0 = state@;
    let tokens = parse_preprocessor(expr, state)?;
    assert(env_of(state) == env_view(s0));
    let v = eval_expression(tokens, state)?;
    assert(state@ == (StateV { warnings: state@.warnings, ..with_col(s0, state.current_position.col) }));
    Ok(v != 0)
}

fn string_between(v: &Vec<char>, a: usize, b: usize) -> (r: String)
    requires
        a <= b <= v@.len(),
    ensures
        r@ == v@.subrange(a as int, b as int),
{
    let mut r = String::new();
    let mut i = a;
    while i < b
        invariant
            a <= i <= b <= v@.len(),
            r@ == v@.subrange(a as int, i as int),
        decreases b - i,
    {
        push_char(&mut r, v[i]);
        i = i + 1;
        assert(r@ =~= v@.subrange(a as int, i as int));
    }
    r
}

/// Reads the directive of a line from its pieces (see `convert_spec`).
pub fn convert_from_store(directive: &StoreDirective, state: &mut State) -> (r: Result<Directive, Failure>)
    ensures
        match convert_spec(strings_view(directive.values@), old(state)@) {
            Ok((d, s)) => r matches Ok(x) && x@ == d && final(state)@ == s,
            Err((e, p)) => r matches Err(f) && f@ == e && final(state).current_position@ == p,
        },
{
    let t = trim_all(&directive.values);
    let ghost tv = strings_view(t@);
    let n = t.len();
    assert(n >= 1 ==> t@[0]@ == tv[0]);
    assert(n >= 2 ==> t@[1]@ == tv[1]);
    if n == 2 && same_text(t[0].as_str(), "define") {
        match convert_define_from_store(t[1].as_str()) {
            Ok(d) => Ok(d),
            Err(e) => Err(e),
        }
    } else if n == 2 && same_text(t[0].as_str(), "undef") {
        Ok(Directive::Undef { macro_name: t[1].clone() })
    } else if n == 2 && same_text(t[0].as_str(), "if") {
        let b = eval_condition(t[1].as_str(), state)?;
        Ok(Directive::If { expression: b })
    } else if n == 2 && same_text(t[0].as_str(), "elif") {
        let b = eval_condition(t[1].as_str(), state)?;
        Ok(Directive::Elif { expression: b })
    } else if n == 1 && same_text(t[0].as_str(), "endif") {
        Ok(Directive::EndIf)
    } else if n == 1 && same_text(t[0].as_str(), "else") {
        Ok(Directive::Else)
    } else if n == 2 && same_text(t[0].as_str(), "ifdef") {
        Ok(Directive::IfDef { macro_name: t[1].clone() })
    } else if n == 2 && same_text(t[0].as_str(), "ifndef") {
        Ok(Directive::IfnDef { macro_name: t[1].clone() })
    } else if n == 2 && same_text(t[0].as_str(), "include") {
        let f = trim(t[1].as_str());
        let fc = chars_of(f.as_str());
        let len = fc.len();
        if len >= 2 && (fc[0] as u32) < 128 && (fc[len - 1] as u32) < 128 {
            Ok(Directive::Include { filename: string_between(&fc, 1, len - 1) })
        } else {
            Err(Failure::Preprocessor(PreprocessorError::InvalidFileName(f)))
        }
    } else if n == 2 && same_text(t[0].as_str(), "error") {
        Ok(Directive::Error { message: t[1].clone() })
    } else if n == 2 && same_text(t[0].as_str(), "warning") {
        Ok(Directive::Warning { message: t[1].clone() })
    } else if n == 2 && same_text(t[0].as_str(), "pragma") {
        Ok(Directive::Pragma { message: t[1].clone() })
    } else {
        let joined = concat_strings(&t);
        Err(Failure::Preprocessor(PreprocessorError::DirectiveUnknown(joined)))
    }
}

/// What a directive line asks of the caller besides its effect on the
/// state: nothing, or the text of an included file in its place.
#[derive(Debug, Clone)]
pub enum DirectiveOutcome {
    Handled,
    Include { filename: String },
}

pub enum DirectiveOutcomeV {
    Handled,
    Include { filename: Seq<char> },
}

impl View for DirectiveOutcome {
    type V = DirectiveOutcomeV;

    open spec fn view(&self) -> DirectiveOutcomeV {
        match self {
            DirectiveOutcome::Handled => DirectiveOutcomeV::Handled,
            DirectiveOutcome::Include { filename } => DirectiveOutcomeV::Include { filename: filename@ },
        }
    }
}

/// What a macro defined with arguments `args` and value `value` stands for.
pub open spec fn macro_of(args: Seq<Seq<char>>, value: Seq<char>) -> MacroValueV {
    if args.len() == 0 {
        MacroValueV::String(value)
    } else {
        MacroValueV::Function { args, body: value }
    }
}

/// `s` one conditional level deeper, with `if_writing` set to `writing`.
pub open spec fn open_conditional(s: StateV, writing: bool) -> Result<(DirectiveOutcomeV, StateV), FailureAt> {
    if s.if_level == u32::MAX {
        Err((overflow_failure(), s.current_position))
    } else {
        Ok((DirectiveOutcomeV::Handled, StateV { if_level: (s.if_level + 1) as u32, if_writing: writing, ..s }))
    }
}

/// The effect of a directive that is carried out.
pub open spec fn apply_spec(d: DirectiveV, s: StateV) -> Result<(DirectiveOutcomeV, StateV), FailureAt> {
    let handled = DirectiveOutcomeV::Handled;
    match d {
        DirectiveV::Define { macro_name, macro_args, macro_value } => Ok(
            (handled, StateV { defines: s.defines.insert(macro_name, macro_of(macro_args, macro_value)), ..s }),
        ),
        DirectiveV::IfDef { macro_name } => open_conditional(s, s.defines.contains_key(macro_name)),
        DirectiveV::IfnDef { macro_name } => open_conditional(s, !s.defines.contains_key(macro_name)),
        DirectiveV::If { expression } => open_conditional(s, expression),
        DirectiveV::Elif { expression } => Ok(
            (handled, StateV { if_writing: if s.if_writing { false } else { expression }, ..s }),
        ),
        DirectiveV::Include { filename } => Ok((DirectiveOutcomeV::Include { filename }, s)),
        DirectiveV::Undef { macro_name } => Ok((handled, StateV { defines: s.defines.remove(macro_name), ..s })),
        DirectiveV::Else => Ok((handled, StateV { if_writing: !s.if_writing && s.if_level == 1, ..s })),
        DirectiveV::EndIf => Ok((handled, StateV { if_writing: true, ..s })),
        DirectiveV::Error { message } => Err((FailureV::Preprocessor(PreprocessorErrorV::DirectiveError(message)), s.current_position)),
        DirectiveV::Warning { message } => Ok(
            (
                handled,
                StateV {
                    warnings: s.warnings.push(
                        preprocessor_report(PreprocessorErrorV::DirectiveWarning(message), s.current_position),
                    ),
                    ..s
                },
            ),
        ),
        DirectiveV::Pragma { message } => Ok(
            (
                handled,
                StateV {
                    warnings: s.warnings.push(
                        preprocessor_report(PreprocessorErrorV::DirectiveUnknown(message), s.current_position),
                    ),
                    ..s
                },
            ),
        ),
        DirectiveV::Nameless => Err((FailureV::Preprocessor(PreprocessorErrorV::DirectiveNameMissing), s.current_position)),
    }
}

/// The effect of a directive. Inside a conditional (`if_level > 0`), an
/// `#endif` closes one level, a nested `#if` only opens one, `#else` and
/// `#elif` are carried out, and every other directive is carried out only
/// while `if_writing` is on.
pub open spec fn directive_spec(d: DirectiveV, s: StateV) -> Result<(DirectiveOutcomeV, StateV), FailureAt> {
    if s.if_level > 0 {
        match d {
            DirectiveV::EndIf => apply_spec(d, StateV { if_level: (s.if_level - 1) as u32, ..s }),
            DirectiveV::Else => apply_spec(d, s),
            DirectiveV::Elif { .. } => apply_spec(d, s),
            DirectiveV::If { .. } => if s.if_level == u32::MAX {
                Err((overflow_failure(), s.current_position))
            } else {
                Ok((DirectiveOutcomeV::Handled, StateV { if_level: (s.if_level + 1) as u32, ..s }))
            },
            _ => if s.if_writing {
                apply_spec(d, s)
            } else {
                Ok((DirectiveOutcomeV::Handled, s))
            },
        }
    } else {
        apply_spec(d, s)
    }
}

fn clone_strings(v: &Vec<String>) -> (r: Vec<String>)
    ensures
        strings_view(r@) == strings_view(v@),
{
    let mut r: Vec<String> = Vec::new();
    let mut i: usize = 0;
    while i < v.len()
        invariant
            i <= v@.len(),
            strings_view(r@) == strings_view(v@).take(i as int),
        decreases v@.len() - i,
    {
        let ghost before = r@;
        let s = v[i].clone();
        r.push(s);
        assert(strings_view(before.push(s)) =~= strings_view(before).push(s@));
        assert(strings_view(v@).take(i + 1) =~= strings_view(v@).take(i as int).push(v@[i as int]@));
        i = i + 1;
    }
    assert(strings_view(v@).take(v@.len() as int) =~= strings_view(v@));
    r
}

/// Records a macro definition.
fn preprocess_define(macro_name: &String, macro_args: &Vec<String>, macro_value: &String, state: &mut State)
    ensures
        final(state)@ == (StateV {
            defines: old(state)@.defines.insert(macro_name@, macro_of(strings_view(macro_args@), macro_value@)),
            ..old(state)@
        }),
{
    let value = if macro_args.len() == 0 {
        MacroValue::String(macro_value.clone())
    } else {
        MacroValue::Function { args: clone_strings(macro_args), body: macro_value.clone() }
    };
    state.defines.insert(macro_name.clone(), value);
}

fn open_conditional_exec(state: &mut State, writing: bool) -> (r: Result<DirectiveOutcome, Failure>)
    ensures
        match open_conditional(old(state)@, writing) {
            Ok((o, s)) => r matches Ok(x) && x@ == o && final(state)@ == s,
            Err((e, p)) => r matches Err(f) && f@ == e && final(state).current_position@ == p,
        },
{
    if state.if_level == u32::MAX {
        return Err(Failure::General(GeneralError::Overflow));
    }
    state.if_level = state.if_level + 1;
    state.if_writing = writing;
    Ok(DirectiveOutcome::Handled)
}

fn apply_directive(directive: &Directive, state: &mut State) -> (r: Result<DirectiveOutcome, Failure>)
    ensures
        match apply_spec(directive@, old(state)@) {
            Ok((o, s)) => r matches Ok(x) && x@ == o && final(state)@ == s,
            Err((e, p)) => r matches Err(f) && f@ == e && final(state).current_position@ == p,
        },
{
    match directive {
        Directive::Define { macro_name, macro_args, macro_value } => {
            preprocess_define(macro_name, macro_args, macro_value, state);
            Ok(DirectiveOutcome::Handled)
        },
        Directive::IfDef { macro_name } => {
            let writing = state.defines.contains_key(macro_name.as_str());
            open_conditional_exec(state, writing)
        },
        Directive::IfnDef { macro_name } => {
            let writing = !state.defines.contains_key(macro_name.as_str());
            open_conditional_exec(state, writing)
        },
        Directive::If { expression } => open_conditional_exec(state, *expression),
        Directive::Elif { expression } => {
            if state.if_writing {
                state.if_writing = false;
            } else {
                state.if_writing = *expression;
            }
            Ok(DirectiveOutcome::Handled)
        },
        Directive::Include { filename } => Ok(DirectiveOutcome::Include { filename: filename.clone() }),
        Directive::Undef { macro_name } => {
            let _ = state.defines.remove(macro_name.as_str());
            Ok(DirectiveOutcome::Handled)
        },
        Directive::Else => {
            state.if_writing = !state.if_writing && state.if_level == 1;
            Ok(DirectiveOutcome::Handled)
        },
        Directive::EndIf => {
            state.if_writing = true;
            Ok(DirectiveOutcome::Handled)
        },
        Directive::Error { message } => Err(
            Failure::Preprocessor(PreprocessorError::DirectiveError(message.clone())),
        ),
        Directive::Warning { message } => {
            let report = PreprocessorError::DirectiveWarning(message.clone()).fail(&state.current_position);
            let ghost before = state.warnings@;
            state.warnings.push(report);
            assert(strings_view(before.push(report)) =~= strings_view(before).push(report@));
            Ok(DirectiveOutcome::Handled)
        },
        Directive::Pragma { message } => {
            let report = PreprocessorError::DirectiveUnknown(message.clone()).fail(&state.current_position);
            let ghost before = state.warnings@;
            state.warnings.push(report);
            assert(strings_view(before.push(report)) =~= strings_view(before).push(report@));
            Ok(DirectiveOutcome::Handled)
        },
        Directive::Nameless => Err(Failure::Preprocessor(PreprocessorError::DirectiveNameMissing)),
    }
}

/// Carries out a directive (see `directive_spec`). An `#include` is not
/// read here: its file name is handed back to the caller.
pub fn preprocess_directive(directive: &Directive, state: &mut State) -> (r: Result<DirectiveOutcome, Failure>)
    ensures
        match directive_spec(directive@, old(state)@) {
            Ok((o, s)) => r matches Ok(x) && x@ == o && final(state)@ == s,
            Err((e, p)) => r matches Err(f) && f@ == e && final(state).current_position@ == p,
        },
{
    if state.if_level > 0 {
        match directive {
            Directive::EndIf => {
                state.if_level = state.if_level - 1;
            },
            Directive::Else => {},
            Directive::Elif { .. } => {},
            Directive::If { .. } => {
                if state.if_level == u32::MAX {
                    return Err(Failure::General(GeneralError::Overflow));
                }
                state.if_level = state.if_level + 1;
                return Ok(DirectiveOutcome::Handled);
            },
            _ => {
                if !state.if_writing {
                    return Ok(DirectiveOutcome::Handled);
                }
            },
        }
    }
    apply_directive(directive, state)
}

/// An `#if` followed by its `#endif` gives back the conditional level, and
/// output is on after the `#endif`.
pub proof fn law_if_endif(expression: bool, s: StateV)
    requires
        s.if_level < u32::MAX,
    ensures
        ({
            let r1 = directive_spec(DirectiveV::If { expression }, s);
            let r2 = directive_spec(DirectiveV::EndIf, r1->Ok_0.1);
            &&& r1 is Ok
            &&& r2 is Ok
            &&& r2->Ok_0.1.if_level == s.if_level
            &&& r2->Ok_0.1.if_writing
            &&& r2->Ok_0.1.defines == s.defines
        }),
{
}

/// After `#define NAME ...` (carried out), `#ifdef NAME` turns output on
/// and `#ifndef NAME` turns it off.
pub proof fn law_define_then_ifdef(
    name: Seq<char>,
    args: Seq<Seq<char>>,
    value: Seq<char>,
    s: StateV,
)
    requires
        s.if_level == 0,
    ensures
        ({
            let r1 = directive_spec(DirectiveV::Define { macro_name: name, macro_args: args, macro_value: value }, s);
            let s1 = r1->Ok_0.1;
            let r2 = directive_spec(DirectiveV::IfDef { macro_name: name }, s1);
            let r3 = directive_spec(DirectiveV::IfnDef { macro_name: name }, s1);
            &&& r1 is Ok
            &&& s1.defines.contains_key(name)
            &&& s1.defines[name] == macro_of(args, value)
            &&& r2 is Ok && r2->Ok_0.1.if_writing
            &&& r3 is Ok && !r3->Ok_0.1.if_writing
        }),
{
}

/// After `#undef NAME` (carried out), `#ifdef NAME` turns output off and
/// `#ifndef NAME` turns it on.
pub proof fn law_undef_then_ifdef(name: Seq<char>, s: StateV)
    requires
        s.if_level == 0,
    ensures
        ({
            let r1 = directive_spec(DirectiveV::Undef { macro_name: name }, s);
            let s1 = r1->Ok_0.1;
            let r2 = directive_spec(DirectiveV::IfDef { macro_name: name }, s1);
            let r3 = directive_spec(DirectiveV::IfnDef { macro_name: name }, s1);
            &&& r1 is Ok
            &&& !s1.defines.contains_key(name)
            &&& r2 is Ok && !r2->Ok_0.1.if_writing
            &&& r3 is Ok && r3->Ok_0.1.if_writing
        }),
{
}

/// Inside a conditional whose output is off, a directive other than the
/// conditional ones (`#if`, `#else`, `#elif`, `#endif`) changes nothing.
pub proof fn law_skipped_directive(d: DirectiveV, s: StateV)
    requires
        s.if_level > 0,
        !s.if_writing,
        !(d is If || d is Else || d is Elif || d is EndIf),
    ensures
        directive_spec(d, s) == Ok::<(DirectiveOutcomeV, StateV), FailureAt>((DirectiveOutcomeV::Handled, s)),
{
}

/// `#elif` turns output off after a branch that was written, and otherwise
/// turns it on exactly when its condition holds; nothing else changes.
pub proof fn law_elif(expression: bool, s: StateV)
    ensures
        directive_spec(DirectiveV::Elif { expression }, s) == Ok::<(DirectiveOutcomeV, StateV), FailureAt>(
            (DirectiveOutcomeV::Handled, StateV { if_writing: !s.if_writing && expression, ..s }),
        ),
{
}

/// A character that may stand in a macro name or in a single macro
/// argument: no space, parenthesis or comma.
pub open spec fn word_char(c: char) -> bool {
    c != ' ' && c != '(' && c != ')' && c != ','
}

proof fn lemma_define_name(v: Seq<char>, name: Seq<char>, k: nat)
    requires
        k <= name.len() <= v.len(),
        v.take(name.len() as int) == name,
        forall|i: int| 0 <= i < name.len() ==> word_char(#[trigger] name[i]),
    ensures
        define_scan(v, k) == Some(DefineScan { name: name.take(k as int), ..define_start() }),
    decreases k,
{
    if k > 0 {
        lemma_define_name(v, name, (k - 1) as nat);
        assert(v[k - 1] == name[k - 1]);
        assert(word_char(name[k - 1]));
        assert(name.take(k - 1).push(name[k - 1]) =~= name.take(k as int));
    } else {
        assert(name.take(0) =~= Seq::<char>::empty());
    }
}

proof fn lemma_define_argument(v: Seq<char>, name: Seq<char>, text: Seq<char>, j: nat)
    requires
        v == name + seq![' ', '('] + text + seq![')'],
        j <= text.len(),
        forall|i: int| 0 <= i < name.len() ==> word_char(#[trigger] name[i]),
        forall|i: int| 0 <= i < text.len() ==> word_char(#[trigger] text[i]),
    ensures
        define_scan(v, name.len() + 2 + j) == Some(
            DefineScan {
                mode: DirectiveParsingState::Args,
                brace: 1,
                name,
                args: seq![text.take(j as int)],
                value: seq!['('] + text.take(j as int),
            },
        ),
    decreases j,
{
    let n = name.len();
    if j > 0 {
        lemma_define_argument(v, name, text, (j - 1) as nat);
        assert(v[(n + 2 + j - 1) as int] == text[j - 1]);
        assert(word_char(text[j - 1]));
        assert(text.take(j - 1).push(text[j - 1]) =~= text.take(j as int));
        assert(push_last(seq![text.take(j - 1)], text[j - 1]) =~= seq![text.take(j as int)]);
        assert((seq!['('] + text.take(j - 1)).push(text[j - 1]) =~= seq!['('] + text.take(j as int));
    } else {
        assert(v.take(n as int) =~= name);
        lemma_define_name(v, name, n);
        assert(name.take(n as int) =~= name);
        assert(v[n as int] == ' ');
        assert(v[(n + 1) as int] == '(');
        assert(define_scan(v, n + 1) == Some(
            DefineScan { mode: DirectiveParsingState::AfterName, name, ..define_start() },
        ));
        assert(text.take(0) =~= Seq::<char>::empty());
        assert(Seq::<Seq<char>>::empty().push(Seq::<char>::empty()) =~= seq![text.take(0)]);
        assert(Seq::<char>::empty().push('(') =~= seq!['('] + text.take(0));
    }
}

/// `#define NAME (TEXT)`, with a name and a text free of spaces,
/// parentheses and commas, defines a macro without arguments whose value
/// is `(TEXT)`.
pub proof fn law_parenthesised_define(name: Seq<char>, text: Seq<char>)
    requires
        forall|i: int| 0 <= i < name.len() ==> word_char(#[trigger] name[i]),
        forall|i: int| 0 <= i < text.len() ==> word_char(#[trigger] text[i]),
    ensures
        define_spec(name + seq![' ', '('] + text + seq![')']) == Some(
            DirectiveV::Define {
                macro_name: name,
                macro_args: Seq::empty(),
                macro_value: seq!['('] + text + seq![')'],
            },
        ),
{
    let v = name + seq![' ', '('] + text + seq![')'];
    let n = name.len();
    lemma_define_argument(v, name, text, text.len());
    assert(text.take(text.len() as int) =~= text);
    assert(v.len() == n + 2 + text.len() + 1);
    assert(v[(n + 2 + text.len()) as int] == ')');
    assert(define_scan(v, v.len()) == Some(
        DefineScan {
            mode: DirectiveParsingState::Value,
            brace: 0,
            name,
            args: seq![text],
            value: Seq::empty(),
        },
    ));
    assert(seq![text].drop_last() =~= Seq::<Seq<char>>::empty());
    assert(concat_all(Seq::<Seq<char>>::empty()) == Seq::<char>::empty());
    assert(seq![text].last() == text);
    assert(concat_all(seq![text]) == concat_all(Seq::<Seq<char>>::empty()) + text);
    assert(concat_all(seq![text]) =~= text);
    reveal_strlit("(");
    reveal_strlit(")");
    assert("("@ + concat_all(seq![text]) + ")"@ =~= seq!['('] + text + seq![')']);
}

/// Outside any conditional, `#if` opens one with output on exactly when its
/// condition holds; `#else` of the outermost conditional turns output on
/// exactly when it was off, and deeper ones turn it off; `#endif` turns
/// output on and closes one level.
pub proof fn law_conditional_directives(expression: bool, s: StateV)
    ensures
        s.if_level == 0 ==> directive_spec(DirectiveV::If { expression }, s) == Ok::<
            (DirectiveOutcomeV, StateV),
            FailureAt,
        >((DirectiveOutcomeV::Handled, StateV { if_level: 1, if_writing: expression, ..s })),
        s.if_level == 1 ==> directive_spec(DirectiveV::Else, s) == Ok::<(DirectiveOutcomeV, StateV), FailureAt>(
            (DirectiveOutcomeV::Handled, StateV { if_writing: !s.if_writing, ..s }),
        ),
        s.if_level > 1 ==> directive_spec(DirectiveV::Else, s) == Ok::<(DirectiveOutcomeV, StateV), FailureAt>(
            (DirectiveOutcomeV::Handled, StateV { if_writing: false, ..s }),
        ),
        s.if_level > 0 ==> directive_spec(DirectiveV::EndIf, s) == Ok::<(DirectiveOutcomeV, StateV), FailureAt>(
            (DirectiveOutcomeV::Handled, StateV { if_level: (s.if_level - 1) as u32, if_writing: true, ..s }),
        ),
{
}

} // verus!
