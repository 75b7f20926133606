//! Error reports in the scientific notation of their codes.
use vstd::prelude::*;
use vstd::string::*;

use crate::text::{chars_of, concat, debug_str, debug_text, decimal, push_char, u32_to_string};

verus! {

/// A place in a source file.
#[derive(Default, Debug)]
pub struct FilePosition {
    pub line: u32,
    pub col: u32,
    pub filename: String,
    pub filepath: String,
}

/// Failures on the structure of the source text.
#[derive(Debug)]
pub enum GeneralError {
    UnclosedComment(FilePosition, String),
    UnclosedString,
    UnclosedChar,
    UnclosedParenthesis,
    UnclosedBracket,
    UnclosedBrace,
    MainNotFound,
}

/// Failures of the preprocessing proper.
#[derive(Debug)]
pub enum PreprocessorError {
    DirectiveNameMissing,
    InvalidSharpPosition,
    InvalidFileName(String),
    FileNotFound(String),
    FileNotReadable(String),
    InvalidMaxcroName(String),
    MacroArgsNotClosed,
    MacroNotDefined(String),
    IncompleteOperator(String),
    InvalidOperator(String),
    DefinedChildNotLeaf,
    DefinedChildNotMacro,
    InvalidLeaf(String),
    StringsNotAllowed,
    ElifWithoutIf,
    ElseWithoutIf,
    EndifWithoutIf,
    DirectiveError(String),
    DirectiveWarning(String),
    DirectiveUnknown(String),
}

pub open spec fn general_code(e: &GeneralError) -> (u32, Seq<char>) {
    match e {
        GeneralError::UnclosedComment(start, level) => (
            1,
            "unclosed comment that started "@ + start.filepath@ + ":"@ + decimal(start.line as nat) + ":"@
                + decimal(start.col as nat) + " with level "@ + level@,
        ),
        GeneralError::UnclosedString => (2, "unclosed string"@),
        GeneralError::UnclosedChar => (3, "unclosed char"@),
        GeneralError::UnclosedParenthesis => (4, "unclosed parenthesis"@),
        GeneralError::UnclosedBracket => (5, "unclosed bracket"@),
        GeneralError::UnclosedBrace => (6, "unclosed brace"@),
        GeneralError::MainNotFound => (7, "main not found"@),
    }
}

pub open spec fn preprocessor_code(e: &PreprocessorError) -> (u32, Seq<char>) {
    match e {
        PreprocessorError::DirectiveNameMissing => (1, "directive name missing"@),
        PreprocessorError::InvalidSharpPosition => (2, "invalid sharp position"@),
        PreprocessorError::InvalidFileName(f) => (11, "invalid filename "@ + f@),
        PreprocessorError::FileNotFound(f) => (12, "file "@ + f@ + " not found"@),
        PreprocessorError::FileNotReadable(f) => (13, "file "@ + f@ + " not readable"@),
        PreprocessorError::InvalidMaxcroName(n) => (21, "invalid macro name "@ + n@),
        PreprocessorError::MacroArgsNotClosed => (22, "macro arguments not closed"@),
        PreprocessorError::MacroNotDefined(n) => (23, "macro "@ + n@ + " not defined"@),
        PreprocessorError::IncompleteOperator(o) => (31, "incomplete operator "@ + o@ + ": missing argument"@),
        PreprocessorError::InvalidOperator(o) => (31, "invalid operator "@ + o@ + ": not supported in preprocessor"@),
        PreprocessorError::DefinedChildNotLeaf => (32, "child of \"defined\" should be a leaf"@),
        PreprocessorError::DefinedChildNotMacro => (33, "a macro was expected after defined"@),
        PreprocessorError::InvalidLeaf(l) => (34, "invalid leaf "@ + l@),
        PreprocessorError::StringsNotAllowed => (35, "strings not allowed in preprocessor"@),
        PreprocessorError::ElifWithoutIf => (41, "elif found without an if"@),
        PreprocessorError::ElseWithoutIf => (42, "else found without an if"@),
        PreprocessorError::EndifWithoutIf => (43, "endif found without an if"@),
        PreprocessorError::DirectiveError(m) => (51, "#error raised "@ + m@),
        PreprocessorError::DirectiveWarning(m) => (52, "#warning raised "@ + m@),
        PreprocessorError::DirectiveUnknown(m) => (53, "directive "@ + m@ + " unknown by compiler"@),
    }
}

/// `d` without its trailing zeros, keeping at least one character.
pub open spec fn strip_zeros(d: Seq<char>) -> Seq<char>
    decreases d.len(),
{
    if d.len() > 1 && d.last() == '0' {
        strip_zeros(d.drop_last())
    } else {
        d
    }
}

/// The scientific notation of `n` as `{:e}` writes an integer: the first
/// digit, the other significant digits after a point if there are any, then
/// `e` and the power of ten (`0e0`, `1e2`, `1.01e2`).
pub open spec fn lower_exp(n: nat) -> Seq<char> {
    let d = decimal(n);
    let m = strip_zeros(d);
    seq![m[0]] + (if m.len() > 1 {
        "."@ + m.skip(1)
    } else {
        Seq::empty()
    }) + "e"@ + decimal((d.len() - 1) as nat)
}

pub proof fn lemma_decimal_len(n: nat)
    ensures
        1 <= decimal(n).len() <= n + 1,
    decreases n,
{
    if n >= 10 {
        lemma_decimal_len(n / 10);
    }
}

proof fn lemma_strip_zeros(d: Seq<char>)
    requires
        d.len() >= 1,
    ensures
        1 <= strip_zeros(d).len() <= d.len(),
        strip_zeros(d) == d.take(strip_zeros(d).len() as int),
    decreases d.len(),
{
    if d.len() > 1 && d.last() == '0' {
        lemma_strip_zeros(d.drop_last());
        assert(d.drop_last().take(strip_zeros(d).len() as int) =~= d.take(strip_zeros(d).len() as int));
    } else {
        assert(d.take(d.len() as int) =~= d);
    }
}

/// `n` in scientific notation (see `lower_exp`).
pub fn lower_exp_string(n: u32) -> (r: String)
    ensures
        r@ == lower_exp(n as nat),
{
    let digits = u32_to_string(n);
    let d = chars_of(digits.as_str());
    proof {
        lemma_decimal_len(n as nat);
        lemma_strip_zeros(d@);
    }
    let mut k = d.len();
    assert(d@.take(k as int) =~= d@);
    while k > 1 && d[k - 1] == '0'
        invariant
            1 <= k <= d@.len(),
            d@ == decimal(n as nat),
            strip_zeros(d@.take(k as int)) == strip_zeros(d@),
        decreases k,
    {
        assert(d@.take(k as int).drop_last() =~= d@.take(k - 1));
        k = k - 1;
    }
    assert(strip_zeros(d@.take(k as int)) == d@.take(k as int));
    let ghost m = strip_zeros(d@);
    let mut r = String::new();
    push_char(&mut r, d[0]);
    if k > 1 {
        push_char(&mut r, '.');
        proof {
            reveal_strlit(".");
        }
        assert(r@ =~= seq![m[0]] + "."@ + m.subrange(1, 1));
        let mut i: usize = 1;
        while i < k
            invariant
                1 <= i <= k <= d@.len(),
                m == d@.take(k as int),
                r@ == seq![m[0]] + "."@ + m.subrange(1, i as int),
            decreases k - i,
        {
            push_char(&mut r, d[i]);
            i = i + 1;
            assert(r@ =~= seq![m[0]] + "."@ + m.subrange(1, i as int));
        }
        assert(m.subrange(1, k as int) =~= m.skip(1));
    } else {
        assert(r@ =~= seq![m[0]] + Seq::<char>::empty());
    }
    let ghost mantissa = r@;
    assert(mantissa == seq![m[0]] + (if m.len() > 1 {
        "."@ + m.skip(1)
    } else {
        Seq::empty()
    }));
    push_char(&mut r, 'e');
    proof {
        reveal_strlit("e");
    }
    assert(r@ =~= mantissa + "e"@);
    let exponent = u32_to_string((d.len() - 1) as u32);
    r.append(exponent.as_str());
    r
}

/// The report of an error with code `code` at `position`:
/// `\n[ERROR: c]\tpath:line:col   "message"`, where `c` is the code in
/// scientific notation and the message is quoted as `{:?}` quotes it.
pub open spec fn report(code: nat, position: &FilePosition, message: Seq<char>) -> Seq<char> {
    "\n[ERROR: "@ + lower_exp(code) + "]\t"@ + position.filepath@ + ":"@ + decimal(position.line as nat) + ":"@
        + decimal(position.col as nat) + "   "@ + debug_text(message)
}

fn render(code: u32, position: &FilePosition, message: &str) -> (r: String)
    ensures
        r@ == report(code as nat, position, message@),
{
    let mut r = String::from_str("\n[ERROR: ");
    let c = lower_exp_string(code);
    r.append(c.as_str());
    r.append("]\t");
    r.append(position.filepath.as_str());
    r.append(":");
    let line = u32_to_string(position.line);
    r.append(line.as_str());
    r.append(":");
    let col = u32_to_string(position.col);
    r.append(col.as_str());
    r.append("   ");
    let quoted = debug_str(message);
    r.append(quoted.as_str());
    r
}

fn join3(a: &str, b: &str, c: &str) -> (r: String)
    ensures
        r@ == a@ + b@ + c@,
{
    let mut r = String::from_str(a);
    r.append(b);
    r.append(c);
    r
}

impl GeneralError {
    fn get_code(&self) -> (r: (u32, String))
        ensures
            r.0 == general_code(self).0,
            r.1@ == general_code(self).1,
    {
        match self {
            GeneralError::UnclosedComment(start, level) => {
                let mut m = String::from_str("unclosed comment that started ");
                m.append(start.filepath.as_str());
                m.append(":");
                let l = u32_to_string(start.line);
                m.append(l.as_str());
                m.append(":");
                let c = u32_to_string(start.col);
                m.append(c.as_str());
                m.append(" with level ");
                m.append(level.as_str());
                (1, m)
            },
            GeneralError::UnclosedString => (2, String::from_str("unclosed string")),
            GeneralError::UnclosedChar => (3, String::from_str("unclosed char")),
            GeneralError::UnclosedParenthesis => (4, String::from_str("unclosed parenthesis")),
            GeneralError::UnclosedBracket => (5, String::from_str("unclosed bracket")),
            GeneralError::UnclosedBrace => (6, String::from_str("unclosed brace")),
            GeneralError::MainNotFound => (7, String::from_str("main not found")),
        }
    }

    /// The report of the error at `current_position`, with its code.
    pub fn fail(self, current_position: &FilePosition) -> (r: String)
        ensures
            r@ == report(general_code(&self).0 as nat, current_position, general_code(&self).1),
    {
        let (code, message) = self.get_code();
        render(code, current_position, message.as_str())
    }
}

impl PreprocessorError {
    fn get_code(&self) -> (r: (u32, String))
        ensures
            r.0 == preprocessor_code(self).0,
            r.1@ == preprocessor_code(self).1,
    {
        match self {
            PreprocessorError::DirectiveNameMissing => (1, String::from_str("directive name missing")),
            PreprocessorError::InvalidSharpPosition => (2, String::from_str("invalid sharp position")),
            PreprocessorError::InvalidFileName(f) => (11, concat("invalid filename ", f.as_str())),
            PreprocessorError::FileNotFound(f) => (12, join3("file ", f.as_str(), " not found")),
            PreprocessorError::FileNotReadable(f) => (13, join3("file ", f.as_str(), " not readable")),
            PreprocessorError::InvalidMaxcroName(n) => (21, concat("invalid macro name ", n.as_str())),
            PreprocessorError::MacroArgsNotClosed => (22, String::from_str("macro arguments not closed")),
            PreprocessorError::MacroNotDefined(n) => (23, join3("macro ", n.as_str(), " not defined")),
            PreprocessorError::IncompleteOperator(o) => (31, join3("incomplete operator ", o.as_str(), ": missing argument")),
            PreprocessorError::InvalidOperator(o) => (31, join3("invalid operator ", o.as_str(), ": not supported in preprocessor")),
            PreprocessorError::DefinedChildNotLeaf => (32, String::from_str("child of \"defined\" should be a leaf")),
            PreprocessorError::DefinedChildNotMacro => (33, String::from_str("a macro was expected after defined")),
            PreprocessorError::InvalidLeaf(l) => (34, concat("invalid leaf ", l.as_str())),
            PreprocessorError::StringsNotAllowed => (35, String::from_str("strings not allowed in preprocessor")),
            PreprocessorError::ElifWithoutIf => (41, String::from_str("elif found without an if")),
            PreprocessorError::ElseWithoutIf => (42, String::from_str("else found without an if")),
            PreprocessorError::EndifWithoutIf => (43, String::from_str("endif found without an if")),
            PreprocessorError::DirectiveError(m) => (51, concat("#error raised ", m.as_str())),
            PreprocessorError::DirectiveWarning(m) => (52, concat("#warning raised ", m.as_str())),
            PreprocessorError::DirectiveUnknown(m) => (53, join3("directive ", m.as_str(), " unknown by compiler")),
        }
    }

    /// The report of the error at `current_position`, with its code
    /// raised by 100.
    pub fn fail(self, current_position: &FilePosition) -> (r: String)
        ensures
            r@ == report((100 + preprocessor_code(&self).0) as nat, current_position, preprocessor_code(&self).1),
    {
        let (code, message) = self.get_code();
        render(100 + code, current_position, message.as_str())
    }
}

} // verus!
