//! Error kinds of the preprocessor, their codes and their messages.
use vstd::prelude::*;
use vstd::string::*;

use crate::text::{concat, debug_str, debug_text, decimal, pad_with_zeros, pad_zeros, u32_to_string};

verus! {

/// A place in a source file.
#[derive(Debug)]
pub struct FilePosition {
    pub line: u32,
    pub col: u32,
    pub filename: String,
    pub filepath: String,
}

/// The mathematical value of a [`FilePosition`].
pub struct FilePositionV {
    pub line: u32,
    pub col: u32,
    pub filename: Seq<char>,
    pub filepath: Seq<char>,
}

impl View for FilePosition {
    type V = FilePositionV;

    open spec fn view(&self) -> FilePositionV {
        FilePositionV { line: self.line, col: self.col, filename: self.filename@, filepath: self.filepath@ }
    }
}

impl Clone for FilePosition {
    fn clone(&self) -> (r: Self)
        ensures
            r == *self,
    {
        Self {
            line: self.line,
            col: self.col,
            filename: self.filename.clone(),
            filepath: self.filepath.clone(),
        }
    }

    fn clone_from(&mut self, source: &Self)
        ensures
            *final(self) == *source,
    {
        *self = source.clone();
    }
}

impl Default for FilePosition {
    fn default() -> (r: Self)
        ensures
            r@ == (FilePositionV { line: 0, col: 0, filename: Seq::empty(), filepath: Seq::empty() }),
    {
        FilePosition { line: 0, col: 0, filename: String::new(), filepath: String::new() }
    }
}

/// Failures of the environment the preprocessor runs in.
#[derive(Debug)]
pub enum SystemError {
    UnsupportedOS,
    CompilationError(String),
    AccessLocalDenied,
    AccessLibraryDenied(String),
}

pub enum SystemErrorV {
    UnsupportedOS,
    CompilationError(Seq<char>),
    AccessLocalDenied,
    AccessLibraryDenied(Seq<char>),
}

impl View for SystemError {
    type V = SystemErrorV;

    open spec fn view(&self) -> SystemErrorV {
        match self {
            SystemError::UnsupportedOS => SystemErrorV::UnsupportedOS,
            SystemError::CompilationError(m) => SystemErrorV::CompilationError(m@),
            SystemError::AccessLocalDenied => SystemErrorV::AccessLocalDenied,
            SystemError::AccessLibraryDenied(m) => SystemErrorV::AccessLibraryDenied(m@),
        }
    }
}

/// Failures on the structure of the source text.
#[derive(Debug)]
pub enum GeneralError {
    UnclosedComment { file_position: FilePosition, level: u32 },
    UnOpenedComment { level: u32 },
    UnclosedString,
    UnclosedChar,
    UnclosedParenthesis,
    UnOpenedParenthesis,
    UnclosedBracket,
    UnclosedBrace,
    MainNotFound,
    Overflow,
    NotImplemented(String),
}

pub enum GeneralErrorV {
    UnclosedComment { file_position: FilePositionV, level: u32 },
    UnOpenedComment { level: u32 },
    UnclosedString,
    UnclosedChar,
    UnclosedParenthesis,
    UnOpenedParenthesis,
    UnclosedBracket,
    UnclosedBrace,
    MainNotFound,
    Overflow,
    NotImplemented(Seq<char>),
}

impl View for GeneralError {
    type V = GeneralErrorV;

    open spec fn view(&self) -> GeneralErrorV {
        match self {
            GeneralError::UnclosedComment { file_position, level } => GeneralErrorV::UnclosedComment {
                file_position: file_position@,
                level: *level,
            },
            GeneralError::UnOpenedComment { level } => GeneralErrorV::UnOpenedComment { level: *level },
            GeneralError::UnclosedString => GeneralErrorV::UnclosedString,
            GeneralError::UnclosedChar => GeneralErrorV::UnclosedChar,
            GeneralError::UnclosedParenthesis => GeneralErrorV::UnclosedParenthesis,
            GeneralError::UnOpenedParenthesis => GeneralErrorV::UnOpenedParenthesis,
            GeneralError::UnclosedBracket => GeneralErrorV::UnclosedBracket,
            GeneralError::UnclosedBrace => GeneralErrorV::UnclosedBrace,
            GeneralError::MainNotFound => GeneralErrorV::MainNotFound,
            GeneralError::Overflow => GeneralErrorV::Overflow,
            GeneralError::NotImplemented(m) => GeneralErrorV::NotImplemented(m@),
        }
    }
}

/// Failures of the preprocessing proper: directives, macros, expressions.
#[derive(Debug)]
pub enum PreprocessorError {
    Internal(String),
    DirectiveNameMissing,
    InvalidSharpPosition,
    DefinedSynthax,
    InvalidFileName(String),
    FileNotFound(String),
    FileNotReadable(String),
    InvalidMacroName(String),
    MacroArgsNotClosed,
    MacroNotDefined(String),
    IncompleteOperator,
    TooManyArguments,
    InvalidOperator(String),
    DefinedChildNotLeaf,
    DefinedChildNotMacro,
    InvalidLeaf(String),
    StringsNotAllowed,
    EmptyParenthesis,
    ElifWithoutIf,
    ElseWithoutIf,
    EndifWithoutIf,
    DirectiveError(String),
    DirectiveWarning(String),
    DirectiveUnknown(String),
}

pub enum PreprocessorErrorV {
    Internal(Seq<char>),
    DirectiveNameMissing,
    InvalidSharpPosition,
    DefinedSynthax,
    InvalidFileName(Seq<char>),
    FileNotFound(Seq<char>),
    FileNotReadable(Seq<char>),
    InvalidMacroName(Seq<char>),
    MacroArgsNotClosed,
    MacroNotDefined(Seq<char>),
    IncompleteOperator,
    TooManyArguments,
    InvalidOperator(Seq<char>),
    DefinedChildNotLeaf,
    DefinedChildNotMacro,
    InvalidLeaf(Seq<char>),
    StringsNotAllowed,
    EmptyParenthesis,
    ElifWithoutIf,
    ElseWithoutIf,
    EndifWithoutIf,
    DirectiveError(Seq<char>),
    DirectiveWarning(Seq<char>),
    DirectiveUnknown(Seq<char>),
}

impl View for PreprocessorError {
    type V = PreprocessorErrorV;

    open spec fn view(&self) -> PreprocessorErrorV {
        match self {
            PreprocessorError::Internal(m) => PreprocessorErrorV::Internal(m@),
            PreprocessorError::DirectiveNameMissing => PreprocessorErrorV::DirectiveNameMissing,
            PreprocessorError::InvalidSharpPosition => PreprocessorErrorV::InvalidSharpPosition,
            PreprocessorError::DefinedSynthax => PreprocessorErrorV::DefinedSynthax,
            PreprocessorError::InvalidFileName(m) => PreprocessorErrorV::InvalidFileName(m@),
            PreprocessorError::FileNotFound(m) => PreprocessorErrorV::FileNotFound(m@),
            PreprocessorError::FileNotReadable(m) => PreprocessorErrorV::FileNotReadable(m@),
            PreprocessorError::InvalidMacroName(m) => PreprocessorErrorV::InvalidMacroName(m@),
            PreprocessorError::MacroArgsNotClosed => PreprocessorErrorV::MacroArgsNotClosed,
            PreprocessorError::MacroNotDefined(m) => PreprocessorErrorV::MacroNotDefined(m@),
            PreprocessorError::IncompleteOperator => PreprocessorErrorV::IncompleteOperator,
            PreprocessorError::TooManyArguments => PreprocessorErrorV::TooManyArguments,
            PreprocessorError::InvalidOperator(m) => PreprocessorErrorV::InvalidOperator(m@),
            PreprocessorError::DefinedChildNotLeaf => PreprocessorErrorV::DefinedChildNotLeaf,
            PreprocessorError::DefinedChildNotMacro => PreprocessorErrorV::DefinedChildNotMacro,
            PreprocessorError::InvalidLeaf(m) => PreprocessorErrorV::InvalidLeaf(m@),
            PreprocessorError::StringsNotAllowed => PreprocessorErrorV::StringsNotAllowed,
            PreprocessorError::EmptyParenthesis => PreprocessorErrorV::EmptyParenthesis,
            PreprocessorError::ElifWithoutIf => PreprocessorErrorV::ElifWithoutIf,
            PreprocessorError::ElseWithoutIf => PreprocessorErrorV::ElseWithoutIf,
            PreprocessorError::EndifWithoutIf => PreprocessorErrorV::EndifWithoutIf,
            PreprocessorError::DirectiveError(m) => PreprocessorErrorV::DirectiveError(m@),
            PreprocessorError::DirectiveWarning(m) => PreprocessorErrorV::DirectiveWarning(m@),
            PreprocessorError::DirectiveUnknown(m) => PreprocessorErrorV::DirectiveUnknown(m@),
        }
    }
}

/// Why a step of the preprocessor stopped: one of the three error kinds, or
/// the need for the value of a numeric literal that the literal table does
/// not hold yet (the value of a literal is read as a 32-bit float and
/// truncated, which is left to the caller).
#[derive(Debug)]
pub enum Failure {
    System(SystemError),
    General(GeneralError),
    Preprocessor(PreprocessorError),
    LiteralValueNeeded(String),
}

pub enum FailureV {
    System(SystemErrorV),
    General(GeneralErrorV),
    Preprocessor(PreprocessorErrorV),
    LiteralValueNeeded(Seq<char>),
}

impl View for Failure {
    type V = FailureV;

    open spec fn view(&self) -> FailureV {
        match self {
            Failure::System(e) => FailureV::System(e@),
            Failure::General(e) => FailureV::General(e@),
            Failure::Preprocessor(e) => FailureV::Preprocessor(e@),
            Failure::LiteralValueNeeded(w) => FailureV::LiteralValueNeeded(w@),
        }
    }
}

/// A failure with the position at which it happened.
pub type FailureAt = (FailureV, FilePositionV);

/// The offset added to the codes of each error kind.
pub const SYSTEM_INCREMENT: u32 = 0;
pub const GENERAL_INCREMENT: u32 = 100;
pub const PREPROCESSOR_INCREMENT: u32 = 200;

pub open spec fn system_code(e: SystemErrorV) -> (u32, Seq<char>) {
    match e {
        SystemErrorV::UnsupportedOS => (1, "your operating system isn't supported"@),
        SystemErrorV::CompilationError(m) => (2, "compilation error: "@ + m),
        SystemErrorV::AccessLocalDenied => (8, "path to the source code is denied"@),
        SystemErrorV::AccessLibraryDenied(m) => (9, "path to the library "@ + m + " is denied"@),
    }
}

pub open spec fn general_code(e: GeneralErrorV) -> (u32, Seq<char>) {
    match e {
        GeneralErrorV::UnclosedComment { file_position, level } => (
            1,
            "unclosed comment that started "@ + file_position.filepath + ":"@ + decimal(
                file_position.line as nat,
            ) + ":"@ + decimal(file_position.col as nat) + " with level "@ + decimal(level as nat),
        ),
        GeneralErrorV::UnOpenedComment { level } => (
            1,
            "unopened comment with level "@ + decimal(level as nat),
        ),
        GeneralErrorV::UnclosedString => (2, "unclosed string"@),
        GeneralErrorV::UnclosedChar => (3, "unclosed char"@),
        GeneralErrorV::UnclosedParenthesis => (4, "unclosed parenthesis"@),
        GeneralErrorV::UnclosedBracket => (5, "unclosed bracket"@),
        GeneralErrorV::UnclosedBrace => (6, "unclosed brace"@),
        GeneralErrorV::MainNotFound => (7, "main not found"@),
        GeneralErrorV::Overflow => (9, "overflow on airthmetic operation"@),
        GeneralErrorV::NotImplemented(m) => (10, "feature not implemented yet: "@ + m),
        GeneralErrorV::UnOpenedParenthesis => (8, "unopened parenthesis"@),
    }
}

pub open spec fn preprocessor_code(e: PreprocessorErrorV) -> (u32, Seq<char>) {
    match e {
        PreprocessorErrorV::Internal(m) => (99, "internal error: "@ + m + ".\nPlease raise an issue"@),
        PreprocessorErrorV::DirectiveNameMissing => (1, "directive name missing"@),
        PreprocessorErrorV::InvalidSharpPosition => (2, "invalid sharp position"@),
        PreprocessorErrorV::DefinedSynthax => (
            3,
            "expected to find a macro between \" or <> in defined directive"@,
        ),
        PreprocessorErrorV::InvalidFileName(m) => (11, "invalid filename "@ + m),
        PreprocessorErrorV::FileNotFound(m) => (12, "file "@ + m + " not found"@),
        PreprocessorErrorV::FileNotReadable(m) => (13, "file "@ + m + " not readable"@),
        PreprocessorErrorV::InvalidMacroName(m) => (21, "invalid macro name "@ + m),
        PreprocessorErrorV::MacroArgsNotClosed => (22, "macro arguments not closed"@),
        PreprocessorErrorV::MacroNotDefined(m) => (23, "macro "@ + m + " not defined"@),
        PreprocessorErrorV::IncompleteOperator => (31, "incomplete operator: missing argument"@),
        PreprocessorErrorV::TooManyArguments => (32, "too many arguments"@),
        PreprocessorErrorV::InvalidOperator(m) => (
            33,
            "invalid operator "@ + m + ": not supported in preprocessor"@,
        ),
        PreprocessorErrorV::DefinedChildNotLeaf => (34, "child of \"defined\" should be a leaf"@),
        PreprocessorErrorV::DefinedChildNotMacro => (35, "a macro was expected after defined"@),
        PreprocessorErrorV::InvalidLeaf(m) => (36, "invalid leaf "@ + m),
        PreprocessorErrorV::StringsNotAllowed => (37, "strings not allowed in preprocessor"@),
        PreprocessorErrorV::EmptyParenthesis => (38, "empty parenthesis"@),
        PreprocessorErrorV::ElifWithoutIf => (41, "elif found without an if"@),
        PreprocessorErrorV::ElseWithoutIf => (42, "else found without an if"@),
        PreprocessorErrorV::EndifWithoutIf => (43, "endif found without an if"@),
        PreprocessorErrorV::DirectiveError(m) => (51, "#error raised "@ + m),
        PreprocessorErrorV::DirectiveWarning(m) => (52, "#warning raised "@ + m),
        PreprocessorErrorV::DirectiveUnknown(m) => (53, "directive "@ + m + " unknown by compiler"@),
    }
}

/// The report line of an error: `\n[ERROR ccc]\tpath:line:col   "message"`,
/// where the code is padded to three digits and the message is quoted as
/// `{:?}` quotes it. `tag` is `"ERROR "` or `"ERROR: "`.
pub open spec fn report(
    tag: Seq<char>,
    code: nat,
    position: FilePositionV,
    message: Seq<char>,
) -> Seq<char> {
    "\n["@ + tag + pad_zeros(decimal(code), 3) + "]\t"@ + position.filepath + ":"@ + decimal(
        position.line as nat,
    ) + ":"@ + decimal(position.col as nat) + "   "@ + debug_text(message)
}

/// The report of a system error at `position`.
pub open spec fn system_report(e: SystemErrorV, position: FilePositionV) -> Seq<char> {
    report("ERROR "@, (system_code(e).0 + SYSTEM_INCREMENT) as nat, position, system_code(e).1)
}

/// The report of a general error at `position`.
pub open spec fn general_report(e: GeneralErrorV, position: FilePositionV) -> Seq<char> {
    report("ERROR: "@, (general_code(e).0 + GENERAL_INCREMENT) as nat, position, general_code(e).1)
}

/// The report of a preprocessor error at `position`.
pub open spec fn preprocessor_report(e: PreprocessorErrorV, position: FilePositionV) -> Seq<char> {
    report("ERROR "@, (preprocessor_code(e).0 + PREPROCESSOR_INCREMENT) as nat, position, preprocessor_code(e).1)
}

fn join3(a: &str, b: &str, c: &str) -> (r: String)
    ensures
        r@ == a@ + b@ + c@,
{
    let mut r = concat(a, b);
    r.append(c);
    r
}

fn render_report(tag: &str, code: u32, position: &FilePosition, message: &str) -> (r: String)
    ensures
        r@ == report(tag@, code as nat, position@, message@),
{
    let mut r = String::from_str("\n[");
    r.append(tag);
    let digits = u32_to_string(code);
    let padded = pad_with_zeros(digits.as_str(), 3);
    r.append(padded.as_str());
    r.append("]\t");
    r.append(position.filepath.as_str());
    r.append(":");
    let line = u32_to_string(position.line);
    r.append(line.as_str());
    r.append(":");
    let col = u32_to_string(position.col);
    r.append(col.as_str());
    r.append("   ");
    let quoted = debug_str(message);
    r.append(quoted.as_str());
    r
}

/// Turns an error into the report that the preprocessor gives for it.
pub trait FailError: Sized {
    spec fn report_spec(&self, current_position: FilePositionV) -> Seq<char>;

    fn fail(self, current_position: &FilePosition) -> (r: String)
        ensures
            r@ == self.report_spec(current_position@),
    ;
}

impl SystemError {
    pub fn get_code(&self) -> (r: (u32, String))
        ensures
            r.0 == system_code(self@).0,
            r.1@ == system_code(self@).1,
    {
        match self {
            SystemError::UnsupportedOS => (1, String::from_str("your operating system isn't supported")),
            SystemError::CompilationError(m) => (2, concat("compilation error: ", m.as_str())),
            SystemError::AccessLocalDenied => (8, String::from_str("path to the source code is denied")),
            SystemError::AccessLibraryDenied(m) => (9, join3("path to the library ", m.as_str(), " is denied")),
        }
    }
}

impl GeneralError {
    pub fn get_code(&self) -> (r: (u32, String))
        ensures
            r.0 == general_code(self@).0,
            r.1@ == general_code(self@).1,
    {
        match self {
            GeneralError::UnclosedComment { file_position, level } => {
                let mut m = String::from_str("unclosed comment that started ");
                m.append(file_position.filepath.as_str());
                m.append(":");
                let l = u32_to_string(file_position.line);
                m.append(l.as_str());
                m.append(":");
                let c = u32_to_string(file_position.col);
                m.append(c.as_str());
                m.append(" with level ");
                let v = u32_to_string(*level);
                m.append(v.as_str());
                (1, m)
            },
            GeneralError::UnOpenedComment { level } => {
                let v = u32_to_string(*level);
                (1, concat("unopened comment with level ", v.as_str()))
            },
            GeneralError::UnclosedString => (2, String::from_str("unclosed string")),
            GeneralError::UnclosedChar => (3, String::from_str("unclosed char")),
            GeneralError::UnclosedParenthesis => (4, String::from_str("unclosed parenthesis")),
            GeneralError::UnclosedBracket => (5, String::from_str("unclosed bracket")),
            GeneralError::UnclosedBrace => (6, String::from_str("unclosed brace")),
            GeneralError::MainNotFound => (7, String::from_str("main not found")),
            GeneralError::Overflow => (9, String::from_str("overflow on airthmetic operation")),
            GeneralError::NotImplemented(m) => (10, concat("feature not implemented yet: ", m.as_str())),
            GeneralError::UnOpenedParenthesis => (8, String::from_str("unopened parenthesis")),
        }
    }
}

impl PreprocessorError {
    pub fn get_code(&self) -> (r: (u32, String))
        ensures
            r.0 == preprocessor_code(self@).0,
            r.1@ == preprocessor_code(self@).1,
    {
        match self {
            PreprocessorError::Internal(m) => (99, join3("internal error: ", m.as_str(), ".\nPlease raise an issue")),
            PreprocessorError::DirectiveNameMissing => (1, String::from_str("directive name missing")),
            PreprocessorError::InvalidSharpPosition => (2, String::from_str("invalid sharp position")),
            PreprocessorError::DefinedSynthax => (3, String::from_str("expected to find a macro between \" or <> in defined directive")),
            PreprocessorError::InvalidFileName(m) => (11, concat("invalid filename ", m.as_str())),
            PreprocessorError::FileNotFound(m) => (12, join3("file ", m.as_str(), " not found")),
            PreprocessorError::FileNotReadable(m) => (13, join3("file ", m.as_str(), " not readable")),
            PreprocessorError::InvalidMacroName(m) => (21, concat("invalid macro name ", m.as_str())),
            PreprocessorError::MacroArgsNotClosed => (22, String::from_str("macro arguments not closed")),
            PreprocessorError::MacroNotDefined(m) => (23, join3("macro ", m.as_str(), " not defined")),
            PreprocessorError::IncompleteOperator => (31, String::from_str("incomplete operator: missing argument")),
            PreprocessorError::TooManyArguments => (32, String::from_str("too many arguments")),
            PreprocessorError::InvalidOperator(m) => (33, join3("invalid operator ", m.as_str(), ": not supported in preprocessor")),
            PreprocessorError::DefinedChildNotLeaf => (34, String::from_str("child of \"defined\" should be a leaf")),
            PreprocessorError::DefinedChildNotMacro => (35, String::from_str("a macro was expected after defined")),
            PreprocessorError::InvalidLeaf(m) => (36, concat("invalid leaf ", m.as_str())),
            PreprocessorError::StringsNotAllowed => (37, String::from_str("strings not allowed in preprocessor")),
            PreprocessorError::EmptyParenthesis => (38, String::from_str("empty parenthesis")),
            PreprocessorError::ElifWithoutIf => (41, String::from_str("elif found without an if")),
            PreprocessorError::ElseWithoutIf => (42, String::from_str("else found without an if")),
            PreprocessorError::EndifWithoutIf => (43, String::from_str("endif found without an if")),
            PreprocessorError::DirectiveError(m) => (51, concat("#error raised ", m.as_str())),
            PreprocessorError::DirectiveWarning(m) => (52, concat("#warning raised ", m.as_str())),
            PreprocessorError::DirectiveUnknown(m) => (53, join3("directive ", m.as_str(), " unknown by compiler")),
        }
    }
}

impl FailError for SystemError {
    open spec fn report_spec(&self, current_position: FilePositionV) -> Seq<char> {
        system_report(self@, current_position)
    }

    fn fail(self, current_position: &FilePosition) -> (r: String) {
        let (code, message) = self.get_code();
        render_report("ERROR ", code + SYSTEM_INCREMENT, current_position, message.as_str())
    }
}

impl FailError for GeneralError {
    open spec fn report_spec(&self, current_position: FilePositionV) -> Seq<char> {
        general_report(self@, current_position)
    }

    fn fail(self, current_position: &FilePosition) -> (r: String) {
        let (code, message) = self.get_code();
        render_report("ERROR: ", code + GENERAL_INCREMENT, current_position, message.as_str())
    }
}

impl FailError for PreprocessorError {
    open spec fn report_spec(&self, current_position: FilePositionV) -> Seq<char> {
        preprocessor_report(self@, current_position)
    }

    fn fail(self, current_position: &FilePosition) -> (r: String) {
        let (code, message) = self.get_code();
        render_report("ERROR ", code + PREPROCESSOR_INCREMENT, current_position, message.as_str())
    }
}

impl Failure {
    /// The report of the failure at `current_position`, as the preprocessor
    /// gives it when it stops; a request for the value of a literal is no
    /// error and has none.
    pub fn report(self, current_position: &FilePosition) -> (r: Option<String>)
        ensures
            match self@ {
                FailureV::System(e) => r matches Some(s) && s@ == system_report(e, current_position@),
                FailureV::General(e) => r matches Some(s) && s@ == general_report(e, current_position@),
                FailureV::Preprocessor(e) => r matches Some(s) && s@ == preprocessor_report(e, current_position@),
                FailureV::LiteralValueNeeded(_) => r is None,
            },
    {
        match self {
            Failure::System(e) => Some(e.fail(current_position)),
            Failure::General(e) => Some(e.fail(current_position)),
            Failure::Preprocessor(e) => Some(e.fail(current_position)),
            Failure::LiteralValueNeeded(_) => None,
        }
    }
}

/// The codes of the three kinds of errors, as reported, lie in separate
/// hundreds: system errors below 100, general errors from 100, preprocessor
/// errors from 200.
pub proof fn law_error_codes_disjoint(s: SystemErrorV, g: GeneralErrorV, p: PreprocessorErrorV)
    ensures
        system_code(s).0 + SYSTEM_INCREMENT < 100,
        100 <= general_code(g).0 + GENERAL_INCREMENT < 200,
        200 <= preprocessor_code(p).0 + PREPROCESSOR_INCREMENT < 300,
{
}

proof fn lemma_three_digits(n: nat)
    requires
        100 <= n < 1000,
    ensures
        decimal(n).len() == 3,
        pad_zeros(decimal(n), 3) == decimal(n),
{
    assert(decimal(n / 10 / 10).len() == 1);
    assert(decimal(n / 10).len() == 2);
}

/// A preprocessor error is reported as `\n[ERROR ccc]\tpath:line:col` and
/// its quoted message, `ccc` being its code plus 200 written with three
/// digits; a general error likewise, with `ERROR:` and its code plus 100.
pub proof fn law_report_codes(p: PreprocessorErrorV, g: GeneralErrorV, position: FilePositionV)
    ensures
        decimal((preprocessor_code(p).0 + PREPROCESSOR_INCREMENT) as nat).len() == 3,
        preprocessor_report(p, position) == "\n["@ + "ERROR "@ + decimal((preprocessor_code(p).0 + PREPROCESSOR_INCREMENT) as nat)
            + "]\t"@ + position.filepath + ":"@ + decimal(position.line as nat) + ":"@ + decimal(position.col as nat)
            + "   "@ + debug_text(preprocessor_code(p).1),
        decimal((general_code(g).0 + GENERAL_INCREMENT) as nat).len() == 3,
        general_report(g, position) == "\n["@ + "ERROR: "@ + decimal((general_code(g).0 + GENERAL_INCREMENT) as nat)
            + "]\t"@ + position.filepath + ":"@ + decimal(position.line as nat) + ":"@ + decimal(position.col as nat)
            + "   "@ + debug_text(general_code(g).1),
{
    lemma_three_digits((preprocessor_code(p).0 + PREPROCESSOR_INCREMENT) as nat);
    lemma_three_digits((general_code(g).0 + GENERAL_INCREMENT) as nat);
}

} // verus!
