//! The state of the preprocessor: macro table, conditional state, position.
use vstd::prelude::*;

use crate::errors::{FilePosition, FilePositionV};

verus! {

/// A map from texts to values, kept as a list of entries with distinct keys.
#[derive(Debug)]
pub struct TextMap<V> {
    entries: Vec<(String, V)>,
}

/// The map that a list of entries with distinct keys stands for.
pub open spec fn entries_map<V: View>(s: Seq<(String, V)>) -> Map<Seq<char>, V::V>
    decreases s.len(),
{
    if s.len() == 0 {
        Map::empty()
    } else {
        entries_map(s.drop_last()).insert(s.last().0@, s.last().1@)
    }
}

pub open spec fn keys_distinct<V>(s: Seq<(String, V)>) -> bool {
    forall|i: int, j: int| 0 <= i < j < s.len() ==> s[i].0@ != s[j].0@
}

proof fn lemma_entries_map<V: View>(s: Seq<(String, V)>)
    requires
        keys_distinct(s),
    ensures
        forall|k: Seq<char>| #[trigger] entries_map(s).contains_key(k) ==> exists|i: int| 0 <= i < s.len() && s[i].0@ == k,
        forall|i: int| 0 <= i < s.len() ==> entries_map(s).contains_key(#[trigger] s[i].0@) && entries_map(s)[s[i].0@] == s[i].1@,
    decreases s.len(),
{
    if s.len() > 0 {
        let t = s.drop_last();
        let last = s.len() - 1;
        assert(keys_distinct(t));
        lemma_entries_map(t);
        assert forall|k: Seq<char>| #[trigger] entries_map(s).contains_key(k) implies exists|i: int| 0 <= i < s.len() && s[i].0@ == k by {
            if k == s[last].0@ {
                assert(s[last].0@ == k);
            } else {
                assert(entries_map(t).contains_key(k));
                let j = choose|j: int| 0 <= j < t.len() && t[j].0@ == k;
                assert(t[j] == s[j]);
                assert(s[j].0@ == k);
            }
        }
        assert forall|i: int| 0 <= i < s.len() implies entries_map(s).contains_key(#[trigger] s[i].0@) && entries_map(s)[s[i].0@] == s[i].1@ by {
            if i < last {
                assert(t[i] == s[i]);
                assert(entries_map(t).contains_key(t[i].0@));
                assert(s[i].0@ != s[last].0@);
            }
        }
    }
}

proof fn lemma_entries_map_remove<V: View>(s: Seq<(String, V)>, i: int)
    requires
        keys_distinct(s),
        0 <= i < s.len(),
    ensures
        keys_distinct(s.remove(i)),
        entries_map(s.remove(i)) == entries_map(s).remove(s[i].0@),
{
    let r = s.remove(i);
    assert(keys_distinct(r)) by {
        assert forall|a: int, b: int| 0 <= a < b < r.len() implies r[a].0@ != r[b].0@ by {
            let a2 = if a < i { a } else { a + 1 };
            let b2 = if b < i { b } else { b + 1 };
            assert(r[a] == s[a2]);
            assert(r[b] == s[b2]);
        }
    }
    lemma_entries_map(s);
    lemma_entries_map(r);
    let k0 = s[i].0@;
    assert forall|k: Seq<char>| #[trigger] entries_map(r).contains_key(k) <==> entries_map(s).remove(k0).contains_key(k) by {
        if entries_map(r).contains_key(k) {
            let j = choose|j: int| 0 <= j < r.len() && r[j].0@ == k;
            let j2 = if j < i { j } else { j + 1 };
            assert(r[j] == s[j2]);
            assert(s[j2].0@ == k);
        }
        if entries_map(s).remove(k0).contains_key(k) {
            let j = choose|j: int| 0 <= j < s.len() && s[j].0@ == k;
            assert(j != i);
            let j2 = if j < i { j } else { j - 1 };
            assert(r[j2] == s[j]);
        }
    }
    assert forall|k: Seq<char>| #[trigger] entries_map(r).contains_key(k) implies entries_map(r)[k] == entries_map(s).remove(k0)[k] by {
        let j = choose|j: int| 0 <= j < r.len() && r[j].0@ == k;
        let j2 = if j < i { j } else { j + 1 };
        assert(r[j] == s[j2]);
        assert(entries_map(r)[r[j].0@] == r[j].1@);
        assert(entries_map(s)[s[j2].0@] == s[j2].1@);
    }
    assert(entries_map(r) =~= entries_map(s).remove(k0));
}

proof fn lemma_entries_len<V: View>(s: Seq<(String, V)>)
    requires
        keys_distinct(s),
    ensures
        entries_map(s).dom().finite(),
        entries_map(s).dom().len() == s.len(),
    decreases s.len(),
{
    if s.len() > 0 {
        let t = s.drop_last();
        assert(keys_distinct(t));
        lemma_entries_len(t);
        lemma_entries_map(t);
        if entries_map(t).contains_key(s.last().0@) {
            let j = choose|j: int| 0 <= j < t.len() && t[j].0@ == s.last().0@;
            assert(t[j] == s[j]);
            assert(false);
        }
    }
}

impl<V: View> View for TextMap<V> {
    type V = Map<Seq<char>, V::V>;

    closed spec fn view(&self) -> Map<Seq<char>, V::V> {
        entries_map(self.entries@)
    }
}

impl<V> TextMap<V> {
    #[verifier::type_invariant]
    closed spec fn distinct(self) -> bool {
        keys_distinct(self.entries@)
    }
}

impl<V: Clone + View> Clone for TextMap<V> {
    /// A copy with the same keys; each value is copied by its own `clone`.
    fn clone(&self) -> (r: Self)
        ensures
            r@.dom() == self@.dom(),
    {
        proof {
            use_type_invariant(self);
        }
        let mut entries: Vec<(String, V)> = Vec::new();
        let mut i: usize = 0;
        while i < self.entries.len()
            invariant
                i <= self.entries@.len(),
                keys_distinct(self.entries@),
                entries@.len() == i,
                forall|j: int| 0 <= j < i ==> #[trigger] entries@[j].0 == self.entries@[j].0,
            decreases self.entries@.len() - i,
        {
            let k = self.entries[i].0.clone();
            let v = self.entries[i].1.clone();
            entries.push((k, v));
            i = i + 1;
        }
        assert(keys_distinct(entries@)) by {
            assert forall|a: int, b: int| 0 <= a < b < entries@.len() implies entries@[a].0@ != entries@[b].0@ by {
                assert(entries@[a].0 == self.entries@[a].0);
                assert(entries@[b].0 == self.entries@[b].0);
            }
        }
        proof {
            lemma_entries_map(entries@);
            lemma_entries_map(self.entries@);
            assert forall|k: Seq<char>| #[trigger] entries_map(entries@).contains_key(k) <==> entries_map(self.entries@).contains_key(k) by {
                if entries_map(entries@).contains_key(k) {
                    let j = choose|j: int| 0 <= j < entries@.len() && entries@[j].0@ == k;
                    assert(self.entries@[j].0 == entries@[j].0);
                }
                if entries_map(self.entries@).contains_key(k) {
                    let j = choose|j: int| 0 <= j < self.entries@.len() && self.entries@[j].0@ == k;
                    assert(self.entries@[j].0 == entries@[j].0);
                    assert(entries_map(entries@).contains_key(entries@[j].0@));
                }
            }
            assert(entries_map(entries@).dom() =~= entries_map(self.entries@).dom());
        }
        TextMap { entries }
    }
}

impl<V: View> TextMap<V> {
    /// The number of keys.
    pub fn len(&self) -> (n: usize)
        ensures
            n == self@.dom().len(),
    {
        proof {
            use_type_invariant(self);
            lemma_entries_len(self.entries@);
        }
        self.entries.len()
    }

    /// An empty map.
    pub fn new() -> (m: Self)
        ensures
            m@ == Map::<Seq<char>, V::V>::empty(),
    {
        TextMap { entries: Vec::new() }
    }

    /// Position of the entry with key `key`, if there is one.
    fn find(&self, key: &String) -> (r: Option<usize>)
        ensures
            match r {
                Some(i) => i < self.entries@.len() && self.entries@[i as int].0@ == key@,
                None => !self@.contains_key(key@),
            },
    {
        proof {
            use_type_invariant(self);
            lemma_entries_map(self.entries@);
        }
        let mut i: usize = 0;
        while i < self.entries.len()
            invariant
                i <= self.entries@.len(),
                forall|j: int| 0 <= j < i ==> self.entries@[j].0@ != key@,
            decreases self.entries@.len() - i,
        {
            if self.entries[i].0 == *key {
                return Some(i);
            }
            i = i + 1;
        }
        None
    }

    /// Whether `key` is in the map.
    pub fn contains_key(&self, key: &str) -> (b: bool)
        ensures
            b == self@.contains_key(key@),
    {
        proof {
            use_type_invariant(self);
            lemma_entries_map(self.entries@);
        }
        let k = key.to_owned();
        match self.find(&k) {
            Some(i) => {
                assert(self.entries@[i as int].0@ == key@);
                true
            },
            None => false,
        }
    }

    /// The value of `key`, if it is in the map.
    pub fn get(&self, key: &str) -> (r: Option<&V>)
        ensures
            match r {
                Some(v) => self@.contains_key(key@) && v@ == self@[key@],
                None => !self@.contains_key(key@),
            },
    {
        proof {
            use_type_invariant(self);
            lemma_entries_map(self.entries@);
        }
        let k = key.to_owned();
        match self.find(&k) {
            Some(i) => {
                assert(self.entries@[i as int].0@ == key@);
                Some(&self.entries[i].1)
            },
            None => None,
        }
    }

    /// Removes `key` from the map; returns its value if it was there.
    pub fn remove(&mut self, key: &str) -> (r: Option<V>)
        ensures
            final(self)@ == old(self)@.remove(key@),
            match r {
                Some(v) => old(self)@.contains_key(key@) && v@ == old(self)@[key@],
                None => !old(self)@.contains_key(key@),
            },
    {
        proof {
            use_type_invariant(&*self);
            lemma_entries_map(self.entries@);
        }
        let k = key.to_owned();
        match self.find(&k) {
            Some(i) => {
                let mut entries: Vec<(String, V)> = Vec::new();
                core::mem::swap(&mut entries, &mut self.entries);
                proof {
                    lemma_entries_map_remove(entries@, i as int);
                }
                let (_, v) = entries.remove(i);
                self.entries = entries;
                Some(v)
            },
            None => {
                assert(old(self)@.remove(key@) =~= old(self)@);
                None
            },
        }
    }

    /// Maps `key` to `value`, replacing any value it had.
    pub fn insert(&mut self, key: String, value: V)
        ensures
            final(self)@ == old(self)@.insert(key@, value@),
    {
        let _ = self.remove(key.as_str());
        proof {
            use_type_invariant(&*self);
            lemma_entries_map(self.entries@);
        }
        let mut entries: Vec<(String, V)> = Vec::new();
        core::mem::swap(&mut entries, &mut self.entries);
        let ghost before = entries@;
        let ghost kv = key@;
        entries.push((key, value));
        proof {
            assert(entries@.drop_last() =~= before);
            assert forall|i: int, j: int| 0 <= i < j < entries@.len() implies entries@[i].0@ != entries@[j].0@ by {
                if j == entries@.len() - 1 {
                    assert(entries@[i] == before[i]);
                    assert(entries_map(before).contains_key(before[i].0@));
                }
            }
        }
        self.entries = entries;
        assert(old(self)@.remove(kv).insert(kv, value@) =~= old(self)@.insert(kv, value@));
    }
}

/// What a macro stands for.
#[derive(Debug, Clone)]
pub enum MacroValue {
    String(String),
    Function { args: Vec<String>, body: String },
}

pub enum MacroValueV {
    String(Seq<char>),
    Function { args: Seq<Seq<char>>, body: Seq<char> },
}

impl View for MacroValue {
    type V = MacroValueV;

    open spec fn view(&self) -> MacroValueV {
        match self {
            MacroValue::String(s) => MacroValueV::String(s@),
            MacroValue::Function { args, body } => MacroValueV::Function {
                args: args@.map_values(|a: String| a@),
                body: body@,
            },
        }
    }
}

/// Where the scan of a directive line stands.
#[derive(Debug, Clone, PartialEq, Eq)]
pub enum Pips {
    Idle,
    DirectiveName(String),
    DirectiveArgs(Vec<String>),
    DirectiveValue(String),
}

pub enum PipsV {
    Idle,
    DirectiveName(Seq<char>),
    DirectiveArgs(Seq<Seq<char>>),
    DirectiveValue(Seq<char>),
}

/// The views of a sequence of strings.
pub open spec fn strings_view(s: Seq<String>) -> Seq<Seq<char>> {
    s.map_values(|a: String| a@)
}

impl View for Pips {
    type V = PipsV;

    open spec fn view(&self) -> PipsV {
        match self {
            Pips::Idle => PipsV::Idle,
            Pips::DirectiveName(n) => PipsV::DirectiveName(n@),
            Pips::DirectiveArgs(a) => PipsV::DirectiveArgs(strings_view(a@)),
            Pips::DirectiveValue(v) => PipsV::DirectiveValue(v@),
        }
    }
}

impl Default for Pips {
    fn default() -> (r: Self)
        ensures
            r@ == PipsV::Idle,
    {
        Pips::Idle
    }
}

/// The pieces of a directive line: its name, then its arguments or value.
#[derive(Debug, Clone)]
pub struct StoreDirective {
    pub values: Vec<String>,
}

impl Default for StoreDirective {
    fn default() -> (r: Self)
        ensures
            r.values@.len() == 0,
    {
        StoreDirective { values: Vec::new() }
    }
}

/// A directive, read from its line.
#[derive(Debug)]
pub enum Directive {
    Nameless,
    Define { macro_name: String, macro_args: Vec<String>, macro_value: String },
    IfDef { macro_name: String },
    IfnDef { macro_name: String },
    If { expression: bool },
    Elif { expression: bool },
    Include { filename: String },
    Undef { macro_name: String },
    Warning { message: String },
    Pragma { message: String },
    Else,
    EndIf,
    Error { message: String },
}

impl Default for Directive {
    fn default() -> (r: Self)
        ensures
            r@ == DirectiveV::Nameless,
    {
        Directive::Nameless
    }
}

pub enum DirectiveV {
    Nameless,
    Define { macro_name: Seq<char>, macro_args: Seq<Seq<char>>, macro_value: Seq<char> },
    IfDef { macro_name: Seq<char> },
    IfnDef { macro_name: Seq<char> },
    If { expression: bool },
    Elif { expression: bool },
    Include { filename: Seq<char> },
    Undef { macro_name: Seq<char> },
    Warning { message: Seq<char> },
    Pragma { message: Seq<char> },
    Else,
    EndIf,
    Error { message: Seq<char> },
}

impl View for Directive {
    type V = DirectiveV;

    open spec fn view(&self) -> DirectiveV {
        match self {
            Directive::Nameless => DirectiveV::Nameless,
            Directive::Define { macro_name, macro_args, macro_value } => DirectiveV::Define {
                macro_name: macro_name@,
                macro_args: strings_view(macro_args@),
                macro_value: macro_value@,
            },
            Directive::IfDef { macro_name } => DirectiveV::IfDef { macro_name: macro_name@ },
            Directive::IfnDef { macro_name } => DirectiveV::IfnDef { macro_name: macro_name@ },
            Directive::If { expression } => DirectiveV::If { expression: *expression },
            Directive::Elif { expression } => DirectiveV::Elif { expression: *expression },
            Directive::Include { filename } => DirectiveV::Include { filename: filename@ },
            Directive::Undef { macro_name } => DirectiveV::Undef { macro_name: macro_name@ },
            Directive::Warning { message } => DirectiveV::Warning { message: message@ },
            Directive::Pragma { message } => DirectiveV::Pragma { message: message@ },
            Directive::Else => DirectiveV::Else,
            Directive::EndIf => DirectiveV::EndIf,
            Directive::Error { message } => DirectiveV::Error { message: message@ },
        }
    }
}

/// The state of the preprocessor while it reads a translation unit.
///
/// `literal_values` holds the values of the numeric literals met so far: the
/// value of a literal is its reading as a 32-bit float, truncated to an
/// integer, which the caller supplies (see `Failure::LiteralValueNeeded`).
/// `warnings` collects the reports of warnings, in order, for the caller to
/// show.
#[derive(Debug, Clone)]
pub struct State {
    pub comment_level: u32,
    pub inline_comment: bool,
    pub directive_parsing: Pips,
    pub comment_unclosed_positon: Vec<FilePosition>,
    pub defines: TextMap<MacroValue>,
    pub if_writing: bool,
    pub if_level: u32,
    pub include_stack: Vec<FilePosition>,
    pub current_position: FilePosition,
    pub literal_values: TextMap<i32>,
    pub warnings: Vec<String>,
}

/// The mathematical value of a [`State`].
pub struct StateV {
    pub comment_level: u32,
    pub inline_comment: bool,
    pub directive_parsing: PipsV,
    pub comment_unclosed_positon: Seq<FilePositionV>,
    pub defines: Map<Seq<char>, MacroValueV>,
    pub if_writing: bool,
    pub if_level: u32,
    pub include_stack: Seq<FilePositionV>,
    pub current_position: FilePositionV,
    pub literal_values: Map<Seq<char>, i32>,
    pub warnings: Seq<Seq<char>>,
}

pub open spec fn positions_view(s: Seq<FilePosition>) -> Seq<FilePositionV> {
    s.map_values(|p: FilePosition| p@)
}

impl View for State {
    type V = StateV;

    open spec fn view(&self) -> StateV {
        StateV {
            comment_level: self.comment_level,
            inline_comment: self.inline_comment,
            directive_parsing: self.directive_parsing@,
            comment_unclosed_positon: positions_view(self.comment_unclosed_positon@),
            defines: self.defines@,
            if_writing: self.if_writing,
            if_level: self.if_level,
            include_stack: positions_view(self.include_stack@),
            current_position: self.current_position@,
            literal_values: self.literal_values@,
            warnings: strings_view(self.warnings@),
        }
    }
}

impl Default for State {
    fn default() -> (r: Self)
        ensures
            r.comment_level == 0,
            !r.inline_comment,
            r.directive_parsing@ == PipsV::Idle,
            r.comment_unclosed_positon@.len() == 0,
            r.defines@ == Map::<Seq<char>, MacroValueV>::empty(),
            !r.if_writing,
            r.if_level == 0,
            r.include_stack@.len() == 0,
            r.current_position@ == (FilePositionV { line: 0, col: 0, filename: Seq::empty(), filepath: Seq::empty() }),
            r.literal_values@ == Map::<Seq<char>, i32>::empty(),
            r.warnings@.len() == 0,
    {
        State {
            comment_level: 0,
            inline_comment: false,
            directive_parsing: Pips::Idle,
            comment_unclosed_positon: Vec::new(),
            defines: TextMap::new(),
            if_writing: false,
            if_level: 0,
            include_stack: Vec::new(),
            current_position: FilePosition::default(),
            literal_values: TextMap::new(),
            warnings: Vec::new(),
        }
    }
}

impl State {
    /// Enters a new file: the current position is saved on the include
    /// stack and reset to the start of the file.
    pub fn new_file(&mut self, filename: String, filepath: String)
        ensures
            final(self).include_stack@ == stack_after_new_file(old(self).include_stack@, old(self).current_position),
            final(self).current_position@ == (FilePositionV { line: 0, col: 0, filename: filename@, filepath: filepath@ }),
            final(self).if_level == 0,
            final(self).if_writing,
            final(self).comment_level == old(self).comment_level,
            final(self).inline_comment == old(self).inline_comment,
            final(self).directive_parsing == old(self).directive_parsing,
            final(self).comment_unclosed_positon == old(self).comment_unclosed_positon,
            final(self).defines == old(self).defines,
            final(self).literal_values == old(self).literal_values,
            final(self).warnings == old(self).warnings,
    {
        self.include_stack.push(self.current_position.clone());
        self.current_position.filename = filename;
        self.current_position.filepath = filepath;
        self.current_position.col = 0;
        self.current_position.line = 0;
        self.if_level = 0;
        self.if_writing = true;
    }

    /// Leaves the current file: the last saved position is dropped.
    pub fn end_file(&mut self)
        ensures
            final(self).include_stack@ == stack_after_end_file(old(self).include_stack@),
            final(self).current_position == old(self).current_position,
            final(self).comment_level == old(self).comment_level,
            final(self).inline_comment == old(self).inline_comment,
            final(self).directive_parsing == old(self).directive_parsing,
            final(self).comment_unclosed_positon == old(self).comment_unclosed_positon,
            final(self).defines == old(self).defines,
            final(self).if_writing == old(self).if_writing,
            final(self).if_level == old(self).if_level,
            final(self).literal_values == old(self).literal_values,
            final(self).warnings == old(self).warnings,
    {
        self.include_stack.pop();
    }
}

/// The include stack after entering a file at `position`.
pub open spec fn stack_after_new_file<T>(stack: Seq<T>, position: T) -> Seq<T> {
    stack.push(position)
}

/// The include stack after leaving a file.
pub open spec fn stack_after_end_file<T>(stack: Seq<T>) -> Seq<T> {
    if stack.len() == 0 {
        stack
    } else {
        stack.drop_last()
    }
}

/// Entering a file and leaving it again gives back the include stack.
pub proof fn law_new_file_end_file<T>(stack: Seq<T>, position: T)
    ensures
        stack_after_end_file(stack_after_new_file(stack, position)) == stack,
{
    assert(stack.push(position).drop_last() =~= stack);
}

} // verus!
