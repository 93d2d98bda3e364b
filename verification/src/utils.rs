use crate::syntax::{body_of, slice_span, SyntaxNode};
use crate::text::{
    chars_of, normalize_chars, normalized, same_text, split_lines, string_of, texts_of,
};
use vstd::hash_set::StringHashSet;
use vstd::prelude::*;

verus! {

/// What a coverage run is asked to do: the repository to read and its language.
#[derive(Debug)]
pub struct Command {
    /// The path of the repository.
    pub repo: String,
    pub lang: Lang,
}

/// The source languages a coverage run can be asked for.
#[derive(PartialEq, Debug)]
pub enum Lang {
    Csharp,
    Python,
    JS,
    Rust,
    Undefined,
}

/// One function or method found in a source file.
#[derive(Debug)]
pub struct Method {
    /// The name of the enclosing type; empty for a free-standing declaration and in
    /// languages without containers.
    pub class_name: String,
    /// The declared name. It need not be the only declaration of that name.
    pub method_name: String,
    /// The declaration's source text, line by line, in source order.
    pub body: Vec<String>,
    /// Whether the declaration is a test. One that is not is a logic declaration.
    pub is_test: bool,
    /// The byte range of the declaration in its file.
    pub start_byte: usize,
    pub end_byte: usize,
}

/// A declaration as plain values.
pub struct MethodView {
    pub class_name: Seq<char>,
    pub method_name: Seq<char>,
    pub body: Seq<Seq<char>>,
    pub is_test: bool,
    pub start_byte: int,
    pub end_byte: int,
}

impl View for Method {
    type V = MethodView;

    open spec fn view(&self) -> MethodView {
        MethodView {
            class_name: self.class_name@,
            method_name: self.method_name@,
            body: texts_of(self.body@),
            is_test: self.is_test,
            start_byte: self.start_byte as int,
            end_byte: self.end_byte as int,
        }
    }
}

/// The declarations that a sequence of methods holds.
pub open spec fn methods_of(v: Seq<Method>) -> Seq<MethodView> {
    v.map_values(|m: Method| m@)
}

/// The declarations of a repository, logic and tests apart, and what was found
/// tested.
pub struct AnalysisData {
    pub logic_methods: Vec<Method>,
    pub test_methods: Vec<Method>,
    /// The identifiers of the tested logic declarations.
    pub tested_methods: StringHashSet,
}

impl AnalysisData {
    /// No declaration is counted on both sides: what stands among the logic
    /// declarations is no test, and what stands among the tests is one.
    pub open spec fn wf(&self) -> bool {
        &&& forall|i: int|
            0 <= i < self.logic_methods.len() ==> !(#[trigger] self.logic_methods[i]).is_test
        &&& forall|i: int|
            0 <= i < self.test_methods.len() ==> (#[trigger] self.test_methods[i]).is_test
    }
}

/// The declarations that are tests.
pub open spec fn is_test() -> spec_fn(MethodView) -> bool {
    |m: MethodView| m.is_test
}

/// The declarations that are logic: those that are no tests.
pub open spec fn is_logic() -> spec_fn(MethodView) -> bool {
    |m: MethodView| !m.is_test
}

/// How one language is analysed.
#[derive(PartialEq, Debug)]
pub struct LangSettings {
    /// The extension of the files that are read.
    pub ext: String,
    /// Whether declarations stand inside named types.
    pub uses_classes: bool,
    /// The text that marks a declaration as a test.
    pub test_pattern: String,
    /// The word with which a declaration begins.
    pub test_method_start: String,
    /// The token between a receiver and the member that is called on it.
    pub qualifier_separator: String,
    /// The names that introduce an assertion, whose arguments are searched for calls.
    pub assertion_names: Vec<String>,
}

/// The settings of a language as plain values.
pub struct LangSettingsView {
    pub ext: Seq<char>,
    pub uses_classes: bool,
    pub test_pattern: Seq<char>,
    pub test_method_start: Seq<char>,
    pub qualifier_separator: Seq<char>,
    pub assertion_names: Seq<Seq<char>>,
}

impl View for LangSettings {
    type V = LangSettingsView;

    open spec fn view(&self) -> LangSettingsView {
        LangSettingsView {
            ext: self.ext@,
            uses_classes: self.uses_classes,
            test_pattern: self.test_pattern@,
            test_method_start: self.test_method_start@,
            qualifier_separator: self.qualifier_separator@,
            assertion_names: texts_of(self.assertion_names@),
        }
    }
}

/// The compact form of a line, in which formatting differences are gone: `line`
/// without its spaces and tabs.
pub fn normalize_line(line: &str) -> (r: String)
    ensures
        r@ == normalized(line@),
{
    let v = chars_of(line);
    let n = normalize_chars(&v);
    string_of(&n)
}

/// The source text of `node`, line by line.
pub fn extract_body(node: &SyntaxNode, source: &str) -> (r: Vec<String>)
    ensures
        texts_of(r@) == body_of(*node, source@),
{
    match slice_span(source, node.start_byte, node.end_byte) {
        Some(t) => split_lines(t),
        None => Vec::new(),
    }
}

/// The language that a name on the command line stands for. A name that stands for
/// none gives `Undefined`.
pub open spec fn lang_named(name: Seq<char>) -> Lang {
    if name == "csharp"@ {
        Lang::Csharp
    } else if name == "python"@ {
        Lang::Python
    } else if name == "js"@ {
        Lang::JS
    } else if name == "rust"@ {
        Lang::Rust
    } else {
        Lang::Undefined
    }
}

/// The command that the two arguments of the command line ask for: the repository
/// at `repo`, in the language named `language`.
pub fn unwrap_command(repo: String, language: &str) -> (command: Command)
    ensures
        command.repo == repo,
        command.lang == lang_named(language@),
{
    Command {
        repo,
        lang: if same_text(language, "csharp") {
            Lang::Csharp
        } else if same_text(language, "python") {
            Lang::Python
        } else if same_text(language, "js") {
            Lang::JS
        } else if same_text(language, "rust") {
            Lang::Rust
        } else {
            Lang::Undefined
        },
    }
}

} // verus!
