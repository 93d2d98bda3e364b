use crate::calls::{
    assertion_candidates, assertion_candidates_of, call_prefix_candidates,
    call_prefix_candidates_of, hits, record_hits,
};
use crate::coverage::{
    coverage_of, generate_method_level_coverage_report, identify_tested, matched_identifiers,
    name_set, CoverageResult, CoverageResultView,
};
use crate::csharp::traverse_c_sharp_nodes;
use crate::parsing::{
    get_parser, has_grammar, is_parse_of, language_taken, parse_source, MAX_TREE_DEPTH,
};
use tree_sitter::{Language, Parser};
use crate::syntax::{
    declarations_in, fits_depth, is_declaration, is_declaration_kind, marked_before,
    marker_holds, SyntaxNode,
};
use crate::text::{
    chars_of, contains_token, find_token, matches_at, normalize_chars, normalized, starts_with,
    texts_of, views_of,
};
use crate::utils::{
    is_logic, is_test, methods_of, AnalysisData, Command, Lang, LangSettings, LangSettingsView,
    Method, MethodView,
};
use vstd::hash_set::StringHashSet;
use vstd::prelude::*;

verus! {

/// Why a coverage run ends without a report.
#[derive(PartialEq, Eq, Debug, Clone, Copy)]
pub enum AnalysisError {
    /// The repository to analyse does not exist.
    RepositoryNotFound,
    /// No settings exist for the language that was asked for.
    UnsupportedLanguage,
}

/// The languages for which settings exist.
pub open spec fn is_supported(lang: Lang) -> bool {
    lang is Csharp || lang is Rust
}

/// The settings for C#: declarations stand in classes, and a test carries `[Fact]`.
pub open spec fn csharp_settings() -> LangSettingsView {
    LangSettingsView {
        ext: "cs"@,
        uses_classes: true,
        test_pattern: "[Fact]"@,
        test_method_start: "Public"@,
        qualifier_separator: "."@,
        assertion_names: seq!["Assert"@],
    }
}

/// The settings for Rust: free-standing functions, and a test carries `[test]`.
pub open spec fn rust_settings() -> LangSettingsView {
    LangSettingsView {
        ext: "rs"@,
        uses_classes: false,
        test_pattern: "[test]"@,
        test_method_start: "fn"@,
        qualifier_separator: "."@,
        assertion_names: seq!["assert"@, "assert_eq"@, "assert_ne"@, "assert_matches"@],
    }
}

/// The settings under which `lang` is analysed. There are settings for C# and for
/// Rust; every other language is refused as unsupported.
pub fn create_lang_settings(lang: &Lang) -> (r: Result<LangSettings, AnalysisError>)
    ensures
        match r {
            Ok(settings) => is_supported(*lang) && settings@ == (if *lang is Csharp {
                csharp_settings()
            } else {
                rust_settings()
            }),
            Err(e) => !is_supported(*lang) && e == AnalysisError::UnsupportedLanguage,
        },
{
    match lang {
        Lang::Csharp => {
            let mut names: Vec<String> = Vec::new();
            names.push("Assert".to_owned());
            proof {
                assert(texts_of(names@) =~= seq!["Assert"@]);
            }
            Ok(
                LangSettings {
                    ext: "cs".to_owned(),
                    uses_classes: true,
                    test_pattern: "[Fact]".to_owned(),
                    test_method_start: "Public".to_owned(),
                    qualifier_separator: ".".to_owned(),
                    assertion_names: names,
                },
            )
        },
        Lang::Rust => {
            let mut names: Vec<String> = Vec::new();
            names.push("assert".to_owned());
            names.push("assert_eq".to_owned());
            names.push("assert_ne".to_owned());
            names.push("assert_matches".to_owned());
            proof {
                assert(texts_of(names@) =~= seq![
                    "assert"@,
                    "assert_eq"@,
                    "assert_ne"@,
                    "assert_matches"@,
                ]);
            }
            Ok(
                LangSettings {
                    ext: "rs".to_owned(),
                    uses_classes: false,
                    test_pattern: "[test]".to_owned(),
                    test_method_start: "fn".to_owned(),
                    qualifier_separator: ".".to_owned(),
                    assertion_names: names,
                },
            )
        },
        _ => Err(AnalysisError::UnsupportedLanguage),
    }
}

/// Whether the node at `index` among `siblings` is a declaration that is marked as a
/// test: whether it is of a declaring kind, and one of the markers that stand
/// directly in front of it holds the test pattern of `lang_settings`. The walk back
/// ends at the first sibling that is no marker. A node that declares nothing is no
/// test, and neither is an index at which no node stands.
pub fn is_test_method(
    siblings: &Vec<SyntaxNode>,
    index: usize,
    source: &str,
    lang_settings: &LangSettings,
) -> (r: bool)
    ensures
        r == (index < siblings.len() && is_declaration_kind(siblings[index as int].kind@, false)
            && marked_before(siblings@, index as int, source@, lang_settings.test_pattern@)),
{
    if index >= siblings.len() || !is_declaration(siblings[index].kind.as_str(), false) {
        return false;
    }
    let pattern = chars_of(lang_settings.test_pattern.as_str());
    let mut k: usize = index;
    while k > 0
        invariant
            k <= index < siblings.len(),
            is_declaration_kind(siblings[index as int].kind@, false),
            pattern@ == lang_settings.test_pattern@,
            marked_before(siblings@, index as int, source@, pattern@) == marked_before(
                siblings@,
                k as int,
                source@,
                pattern@,
            ),
        decreases k,
    {
        let (marker, holds) = marker_holds(&siblings[k - 1], source, &pattern);
        if holds {
            return true;
        }
        if !marker {
            return false;
        }
        k -= 1;
    }
    false
}

/// The token that introduces an assertion in every language with containers: a call
/// on the assertion class.
pub open spec fn container_assertion_token() -> Seq<char> {
    "Assert."@
}

/// `line` holds a token that introduces an assertion: one of the assertion names of
/// the settings or, in a language with containers, a call on the assertion class.
pub open spec fn has_assertion(line: Seq<char>, settings: LangSettingsView) -> bool {
    ||| exists|i: int|
        0 <= i < settings.assertion_names.len() && contains_token(
            line,
            #[trigger] settings.assertion_names[i],
        )
    ||| settings.uses_classes && contains_token(line, container_assertion_token())
}

/// How a line begins that only prints or logs.
pub open spec fn debug_prefixes() -> Seq<Seq<char>> {
    seq![
        "println"@,
        "eprintln"@,
        "print!"@,
        "eprint!"@,
        "dbg!"@,
        "Console.Write"@,
        "Debug.Write"@,
        "console.log"@,
    ]
}

/// `line` only prints or logs: it begins with one of the debug prefixes.
pub open spec fn is_debug_line(line: Seq<char>) -> bool {
    exists|i: int|
        0 <= i < debug_prefixes().len() && starts_with(line, #[trigger] debug_prefixes()[i])
}

/// The names that `line` may refer to, read from its compact form. Where the line
/// holds an assertion, the names in the assertion's arguments come first. The name in
/// front of the first parenthesis follows, unless the line only prints or logs. The
/// two readings do not depend on each other.
pub open spec fn line_candidates(line: Seq<char>, settings: LangSettingsView) -> Seq<Seq<char>> {
    let compact = normalized(line);
    let in_assertion = if has_assertion(compact, settings) {
        assertion_candidates(compact, settings.qualifier_separator)
    } else {
        Seq::empty()
    };
    let in_call = if is_debug_line(compact) {
        Seq::empty()
    } else {
        call_prefix_candidates(compact, settings.qualifier_separator)
    };
    in_assertion + in_call
}

/// Whether one of `tokens` stands in `line`.
fn holds_one_of(line: &Vec<char>, tokens: &Vec<String>) -> (r: bool)
    ensures
        r == exists|i: int|
            0 <= i < tokens.len() && contains_token(line@, #[trigger] texts_of(tokens@)[i]),
{
    let mut i: usize = 0;
    while i < tokens.len()
        invariant
            i <= tokens.len(),
            forall|j: int| 0 <= j < i ==> !contains_token(line@, #[trigger] texts_of(tokens@)[j]),
        decreases tokens.len() - i,
    {
        let token = chars_of(tokens[i].as_str());
        if find_token(line, &token).is_some() {
            assert(contains_token(line@, texts_of(tokens@)[i as int]));
            return true;
        }
        i += 1;
    }
    false
}

/// The debug prefixes, as characters.
fn debug_prefix_list() -> (r: Vec<Vec<char>>)
    ensures
        views_of(r@) == debug_prefixes(),
{
    let mut r: Vec<Vec<char>> = Vec::new();
    r.push(chars_of("println"));
    r.push(chars_of("eprintln"));
    r.push(chars_of("print!"));
    r.push(chars_of("eprint!"));
    r.push(chars_of("dbg!"));
    r.push(chars_of("Console.Write"));
    r.push(chars_of("Debug.Write"));
    r.push(chars_of("console.log"));
    r
}

/// Whether the compact line `line` only prints or logs.
pub fn is_debug_statement(line: &Vec<char>) -> (r: bool)
    ensures
        r == is_debug_line(line@),
{
    let prefixes = debug_prefix_list();
    let mut i: usize = 0;
    while i < prefixes.len()
        invariant
            i <= prefixes.len(),
            views_of(prefixes@) == debug_prefixes(),
            forall|j: int| 0 <= j < i ==> !starts_with(line@, #[trigger] debug_prefixes()[j]),
        decreases prefixes.len() - i,
    {
        assert(views_of(prefixes@)[i as int] == prefixes@[i as int]@);
        if matches_at(line, &prefixes[i], 0) {
            assert(starts_with(line@, debug_prefixes()[i as int]));
            return true;
        }
        i += 1;
    }
    false
}

/// Whether the compact line `line` holds a token that introduces an assertion.
pub fn holds_assertion(line: &Vec<char>, lang_settings: &LangSettings) -> (r: bool)
    ensures
        r == has_assertion(line@, lang_settings@),
{
    if holds_one_of(line, &lang_settings.assertion_names) {
        return true;
    }
    lang_settings.uses_classes && find_token(line, &chars_of("Assert.")).is_some()
}

/// Reads one line of a test and appends to `tested_methods` each name among
/// `logic_method_names` that the line refers to.
pub fn scan_line(
    line: &str,
    lang_settings: &LangSettings,
    logic_method_names: &StringHashSet,
    tested_methods: &mut Vec<String>,
)
    ensures
        texts_of(final(tested_methods)@) == texts_of(old(tested_methods)@) + hits(
            line_candidates(line@, lang_settings@),
            logic_method_names@,
        ),
{
    let compact = normalize_chars(&chars_of(line));
    let sep = chars_of(lang_settings.qualifier_separator.as_str());
    if holds_assertion(&compact, lang_settings) {
        let candidates = assertion_candidates_of(&compact, &sep);
        record_hits(&candidates, logic_method_names, tested_methods);
    }
    if !is_debug_statement(&compact) {
        let candidates = call_prefix_candidates_of(&compact, &sep);
        record_hits(&candidates, logic_method_names, tested_methods);
    }
}

/// The names of the logic declarations among `methods`: of those that are no tests.
pub open spec fn logic_names(methods: Seq<MethodView>) -> Set<Seq<char>>
    decreases methods.len(),
{
    if methods.len() == 0 {
        Set::empty()
    } else if methods.last().is_test {
        logic_names(methods.drop_last())
    } else {
        logic_names(methods.drop_last()).insert(methods.last().method_name)
    }
}

/// What the lines of one body refer to among `names`, line by line.
pub open spec fn body_references(
    lines: Seq<Seq<char>>,
    settings: LangSettingsView,
    names: Set<Seq<char>>,
) -> Seq<Seq<char>>
    decreases lines.len(),
{
    if lines.len() == 0 {
        Seq::empty()
    } else {
        body_references(lines.drop_last(), settings, names) + hits(
            line_candidates(lines.last(), settings),
            names,
        )
    }
}

/// What the tests among `methods` refer to among `names`, test by test. The bodies
/// of logic declarations are not read.
pub open spec fn test_references(
    methods: Seq<MethodView>,
    settings: LangSettingsView,
    names: Set<Seq<char>>,
) -> Seq<Seq<char>>
    decreases methods.len(),
{
    if methods.len() == 0 {
        Seq::empty()
    } else if methods.last().is_test {
        test_references(methods.drop_last(), settings, names) + body_references(
            methods.last().body,
            settings,
            names,
        )
    } else {
        test_references(methods.drop_last(), settings, names)
    }
}

/// The names of logic declarations that the tests among `methods` refer to, in the
/// order of the references and as often as they are referred to.
pub open spec fn references(methods: Seq<MethodView>, settings: LangSettingsView) -> Seq<
    Seq<char>,
> {
    test_references(methods, settings, logic_names(methods))
}

/// The names of the logic declarations among `logic_methods`, as a set.
pub fn collect_logic_names(logic_methods: &Vec<Method>) -> (names: StringHashSet)
    ensures
        names@ == logic_names(methods_of(logic_methods@)),
{
    let mut names = StringHashSet::new();
    let n = logic_methods.len();
    let mut i: usize = 0;
    while i < n
        invariant
            i <= n == logic_methods.len(),
            names@ == logic_names(methods_of(logic_methods@).subrange(0, i as int)),
        decreases n - i,
    {
        let m = &logic_methods[i];
        proof {
            let all = methods_of(logic_methods@);
            assert(all.subrange(0, i + 1).drop_last() =~= all.subrange(0, i as int));
        }
        if !m.is_test {
            names.insert(m.method_name.clone());
        }
        i += 1;
    }
    proof {
        assert(methods_of(logic_methods@).subrange(0, n as int) =~= methods_of(logic_methods@));
    }
    names
}

/// Appends to `tested_methods` what the lines of `body` refer to among
/// `logic_method_names`.
fn scan_body(
    body: &Vec<String>,
    lang_settings: &LangSettings,
    logic_method_names: &StringHashSet,
    tested_methods: &mut Vec<String>,
)
    ensures
        texts_of(final(tested_methods)@) == texts_of(old(tested_methods)@) + body_references(
            texts_of(body@),
            lang_settings@,
            logic_method_names@,
        ),
{
    let n = body.len();
    let mut i: usize = 0;
    let ghost start = texts_of(tested_methods@);
    let ghost lines = texts_of(body@);
    while i < n
        invariant
            i <= n == body.len(),
            lines == texts_of(body@),
            texts_of(tested_methods@) == start + body_references(
                lines.subrange(0, i as int),
                lang_settings@,
                logic_method_names@,
            ),
        decreases n - i,
    {
        proof {
            assert(lines.subrange(0, i + 1).drop_last() =~= lines.subrange(0, i as int));
        }
        scan_line(body[i].as_str(), lang_settings, logic_method_names, tested_methods);
        i += 1;
    }
    proof {
        assert(lines.subrange(0, n as int) =~= lines);
    }
}

/// `names` with every name once, in the order in which the names first come.
pub open spec fn first_mentions(names: Seq<Seq<char>>) -> Seq<Seq<char>>
    decreases names.len(),
{
    if names.len() == 0 {
        Seq::empty()
    } else {
        let before = first_mentions(names.drop_last());
        if before.contains(names.last()) {
            before
        } else {
            before.push(names.last())
        }
    }
}

/// Every name of `names` once, in the order in which the names first come.
pub fn mention_once(names: &Vec<String>) -> (once: Vec<String>)
    ensures
        texts_of(once@) == first_mentions(texts_of(names@)),
        texts_of(once@).no_duplicates(),
        texts_of(once@).to_set() == texts_of(names@).to_set(),
{
    let mut once: Vec<String> = Vec::new();
    let mut seen = StringHashSet::new();
    let n = names.len();
    let mut i: usize = 0;
    let ghost all = texts_of(names@);
    proof {
        assert(texts_of(once@).to_set() =~= Set::<Seq<char>>::empty());
        assert(all.subrange(0, 0).to_set() =~= Set::<Seq<char>>::empty());
    }
    while i < n
        invariant
            i <= n == names.len(),
            all == texts_of(names@),
            seen@ == texts_of(once@).to_set(),
            texts_of(once@) == first_mentions(all.subrange(0, i as int)),
            texts_of(once@).no_duplicates(),
            texts_of(once@).to_set() == all.subrange(0, i as int).to_set(),
        decreases n - i,
    {
        let name = &names[i];
        proof {
            assert(all.subrange(0, i + 1).drop_last() =~= all.subrange(0, i as int));
            assert(all.subrange(0, i + 1) =~= all.subrange(0, i as int).push(name@));
            all.subrange(0, i as int).lemma_push_to_set_commute(name@);
            texts_of(once@).lemma_push_to_set_commute(name@);
        }
        if !seen.contains(name.as_str()) {
            let ghost before = texts_of(once@);
            seen.insert(name.clone());
            once.push(name.clone());
            proof {
                assert(texts_of(once@) =~= before.push(name@));
                assert(!before.contains(name@));
            }
        } else {
            proof {
                assert(texts_of(once@).contains(name@));
                assert(texts_of(once@).to_set().insert(name@) =~= texts_of(once@).to_set());
            }
        }
        i += 1;
    }
    proof {
        assert(all.subrange(0, n as int) =~= all);
    }
    once
}

/// Finds the logic declarations that the tests refer to. `logic_methods` holds all
/// declarations, tests and logic alike. Every line of every test is read in its
/// compact form, in source order. The result holds each name of a logic declaration
/// that a line refers to, once, however many lines refer to it and whichever of the
/// two readings of a line finds it; the names stand in the order in which they are
/// first referred to. A name that no logic declaration has is never in it.
pub fn extract_tested_methods(logic_methods: &Vec<Method>, lang_settings: &LangSettings) -> (tested:
    Vec<String>)
    ensures
        texts_of(tested@) == first_mentions(references(methods_of(logic_methods@), lang_settings@)),
        texts_of(tested@).no_duplicates(),
        texts_of(tested@).to_set() == references(
            methods_of(logic_methods@),
            lang_settings@,
        ).to_set(),
{
    let names = collect_logic_names(logic_methods);
    let mut found: Vec<String> = Vec::new();
    let n = logic_methods.len();
    let mut i: usize = 0;
    let ghost all = methods_of(logic_methods@);
    while i < n
        invariant
            i <= n == logic_methods.len(),
            all == methods_of(logic_methods@),
            names@ == logic_names(all),
            texts_of(found@) == test_references(
                all.subrange(0, i as int),
                lang_settings@,
                names@,
            ),
        decreases n - i,
    {
        let m = &logic_methods[i];
        proof {
            assert(all.subrange(0, i + 1).drop_last() =~= all.subrange(0, i as int));
        }
        if m.is_test {
            scan_body(&m.body, lang_settings, &names, &mut found);
        }
        i += 1;
    }
    proof {
        assert(all.subrange(0, n as int) =~= all);
    }
    mention_once(&found)
}

/// A source file and the syntax tree that was read from it, if any.
#[derive(Debug)]
pub struct ParsedFile {
    pub source: String,
    pub tree: Option<SyntaxNode>,
}

/// The declarations of one file: those of its syntax tree, in source order. A file
/// that could not be parsed has none.
pub open spec fn file_declarations(file: ParsedFile, settings: LangSettingsView) -> Seq<
    MethodView,
> {
    match file.tree {
        Some(tree) => declarations_in(tree, false, Seq::empty(), file.source@, settings),
        None => Seq::empty(),
    }
}

/// The declarations of `files`, file by file.
pub open spec fn declarations_of(files: Seq<ParsedFile>, settings: LangSettingsView) -> Seq<
    MethodView,
>
    decreases files.len(),
{
    if files.len() == 0 {
        Seq::empty()
    } else {
        declarations_of(files.drop_last(), settings) + file_declarations(files.last(), settings)
    }
}

/// The source texts of `files`.
pub open spec fn sources_of(files: Seq<ParsedFile>) -> Seq<Seq<char>> {
    files.map_values(|f: ParsedFile| f.source@)
}

/// The declarations found in `files`, file by file and in source order within each.
/// A file without a syntax tree adds none.
pub fn collect_declarations(files: &Vec<ParsedFile>, lang_settings: &LangSettings) -> (methods:
    Vec<Method>)
    ensures
        methods_of(methods@) == declarations_of(files@, lang_settings@),
{
    let mut methods: Vec<Method> = Vec::new();
    let n = files.len();
    let mut i: usize = 0;
    while i < n
        invariant
            i <= n == files.len(),
            methods_of(methods@) == declarations_of(files@.subrange(0, i as int), lang_settings@),
        decreases n - i,
    {
        let file = &files[i];
        proof {
            assert(files@.subrange(0, i + 1).drop_last() =~= files@.subrange(0, i as int));
        }
        match &file.tree {
            Some(tree) => {
                traverse_c_sharp_nodes(tree, file.source.as_str(), lang_settings, &mut methods);
            },
            None => {},
        }
        i += 1;
    }
    proof {
        assert(files@.subrange(0, n as int) =~= files@);
    }
    methods
}

/// The tree of `file` is what a parser reads from the text of `file`, and from no
/// other text.
pub open spec fn holds_its_parse(file: ParsedFile) -> bool {
    exists|parser: Parser| #[trigger] is_parse_of(file.tree, parser, file.source@)
}

/// Each of `files` holds what a parser reads from its own text.
pub open spec fn each_parsed(files: Seq<ParsedFile>) -> bool {
    forall|i: int| 0 <= i < files.len() ==> holds_its_parse(#[trigger] files[i])
}

/// None of `files` has a tree.
pub open spec fn none_parsed(files: Seq<ParsedFile>) -> bool {
    forall|i: int| 0 <= i < files.len() ==> (#[trigger] files[i]).tree is None
}

/// `files` are what comes of parsing them for the extension `ext`. Without a grammar
/// for `ext` none has a tree. With one, a new parser is given a language: where it
/// takes the language, each file holds what a parser reads from its own text, and
/// where it does not, none has a tree.
pub open spec fn are_parsed(files: Seq<ParsedFile>, ext: Seq<char>) -> bool {
    if has_grammar(ext) {
        exists|parser: Parser, language: Language|
            if #[trigger] language_taken(parser, language) {
                each_parsed(files)
            } else {
                none_parsed(files)
            }
    } else {
        none_parsed(files)
    }
}

/// Parses each of `sources` with the grammar for the extension `ext`. Each file
/// keeps its text and gets the tree that the parser reads from that text; a source
/// for which the parser gives no tree is kept without one. Without a grammar for
/// `ext`, or where the parser does not take the grammar, that is every source. No
/// tree is deeper than `MAX_TREE_DEPTH` levels.
pub fn parse_files(sources: &Vec<String>, ext: &str) -> (files: Vec<ParsedFile>)
    ensures
        sources_of(files@) == texts_of(sources@),
        are_parsed(files@, ext@),
        forall|i: int|
            0 <= i < files.len() ==> ((#[trigger] files[i]).tree matches Some(tree)
                ==> fits_depth(tree, MAX_TREE_DEPTH as nat)),
{
    let mut files: Vec<ParsedFile> = Vec::new();
    let mut parser = get_parser(ext);
    let ghost taken = parser is Some;
    let n = sources.len();
    let mut i: usize = 0;
    while i < n
        invariant
            i <= n == sources.len(),
            files.len() == i,
            taken == (parser is Some),
            forall|j: int| 0 <= j < i ==> (#[trigger] files[j]).source@ == sources[j]@,
            !taken ==> forall|j: int| 0 <= j < i ==> (#[trigger] files[j]).tree is None,
            taken ==> forall|j: int| 0 <= j < i ==> holds_its_parse(#[trigger] files[j]),
            forall|j: int|
                0 <= j < i ==> ((#[trigger] files[j]).tree matches Some(tree) ==> fits_depth(
                    tree,
                    MAX_TREE_DEPTH as nat,
                )),
        decreases n - i,
    {
        let source = sources[i].clone();
        let ghost before = parser;
        let tree = match &mut parser {
            Some(p) => parse_source(p, source.as_str()),
            None => None,
        };
        let file = ParsedFile { source, tree };
        assert(taken ==> is_parse_of(file.tree, before->0, file.source@));
        files.push(file);
        i += 1;
    }
    proof {
        assert(sources_of(files@) =~= texts_of(sources@));
        if has_grammar(ext@) {
            let (p, l) = choose|p: Parser, l: Language|
                (taken <==> #[trigger] language_taken(p, l));
            assert(if language_taken(p, l) {
                each_parsed(files@)
            } else {
                none_parsed(files@)
            });
        }
    }
    files
}

/// `methods` are the declarations read from `sources` for `settings`: those of
/// files that keep these texts, one by one, and that are what comes of parsing them
/// for the extension of the settings.
pub open spec fn are_read_from(
    methods: Seq<MethodView>,
    sources: Seq<Seq<char>>,
    settings: LangSettingsView,
) -> bool {
    exists|files: Seq<ParsedFile>|
        sources_of(files) == sources && are_parsed(files, settings.ext) && methods
            == #[trigger] declarations_of(files, settings)
}

/// Reads the declarations from the source files of a repository. Each of `sources`
/// is parsed with the grammar for the extension of `lang_settings`, each file for its
/// own text, and the declarations of every file that parsed are put together, file
/// by file. A file that does not parse adds nothing.
pub fn extract_logic_methods(sources: &Vec<String>, lang_settings: &LangSettings) -> (methods:
    Vec<Method>)
    ensures
        are_read_from(methods_of(methods@), texts_of(sources@), lang_settings@),
{
    let files = parse_files(sources, lang_settings.ext.as_str());
    let methods = collect_declarations(&files, lang_settings);
    assert(methods_of(methods@) == declarations_of(files@, lang_settings@));
    methods
}

/// The identifiers of the tested logic declarations among `methods`: of those whose
/// name a test refers to.
pub open spec fn tested_names_of(methods: Seq<MethodView>, settings: LangSettingsView) -> Seq<
    Seq<char>,
> {
    matched_identifiers(methods, references(methods, settings).to_set(), settings.uses_classes)
}

/// The coverage of `methods`: the logic declarations among them, each tested where
/// a test among them refers to its name.
pub open spec fn analysis_of(methods: Seq<MethodView>, settings: LangSettingsView)
    -> CoverageResultView {
    coverage_of(methods, tested_names_of(methods, settings).to_set(), settings.uses_classes)
}

/// Sorts `methods` into logic declarations and tests, each side in source order,
/// and finds the identifiers of the logic declarations that the tests refer to.
pub fn analysis_data(methods: Vec<Method>, lang_settings: &LangSettings) -> (data: AnalysisData)
    ensures
        data.wf(),
        methods_of(data.logic_methods@) == methods_of(methods@).filter(is_logic()),
        methods_of(data.test_methods@) == methods_of(methods@).filter(is_test()),
        data.tested_methods@ == tested_names_of(methods_of(methods@), lang_settings@).to_set(),
{
    let matched = extract_tested_methods(&methods, lang_settings);
    let tested_methods = name_set(&identify_tested(&methods, &matched, lang_settings));
    let mut logic_methods: Vec<Method> = Vec::new();
    let mut test_methods: Vec<Method> = Vec::new();
    let ghost all = methods_of(methods@);
    for m in it: methods.into_iter()
        invariant
            it.seq() == methods@,
            all == methods_of(methods@),
            methods_of(logic_methods@) == all.subrange(0, it.index() as int).filter(is_logic()),
            methods_of(test_methods@) == all.subrange(0, it.index() as int).filter(is_test()),
            forall|i: int| 0 <= i < logic_methods.len() ==> !(#[trigger] logic_methods[i]).is_test,
            forall|i: int| 0 <= i < test_methods.len() ==> (#[trigger] test_methods[i]).is_test,
    {
        proof {
            let i = it.index() as int;
            assert(all.subrange(0, i + 1) =~= all.subrange(0, i).push(m@));
            all.subrange(0, i).lemma_filter_push(m@, is_logic());
            all.subrange(0, i).lemma_filter_push(m@, is_test());
        }
        if m.is_test {
            test_methods.push(m);
        } else {
            logic_methods.push(m);
        }
    }
    proof {
        assert(all.subrange(0, all.len() as int) =~= all);
    }
    AnalysisData { logic_methods, test_methods, tested_methods }
}

/// Measures the coverage of `methods`: finds what the tests refer to, and counts the
/// logic declarations that are referred to.
pub fn analyse(methods: &Vec<Method>, lang_settings: &LangSettings) -> (report: CoverageResult)
    ensures
        report@ == analysis_of(methods_of(methods@), lang_settings@),
{
    let matched = extract_tested_methods(methods, lang_settings);
    let tested = identify_tested(methods, &matched, lang_settings);
    generate_method_level_coverage_report(methods, &tested, lang_settings)
}

/// The settings of a language that has settings.
pub open spec fn settings_of(lang: Lang) -> LangSettingsView {
    if lang is Csharp {
        csharp_settings()
    } else {
        rust_settings()
    }
}

/// Runs the analysis that `repo` asks for. `repo_exists` says whether the repository
/// was found, and `sources` holds the text of each of its files in the language
/// asked for. A language without settings is refused first, then a repository that
/// does not exist; nothing is read or reported in either case. Otherwise the
/// declarations are read from the sources and their coverage is measured.
pub fn start_analysis(repo: Command, repo_exists: bool, sources: &Vec<String>) -> (r: Result<
    CoverageResult,
    AnalysisError,
>)
    ensures
        match r {
            Ok(report) => is_supported(repo.lang) && repo_exists && exists|
                methods: Seq<MethodView>,
            |
                #[trigger] are_read_from(methods, texts_of(sources@), settings_of(repo.lang))
                    && report@ == analysis_of(methods, settings_of(repo.lang)),
            Err(e) => if !is_supported(repo.lang) {
                e == AnalysisError::UnsupportedLanguage
            } else {
                !repo_exists && e == AnalysisError::RepositoryNotFound
            },
        },
{
    let lang_settings = match create_lang_settings(&repo.lang) {
        Ok(settings) => settings,
        Err(e) => {
            return Err(e);
        },
    };
    if !repo_exists {
        return Err(AnalysisError::RepositoryNotFound);
    }
    let methods = extract_logic_methods(sources, &lang_settings);
    let report = analyse(&methods, &lang_settings);
    assert(are_read_from(methods_of(methods@), texts_of(sources@), settings_of(repo.lang)));
    Ok(report)
}

} // verus!
