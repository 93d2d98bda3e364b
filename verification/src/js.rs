use crate::calls::{
    argument_list, argument_list_of, hits, member_name, member_name_of, record_hits,
};
use crate::csharp::member_separator;
use crate::syntax::{body_of, SyntaxNode};
use crate::text::{
    chars_of, contains_token, find_char, find_token, normalize_chars, normalized, same_text,
    slice_of, texts_of, views_of,
};
use crate::utils::{extract_body, methods_of, Method, MethodView};
use vstd::hash_set::StringHashSet;
use vstd::prelude::*;

verus! {

/// The names of all of `methods`, tests and logic alike.
pub open spec fn method_names(methods: Seq<MethodView>) -> Set<Seq<char>> {
    methods.map_values(|m: MethodView| m.method_name).to_set()
}

/// The names of `logic_methods`, as a set.
pub fn extract_js_logic_method_names(logic_methods: &Vec<Method>) -> (names: StringHashSet)
    ensures
        names@ == method_names(methods_of(logic_methods@)),
{
    let mut names = StringHashSet::new();
    let n = logic_methods.len();
    let mut i: usize = 0;
    let ghost all = methods_of(logic_methods@).map_values(|m: MethodView| m.method_name);
    while i < n
        invariant
            i <= n == logic_methods.len(),
            all == methods_of(logic_methods@).map_values(|m: MethodView| m.method_name),
            names@ == all.subrange(0, i as int).to_set(),
        decreases n - i,
    {
        proof {
            let name = logic_methods@[i as int].method_name@;
            assert(all.subrange(0, i + 1) =~= all.subrange(0, i as int).push(name));
            all.subrange(0, i as int).lemma_push_to_set_commute(name);
        }
        names.insert(logic_methods[i].method_name.clone());
        i += 1;
    }
    proof {
        assert(all.subrange(0, n as int) =~= all);
    }
    names
}

/// The words that mark a line of a JavaScript test as one that checks something.
pub open spec fn js_assertion_words() -> Seq<Seq<char>> {
    seq![
        "expect"@,
        "assert"@,
        "should"@,
        "assertThat"@,
        "done"@,
        "beforeEach"@,
        "afterEach"@,
        "beforeAll"@,
        "afterAll"@,
        "not"@,
    ]
}

/// The compact line `line` holds one of the assertion words.
pub open spec fn is_js_assertion(line: Seq<char>) -> bool {
    exists|i: int|
        0 <= i < js_assertion_words().len() && contains_token(
            line,
            #[trigger] js_assertion_words()[i],
        )
}

/// `s` cut at every occurrence of the character `c`, which is left out. (The first
/// index of a character is an index of the text; the test on it only serves to show
/// that the cutting ends.)
pub open spec fn split_on(s: Seq<char>, c: char) -> Seq<Seq<char>>
    decreases s.len(),
{
    match s.index_of_first(c) {
        Some(i) => if 0 <= i < s.len() {
            seq![s.subrange(0, i)] + split_on(s.subrange(i + 1, s.len() as int), c)
        } else {
            seq![s]
        },
        None => seq![s],
    }
}

/// The member that a name ends in, for the separator `sep`.
pub open spec fn member_of(sep: Seq<char>) -> spec_fn(Seq<char>) -> Seq<char> {
    |name: Seq<char>| member_name(name, sep)
}

/// The names that a line of a JavaScript test may refer to. A line without an
/// assertion word refers to nothing. Of any other line the argument list is cut at
/// each opening parenthesis, and the member that each piece ends in is a candidate.
pub open spec fn js_line_candidates(line: Seq<char>) -> Seq<Seq<char>> {
    if is_js_assertion(normalized(line)) {
        match argument_list(line) {
            Some(args) => split_on(args, '(').map_values(member_of(member_separator())),
            None => Seq::empty(),
        }
    } else {
        Seq::empty()
    }
}

/// What the lines of one statement refer to among `names`, line by line.
pub open spec fn js_body_references(lines: Seq<Seq<char>>, names: Set<Seq<char>>) -> Seq<
    Seq<char>,
>
    decreases lines.len(),
{
    if lines.len() == 0 {
        Seq::empty()
    } else {
        js_body_references(lines.drop_last(), names) + hits(
            js_line_candidates(lines.last()),
            names,
        )
    }
}

/// What the expression statements among `statements` refer to among `names`,
/// statement by statement. Other statements are not read.
pub open spec fn js_references(
    statements: Seq<SyntaxNode>,
    source: Seq<char>,
    names: Set<Seq<char>>,
) -> Seq<Seq<char>>
    decreases statements.len(),
{
    if statements.len() == 0 {
        Seq::empty()
    } else if statements.last().kind@ == "expression_statement"@ {
        js_references(statements.drop_last(), source, names) + js_body_references(
            body_of(statements.last(), source),
            names,
        )
    } else {
        js_references(statements.drop_last(), source, names)
    }
}

/// The assertion words, as characters.
fn js_assertion_word_list() -> (r: Vec<Vec<char>>)
    ensures
        views_of(r@) == js_assertion_words(),
{
    let mut r: Vec<Vec<char>> = Vec::new();
    r.push(chars_of("expect"));
    r.push(chars_of("assert"));
    r.push(chars_of("should"));
    r.push(chars_of("assertThat"));
    r.push(chars_of("done"));
    r.push(chars_of("beforeEach"));
    r.push(chars_of("afterEach"));
    r.push(chars_of("beforeAll"));
    r.push(chars_of("afterAll"));
    r.push(chars_of("not"));
    r
}

/// Whether the compact line `line` holds one of the assertion words.
pub fn holds_js_assertion(line: &Vec<char>) -> (r: bool)
    ensures
        r == is_js_assertion(line@),
{
    let words = js_assertion_word_list();
    let mut i: usize = 0;
    while i < words.len()
        invariant
            i <= words.len(),
            views_of(words@) == js_assertion_words(),
            forall|j: int|
                0 <= j < i ==> !contains_token(line@, #[trigger] js_assertion_words()[j]),
        decreases words.len() - i,
    {
        assert(views_of(words@)[i as int] == words@[i as int]@);
        if find_token(line, &words[i]).is_some() {
            assert(contains_token(line@, js_assertion_words()[i as int]));
            return true;
        }
        i += 1;
    }
    false
}

/// `v` cut at every occurrence of the character `c`.
pub fn split_on_char(v: &Vec<char>, c: char) -> (r: Vec<Vec<char>>)
    ensures
        views_of(r@) == split_on(v@, c),
{
    let mut r: Vec<Vec<char>> = Vec::new();
    let mut rest = slice_of(v, 0, v.len());
    proof {
        assert(rest@ =~= v@);
    }
    loop
        invariant_except_break
            views_of(r@) + split_on(rest@, c) == split_on(v@, c),
        ensures
            views_of(r@) == split_on(v@, c),
        decreases rest.len(),
    {
        match find_char(&rest, c) {
            Some(i) => {
                let piece = slice_of(&rest, 0, i);
                let tail = slice_of(&rest, i + 1, rest.len());
                r.push(piece);
                rest = tail;
            },
            None => {
                let last = slice_of(&rest, 0, rest.len());
                proof {
                    assert(last@ =~= rest@);
                }
                r.push(last);
                break ;
            },
        }
    }
    r
}

/// The names that the line `line` of a JavaScript test may refer to.
pub fn js_line_candidates_of(line: &str) -> (r: Vec<Vec<char>>)
    ensures
        views_of(r@) == js_line_candidates(line@),
{
    let chars = chars_of(line);
    let mut r: Vec<Vec<char>> = Vec::new();
    if !holds_js_assertion(&normalize_chars(&chars)) {
        return r;
    }
    match argument_list_of(&chars) {
        Some(args) => {
            let pieces = split_on_char(&args, '(');
            let mut sep: Vec<char> = Vec::new();
            sep.push('.');
            let n = pieces.len();
            let mut i: usize = 0;
            while i < n
                invariant
                    i <= n == pieces.len(),
                    r.len() == i,
                    sep@ == member_separator(),
                    forall|j: int|
                        0 <= j < i ==> (#[trigger] r@[j])@ == member_name(
                            pieces@[j]@,
                            member_separator(),
                        ),
                decreases n - i,
            {
                let member = member_name_of(&pieces[i], &sep);
                r.push(member);
                i += 1;
            }
            r
        },
        None => r,
    }
}

/// Appends to `tested_methods` what the lines of `body` refer to among `names`.
fn scan_js_body(body: &Vec<String>, names: &StringHashSet, tested_methods: &mut Vec<String>)
    ensures
        texts_of(final(tested_methods)@) == texts_of(old(tested_methods)@) + js_body_references(
            texts_of(body@),
            names@,
        ),
{
    let n = body.len();
    let mut i: usize = 0;
    let ghost start = texts_of(tested_methods@);
    let ghost lines = texts_of(body@);
    while i < n
        invariant
            i <= n == body.len(),
            lines == texts_of(body@),
            texts_of(tested_methods@) == start + js_body_references(
                lines.subrange(0, i as int),
                names@,
            ),
        decreases n - i,
    {
        proof {
            assert(lines.subrange(0, i + 1).drop_last() =~= lines.subrange(0, i as int));
        }
        let candidates = js_line_candidates_of(body[i].as_str());
        record_hits(&candidates, names, tested_methods);
        i += 1;
    }
    proof {
        assert(lines.subrange(0, n as int) =~= lines);
    }
}

/// Finds what the tests of one JavaScript file refer to. `tree` is the syntax tree
/// of the file and `source` its text. Every expression statement at the top of the
/// file is read line by line; a line that holds an assertion word may refer to a
/// name in each piece of its argument list. The names of `logic_methods` that are
/// referred to are returned in the order of the references, as often as they come.
pub fn extract_js_tested_methods(tree: &SyntaxNode, source: &str, logic_methods: &Vec<Method>)
    -> (tested: Vec<String>)
    ensures
        texts_of(tested@) == js_references(
            tree.children@,
            source@,
            method_names(methods_of(logic_methods@)),
        ),
{
    let names = extract_js_logic_method_names(logic_methods);
    let mut tested: Vec<String> = Vec::new();
    let n = tree.children.len();
    let mut i: usize = 0;
    let ghost statements = tree.children@;
    while i < n
        invariant
            i <= n == tree.children.len(),
            statements == tree.children@,
            names@ == method_names(methods_of(logic_methods@)),
            texts_of(tested@) == js_references(
                statements.subrange(0, i as int),
                source@,
                names@,
            ),
        decreases n - i,
    {
        let node = &tree.children[i];
        proof {
            assert(statements.subrange(0, i + 1).drop_last() =~= statements.subrange(
                0,
                i as int,
            ));
        }
        if same_text(node.kind.as_str(), "expression_statement") {
            let body = extract_body(node, source);
            scan_js_body(&body, &names, &mut tested);
        }
        i += 1;
    }
    proof {
        assert(statements.subrange(0, n as int) =~= statements);
    }
    tested
}

} // verus!
