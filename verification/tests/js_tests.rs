use coverall::js::{
    extract_js_logic_method_names, extract_js_tested_methods, holds_js_assertion,
    js_line_candidates_of, split_on_char,
};
use coverall::parsing::{get_parser, parse_source};
use coverall::syntax::SyntaxNode;
use coverall::utils::Method;

fn script_method(name: &str, is_test: bool) -> Method {
    Method {
        class_name: String::new(),
        method_name: name.to_string(),
        body: vec![],
        is_test,
        start_byte: 0,
        end_byte: 0,
    }
}

fn script_chars(s: &str) -> Vec<char> {
    s.chars().collect()
}

fn script_strings(pieces: Vec<Vec<char>>) -> Vec<String> {
    pieces.into_iter().map(|p| p.into_iter().collect()).collect()
}

fn script_statement(kind: &str, source: &str, text: &str) -> SyntaxNode {
    let start = source.find(text).unwrap();
    SyntaxNode {
        kind: kind.to_string(),
        field: None,
        start_byte: start,
        end_byte: start + text.len(),
        children: vec![],
    }
}

#[test]
fn logic_method_names_hold_every_name_once() {
    let names = extract_js_logic_method_names(&vec![
        script_method("add", false),
        script_method("checks", true),
        script_method("add", false),
    ]);
    assert_eq!(names.len(), 2);
    assert!(names.contains("add"));
    assert!(names.contains("checks"));
    assert!(!names.contains("sub"));
}

#[test]
fn split_on_char_cuts_at_every_occurrence() {
    assert_eq!(
        script_strings(split_on_char(&script_chars("a(b(c"), '(')),
        vec!["a", "b", "c"]
    );
    assert_eq!(
        script_strings(split_on_char(&script_chars("(a(("), '(')),
        vec!["", "a", "", ""]
    );
    assert_eq!(
        script_strings(split_on_char(&script_chars(""), '(')),
        vec![""]
    );
    assert_eq!(
        script_strings(split_on_char(&script_chars("abc"), '(')),
        vec!["abc"]
    );
}

#[test]
fn assertion_words_mark_a_checking_line() {
    for line in [
        "expect(x)",
        "assert.ok(x)",
        "x.should.be(1)",
        "assertThat(x)",
        "done()",
        "beforeEach(f)",
        "afterEach(f)",
        "beforeAll(f)",
        "afterAll(f)",
        "x.not.toBe(1)",
        "cannot(x)",
    ] {
        assert!(holds_js_assertion(&script_chars(line)), "line {}", line);
    }
    assert!(!holds_js_assertion(&script_chars("add(1,2)")));
    assert!(!holds_js_assertion(&script_chars("")));
    assert!(!holds_js_assertion(&script_chars("Expect(x)")));
}

#[test]
fn line_candidates_are_the_members_in_front_of_each_parenthesis() {
    assert_eq!(
        script_strings(js_line_candidates_of(
            "  expect( calc.add (1, 2) ).toBe( three() );"
        )),
        vec!["add", "toBe", "three", ")"]
    );
    assert_eq!(
        script_strings(js_line_candidates_of("expect(add)")),
        vec!["add"]
    );
    assert_eq!(
        script_strings(js_line_candidates_of("calc.add(1, 2)")),
        Vec::<String>::new()
    );
    assert_eq!(
        script_strings(js_line_candidates_of("expect add")),
        Vec::<String>::new()
    );
}

#[test]
fn tested_methods_are_read_from_expression_statements_at_the_top() {
    let source = "expect(add(1, 2)).toBe(3);\nfunction f() { expect(sub(1)); }\nassert(math.sub(2,\n  1), mul);\nmul(2);\n";
    let tree = SyntaxNode {
        kind: "program".to_string(),
        field: None,
        start_byte: 0,
        end_byte: source.len(),
        children: vec![
            script_statement("expression_statement", source, "expect(add(1, 2)).toBe(3);"),
            script_statement(
                "function_declaration",
                source,
                "function f() { expect(sub(1)); }",
            ),
            script_statement(
                "expression_statement",
                source,
                "assert(math.sub(2,\n  1), mul);",
            ),
            script_statement("expression_statement", source, "mul(2);"),
        ],
    };
    let methods = vec![
        script_method("add", false),
        script_method("sub", false),
        script_method("mul", false),
        script_method("toBe", true),
    ];
    // The second assertion spans two lines, and neither holds both parentheses of
    // its argument list in the right order.
    assert_eq!(
        extract_js_tested_methods(&tree, source, &methods),
        vec!["add", "toBe"]
    );
    assert_eq!(
        extract_js_tested_methods(&tree, source, &vec![]),
        Vec::<String>::new()
    );
}

#[test]
fn tested_methods_of_a_parsed_script() {
    let source = "function add(a, b) { return a + b; }\n\nexpect(add(1, 2)).toBe(3);\nadd(3, 4);\n";
    let mut parser = get_parser("js").unwrap();
    let tree = parse_source(&mut parser, source).unwrap();
    assert_eq!(tree.kind, "program");
    assert_eq!(
        extract_js_tested_methods(&tree, source, &vec![script_method("add", false)]),
        vec!["add"]
    );
}
