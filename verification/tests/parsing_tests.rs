use coverall::codeanalysis::{
    create_lang_settings, extract_logic_methods, is_test_method, start_analysis, AnalysisError,
};
use coverall::parsing::{
    get_parser, grammar_for, parse_source, parser_with_language, read_tree, Grammar,
};
use coverall::syntax::SyntaxNode;
use coverall::utils::{extract_body, Command, Lang};

#[test]
fn test_is_test_method() {
    let source_code = r#"
        #[test]
        fn sample_test() {
            assert_eq!(2 + 2, 4);
        }

        fn not_a_test() {
            let x = 5;
        }
    "#;
    let mut parser = get_parser("rs").expect("Failed to parse test");

    let root_node = parse_source(&mut parser, source_code).expect("Failed to parse test");

    let lang_settings = create_lang_settings(&Lang::Rust).unwrap();

    let mut test_found = false;
    let mut non_test_found = false;

    for (index, node) in root_node.children.iter().enumerate() {
        if node.kind == "function_item" {
            let result = is_test_method(&root_node.children, index, source_code, &lang_settings);
            let function_name = &source_code[node.start_byte..node.end_byte];

            if function_name.contains("sample_test") {
                test_found = result;
            } else if function_name.contains("not_a_test") {
                non_test_found = result;
            }
        }
    }

    assert!(
        test_found,
        "Expected 'sample_test' to be recognized as a test."
    );
    assert!(
        !non_test_found,
        "Expected 'not_a_test' to not be recognized as a test."
    );
}

#[test]
fn test_extract_body() {
    let source_code = r#"
        fn example_function() {
            let x = 5;
            println!("{}", x);
        }
    "#;
    let mut parser = get_parser("rs").expect("Failed to parse test");

    let root_node = parse_source(&mut parser, source_code).expect("Failed to parse test");

    let mut function_node = None;

    for node in root_node.children.iter() {
        if node.kind == "function_item" {
            function_node = Some(node);
            break;
        }
    }

    assert!(function_node.is_some(), "Failed to find function node.");

    let extracted_body: Vec<String> = extract_body(function_node.unwrap(), source_code)
        .iter()
        .map(|line| line.trim().to_string()) // Normalize by trimming whitespace
        .collect();

    let expected_body = vec![
        "fn example_function() {".to_string(),
        "let x = 5;".to_string(),
        "println!(\"{}\", x);".to_string(),
        "}".to_string(),
    ];

    assert_eq!(
        extracted_body, expected_body,
        "Extracted body does not match expected."
    );
}

#[test]
fn rust_repository_with_a_tested_function_is_fully_covered() {
    let source = "fn add(a, b) { a + b }\n\n#[test]\nfn test_add() {\n    assert_eq(add(1,2), 3)\n}\n";
    let command = Command {
        repo: String::from("repo"),
        lang: Lang::Rust,
    };
    let report = start_analysis(command, true, &vec![source.to_string()]).unwrap();
    assert_eq!(report.total_logic, 1);
    assert_eq!(report.tested_count, 1);
    assert_eq!(report.tested_names, vec!["add".to_string()]);
    assert_eq!(report.percentage_hundredths() as f64 / 100.0, 100.0);
}

#[test]
fn rust_repository_whose_test_only_prints_is_not_covered() {
    let source = "fn add(a, b) { a + b }\n\n#[test]\nfn test_add() {\n    println(\"add exists\")\n}\n";
    let command = Command {
        repo: String::from("repo"),
        lang: Lang::Rust,
    };
    let report = start_analysis(command, true, &vec![source.to_string()]).unwrap();
    assert_eq!(report.total_logic, 1);
    assert_eq!(report.tested_count, 0);
    assert!(report.tested_names.is_empty());
    assert_eq!(report.percentage_hundredths() as f64 / 100.0, 0.0);
}

#[test]
fn csharp_methods_carry_their_class_and_fact_marks_a_test() {
    let source = "public class Calculator\n{\n    public Calculator() { }\n    public int Add(int a, int b)\n    {\n        return a + b;\n    }\n    public int Sub(int a, int b)\n    {\n        return a - b;\n    }\n}\n\npublic class CalculatorTests\n{\n    [Fact]\n    public void AddWorks()\n    {\n        var calc = new Calculator();\n        var result = calc.Add(1, 2);\n        Assert.Equal(3, result);\n    }\n}\n";
    let command = Command {
        repo: String::from("repo"),
        lang: Lang::Csharp,
    };
    let report = start_analysis(command, true, &vec![source.to_string()]).unwrap();
    let ids: Vec<(String, bool)> = report
        .methods
        .iter()
        .map(|m| (m.method_id.clone(), m.tested))
        .collect();
    assert_eq!(
        ids,
        vec![
            ("Calculator.Calculator".to_string(), false),
            ("Calculator.Add".to_string(), true),
            ("Calculator.Sub".to_string(), false),
        ]
    );
    assert_eq!(report.total_logic, 3);
    assert_eq!(report.tested_count, 1);
    assert_eq!(report.tested_names, vec!["Calculator.Add".to_string()]);
    assert_eq!(report.percentage_hundredths(), 3333);
}

#[test]
fn unsupported_language_is_refused_before_the_repository_is_looked_at() {
    let command = Command {
        repo: String::from("repo"),
        lang: Lang::Python,
    };
    assert_eq!(
        start_analysis(command, false, &vec![]),
        Err(AnalysisError::UnsupportedLanguage)
    );
}

#[test]
fn missing_repository_is_refused() {
    let command = Command {
        repo: String::from("repo"),
        lang: Lang::Rust,
    };
    assert_eq!(
        start_analysis(command, false, &vec![]),
        Err(AnalysisError::RepositoryNotFound)
    );
}

#[test]
fn test_extract_logic_methods() {
    // The text of one source file
    let source = "
        fn example_function() {
            let x = 5;
            println!(\"Example function: {}\", x);
        }

        fn another_function() -> i32 {
            42
        }
        \n";

    // Run function on the texts of the repository
    let lang_settings = create_lang_settings(&Lang::Rust).unwrap();
    let methods = extract_logic_methods(&vec![source.to_string()], &lang_settings);

    // Verify results
    assert_eq!(methods.len(), 2);
    assert_eq!(methods[0].method_name, "example_function");
    assert_eq!(methods[1].method_name, "another_function");
}

#[test]
fn test_start_analysis_valid_repo() {
    // The text of the one source file of the repository
    let source = "fn example_function() { println!(\"Hello, world!\"); }\n";

    let mock_repo = Command {
        repo: "repo".to_string(),
        lang: Lang::Rust,
    };

    let result = start_analysis(mock_repo, true, &vec![source.to_string()]);

    // The analysis handled the input: it ended with a report.
    assert!(result.is_ok());
    let report = result.unwrap();
    assert_eq!(report.total_logic, 1);
    assert_eq!(report.methods[0].method_id, "example_function");
    assert!(!report.methods[0].tested);
}

#[test]
fn parser_exists_for_four_extensions_only() {
    assert!(get_parser("rs").is_some());
    assert!(get_parser("py").is_some());
    assert!(get_parser("js").is_some());
    assert!(get_parser("cs").is_some());
    assert!(get_parser("rust").is_none());
    assert!(get_parser("").is_none());
    assert!(get_parser("RS").is_none());
}

#[test]
fn parsed_tree_holds_kinds_fields_and_spans() {
    let source = "fn é() {}\n";
    let mut parser = get_parser("rs").unwrap();
    let tree = parse_source(&mut parser, source).unwrap();
    assert_eq!(tree.kind, "source_file");
    assert_eq!(tree.field, None);
    assert_eq!((tree.start_byte, tree.end_byte), (0, source.len()));
    assert_eq!(tree.children.len(), 1);
    let function = &tree.children[0];
    assert_eq!(function.kind, "function_item");
    assert_eq!((function.start_byte, function.end_byte), (0, 10));
    let name = function
        .children
        .iter()
        .find(|c| c.field.as_deref() == Some("name"))
        .unwrap();
    assert_eq!(name.kind, "identifier");
    assert_eq!((name.start_byte, name.end_byte), (3, 5));
    assert_eq!(function.children[0].kind, "fn");
    assert_eq!(function.children[0].field, None);
}

#[test]
fn files_without_a_grammar_give_no_declarations() {
    let mut settings = create_lang_settings(&Lang::Rust).unwrap();
    settings.ext = "txt".to_string();
    let methods = extract_logic_methods(&vec!["fn a() {}".to_string()], &settings);
    assert_eq!(methods.len(), 0);
}

#[test]
fn nested_functions_are_found_in_parsed_rust() {
    let source = "mod m {\n    pub fn inner() {}\n    #[test]\n    fn checks() { inner(); }\n}\nimpl T {\n    fn method(&self) {}\n}\n";
    let settings = create_lang_settings(&Lang::Rust).unwrap();
    let methods = extract_logic_methods(&vec![source.to_string()], &settings);
    let found: Vec<(&str, bool)> = methods
        .iter()
        .map(|m| (m.method_name.as_str(), m.is_test))
        .collect();
    assert_eq!(
        found,
        vec![("inner", false), ("checks", true), ("method", false)]
    );
}

#[test]
fn analysis_of_an_unchanged_repository_is_the_same_each_time() {
    let sources = vec![
        "fn add(a, b) { a + b }\nfn sub(a, b) { a - b }\n".to_string(),
        "#[test]\nfn test_add() {\n    assert_eq!(add(1, 2), 3);\n}\n".to_string(),
    ];
    let first = start_analysis(
        Command {
            repo: String::from("repo"),
            lang: Lang::Rust,
        },
        true,
        &sources,
    );
    let second = start_analysis(
        Command {
            repo: String::from("repo"),
            lang: Lang::Rust,
        },
        true,
        &sources,
    );
    assert_eq!(first, second);
    let report = first.unwrap();
    assert_eq!(report.total_logic, 2);
    assert_eq!(report.tested_names, vec!["add".to_string()]);
    assert_eq!(report.percentage_hundredths(), 5000);
}

#[test]
fn source_that_is_no_program_does_not_end_the_run() {
    let sources = vec![
        "}}} fn ( { \u{0}\u{FFFD} é #[test] ((((".to_string(),
        String::new(),
        "fn add(a, b) { a + b }\n".to_string(),
    ];
    let report = start_analysis(
        Command {
            repo: String::from("repo"),
            lang: Lang::Rust,
        },
        true,
        &sources,
    )
    .unwrap();
    assert!(report.methods.iter().any(|m| m.method_id == "add"));
    assert_eq!(report.tested_count, 0);
}

#[test]
fn large_repository_is_analysed_in_source_order() {
    let mut logic = String::new();
    let mut tests = String::new();
    for i in 0..300 {
        logic.push_str(&format!(
            "/// Number {i}.\npub fn work_{i}(x: u64) -> u64 {{\n    x + {i}\n}}\n\n"
        ));
        if i % 3 == 0 {
            tests.push_str(&format!(
                "#[test]\nfn check_{i}() {{\n    let got = work_{i}(1);\n    assert_eq!(got, {i} + 1);\n}}\n\n"
            ));
        }
    }
    let report = start_analysis(
        Command {
            repo: String::from("repo"),
            lang: Lang::Rust,
        },
        true,
        &vec![logic, tests],
    )
    .unwrap();
    assert_eq!(report.total_logic, 300);
    assert_eq!(report.tested_count, 100);
    assert_eq!(report.percentage_hundredths(), 3333);
    assert_eq!(report.methods[0].method_id, "work_0");
    assert!(report.methods[0].tested);
    assert!(!report.methods[1].tested);
    assert_eq!(report.methods[299].method_id, "work_299");
    assert_eq!(report.tested_names[1], "work_3");
}

#[test]
fn file_nested_too_deep_counts_as_not_parsed() {
    let nested = |depth: usize| {
        format!(
            "fn f() {{ {}1{} }}\n",
            "(".repeat(depth),
            ")".repeat(depth)
        )
    };
    let settings = create_lang_settings(&Lang::Rust).unwrap();
    let shallow = extract_logic_methods(&vec![nested(1000)], &settings);
    assert_eq!(shallow.len(), 1);
    let deep = extract_logic_methods(
        &vec![nested(100000), "fn g() {}".to_string(), nested(3000)],
        &settings,
    );
    assert_eq!(deep.len(), 1);
    assert_eq!(deep[0].method_name, "g");
    let mut parser = get_parser("rs").unwrap();
    assert!(parse_source(&mut parser, &nested(100000)).is_none());
    assert!(parse_source(&mut parser, &nested(1000)).is_some());
}

fn reading_matches(node: &SyntaxNode, given: tree_sitter::Node, field: Option<&str>) {
    assert_eq!(node.kind, given.kind());
    assert_eq!(node.field.as_deref(), field);
    assert_eq!(node.start_byte, given.start_byte());
    assert_eq!(node.end_byte, given.end_byte());
    assert_eq!(node.children.len(), given.child_count() as usize);
    for (index, child) in node.children.iter().enumerate() {
        reading_matches(
            child,
            given.child(index as u32).unwrap(),
            given.field_name_for_child(index as u32),
        );
    }
}

#[test]
fn grammar_is_chosen_by_the_extension() {
    assert_eq!(grammar_for("rs"), Some(Grammar::Rust));
    assert_eq!(grammar_for("py"), Some(Grammar::Python));
    assert_eq!(grammar_for("js"), Some(Grammar::JavaScript));
    assert_eq!(grammar_for("cs"), Some(Grammar::CSharp));
    assert_eq!(grammar_for("rust"), None);
    assert_eq!(grammar_for(""), None);
    assert_eq!(grammar_for(".rs"), None);
}

#[test]
fn parser_is_handed_on_where_it_took_its_language() {
    assert!(parser_with_language(tree_sitter::Parser::new(), Ok(())).is_some());
    assert!(parser_with_language(
        tree_sitter::Parser::new(),
        Err(tree_sitter::LanguageError::NotParseable)
    )
    .is_none());
    assert!(parser_with_language(
        tree_sitter::Parser::new(),
        Err(tree_sitter::LanguageError::Version(0))
    )
    .is_none());
}

#[test]
fn tree_is_read_node_by_node() {
    let source = "/// Adds.\npub fn add(a: u64, b: u64) -> u64 {\n    a + b // é\n}\n\n#[test]\nfn t() { assert_eq!(add(1, 2), 3); }\n";
    let mut parser = tree_sitter::Parser::new();
    parser
        .set_language(&tree_sitter_rust::LANGUAGE.into())
        .unwrap();
    let parsed = parser.parse(source, None).unwrap();
    let tree = read_tree(&parsed).unwrap();
    reading_matches(&tree, parsed.root_node(), None);
    assert_eq!(tree.kind, "source_file");
    assert!(tree.children.len() >= 3);

    let source = "class A { [Fact] void B() { C(1); } }";
    let mut parser = tree_sitter::Parser::new();
    parser
        .set_language(&tree_sitter_c_sharp::LANGUAGE.into())
        .unwrap();
    let parsed = parser.parse(source, None).unwrap();
    let tree = read_tree(&parsed).unwrap();
    reading_matches(&tree, parsed.root_node(), None);
}

#[test]
fn tree_is_read_down_to_the_depth_bound_and_no_further() {
    let nested = |depth: usize| format!("{}1{}", "(".repeat(depth), ")".repeat(depth));
    let mut parser = tree_sitter::Parser::new();
    parser
        .set_language(&tree_sitter_javascript::LANGUAGE.into())
        .unwrap();
    let shallow = parser.parse(nested(100), None).unwrap();
    let tree = read_tree(&shallow).unwrap();
    reading_matches(&tree, shallow.root_node(), None);
    let deep = parser.parse(nested(3000), None).unwrap();
    assert!(read_tree(&deep).is_none());
    let empty = parser.parse("", None).unwrap();
    let tree = read_tree(&empty).unwrap();
    assert_eq!(tree.children.len(), 0);
    assert_eq!((tree.start_byte, tree.end_byte), (0, 0));
}

#[test]
fn rust_repository_with_the_test_on_one_line_is_not_covered() {
    let source = "fn add(a, b) { a + b }\n\n#[test]\nfn test_add() { assert_eq(add(1,2), 3) }\n";
    let command = Command {
        repo: String::from("repo"),
        lang: Lang::Rust,
    };
    let report = start_analysis(command, true, &vec![source.to_string()]).unwrap();
    assert_eq!(report.total_logic, 1);
    assert_eq!(report.tested_count, 0);
    assert!(report.tested_names.is_empty());
    assert_eq!(report.percentage_hundredths(), 0);
}
