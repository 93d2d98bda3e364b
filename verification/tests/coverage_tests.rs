use coverall::codeanalysis::create_lang_settings;
use coverall::coverage::{
    generate_method_level_coverage_report, identify_tested, method_identifier, name_set,
    CoverageResult, MethodCoverage,
};
use coverall::utils::{Lang, Method};

fn report_method(class: &str, name: &str, is_test: bool) -> Method {
    Method {
        class_name: class.to_string(),
        method_name: name.to_string(),
        body: vec![],
        is_test,
        start_byte: 0,
        end_byte: 0,
    }
}

fn report_entry(id: &str, tested: bool) -> MethodCoverage {
    MethodCoverage {
        method_id: id.to_string(),
        tested,
    }
}

fn report_counts(tested_count: usize, total_logic: usize) -> CoverageResult {
    CoverageResult {
        total_logic,
        tested_count,
        tested_names: vec![],
        methods: vec![],
    }
}

#[test]
fn report_lists_logic_declarations_under_their_identifier() {
    let settings = create_lang_settings(&Lang::Csharp).unwrap();
    let data = vec![
        report_method("Calc", "Add", false),
        report_method("CalcTests", "AddWorks", true),
        report_method("Calc", "Sub", false),
        report_method("", "Free", false),
        report_method("Other", "Add", false),
    ];
    let tests = vec![
        "Calc.Add".to_string(),
        ".Free".to_string(),
        "CalcTests.AddWorks".to_string(),
        "Missing.Name".to_string(),
        "Sub".to_string(),
    ];
    let report = generate_method_level_coverage_report(&data, &tests, &settings);
    assert_eq!(
        report,
        CoverageResult {
            total_logic: 4,
            tested_count: 2,
            tested_names: vec!["Calc.Add".to_string(), ".Free".to_string()],
            methods: vec![
                report_entry("Calc.Add", true),
                report_entry("Calc.Sub", false),
                report_entry(".Free", true),
                report_entry("Other.Add", false),
            ],
        }
    );
    assert_eq!(report.percentage_hundredths(), 5000);
}

#[test]
fn report_uses_bare_names_without_containers() {
    let settings = create_lang_settings(&Lang::Rust).unwrap();
    let data = vec![
        report_method("Ignored", "add", false),
        report_method("", "sub", false),
        report_method("", "add", false),
        report_method("", "test_add", true),
    ];
    let tests = vec!["add".to_string(), "test_add".to_string()];
    let report = generate_method_level_coverage_report(&data, &tests, &settings);
    assert_eq!(report.total_logic, 3);
    assert_eq!(report.tested_count, 2);
    assert_eq!(report.tested_names, vec!["add"]);
    assert_eq!(
        report.methods,
        vec![
            report_entry("add", true),
            report_entry("sub", false),
            report_entry("add", true),
        ]
    );
    assert_eq!(report.percentage_hundredths(), 6666);
}

#[test]
fn report_without_logic_declarations_has_zero_percent() {
    let settings = create_lang_settings(&Lang::Rust).unwrap();
    let none = generate_method_level_coverage_report(&vec![], &vec!["a".to_string()], &settings);
    assert_eq!(none, report_counts(0, 0));
    assert_eq!(none.percentage_hundredths(), 0);
    assert_eq!(none.percentage_hundredths() as f64 / 100.0, 0.0);
    let only_tests = generate_method_level_coverage_report(
        &vec![report_method("", "a", true), report_method("", "b", true)],
        &vec!["a".to_string()],
        &settings,
    );
    assert_eq!(only_tests, report_counts(0, 0));
    assert_eq!(only_tests.percentage_hundredths(), 0);
}

#[test]
fn percentage_is_counted_in_hundredths_and_rounded_down() {
    assert_eq!(report_counts(0, 0).percentage_hundredths(), 0);
    assert_eq!(report_counts(5, 0).percentage_hundredths(), 0);
    assert_eq!(report_counts(0, 7).percentage_hundredths(), 0);
    assert_eq!(report_counts(7, 7).percentage_hundredths(), 10000);
    assert_eq!(report_counts(1, 3).percentage_hundredths(), 3333);
    assert_eq!(report_counts(2, 3).percentage_hundredths(), 6666);
    assert_eq!(report_counts(1, 8).percentage_hundredths(), 1250);
    assert_eq!(report_counts(1, 10001).percentage_hundredths(), 0);
    assert_eq!(report_counts(3, 2).percentage_hundredths(), 15000);
    assert_eq!(
        report_counts(usize::MAX, usize::MAX).percentage_hundredths(),
        10000
    );
    assert_eq!(
        report_counts(usize::MAX, 1).percentage_hundredths(),
        usize::MAX as u128 * 10000
    );
}

#[test]
fn tested_identifiers_come_once_and_in_source_order() {
    let csharp = create_lang_settings(&Lang::Csharp).unwrap();
    let rust = create_lang_settings(&Lang::Rust).unwrap();
    let methods = vec![
        report_method("B", "Run", false),
        report_method("A", "Stop", false),
        report_method("A", "Run", false),
        report_method("B", "Run", false),
        report_method("T", "Run", true),
        report_method("A", "Idle", false),
    ];
    let matched = vec![
        "Stop".to_string(),
        "Run".to_string(),
        "Run".to_string(),
        "Gone".to_string(),
    ];
    assert_eq!(
        identify_tested(&methods, &matched, &csharp),
        vec!["B.Run", "A.Stop", "A.Run"]
    );
    assert_eq!(identify_tested(&methods, &matched, &rust), vec!["Run", "Stop"]);
    assert_eq!(
        identify_tested(&methods, &vec![], &rust),
        Vec::<String>::new()
    );
}

#[test]
fn identifier_joins_class_and_name_with_a_dot() {
    assert_eq!(method_identifier(&report_method("A", "b", false), true), "A.b");
    assert_eq!(method_identifier(&report_method("A", "b", false), false), "b");
    assert_eq!(method_identifier(&report_method("", "b", true), true), ".b");
    assert_eq!(method_identifier(&report_method("A", "", false), true), "A.");
}

#[test]
fn name_set_holds_each_text_once() {
    let set = name_set(&vec!["a".to_string(), "b".to_string(), "a".to_string()]);
    assert_eq!(set.len(), 2);
    assert!(set.contains("a"));
    assert!(set.contains("b"));
    assert!(!set.contains("c"));
    assert!(name_set(&vec![]).is_empty());
}
