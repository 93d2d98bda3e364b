use coverall::calls::{
    argument_list_of, assertion_candidates_of, call_prefix_candidates_of,
    call_site_candidates_of, call_target_of, member_name_of, parentheses_of, record_hits,
};
use coverall::coverage::name_set;

fn line_chars(s: &str) -> Vec<char> {
    s.chars().collect()
}

fn line_text(v: Vec<char>) -> String {
    v.into_iter().collect()
}

fn line_texts(pieces: Vec<Vec<char>>) -> Vec<String> {
    pieces.into_iter().map(line_text).collect()
}

#[test]
fn parentheses_are_the_first_opening_and_the_last_closing() {
    assert_eq!(parentheses_of(&line_chars("f(g(x), y)")), Some((1, 9)));
    assert_eq!(parentheses_of(&line_chars("()")), Some((0, 1)));
    assert_eq!(parentheses_of(&line_chars("a)b(c)d(")), Some((3, 5)));
    assert_eq!(parentheses_of(&line_chars(")(")), None);
    assert_eq!(parentheses_of(&line_chars("f(x")), None);
    assert_eq!(parentheses_of(&line_chars("x)")), None);
    assert_eq!(parentheses_of(&line_chars("")), None);
}

#[test]
fn argument_list_stands_between_the_parentheses() {
    assert_eq!(
        argument_list_of(&line_chars("f(g(x), y);")).map(line_text),
        Some("g(x), y".to_string())
    );
    assert_eq!(
        argument_list_of(&line_chars("f()")).map(line_text),
        Some(String::new())
    );
    assert_eq!(argument_list_of(&line_chars(")f(")), None);
    assert_eq!(argument_list_of(&line_chars("no call")), None);
}

#[test]
fn member_name_is_what_follows_the_last_separator() {
    assert_eq!(
        line_text(member_name_of(&line_chars(" a.b . c "), &line_chars("."))),
        "c"
    );
    assert_eq!(
        line_text(member_name_of(&line_chars("a::b.c"), &line_chars("::"))),
        "b.c"
    );
    assert_eq!(
        line_text(member_name_of(&line_chars("  plain\t"), &line_chars("."))),
        "plain"
    );
    assert_eq!(
        line_text(member_name_of(&line_chars("a."), &line_chars("."))),
        ""
    );
    assert_eq!(
        line_text(member_name_of(&line_chars("a.b"), &line_chars(""))),
        "a.b"
    );
}

#[test]
fn call_target_passes_over_the_assigned_variable() {
    let dot = line_chars(".");
    assert_eq!(
        line_text(call_target_of(&line_chars("result=obj.compute"), &dot)),
        "compute"
    );
    assert_eq!(line_text(call_target_of(&line_chars("x = helper"), &dot)), "helper");
    assert_eq!(line_text(call_target_of(&line_chars("helper"), &dot)), "helper");
    assert_eq!(
        line_text(call_target_of(&line_chars("a = b == c.d"), &dot)),
        "d"
    );
    assert_eq!(
        line_text(call_target_of(&line_chars("a.b = c"), &dot)),
        "c"
    );
    assert_eq!(line_text(call_target_of(&line_chars("x ="), &dot)), "");
}

#[test]
fn assertion_candidates_come_argument_by_argument() {
    let dot = line_chars(".");
    assert_eq!(
        line_texts(assertion_candidates_of(
            &line_chars("assert_eq(double(3),6)"),
            &dot
        )),
        vec!["double", "double(3)", "6"]
    );
    assert_eq!(
        line_texts(assertion_candidates_of(
            &line_chars("Assert.Equal(a.Sum(x, y), b )"),
            &dot
        )),
        vec!["Sum", "a.Sum(x, y)", "b"]
    );
    assert_eq!(
        line_texts(assertion_candidates_of(&line_chars("assert()"), &dot)),
        vec![""]
    );
    assert_eq!(
        line_texts(assertion_candidates_of(&line_chars("assert"), &dot)),
        Vec::<String>::new()
    );
    // a piece with parentheses the wrong way round is no call, and the comma behind
    // its opening parenthesis is enclosed
    assert_eq!(
        line_texts(assertion_candidates_of(&line_chars("f(a)b(,c)"), &dot)),
        vec!["a)b(,c"]
    );
    assert_eq!(
        line_texts(assertion_candidates_of(&line_chars("f(a),b(c)"), &dot)),
        vec!["a)", "b(c"]
    );
}

#[test]
fn call_prefix_candidate_is_read_in_front_of_the_first_parenthesis() {
    let dot = line_chars(".");
    assert_eq!(
        line_texts(call_prefix_candidates_of(&line_chars("x=a.f(g(1))"), &dot)),
        vec!["f"]
    );
    assert_eq!(
        line_texts(call_prefix_candidates_of(&line_chars("(1)"), &dot)),
        vec![""]
    );
    assert_eq!(
        line_texts(call_prefix_candidates_of(&line_chars("x=1;"), &dot)),
        Vec::<String>::new()
    );
}

#[test]
fn call_site_candidates_are_read_at_every_parenthesis() {
    let dot = line_chars(".");
    assert_eq!(
        line_texts(call_site_candidates_of(&line_chars("x = a.f(g(1), y = h(2))"), &dot)),
        vec!["f", "g", "h"]
    );
    assert_eq!(
        line_texts(call_site_candidates_of(&line_chars("f(("), &dot)),
        vec!["f", ""]
    );
    assert_eq!(
        line_texts(call_site_candidates_of(&line_chars("f)"), &dot)),
        Vec::<String>::new()
    );
}

#[test]
fn hits_are_the_candidates_that_name_something() {
    let names = name_set(&vec!["a".to_string(), "b".to_string(), "".to_string()]);
    let candidates = vec![
        line_chars("b"),
        line_chars(""),
        line_chars("c"),
        line_chars("a"),
        line_chars("b"),
        line_chars(" a"),
    ];
    let mut tested = vec!["first".to_string()];
    record_hits(&candidates, &names, &mut tested);
    assert_eq!(tested, vec!["first", "b", "a", "b"]);
    record_hits(&vec![], &names, &mut tested);
    assert_eq!(tested, vec!["first", "b", "a", "b"]);
}
