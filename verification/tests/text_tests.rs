use coverall::text::{
    after_last_token, chars_of, find_char, find_last_char, find_last_token, find_token,
    is_whitespace_char, matches_at, same_text, split_lines, split_top_level_chars, trim_chars,
};

fn text_chars(s: &str) -> Vec<char> {
    s.chars().collect()
}

fn text_strings(pieces: Vec<Vec<char>>) -> Vec<String> {
    pieces.into_iter().map(|p| p.into_iter().collect()).collect()
}

#[test]
fn chars_of_gives_the_characters_in_order() {
    assert_eq!(chars_of("añ→b"), vec!['a', 'ñ', '→', 'b']);
    assert_eq!(chars_of(""), Vec::<char>::new());
}

#[test]
fn white_space_is_what_the_standard_library_calls_white_space() {
    for code in 0u32..=0x10FFFF {
        if let Some(c) = char::from_u32(code) {
            assert_eq!(is_whitespace_char(c), c.is_whitespace(), "code point {}", code);
        }
    }
    assert!(is_whitespace_char('\u{2003}'));
    assert!(!is_whitespace_char('\u{FEFF}'));
}

#[test]
fn trim_chars_removes_white_space_at_both_ends_only() {
    assert_eq!(trim_chars(&text_chars("  a b \t\r\n")), text_chars("a b"));
    assert_eq!(trim_chars(&text_chars("\u{3000}x\u{00A0}")), text_chars("x"));
    assert_eq!(trim_chars(&text_chars(" \t ")), text_chars(""));
    assert_eq!(trim_chars(&text_chars("")), text_chars(""));
    assert_eq!(trim_chars(&text_chars("ab")), text_chars("ab"));
}

#[test]
fn matches_at_compares_in_place() {
    let text = text_chars("abcabc");
    assert!(matches_at(&text, &text_chars("abc"), 0));
    assert!(matches_at(&text, &text_chars("abc"), 3));
    assert!(!matches_at(&text, &text_chars("abc"), 1));
    assert!(!matches_at(&text, &text_chars("abc"), 4));
    assert!(matches_at(&text, &text_chars(""), 6));
    assert!(!matches_at(&text, &text_chars(""), 7));
    assert!(!matches_at(&text, &text_chars("abcabcd"), 0));
    assert!(!matches_at(&text, &text_chars("c"), usize::MAX));
}

#[test]
fn find_token_gives_the_first_and_find_last_token_the_last_place() {
    let text = text_chars("a::b::c");
    let sep = text_chars("::");
    assert_eq!(find_token(&text, &sep), Some(1));
    assert_eq!(find_last_token(&text, &sep), Some(4));
    assert_eq!(find_token(&text, &text_chars("x")), None);
    assert_eq!(find_last_token(&text, &text_chars("x")), None);
    assert_eq!(find_token(&text, &text_chars("")), Some(0));
    assert_eq!(find_last_token(&text, &text_chars("")), Some(7));
    assert_eq!(find_token(&text_chars("ab"), &text_chars("abc")), None);
    assert_eq!(find_last_token(&text_chars("aaa"), &text_chars("aa")), Some(1));
}

#[test]
fn find_char_gives_the_first_and_find_last_char_the_last_place() {
    let text = text_chars("f(g(x))");
    assert_eq!(find_char(&text, '('), Some(1));
    assert_eq!(find_last_char(&text, '('), Some(3));
    assert_eq!(find_char(&text, ')'), Some(5));
    assert_eq!(find_last_char(&text, ')'), Some(6));
    assert_eq!(find_char(&text, '='), None);
    assert_eq!(find_last_char(&text_chars(""), ')'), None);
}

#[test]
fn after_last_token_keeps_what_follows_the_last_separator() {
    assert_eq!(
        after_last_token(&text_chars("a.b.c"), &text_chars(".")),
        text_chars("c")
    );
    assert_eq!(
        after_last_token(&text_chars("a::b::c"), &text_chars("::")),
        text_chars("c")
    );
    assert_eq!(
        after_last_token(&text_chars("abc"), &text_chars(".")),
        text_chars("abc")
    );
    assert_eq!(
        after_last_token(&text_chars("abc."), &text_chars(".")),
        text_chars("")
    );
    assert_eq!(
        after_last_token(&text_chars("a.b"), &text_chars("")),
        text_chars("a.b")
    );
}

#[test]
fn split_top_level_cuts_only_at_commas_outside_parentheses() {
    assert_eq!(
        text_strings(split_top_level_chars(&text_chars("add(1,2),3"))),
        vec!["add(1,2)", "3"]
    );
    assert_eq!(
        text_strings(split_top_level_chars(&text_chars("a,b,,c"))),
        vec!["a", "b", "", "c"]
    );
    assert_eq!(
        text_strings(split_top_level_chars(&text_chars(""))),
        vec![""]
    );
    assert_eq!(
        text_strings(split_top_level_chars(&text_chars("f(g(1,2),h(3)),k"))),
        vec!["f(g(1,2),h(3))", "k"]
    );
    // a closing parenthesis that closes nothing does not hide the commas behind it
    assert_eq!(
        text_strings(split_top_level_chars(&text_chars("a),b"))),
        vec!["a)", "b"]
    );
    // an opening parenthesis that is never closed hides them
    assert_eq!(
        text_strings(split_top_level_chars(&text_chars("a(,b"))),
        vec!["a(,b"]
    );
}

#[test]
fn split_lines_cuts_at_line_feeds_as_the_standard_library_does() {
    assert_eq!(split_lines("a\r\nb\n\nc"), vec!["a", "b", "", "c"]);
    assert_eq!(split_lines("a\nb\n"), vec!["a", "b"]);
    assert_eq!(split_lines(""), Vec::<String>::new());
    assert_eq!(split_lines("\n"), vec![""]);
    assert_eq!(split_lines("one line"), vec!["one line"]);
    for text in [
        "",
        "\n",
        "\r\n",
        "a\r",
        "a\r\n\r\nb\r",
        "  x\ty  \n\n\n",
        "\r\r\n",
        "fn f() {\n    1\n}\n",
    ] {
        let expected: Vec<String> = text.lines().map(|l| l.to_string()).collect();
        assert_eq!(split_lines(text), expected, "text {:?}", text);
    }
}

#[test]
fn same_text_compares_character_by_character() {
    assert!(same_text("function_item", "function_item"));
    assert!(!same_text("function_item", "function_items"));
    assert!(!same_text("a", "b"));
    assert!(same_text("", ""));
}
