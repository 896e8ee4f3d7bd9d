use minigrep::parser::{line_contains, split_lines, Parser, SearchMode};

const CONTENT: &str = "Lorem ipsum\nFlying Cat\nflying dog\nLOREM IPSUM\nlorem\nflying cat";

#[test]
fn case_sensitive_1() {
    let content = "Lorem ipsum\nFlying Cat\nflying dog\nLOREM IPSUM\nlorem\nflying cat";
    let result = Parser::new(&SearchMode::CaseSensitive).parse("lorem", content);

    assert_eq!(vec!["lorem"], result);
}

#[test]
fn case_sensitive_2() {
    let content = "Lorem ipsum\nFlying Cat\nflying dog\nLOREM IPSUM\nlorem\nflying cat";
    let result = Parser::new(&SearchMode::CaseSensitive).parse("flying", content);

    assert_eq!(vec!["flying dog", "flying cat"], result);
}

#[test]
fn case_sensitive_3() {
    let content = "Lorem ipsum\nFlying Cat\nflying dog\nLOREM IPSUM\nlorem\nflying cat";
    let result = Parser::new(&SearchMode::CaseSensitive).parse("lOreM", content);

    let expected: Vec<String> = vec![];
    assert_eq!(expected, result);
}

#[test]
fn case_insensitive_1() {
    let content = "Lorem ipsum\nFlying Cat\nflying dog\nLOREM IPSUM\nlorem\nflying cat";
    let result = Parser::new(&SearchMode::CaseInsensitive).parse("lorem", content);

    assert_eq!(vec!["Lorem ipsum", "LOREM IPSUM", "lorem"], result);
}

#[test]
fn case_insensitive_2() {
    let content = "Lorem ipsum\nFlying Cat\nflying dog\nLOREM IPSUM\nlorem\nflying cat";
    let result = Parser::new(&SearchMode::CaseSensitive).parse("Flying Cat", content);

    assert_eq!(vec!["Flying Cat"], result);
}

#[test]
fn case_insensitive_3() {
    let content = "Lorem ipsum\nFlying Cat\nflying dog\nLOREM IPSUM\nlorem\nflying cat";
    let result = Parser::new(&SearchMode::CaseInsensitive).parse("LOREM", content);

    assert_eq!(vec!["Lorem ipsum", "LOREM IPSUM", "lorem"], result);
}

#[test]
fn insensitive_search_keeps_original_text() {
    let result = Parser::new(&SearchMode::CaseInsensitive).parse("FLYING CAT", CONTENT);
    assert_eq!(vec!["Flying Cat", "flying cat"], result);
}

#[test]
fn insensitive_search_folds_non_ascii_letters() {
    let result = Parser::new(&SearchMode::CaseInsensitive).parse("äpfel", "ÄPFEL\nbirnen\nÄpfelmus");
    assert_eq!(vec!["ÄPFEL", "Äpfelmus"], result);
    let strict = Parser::new(&SearchMode::CaseSensitive).parse("äpfel", "ÄPFEL\nbirnen\nÄpfelmus");
    assert!(strict.is_empty());
}

#[test]
fn search_twice_gives_same_lines() {
    for mode in [SearchMode::CaseSensitive, SearchMode::CaseInsensitive] {
        let parser = Parser::new(&mode);
        let first = parser.parse("lorem", CONTENT);
        let second = parser.parse("lorem", CONTENT);
        assert_eq!(first, second);
    }
}

#[test]
fn search_keeps_content_order() {
    let result = Parser::new(&SearchMode::CaseInsensitive).parse("i", "zeta\nfish\nalpha\nmid\nkiwi");
    assert_eq!(vec!["fish", "mid", "kiwi"], result);
}

#[test]
fn empty_query_matches_every_line() {
    let result = Parser::new(&SearchMode::CaseSensitive).parse("", "a\n\nb");
    assert_eq!(vec!["a", "", "b"], result);
}

#[test]
fn empty_content_has_no_matches() {
    let result = Parser::new(&SearchMode::CaseSensitive).parse("", "");
    assert!(result.is_empty());
    let result = Parser::new(&SearchMode::CaseInsensitive).parse("x", "");
    assert!(result.is_empty());
}

#[test]
fn repeated_occurrence_reports_line_once() {
    let result = Parser::new(&SearchMode::CaseSensitive).parse("ab", "abab\ncd\nab");
    assert_eq!(vec!["abab", "ab"], result);
}

#[test]
fn lines_split_at_newlines() {
    assert_eq!(vec!["a", "b"], split_lines("a\nb"));
    assert_eq!(vec!["a", "b"], split_lines("a\nb\n"));
    assert_eq!(vec!["a", "", "b"], split_lines("a\n\nb"));
    assert_eq!(vec![""], split_lines("\n"));
    assert_eq!(vec!["", ""], split_lines("\n\n"));
    let none: Vec<String> = vec![];
    assert_eq!(none, split_lines(""));
}

#[test]
fn containment_is_exact() {
    assert!(line_contains("flying dog", "dog"));
    assert!(line_contains("flying dog", "flying dog"));
    assert!(line_contains("flying dog", ""));
    assert!(line_contains("", ""));
    assert!(!line_contains("flying dog", "Dog"));
    assert!(!line_contains("dog", "dogs"));
    assert!(!line_contains("", "a"));
    assert!(line_contains("aaab", "aab"));
}

#[test]
fn crlf_endings_are_dropped() {
    assert_eq!(vec!["a", "b"], split_lines("a\r\nb\r\n"));
    assert_eq!(vec!["a", "", "b"], split_lines("a\r\n\r\nb"));
    assert_eq!(vec!["a", "b\r"], split_lines("a\r\nb\r"));
    assert_eq!(vec!["a\rb", "c"], split_lines("a\rb\nc"));
    assert_eq!(vec!["a\r", "b"], split_lines("a\r\r\nb"));
}

#[test]
fn crlf_content_is_searched_by_line() {
    let all = Parser::new(&SearchMode::CaseSensitive).parse("", "a\r\nb\r\n");
    assert_eq!(vec!["a", "b"], all);
    let folded = Parser::new(&SearchMode::CaseInsensitive).parse("", "a\r\n");
    assert_eq!(vec!["a"], folded);
    let found = Parser::new(&SearchMode::CaseInsensitive).parse("DOG", "Lorem\r\nflying dog\r\n");
    assert_eq!(vec!["flying dog"], found);
}
