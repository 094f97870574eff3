use owlbot::tokenizer::{is_whitespace, tokenize};

#[test]
fn splits_on_runs_of_whitespace() {
    assert_eq!(tokenize("  so \t bob\n  now "), vec!["so", "bob", "now"]);
}

#[test]
fn empty_line_has_no_tokens() {
    assert!(tokenize("").is_empty());
}

#[test]
fn blank_line_has_no_tokens() {
    assert!(tokenize(" \t\r\n ").is_empty());
}

#[test]
fn non_ascii_text_is_kept_whole() {
    assert_eq!(tokenize("héllo wörld"), vec!["héllo", "wörld"]);
}

#[test]
fn unicode_spaces_separate_tokens() {
    assert_eq!(tokenize("a\u{3000}b\u{a0}c\u{2003}d"), vec!["a", "b", "c", "d"]);
}

#[test]
fn whitespace_predicate_matches_std() {
    for c in ['\t', '\n', ' ', '\u{85}', '\u{a0}', '\u{1680}', '\u{2000}', '\u{200a}', '\u{2028}', '\u{2029}', '\u{202f}', '\u{205f}', '\u{3000}', 'a', '!', '\u{200b}', 'é'] {
        assert_eq!(is_whitespace(c), c.is_whitespace(), "{:?}", c);
    }
}

#[test]
fn joined_tokens_are_normalized_and_stable() {
    let line = "   !so   Bob \t  now\u{3000} ";
    let joined = tokenize(line).join(" ");
    assert_eq!(joined, "!so Bob now");
    assert!(!joined.starts_with(' ') && !joined.ends_with(' '));
    assert!(!joined.contains("  "));
    assert_eq!(tokenize(&joined), tokenize(line));
}

#[test]
fn tokens_keep_their_case() {
    assert_eq!(tokenize("MiXeD Case"), vec!["MiXeD", "Case"]);
}
