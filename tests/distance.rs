use owlbot::commands::ChatCommands;
use owlbot::distance::{chars_of, distance, levenshtein_within};

#[test]
fn classic_distance() {
    assert_eq!(distance("kitten", "sitting"), 3);
}

#[test]
fn one_edit_distances() {
    assert_eq!(distance("hello", "helo"), 1);
    assert_eq!(distance("train", "trains"), 1);
    assert_eq!(distance("theme", "thene"), 1);
    assert_eq!(distance("theme", "thyne"), 2);
}

#[test]
fn distance_is_symmetric() {
    let pairs = [("hello", "helo"), ("kitten", "sitting"), ("", "abc"), ("lurk", "lurker"), ("qod", "so")];
    for (a, b) in pairs {
        assert_eq!(distance(a, b), distance(b, a));
    }
}

#[test]
fn distance_to_self_is_zero() {
    for a in ["", "a", "hello", "questionoftheday"] {
        assert_eq!(distance(a, a), 0);
    }
}

#[test]
fn distance_against_empty_is_length() {
    assert_eq!(distance("", "abcd"), 4);
    assert_eq!(distance("abcd", ""), 4);
}

#[test]
fn distance_beyond_cap_is_eleven() {
    assert_eq!(distance("", "abcdefghijklmnopqrstuvwxyz"), 11);
    assert_eq!(distance("aaaaaaaaaaaaaaaa", "bbbbbbbbbbbbbbbb"), 11);
    assert_eq!(distance("aaaaaaaaaa", "bbbbbbbbbb"), 10);
}

#[test]
fn limited_distance_stops_at_limit() {
    let a = chars_of("kitten");
    let b = chars_of("sitting");
    assert_eq!(levenshtein_within(&a, &b, 2), 2);
    assert_eq!(levenshtein_within(&a, &b, 3), 3);
    assert_eq!(levenshtein_within(&a, &b, 9), 3);
    assert_eq!(levenshtein_within(&a, &b, 0), 0);
}

#[test]
fn budgeted_distance() {
    assert_eq!(ChatCommands::levenshtein_distance("kitten", "sitting", 0), 3);
    assert_eq!(ChatCommands::levenshtein_distance("kitten", "sitting", 9), 2);
    assert_eq!(ChatCommands::levenshtein_distance("kitten", "sitting", 11), 11);
    assert_eq!(ChatCommands::levenshtein_distance("hello", "hello", 10), 0);
}
