use owlbot::moderation::looks_like_spam;

#[test]
fn link_is_spam() {
    assert!(looks_like_spam("Check out cheapstuff.com now"));
    assert!(looks_like_spam("go to EXAMPLE.ORG"));
}

#[test]
fn dot_followed_by_non_letters_is_not_a_link() {
    assert!(!looks_like_spam("version 1.25 is out"));
    assert!(!looks_like_spam("wait... what"));
    assert!(!looks_like_spam("end of sentence. Next"));
    assert!(!looks_like_spam("a.b"));
}

#[test]
fn single_multibyte_letter_after_dot_is_a_link() {
    assert!(looks_like_spam("x.é"));
    assert!(looks_like_spam("x.é.y"));
}

#[test]
fn two_suspicious_words_are_spam() {
    assert!(looks_like_spam("Get FREE viewers"));
    assert!(looks_like_spam("cheap promotion"));
}

#[test]
fn one_suspicious_word_is_not_spam() {
    assert!(!looks_like_spam("nice view from here"));
    assert!(!looks_like_spam("free free free"));
    assert!(!looks_like_spam("hello everyone"));
    assert!(!looks_like_spam(""));
}
