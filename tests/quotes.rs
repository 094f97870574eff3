use owlbot::quotes::{asks_for_quote, quote_line};

#[test]
fn quote_requests_are_recognised() {
    assert!(asks_for_quote("Don't quote me on that"));
    assert!(asks_for_quote("lol DONT QUOTE"));
    assert!(asks_for_quote("please do not quote this"));
    assert!(!asks_for_quote("quote me"));
    assert!(!asks_for_quote("don't  quote"));
    assert!(!asks_for_quote(""));
}

#[test]
fn quotes_are_wrapped_and_signed() {
    assert_eq!(quote_line("owls are great", "bob"), "\"owls are great\" ~ bob");
    assert_eq!(quote_line("hi", "amy"), "\"hi\" ~ amy");
    assert_eq!(quote_line("", "amy"), "\"\" ~ amy");
}

#[test]
fn quote_commands_are_not_wrapped() {
    assert_eq!(quote_line("!quote something", "bob"), "!quote something ~ bob");
    assert_eq!(quote_line("!quote", "bob"), "!quote ~ bob");
    assert_eq!(quote_line("!QUOTE x", "bob"), "\"!QUOTE x\" ~ bob");
}
