use owlbot::commands::{command_text, ChatCommands, COMMAND_COUNT};

#[test]
fn exact_command() {
    let (m, s, p) = ChatCommands::is_command("hello");
    assert_eq!(m, Some(ChatCommands::Hello));
    assert_eq!(s, None);
    assert!(p.is_empty());
}

#[test]
fn command_with_parameters() {
    let (m, s, p) = ChatCommands::is_command("HeLLo there World");
    assert_eq!(m, Some(ChatCommands::Hello));
    assert_eq!(s, None);
    assert_eq!(p, vec!["there", "World"]);
}

#[test]
fn shoutout_with_name() {
    let (m, s, p) = ChatCommands::is_command("so SomeStreamer");
    assert_eq!(m, Some(ChatCommands::SO));
    assert_eq!(s, None);
    assert_eq!(p, vec!["SomeStreamer"]);
}

#[test]
fn typo_is_matched() {
    assert_eq!(ChatCommands::is_command("helo").0, Some(ChatCommands::Hello));
    assert_eq!(ChatCommands::is_command("tran").0, Some(ChatCommands::Train));
    assert_eq!(ChatCommands::is_command("rankz").0, Some(ChatCommands::Ranks));
    assert_eq!(ChatCommands::is_command("qd").0, Some(ChatCommands::QOD));
    assert_eq!(ChatCommands::is_command("lurkin").0, Some(ChatCommands::Lurking));
}

#[test]
fn near_miss_is_suggested() {
    assert_eq!(ChatCommands::is_command("hxllx"), (None, Some(ChatCommands::Hello), vec![]));
    assert_eq!(ChatCommands::is_command("threm"), (None, Some(ChatCommands::Theme), vec![]));
}

#[test]
fn shoutout_is_never_suggested() {
    assert_eq!(ChatCommands::is_command("sxx"), (None, None, vec![]));
    assert_eq!(ChatCommands::is_command("shutot"), (None, None, vec![]));
}

#[test]
fn lurk_near_miss_is_matched() {
    assert_eq!(ChatCommands::is_command("lurker"), (Some(ChatCommands::Lurk), None, vec![]));
    assert_eq!(ChatCommands::is_command("lurkrs").0, Some(ChatCommands::Lurk));
}

#[test]
fn unknown_word_is_no_command() {
    assert_eq!(ChatCommands::is_command("xyzzy"), (None, None, vec![]));
    assert_eq!(ChatCommands::is_command(""), (None, None, vec![]));
    assert_eq!(ChatCommands::is_command("hellö"), (None, None, vec![]));
}

#[test]
fn catalog_lists_every_command_once() {
    let all = ChatCommands::all_variants();
    assert_eq!(all.len(), COMMAND_COUNT);
    for (i, c) in all.iter().enumerate() {
        assert_eq!(c.index(), i);
        assert_eq!(ChatCommands::from_index(i), *c);
        assert_eq!(c.name(), c.label().to_ascii_lowercase());
    }
    let catalog = ChatCommands::catalog();
    assert_eq!(catalog.names.len(), COMMAND_COUNT);
    for i in 0..COMMAND_COUNT {
        for j in 0..COMMAND_COUNT {
            assert!(i == j || catalog.names[i] != catalog.names[j]);
        }
    }
}

#[test]
fn labels_are_shown_as_declared() {
    assert_eq!(ChatCommands::HowToQuote.label(), "HowToQuote");
    assert_eq!(ChatCommands::HowToQuote.name(), "howtoquote");
    assert_eq!(ChatCommands::QuestionOfTheDay.name(), "questionoftheday");
}

#[test]
fn command_prefix_is_stripped() {
    assert_eq!(command_text("!so Bob"), Some("so Bob"));
    assert_eq!(command_text("!"), Some(""));
    assert_eq!(command_text("hello !so"), None);
    assert_eq!(command_text(""), None);
    assert_eq!(command_text("!é"), Some("é"));
}
