use owlbot::resolver::{resolve, Catalog, Resolution};

fn catalog(names: &[&str], ignorable: Vec<usize>, aliases: Vec<(usize, usize)>) -> Catalog {
    Catalog { names: names.iter().map(|n| n.to_string()).collect(), ignorable, aliases }
}

fn theme_train() -> Catalog {
    catalog(&["theme", "train"], vec![], vec![])
}

#[test]
fn empty_line_is_no_match() {
    let r = resolve("", &theme_train());
    assert_eq!(r.outcome, Resolution::NoMatch);
    assert!(r.parameters.is_empty());
}

#[test]
fn blank_line_is_no_match() {
    let r = resolve("  \t ", &theme_train());
    assert_eq!(r.outcome, Resolution::NoMatch);
    assert!(r.parameters.is_empty());
}

#[test]
fn non_ascii_line_is_no_match() {
    let r = resolve("thème", &theme_train());
    assert_eq!(r.outcome, Resolution::NoMatch);
    let r = resolve("theme café", &theme_train());
    assert_eq!(r.outcome, Resolution::NoMatch);
    assert!(r.parameters.is_empty());
}

#[test]
fn exact_name_in_any_case_matches() {
    for line in ["theme", "THEME", "ThEmE"] {
        let r = resolve(line, &theme_train());
        assert_eq!(r.outcome, Resolution::Matched(0));
        assert!(r.parameters.is_empty());
    }
}

#[test]
fn one_edit_typo_matches() {
    let c = catalog(&["hello"], vec![], vec![]);
    assert_eq!(resolve("helo", &c).outcome, Resolution::Matched(0));
    assert_eq!(resolve("trains", &theme_train()).outcome, Resolution::Matched(1));
}

#[test]
fn two_edit_near_miss_is_suggested() {
    assert_eq!(resolve("thyne", &theme_train()).outcome, Resolution::Suggested(0));
}

#[test]
fn far_token_is_no_match() {
    assert_eq!(resolve("xylophone", &theme_train()).outcome, Resolution::NoMatch);
}

#[test]
fn ignorable_suggestion_is_dropped() {
    let c = catalog(&["so", "hello"], vec![0], vec![]);
    assert_eq!(resolve("sxx", &c).outcome, Resolution::NoMatch);
    assert_eq!(resolve("sx", &c).outcome, Resolution::Matched(0));
}

#[test]
fn suggested_alias_is_promoted() {
    let c = catalog(&["hello", "lurk"], vec![], vec![(1, 1)]);
    assert_eq!(resolve("lurker", &c).outcome, Resolution::Matched(1));
    let c = catalog(&["hello", "lurk", "lurking"], vec![], vec![(1, 2)]);
    assert_eq!(resolve("lurker", &c).outcome, Resolution::Matched(2));
}

#[test]
fn later_confident_match_clears_suggestion() {
    let c = catalog(&["so", "qod"], vec![], vec![]);
    assert_eq!(resolve("qd", &c).outcome, Resolution::Matched(1));
}

#[test]
fn confident_match_beats_later_suggestion() {
    let c = catalog(&["train", "brain"], vec![], vec![]);
    assert_eq!(resolve("trainx", &c).outcome, Resolution::Matched(0));
}

#[test]
fn later_one_edit_match_replaces_earlier() {
    let c = catalog(&["rank", "ranks"], vec![], vec![]);
    assert_eq!(resolve("rankz", &c).outcome, Resolution::Matched(1));
}

#[test]
fn first_suggestion_at_equal_distance_wins() {
    let c = catalog(&["break", "bread"], vec![], vec![]);
    assert_eq!(resolve("brexx", &c).outcome, Resolution::Suggested(0));
}

#[test]
fn exact_match_stops_the_scan() {
    let c = catalog(&["rank", "ranks", "rank"], vec![], vec![]);
    assert_eq!(resolve("rank", &c).outcome, Resolution::Matched(0));
}

#[test]
fn parameters_keep_order_and_case() {
    for line in ["theme Foo BAR baz", "THYNE Foo BAR baz", "nothing Foo BAR baz"] {
        let r = resolve(line, &theme_train());
        assert_eq!(r.parameters, vec!["Foo", "BAR", "baz"]);
    }
}
