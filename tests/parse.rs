use cucumber_runner::{parse, Error, Feature, FeatureItem, StepArg, StepKind};

fn lines(text: &str) -> Vec<String> {
    text.lines().map(|l| l.to_string()).collect()
}

fn parse_text(text: &str) -> Result<Feature, Error> {
    parse("test.feature", &lines(text))
}

fn fault(r: Result<Feature, Error>) -> (usize, String) {
    match r {
        Err(Error::ParseError(file, n, msg)) => {
            assert_eq!(file, "test.feature");
            (n, msg)
        }
        other => panic!("expected a parse error, got {:?}", other),
    }
}

fn scenario(f: &Feature, i: usize) -> &cucumber_runner::Scenario {
    match &f.items[i] {
        FeatureItem::Scenario(s) => s,
        other => panic!("expected a scenario, got {:?}", other),
    }
}

fn outline(f: &Feature, i: usize) -> &cucumber_runner::ScenarioOutline {
    match &f.items[i] {
        FeatureItem::ScenarioOutline(s) => s,
        other => panic!("expected an outline, got {:?}", other),
    }
}

#[test]
fn minimal_feature() {
    let f = parse_text("Feature: X\n  Scenario: Y\n    Given a thing\n").unwrap();
    assert_eq!(f.filename, "test.feature");
    assert_eq!(f.name.as_deref(), Some("X"));
    assert_eq!(f.items.len(), 1);
    let s = scenario(&f, 0);
    assert_eq!(s.name.as_deref(), Some("Y"));
    assert_eq!(s.lineno, 2);
    assert_eq!(s.steps.len(), 1);
    assert_eq!(s.steps[0].kind, StepKind::Given);
    assert_eq!(s.steps[0].definition, "a thing");
    assert_eq!(s.steps[0].lineno, 3);
    assert!(matches!(s.steps[0].arg, StepArg::NoArg));
}

#[test]
fn and_but_take_the_previous_kind() {
    let f = parse_text(
        "Feature: X\n Scenario: Y\n  Given a\n  And b\n  When c\n  But d\n  Then e\n  And f\n",
    )
    .unwrap();
    let kinds: Vec<StepKind> = scenario(&f, 0).steps.iter().map(|s| s.kind).collect();
    assert_eq!(
        kinds,
        vec![
            StepKind::Given,
            StepKind::Given,
            StepKind::When,
            StepKind::When,
            StepKind::Then,
            StepKind::Then
        ]
    );
    assert_eq!(scenario(&f, 0).steps[1].definition, "b");
}

#[test]
fn and_without_a_previous_step_is_refused() {
    let (n, msg) = fault(parse_text("Feature: X\n Scenario: Y\n  And b\n"));
    assert_eq!(n, 3);
    assert_eq!(msg, "And/But with no preceding step kind");
}

#[test]
fn parsing_twice_gives_equal_trees() {
    let text = "@t\nFeature: X\n Background:\n  Given g\n Scenario Outline: O\n  When <a>\n  Examples:\n   | a |\n   | 1 |\n";
    let a = parse_text(text).unwrap();
    let b = parse_text(text).unwrap();
    assert_eq!(format!("{:?}", a), format!("{:?}", b));
}

#[test]
fn doc_string_round_trip() {
    let f = parse_text(
        "Feature: X\n Scenario: Y\n  Given text\n    \"\"\"\nfirst | line\nGiven not a step\n    \"\"\"\n  Then done\n",
    )
    .unwrap();
    let s = scenario(&f, 0);
    assert_eq!(s.steps.len(), 2);
    match &s.steps[0].arg {
        StepArg::MultiLine(t) => assert_eq!(t, "first | line\nGiven not a step"),
        other => panic!("expected a doc-string, got {:?}", other),
    }
    assert_eq!(s.steps[1].kind, StepKind::Then);
}

#[test]
fn doc_string_closes_only_on_its_own_delimiter() {
    let f = parse_text("Feature: X\n Scenario: Y\n  Given t\n  '''\n  \"\"\"\n  '''\n").unwrap();
    match &scenario(&f, 0).steps[0].arg {
        StepArg::MultiLine(t) => assert_eq!(t, "  \"\"\""),
        other => panic!("expected a doc-string, got {:?}", other),
    }
}

#[test]
fn table_round_trip() {
    let f = parse_text("Feature: X\n Scenario: Y\n  Given rows\n   | a | b |\n   | 1 | 2 |\n")
        .unwrap();
    match &scenario(&f, 0).steps[0].arg {
        StepArg::Table(t) => assert_eq!(t, &vec![vec!["a", "b"], vec!["1", "2"]]),
        other => panic!("expected a table, got {:?}", other),
    }
}

#[test]
fn empty_file_is_refused() {
    let (n, msg) = fault(parse_text(""));
    assert_eq!(n, 0);
    assert_eq!(msg, "no Feature declared");
}

#[test]
fn blank_and_comment_file_is_refused() {
    let (n, msg) = fault(parse_text("\n   \n# a comment\n  # another\n"));
    assert_eq!(n, 4);
    assert_eq!(msg, "no Feature declared");
}

#[test]
fn trailing_tags_are_refused() {
    let (n, msg) = fault(parse_text("Feature: X\n Scenario: Y\n  Given a\n @late\n"));
    assert_eq!(n, 4);
    assert_eq!(msg, "tags not followed by a taggable declaration");
}

#[test]
fn tags_before_a_step_are_refused() {
    let (n, msg) = fault(parse_text("Feature: X\n Scenario: Y\n @t\n  Given a\n"));
    assert_eq!(n, 4);
    assert_eq!(msg, "tags not followed by a taggable declaration");
}

#[test]
fn unterminated_doc_string_is_refused() {
    let (n, msg) = fault(parse_text("Feature: X\n Scenario: Y\n  Given a\n  \"\"\"\n  body\n"));
    assert_eq!(n, 4);
    assert_eq!(msg, "unterminated multi-line argument");
}

#[test]
fn two_examples_blocks() {
    let f = parse_text(
        "Feature: X\n Scenario Outline: O\n  Given <a>\n  Examples: first\n   | a |\n   | 1 |\n  Examples: second\n   | a |\n   | 2 |\n   | 3 |\n",
    )
    .unwrap();
    let o = outline(&f, 0);
    assert_eq!(o.examples.len(), 2);
    assert_eq!(o.examples[0], vec![vec!["a"], vec!["1"]]);
    assert_eq!(o.examples[1], vec![vec!["a"], vec!["2"], vec!["3"]]);
    assert!(matches!(o.steps[0].arg, StepArg::NoArg));
}

#[test]
fn tags_language_description_and_background() {
    let f = parse_text(
        "Language: en\n@one @two\nFeature: Things\n  Some words\n  more words\n\n  Background:\n    Given base\n  @s\n  Scenario: S\n    about it\n    When w\n",
    )
    .unwrap();
    assert_eq!(f.language.as_deref(), Some("en"));
    assert_eq!(f.tags, vec!["one", "two"]);
    assert_eq!(f.description.as_deref(), Some("Some words\nmore words"));
    let bg = f.background.as_ref().unwrap();
    assert_eq!(bg.len(), 1);
    assert_eq!(bg[0].definition, "base");
    let s = scenario(&f, 0);
    assert_eq!(s.tags, vec!["s"]);
    assert_eq!(s.description.as_deref(), Some("about it"));
    assert_eq!(s.steps[0].kind, StepKind::When);
}

#[test]
fn feature_without_name() {
    let f = parse_text("Feature:\n").unwrap();
    assert_eq!(f.name, None);
    assert!(f.items.is_empty());
    assert!(f.background.is_none());
    assert!(f.tags.is_empty());
}

#[test]
fn keywords_ignore_case() {
    let f = parse_text("FEATURE: X\n scenario: Y\n  given a\n").unwrap();
    assert_eq!(scenario(&f, 0).steps[0].kind, StepKind::Given);
}

#[test]
fn language_after_feature_is_refused() {
    let (n, msg) = fault(parse_text("Feature: X\nLanguage: fr\n"));
    assert_eq!(n, 2);
    assert_eq!(msg, "unexpected language directive");
}

#[test]
fn second_feature_is_refused() {
    let (n, msg) = fault(parse_text("Feature: X\nFeature: Y\n"));
    assert_eq!(n, 2);
    assert_eq!(msg, "duplicate Feature declaration");
}

#[test]
fn free_text_after_a_step_is_refused() {
    let (n, msg) = fault(parse_text("Feature: X\n Scenario: Y\n  Given a\n  loose words\n"));
    assert_eq!(n, 4);
    assert_eq!(msg, "unexpected free text");
}

#[test]
fn free_text_before_feature_is_refused() {
    let (n, msg) = fault(parse_text("hello\nFeature: X\n"));
    assert_eq!(n, 1);
    assert_eq!(msg, "unexpected free text");
}

#[test]
fn scenario_before_feature_is_refused() {
    let (n, msg) = fault(parse_text("Scenario: Y\n"));
    assert_eq!(n, 1);
    assert_eq!(msg, "unhandled line in state Header");
}

#[test]
fn step_in_header_is_refused() {
    let (n, msg) = fault(parse_text("Feature: X\n  Given a\n"));
    assert_eq!(n, 2);
    assert_eq!(msg, "unhandled line in state Header");
}

#[test]
fn examples_outside_outline_are_refused() {
    let (n, msg) = fault(parse_text("Feature: X\n Scenario: Y\n  Given a\n  Examples:\n"));
    assert_eq!(n, 4);
    assert_eq!(msg, "unhandled line in state Scenario");
}

#[test]
fn background_after_scenario_is_refused() {
    let (n, msg) = fault(parse_text("Feature: X\n Scenario: Y\n Background:\n"));
    assert_eq!(n, 3);
    assert_eq!(msg, "unhandled line in state Scenario");
}

#[test]
fn table_without_step_is_refused() {
    let (n, msg) = fault(parse_text("Feature: X\n Background:\n  | a |\n"));
    assert_eq!(n, 3);
    assert_eq!(msg, "unhandled line in state Background");
}

#[test]
fn unclassifiable_line_is_refused() {
    let (n, msg) = fault(parse_text("Feature: X\n| a # b | c\n"));
    assert_eq!(n, 2);
    assert_eq!(msg, "cannot classify line: | a # b | c");
}

#[test]
fn table_continues_after_blank_line() {
    let f = parse_text("Feature: X\n Scenario: Y\n  Given a\n  | a |\n\n  # note\n  | b |\n").unwrap();
    match &scenario(&f, 0).steps[0].arg {
        StepArg::Table(t) => assert_eq!(t, &vec![vec!["a"], vec!["b"]]),
        other => panic!("expected a table, got {:?}", other),
    }
}

#[test]
fn step_after_examples_takes_a_table() {
    let f = parse_text(
        "Feature: X\n Scenario Outline: O\n  Given <a>\n  Examples:\n   | a |\n   | 1 |\n  Then rows\n   | x |\n",
    )
    .unwrap();
    let o = outline(&f, 0);
    assert_eq!(o.examples, vec![vec![vec!["a"], vec!["1"]]]);
    match &o.steps[1].arg {
        StepArg::Table(t) => assert_eq!(t, &vec![vec!["x"]]),
        other => panic!("expected a table, got {:?}", other),
    }
}

#[test]
fn no_break_space_file_is_refused_as_empty() {
    let (n, msg) = fault(parse_text("\u{a0}\n\u{3000} \u{2003}\n"));
    assert_eq!(n, 2);
    assert_eq!(msg, "no Feature declared");
}

#[test]
fn unicode_blank_line_before_a_step_is_ignored() {
    let f = parse_text("Feature: X\n Scenario: Y\n\u{a0}\u{a0}\n  Given\u{a0}a thing\u{a0}\n   |\u{a0}a\u{3000}|\n")
        .unwrap();
    let s = scenario(&f, 0);
    assert_eq!(s.description, None);
    assert_eq!(s.steps[0].kind, StepKind::Given);
    assert_eq!(s.steps[0].definition, "a thing");
    match &s.steps[0].arg {
        StepArg::Table(t) => assert_eq!(t, &vec![vec!["a"]]),
        other => panic!("expected a table, got {:?}", other),
    }
}

#[test]
fn comments_are_not_content() {
    let f = parse_text("Feature: X # note\n Scenario: Y\n  Given a thing  # why\n   | a # b | c |  # end\n").unwrap();
    assert_eq!(f.name.as_deref(), Some("X"));
    let s = scenario(&f, 0);
    assert_eq!(s.steps[0].definition, "a thing");
    match &s.steps[0].arg {
        StepArg::Table(t) => assert_eq!(t, &vec![vec!["a # b", "c"]]),
        other => panic!("expected a table, got {:?}", other),
    }
}

#[test]
fn error_constructors() {
    match Error::from_str("boom") {
        Error::Misc(m) => assert_eq!(m, "boom"),
        other => panic!("{:?}", other),
    }
    match Error::parse_error("a.feature", 7, "bad") {
        Error::ParseError(f, n, m) => {
            assert_eq!(f, "a.feature");
            assert_eq!(n, 7);
            assert_eq!(m, "bad");
        }
        other => panic!("{:?}", other),
    }
}

#[test]
fn parser_fed_line_by_line() {
    let mut p = cucumber_runner::Parser::new("x.feature");
    p.feed(1, "Feature: F").unwrap();
    p.feed(2, "Scenario: S").unwrap();
    p.feed(3, "Then t").unwrap();
    let f = p.finish(3).unwrap();
    assert_eq!(scenario(&f, 0).steps[0].kind, StepKind::Then);
}

#[test]
fn error_messages() {
    assert_eq!(Error::from_str("boom").message(), "Misc error: boom");
    assert_eq!(
        Error::parse_error("a.feature", 120, "bad").message(),
        "a.feature: 120: parse error: bad"
    );
    assert_eq!(Error::parse_error("b", 0, "x").message(), "b: 0: parse error: x");
    assert_eq!(Error::IO("gone".to_string()).message(), "gone");
    let err = parse_text("Feature: X\nFeature: Y\n").unwrap_err();
    assert_eq!(err.message(), "test.feature: 2: parse error: duplicate Feature declaration");
}
