use cucumber_runner::{parse_line, Error, Line};

fn classify(s: &str) -> Line {
    parse_line(s).unwrap()
}

#[test]
fn empty_and_comment_lines() {
    assert!(matches!(classify(""), Line::EmptyLine(0, None)));
    assert!(matches!(classify("   "), Line::EmptyLine(3, None)));
    match classify("  #  note here") {
        Line::EmptyLine(2, Some(c)) => assert_eq!(c, "note here"),
        other => panic!("{:?}", other),
    }
}

#[test]
fn keyword_lines() {
    match classify("Language: de") {
        Line::Language(0, None, c) => assert_eq!(c, "de"),
        other => panic!("{:?}", other),
    }
    match classify("  @a @b_2") {
        Line::Tags(2, None, t) => assert_eq!(t, vec!["a", "b_2"]),
        other => panic!("{:?}", other),
    }
    match classify("Feature: Things") {
        Line::Feature(0, None, Some(n)) => assert_eq!(n, "Things"),
        other => panic!("{:?}", other),
    }
    assert!(matches!(classify("Background:"), Line::Background(0, None)));
    match classify("\tScenario Outline: O") {
        Line::ScenarioOutline(1, None, Some(n)) => assert_eq!(n, "O"),
        other => panic!("{:?}", other),
    }
    assert!(matches!(classify("Scenario:"), Line::Scenario(0, None, None)));
    assert!(matches!(classify("Examples: more"), Line::Examples(0, None)));
}

#[test]
fn step_lines() {
    match classify("    Given  a thing") {
        Line::GivenStep(4, None, t) => assert_eq!(t, "a thing"),
        other => panic!("{:?}", other),
    }
    assert!(matches!(classify("When x"), Line::WhenStep(..)));
    assert!(matches!(classify("Then x"), Line::ThenStep(..)));
    assert!(matches!(classify("And x"), Line::AndStep(..)));
    assert!(matches!(classify("but x"), Line::ButStep(..)));
    match classify("Given") {
        Line::Other(0, None, t) => assert_eq!(t, "Given"),
        other => panic!("{:?}", other),
    }
    assert!(matches!(classify("Givens x"), Line::Other(..)));
}

#[test]
fn table_and_delimiter_lines() {
    match classify("  |  a |b| |") {
        Line::TableRow(2, None, cells) => assert_eq!(cells, vec!["a", "b", ""]),
        other => panic!("{:?}", other),
    }
    match classify("  \"\"\"  # c") {
        Line::DocStringDelimiter(2, Some(c), d) => {
            assert_eq!(d, "\"\"\"");
            assert_eq!(c, "c");
        }
        other => panic!("{:?}", other),
    }
    assert!(matches!(classify("'''"), Line::DocStringDelimiter(..)));
    assert!(matches!(classify("''''"), Line::Other(..)));
}

#[test]
fn other_and_unclassifiable_lines() {
    match classify("  just words  # and a note") {
        Line::Other(2, Some(c), t) => {
            assert_eq!(t, "just words");
            assert_eq!(c, "and a note");
        }
        other => panic!("{:?}", other),
    }
    match classify("@tag words") {
        Line::Other(0, None, t) => assert_eq!(t, "@tag words"),
        other => panic!("{:?}", other),
    }
    match parse_line("| a # b | c") {
        Err(Error::Misc(m)) => assert_eq!(m, "cannot classify line: | a # b | c"),
        other => panic!("{:?}", other),
    }
}

#[test]
fn unicode_whitespace() {
    assert!(matches!(classify("\u{a0}\u{a0}"), Line::EmptyLine(2, None)));
    match classify("\u{3000}x") {
        Line::Other(1, None, t) => assert_eq!(t, "x"),
        other => panic!("{:?}", other),
    }
    match classify("\u{2028}Feature:\u{a0}Name\u{202f}") {
        Line::Feature(1, None, Some(n)) => assert_eq!(n, "Name"),
        other => panic!("{:?}", other),
    }
}

#[test]
fn unicode_tag_names() {
    match classify("@café @日本 @x_1") {
        Line::Tags(0, None, t) => assert_eq!(t, vec!["café", "日本", "x_1"]),
        other => panic!("{:?}", other),
    }
    assert!(matches!(classify("@a-b"), Line::Other(..)));
}
