use uptag::pattern::PatternPart::{Literal, VersionPart};
use uptag::pattern::{
    breaking_parts, breaking_version_part, compatible_parts, compatible_version_part,
    inner_literal, is_inner_literal, is_outer_literal, outer_literal, pattern, Error, Pattern,
    PatternPart,
};

fn chars(text: &str) -> Vec<char> {
    text.chars().collect()
}

#[test]
fn pattern_parses_literal() {
    let parsed = Pattern::parse("1.2.3").unwrap();
    assert_eq!(
        parsed.parts(),
        &vec![PatternPart::Literal("1.2.3".to_string())]
    );
    assert_eq!(parsed.breaking_degree(), 0);
}

#[test]
fn pattern_parses_version_part() {
    let parsed = Pattern::parse("<>").unwrap();
    assert_eq!(parsed.parts(), &vec![PatternPart::VersionPart]);
    assert_eq!(parsed.breaking_degree(), 0);
}

#[test]
fn pattern_parses_semver() {
    let parsed = Pattern::parse("<!>.<>.<>").unwrap();
    assert_eq!(
        parsed.parts(),
        &vec![
            VersionPart,
            Literal(".".to_string()),
            VersionPart,
            Literal(".".to_string()),
            VersionPart
        ]
    );
    assert_eq!(parsed.breaking_degree(), 1);
}

#[test]
fn pattern_rejects_invalid_characters() {
    assert_eq!(
        pattern(&chars(r"(\d+)\.(\d+)")),
        Err(Error::Syntax { position: 0 })
    );
}

#[test]
fn pattern_rejects_invalid_break_indicator() {
    assert_eq!(
        pattern(&chars(r"<>.<!>.<>")),
        Err(Error::Structure { position: 3 })
    );
}

#[test]
fn pattern_parser_parses_literal() {
    let parsed = Pattern::parse("1.2.3").unwrap();
    assert_eq!(
        parsed.parts(),
        &vec![PatternPart::Literal("1.2.3".to_string())]
    );
}

#[test]
fn pattern_parser_parses_version_part() {
    let parsed = Pattern::parse("<>").unwrap();
    assert_eq!(parsed.parts(), &vec![PatternPart::VersionPart]);
}

#[test]
fn pattern_parser_parses_semver() {
    let parsed = Pattern::parse("<>.<>.<>").unwrap();
    assert_eq!(
        parsed.parts(),
        &vec![
            VersionPart,
            Literal(".".to_string()),
            VersionPart,
            Literal(".".to_string()),
            VersionPart
        ]
    );
}

#[test]
fn rejects_invalid_pattern() {
    assert_eq!(
        pattern(&chars(r"(\d+)\.(\d+)")),
        Err(Error::Syntax { position: 0 })
    );
}

#[test]
fn version_extractor_parses_literal() {
    let parsed = Pattern::parse("1.2.3").unwrap();
    assert_eq!(
        parsed.parts(),
        &vec![PatternPart::Literal("1.2.3".to_string())]
    );
    assert_eq!(parsed.breaking_degree(), 0);
}

#[test]
fn version_extractor_parses_version_part() {
    let parsed = Pattern::parse("<>").unwrap();
    assert_eq!(parsed.parts(), &vec![PatternPart::VersionPart]);
    assert_eq!(parsed.breaking_degree(), 0);
}

#[test]
fn version_extractor_parses_semver() {
    let parsed = Pattern::parse("<!>.<>.<>").unwrap();
    assert_eq!(
        parsed.parts(),
        &vec![
            VersionPart,
            Literal(".".to_string()),
            VersionPart,
            Literal(".".to_string()),
            VersionPart
        ]
    );
    assert_eq!(parsed.breaking_degree(), 1);
}

#[test]
fn version_extractor_rejects_invalid_characters() {
    assert_eq!(
        pattern(&chars(r"(\d+)\.(\d+)")),
        Err(Error::Syntax { position: 0 })
    );
}

#[test]
fn version_extractor_rejects_invalid_break_indicator() {
    assert_eq!(
        pattern(&chars(r"<>.<!>.<>")),
        Err(Error::Structure { position: 3 })
    );
}

#[test]
fn text_of_a_pattern_parses_to_the_pattern() {
    for text in [
        "",
        "<>",
        "<!>",
        "<!>.<>.<>",
        "<!><!>-<>",
        "debian-<>-beta",
        "1.2.3",
        "v<!>.<>-ce.0",
        "_a.b-<!>x<!>y<>z<>",
        ".-<>",
    ] {
        let parsed = Pattern::parse(text).unwrap();
        assert_eq!(parsed.to_string(), text);
        assert_eq!(Pattern::parse(&parsed.to_string()), Ok(parsed.clone()));
        assert!(parsed.breaking_degree() <= parsed.parts().len());
    }
}

#[test]
fn counts_breaking_slots() {
    assert_eq!(Pattern::parse("<!>-<!>.<>").unwrap().breaking_degree(), 2);
    assert_eq!(Pattern::parse("a<!>b").unwrap().breaking_degree(), 1);
    assert_eq!(Pattern::parse("").unwrap().parts(), &vec![]);
}

#[test]
fn rejects_what_is_no_pattern() {
    assert_eq!(Pattern::parse("<>.<!>.<>"), Err(Error::Structure { position: 3 }));
    assert_eq!(Pattern::parse("<>a<!>"), Err(Error::Structure { position: 3 }));
    assert_eq!(Pattern::parse("<!>.<"), Err(Error::Syntax { position: 4 }));
    assert_eq!(Pattern::parse("a b"), Err(Error::Syntax { position: 1 }));
    assert_eq!(Pattern::parse("<!"), Err(Error::Syntax { position: 0 }));
    assert_eq!(Pattern::parse("1.2+3"), Err(Error::Syntax { position: 3 }));
    assert_eq!(Pattern::parse("\u{e9}"), Err(Error::Syntax { position: 0 }));
}

#[test]
fn reads_the_pieces_of_a_pattern() {
    let input = chars("ab.c<!><>-");
    assert_eq!(
        outer_literal(&input, 0),
        Some((4, Literal("ab.c".to_string())))
    );
    assert_eq!(outer_literal(&chars("abc<>"), 0), None);
    assert_eq!(outer_literal(&chars(".a"), 0), None);
    assert_eq!(
        inner_literal(&input, 1),
        Some((4, Literal("b.c".to_string())))
    );
    assert_eq!(inner_literal(&input, 4), None);
    assert_eq!(inner_literal(&input, 99), None);
    assert_eq!(breaking_version_part(&input, 4), Some((7, VersionPart)));
    assert_eq!(breaking_version_part(&input, 7), None);
    assert_eq!(breaking_version_part(&input, 99), None);
    assert_eq!(compatible_version_part(&input, 7), Some((9, VersionPart)));
    assert_eq!(compatible_version_part(&input, 4), None);
    assert_eq!(
        breaking_parts(&input, 0),
        (7, vec![Literal("ab.c".to_string()), VersionPart])
    );
    assert_eq!(
        compatible_parts(&input, 7),
        (10, vec![VersionPart, Literal("-".to_string())])
    );
    assert_eq!(compatible_parts(&input, 99), (99, vec![]));
}

#[test]
fn tells_literal_characters() {
    for c in ['a', 'z', 'A', 'Z', '0', '9', '_'] {
        assert!(is_outer_literal(c));
        assert!(is_inner_literal(c));
    }
    for c in ['.', '-'] {
        assert!(!is_outer_literal(c));
        assert!(is_inner_literal(c));
    }
    for c in ['<', '>', '!', ' ', '+', '\u{e9}'] {
        assert!(!is_outer_literal(c));
        assert!(!is_inner_literal(c));
    }
}
