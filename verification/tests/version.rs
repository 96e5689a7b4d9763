use uptag::pattern::Pattern;
use uptag::version::extractor::VersionExtractor;
use uptag::version::{UpdateType, Version};

fn version(parts: &[usize]) -> Version {
    Version::new(parts.to_vec()).unwrap()
}

#[test]
fn new_version_needs_a_number() {
    assert_eq!(Version::new(vec![]), None);
    assert_eq!(Version::new(vec![1, 2]).unwrap().parts(), &vec![1, 2]);
}

#[test]
fn detects_greater_version() {
    let smaller = version(&[1, 2, 3]);
    let greater = version(&[1, 3, 0]);
    assert!(smaller.lt(&greater));
    assert!(smaller < greater);
    assert!(!(greater < smaller));
    assert!(smaller.is_less_than(&greater));
    assert!(!greater.is_less_than(&smaller));
    assert!(!smaller.is_less_than(&smaller));
}

#[test]
fn shorter_prefix_is_less() {
    assert!(version(&[1, 2]) < version(&[1, 2, 0]));
    assert!(!(version(&[1, 2, 0]) < version(&[1, 2])));
}

#[test]
fn counts_common_prefix() {
    assert_eq!(version(&[1, 2, 3]).sameness_degree_with(&version(&[1, 2, 4])), 2);
    assert_eq!(version(&[1, 2, 3]).sameness_degree_with(&version(&[2, 2, 3])), 0);
    assert_eq!(version(&[1, 2, 3]).sameness_degree_with(&version(&[1, 2, 3])), 3);
    assert_eq!(version(&[1, 2]).sameness_degree_with(&version(&[1, 2, 3])), 2);
}

#[test]
fn detects_comptaible_update() {
    let smaller = version(&[4, 7, 1, 0, 9]);
    let greater = version(&[4, 7, 1, 5, 9]);
    assert_eq!(smaller.update_type(&greater, 2), UpdateType::Compatible);
    let greater = version(&[4, 7, 2, 0, 9]);
    assert_eq!(smaller.update_type(&greater, 2), UpdateType::Compatible);
}

#[test]
fn detects_breaking_update() {
    let smaller = version(&[4, 7, 1, 0, 9]);
    let greater = version(&[4, 8, 1, 0, 9]);
    assert_eq!(smaller.update_type(&greater, 2), UpdateType::Breaking);
    let greater = version(&[5, 7, 1, 0, 9]);
    assert_eq!(smaller.update_type(&greater, 2), UpdateType::Breaking);
}

#[test]
fn detects_simple_semver() {
    let extractor = VersionExtractor::parse("<>.<>.<>").unwrap();
    assert!(extractor.matches("1.2.3"));
    assert!(extractor.matches("0.0.0"));
    assert!(extractor.matches("10.200.3000"));
}

#[test]
fn rejects_simple_semver_with_prefix() {
    let extractor = VersionExtractor::parse("<>.<>.<>").unwrap();
    assert!(!extractor.matches("v1.2.3"));
    assert!(!extractor.matches(" 1.2.3"));
}

#[test]
fn rejects_simple_semver_with_suffix() {
    let extractor = VersionExtractor::parse("<>.<>.<>").unwrap();
    assert!(!extractor.matches("1.2.3a"));
    assert!(!extractor.matches("1.2.3-debian"));
}

#[test]
fn dot_in_pattern_is_literal() {
    let extractor = VersionExtractor::parse("<>.<>").unwrap();
    assert!(!extractor.matches("1x2"));
    assert_eq!(extractor.extract_from("1x2"), None);
}

#[test]
fn extracts_semver() {
    let extractor = VersionExtractor::parse("<>.<>.<>-debian").unwrap();
    assert_eq!(
        extractor.extract_from("1.2.3-debian"),
        Some(version(&[1, 2, 3]))
    );
    assert_eq!(
        extractor.extract_from("0.18446744073709551615.7-debian".to_string()),
        Some(version(&[0, 18446744073709551615, 7]))
    );
    assert_eq!(extractor.extract_from("1.2.3"), None);
}

#[test]
fn number_beyond_the_word_is_no_version() {
    let extractor = VersionExtractor::parse("<>").unwrap();
    assert_eq!(extractor.extract_from("99999999999999999999999999"), None);
}

#[test]
fn digits_beyond_ascii_are_no_version() {
    let extractor = VersionExtractor::parse("<>").unwrap();
    assert_eq!(extractor.extract_from("\u{0663}"), None);
}

#[test]
fn pattern_without_slot_extracts_nothing() {
    let extractor = VersionExtractor::parse("latest").unwrap();
    assert!(extractor.matches("latest"));
    assert_eq!(extractor.extract_from("latest"), None);
}

#[test]
fn retains_all_matching_semver_tags() {
    let extractor = VersionExtractor::parse("<>.<>.<>").unwrap();
    let tags = vec!["1.2.3".to_string(), "0.0.1".to_string()];
    assert_eq!(extractor.filter(tags.clone()), tags);
}

#[test]
fn removes_all_non_matching_tags() {
    let extractor = VersionExtractor::parse("<>.<>.<>").unwrap();
    let tags = vec![
        "1.2.3".to_string(),
        "1.2.3-debian".to_string(),
        "2.0.0".to_string(),
        "2.0.0-debian".to_string(),
    ];
    assert_eq!(
        extractor.filter(tags),
        vec!["1.2.3".to_string(), "2.0.0".to_string()]
    );
}

#[test]
fn extracts_only_matching_semver_tags() {
    let extractor = VersionExtractor::parse("<>.<>.<>").unwrap();
    let tags = vec!["1.2.3", "1.2.3-debian", "0.5.0"];
    assert_eq!(
        extractor.extract_iter(tags),
        vec![(version(&[1, 2, 3]), "1.2.3"), (version(&[0, 5, 0]), "0.5.0")]
    );
}

#[test]
fn returns_correct_maximum() {
    let extractor = VersionExtractor::parse("<>.<>.<>").unwrap();
    let tags = vec!["1.2.3", "3.0.1", "nope", "03.0.1", "2.9.9"];
    assert_eq!(
        extractor.max(tags),
        Some((version(&[3, 0, 1]), "03.0.1"))
    );
    let none: Vec<&str> = vec!["a", "b"];
    assert_eq!(extractor.max(none), None);
}

#[test]
fn extractor_keeps_its_pattern() {
    let extractor = VersionExtractor::parse("<!>.<>-ce.0").unwrap();
    assert_eq!(extractor.breaking_degree(), 1);
    assert_eq!(extractor.to_string(), "<!>.<>-ce.0");
    assert_eq!(extractor.pattern().to_string(), "<!>.<>-ce.0");
}

#[test]
fn writes_the_regular_expression_of_a_pattern() {
    let pattern = Pattern::parse("v<!>.<>-ce.0").unwrap();
    assert_eq!(pattern.expression(), r"^v(\d+)\.(\d+)-ce\.0$");
    assert_eq!(Pattern::parse("").unwrap().expression(), "^$");
    assert_eq!(Pattern::escape_literal("a.b-c."), r"a\.b-c\.");
    let regex = pattern.regex().unwrap();
    assert_eq!(regex.as_str(), r"^v(\d+)\.(\d+)-ce\.0$");
    assert!(VersionExtractor::regex_for_pattern(&pattern).is_some());
    assert!(VersionExtractor::new(pattern).is_some());
}

#[test]
fn parses_extractor_through_the_trait() {
    let extractor: VersionExtractor = "<!>.<>".parse().unwrap();
    assert_eq!(extractor.to_string(), "<!>.<>");
    assert_eq!(
        "<>.<!>".parse::<VersionExtractor>().unwrap_err(),
        "breaking part `<!>` at position 3 follows a compatible part `<>`"
    );
}
