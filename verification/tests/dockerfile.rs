use uptag::dockerfile::{parse, CheckError, Matches};
use uptag::image::{Image, ImageName};
use uptag::pattern::{Error, Pattern};
use uptag::version::extractor::{Tagged, VersionExtractor};

fn check(found: Option<Matches>, name: ImageName, tag: &str, pattern: Option<&str>) {
    let found = found.unwrap();
    let image = found.image();
    assert_eq!(image.name, name);
    assert_eq!(image.tag, tag);
    assert_eq!(found.tag(), tag);
    let extractor = found.extractor();
    match pattern {
        Some(text) => {
            let expected = VersionExtractor::parse(text).unwrap();
            let actual = extractor.unwrap().unwrap();
            assert_eq!(actual.pattern(), expected.pattern());
        }
        None => assert!(extractor.is_none()),
    }
}

#[test]
fn dockerfile_extracts_full_statement() {
    let dockerfile = "# uptag --pattern \"<!>.<>.<>-ce.0\"\nFROM gitlab/gitlab-ce:12.3.2-ce.0";
    check(
        Matches::first(dockerfile),
        ImageName::User {
            user: "gitlab".into(),
            image: "gitlab-ce".into(),
        },
        "12.3.2-ce.0",
        Some("<!>.<>.<>-ce.0"),
    );
}

#[test]
fn dockerfile_extracts_minimal_statement() {
    let dockerfile = "FROM ubuntu:14.04";
    check(
        Matches::first(dockerfile),
        ImageName::Official {
            image: "ubuntu".into(),
        },
        "14.04",
        None,
    );
}

#[test]
fn dockerfile_does_not_match_empty_tag() {
    let dockerfile = "FROM ubuntu";
    assert_eq!(Matches::first(dockerfile), None)
}

#[test]
fn dockerfile_does_not_match_digest() {
    let dockerfile =
        "FROM ubuntu@bcf9d02754f659706860d04fd261207db010db96e782e2eb5d5bbd7168388b89";
    assert_eq!(Matches::first(dockerfile), None)
}

#[test]
fn parses_every_from_line() {
    let dockerfile = "# uptag --pattern \"<!>.<>\"\nFROM ubuntu:18.04\n\nFROM alpine:3.8\n# uptag --pattern \"<>.<!>\"\n\nFROM gitlab/gitlab-ce:12.3\nRUN true\n";
    let ubuntu = Image {
        name: ImageName::new(None, "ubuntu".to_string()),
        tag: "18.04".to_string(),
    };
    let alpine = Image {
        name: ImageName::new(None, "alpine".to_string()),
        tag: "3.8".to_string(),
    };
    let gitlab = Image {
        name: ImageName::new(Some("gitlab".to_string()), "gitlab-ce".to_string()),
        tag: "12.3".to_string(),
    };
    assert_eq!(
        parse(dockerfile),
        vec![
            (ubuntu, Ok(Pattern::parse("<!>.<>").unwrap())),
            (alpine, Err(CheckError::UnspecifiedPattern)),
            (
                gitlab,
                Err(CheckError::InvalidPattern {
                    pattern: "<>.<!>".to_string(),
                    source: Error::Structure { position: 3 }
                })
            ),
        ]
    );
    assert_eq!(Matches::iter(dockerfile).len(), 3);
    assert_eq!(parse("RUN true"), vec![]);
}
