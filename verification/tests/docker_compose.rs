use uptag::docker_compose::{parse, services, BuildContext, Error};
use uptag::image::{Image, ImageName};
use uptag::pattern::Pattern;
use uptag::yaml::Yaml;

#[test]
fn parses_services() {
    let input = r#"
services:
    ubuntu:
        # uptag --pattern "<!>.<>"
        image: ubuntu:18.04
    
    alpine:
        build: ./alpine
        "#;
    assert_eq!(
        parse(input),
        Ok(vec![
            (
                "ubuntu".to_string(),
                BuildContext::Image(
                    Image {
                        name: ImageName::new(None, "ubuntu".to_string()),
                        tag: "18.04".to_string()
                    },
                    Pattern::parse("<!>.<>").unwrap()
                )
            ),
            (
                "alpine".to_string(),
                BuildContext::Folder("./alpine".into(), ())
            )
        ])
    )
}

#[test]
fn fails_when_services_is_missing() {
    let input = r#"
no: services
                "#;
    assert_eq!(parse(input), Err(Error::MissingField("services")))
}

#[test]
fn fails_on_invalid_dockerfile() {
    let input = r#"
services: 
    - ubuntu
    - alpine:
                "#;
    assert_eq!(parse(input), Err(Error::MalformedDockerfile))
}

#[test]
fn fails_when_image_definition_is_invalid() {
    let input = r#"
services:
    ubuntu:
        image: "invalid/image/definition"
        "#;
    assert_eq!(
        parse(input),
        Err(Error::InvalidImage("invalid/image/definition".to_string()))
    )
}

#[test]
fn fails_on_unsupported_build_context() {
    let input = r#"
services:
    alpine:
        build:
            context: unsupported
        "#;
    assert_eq!(
        parse(input),
        Err(Error::UnsupportedBuildContext {
            service: "alpine".to_string()
        })
    )
}

#[test]
fn fails_when_the_text_is_no_yaml() {
    assert!(matches!(parse("a: [b"), Err(Error::LoadError(_))));
}

#[test]
fn fails_when_the_pattern_is_missing() {
    let input = "services:\n  ubuntu:\n    image: ubuntu:18.04\n";
    assert_eq!(
        parse(input),
        Err(Error::MissingPattern("ubuntu".to_string()))
    );
    let input = "services:\n  ubuntu:\n    # uptag --pattern \"<>\"\n\n    image: ubuntu:18.04\n";
    assert_eq!(
        parse(input),
        Err(Error::MissingPattern("ubuntu".to_string()))
    );
}

#[test]
fn fails_when_the_pattern_is_invalid() {
    let input = "services:\r\n  ubuntu:\r\n    # uptag --pattern \"<>.<!>\"\r\n    image: ubuntu:18.04\r\n";
    assert_eq!(
        parse(input),
        Err(Error::InvalidPattern {
            service: "ubuntu".to_string(),
            pattern: "<>.<!>".to_string(),
            source: uptag::pattern::Error::Structure { position: 3 }
        })
    );
}

#[test]
fn first_service_out_of_order_decides() {
    let input = "services:\n  a:\n    build: ./a\n  b: text\n  c:\n    image: none\n";
    assert_eq!(parse(input), Err(Error::MalformedDockerfile));
}

#[test]
fn reads_services_of_a_document_at_hand() {
    let input = "# uptag --pattern \"<>\"\nignored";
    let scalar = |text: &str, line| Yaml::Scalar {
        text: text.to_string(),
        line,
    };
    let root = Yaml::Mapping(vec![
        ("version".to_string(), scalar("3", Some(1))),
        (
            "services".to_string(),
            Yaml::Mapping(vec![
                (
                    "db".to_string(),
                    Yaml::Mapping(vec![(
                        "image".to_string(),
                        scalar("library/postgres:12", Some(2)),
                    )]),
                ),
                (
                    "web".to_string(),
                    Yaml::Mapping(vec![
                        ("image".to_string(), scalar("ignored:1", Some(2))),
                        ("build".to_string(), scalar("./web", Some(3))),
                    ]),
                ),
            ]),
        ),
    ]);
    assert_eq!(
        services(input, &root),
        Ok(vec![
            (
                "db".to_string(),
                BuildContext::Image(
                    Image {
                        name: ImageName::new(Some("library".to_string()), "postgres".to_string()),
                        tag: "12".to_string()
                    },
                    Pattern::parse("<>").unwrap()
                )
            ),
            ("web".to_string(), BuildContext::Folder("./web".to_string(), ()))
        ])
    );
    assert_eq!(
        services(input, &Yaml::Sequence(vec![])),
        Err(Error::MalformedDockerfile)
    );
    let unknown_line = Yaml::Mapping(vec![(
        "services".to_string(),
        Yaml::Mapping(vec![(
            "db".to_string(),
            Yaml::Mapping(vec![("image".to_string(), scalar("postgres:12", None))]),
        )]),
    )]);
    assert_eq!(
        services(input, &unknown_line),
        Err(Error::MissingPattern("db".to_string()))
    );
}
