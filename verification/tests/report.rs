use uptag::docker_compose::BuildContext;
use uptag::dockerfile::CheckError;
use uptag::image::{Image, ImageName};
use uptag::report::docker_compose::DockerComposeReport;
use uptag::report::dockerfile::{describe_failure, format_update, DockerfileReport};
use uptag::report::{
    display_not_encountered, ExitCode, Failure, Report, UpdateLevel, UpdateResult,
};
use uptag::{display_error, CurrentTagStatus, Update};

type TestDockerfileResults = Vec<(Image, UpdateResult<CheckError>)>;

fn image(name: &str, tag: &str) -> Image {
    Image {
        name: ImageName::new(None, name.to_string()),
        tag: tag.to_string(),
    }
}

fn found(compatible: Option<&str>, breaking: Option<&str>) -> (CurrentTagStatus, Update) {
    (
        CurrentTagStatus::Found,
        Update {
            compatible: compatible.map(|tag| tag.to_string()),
            breaking: breaking.map(|tag| tag.to_string()),
        },
    )
}

#[test]
fn generates_dockerfile_report() {
    let success_image = Image {
        name: ImageName::new(None, "ubuntu".to_string()),
        tag: "14.04".to_string(),
    };
    let success_tag = "14.05".to_string();
    let success_update = Update {
        breaking: None,
        compatible: Some(success_tag.clone()),
    };

    let fail_image = Image {
        name: ImageName::new(None, "error".to_string()),
        tag: "1".to_string(),
    };
    let fail_error = CheckError::UnspecifiedPattern;

    let input: TestDockerfileResults = vec![
        (
            success_image.clone(),
            Ok((CurrentTagStatus::Found, success_update)),
        ),
        (fail_image.clone(), Err(fail_error)),
    ];

    let result = DockerfileReport::from(input);
    assert_eq!(
        result
            .report
            .compatible_updates
            .into_iter()
            .collect::<Vec<_>>(),
        vec![(success_image, success_tag)],
    );
    assert_eq!(
        result
            .report
            .failures
            .into_iter()
            .map(|(image, _)| image)
            .collect::<Vec<_>>(),
        vec![fail_image]
    );
}

#[test]
fn generates_docker_compose_report() {
    let ubuntu_service = "ubuntu".to_string();
    let ubuntu_path = "/path/to/ubuntu".to_string();

    let compatible_image = Image {
        name: ImageName::new(None, "ubuntu".to_string()),
        tag: "14.04".to_string(),
    };
    let compatible_tag = "14.05".to_string();
    let compatible_update = Update {
        breaking: None,
        compatible: Some(compatible_tag.clone()),
    };

    let fail_image = Image {
        name: ImageName::new(None, "error".to_string()),
        tag: "1".to_string(),
    };
    let fail_error = CheckError::UnspecifiedPattern;
    let fail_error_copy = CheckError::UnspecifiedPattern;

    let alpine_service = "alpine".to_string();
    let alpine_path = "path/to/alpine".to_string();

    let breaking_image = Image {
        name: ImageName::new(None, "alpine".to_string()),
        tag: "3.8.4".to_string(),
    };
    let breaking_tag = "4.0.2".to_string();
    let breaking_update = Update {
        compatible: None,
        breaking: Some(breaking_tag.clone()),
    };

    let fail_service = "debian".to_string();
    let fail_service_path = "path/to/debian".to_string();
    let fail_service_error = CheckError::UnspecifiedPattern;
    let fail_service_error_copy = CheckError::UnspecifiedPattern;

    let node_service = "node".to_string();
    let node_image = Image {
        name: ImageName::new(None, "node".to_string()),
        tag: "14.4.0".to_string(),
    };
    let node_compatible_tag = "14.5.0".to_string();
    let node_compatible_update = Update {
        compatible: Some(node_compatible_tag.clone()),
        breaking: None,
    };

    let image_fail_service = "python".to_string();
    let image_fail_image = Image {
        name: ImageName::new(None, "python".to_string()),
        tag: "3.8.3".to_string(),
    };
    let image_fail_error = CheckError::UnspecifiedPattern;
    let image_fail_error_copy = CheckError::UnspecifiedPattern;

    let input = vec![
        (
            ubuntu_service.clone(),
            BuildContext::Folder(
                ubuntu_path.clone(),
                Ok(vec![
                    (
                        compatible_image.clone(),
                        Ok((CurrentTagStatus::Found, compatible_update)),
                    ),
                    (fail_image.clone(), Err(fail_error)),
                ]),
            ),
        ),
        (
            alpine_service.clone(),
            BuildContext::Folder(
                alpine_path.clone(),
                Ok(vec![(
                    breaking_image.clone(),
                    Ok((CurrentTagStatus::Found, breaking_update)),
                )]),
            ),
        ),
        (
            fail_service.clone(),
            BuildContext::Folder(fail_service_path, Err(fail_service_error)),
        ),
        (
            node_service.clone(),
            BuildContext::Image(
                node_image.clone(),
                Ok((CurrentTagStatus::Found, node_compatible_update)),
            ),
        ),
        (
            image_fail_service.clone(),
            BuildContext::Image(image_fail_image.clone(), Err(image_fail_error)),
        ),
    ];

    let result = DockerComposeReport::from(input);
    assert_eq!(
        result.report.compatible_updates,
        vec![
            (
                ubuntu_service.clone(),
                BuildContext::Folder(
                    ubuntu_path.clone(),
                    vec![(compatible_image, compatible_tag)]
                )
            ),
            (
                node_service,
                BuildContext::Image(node_image, node_compatible_tag)
            )
        ]
    );
    assert_eq!(
        result.report.failures,
        vec![
            (
                ubuntu_service,
                Ok(BuildContext::Folder(
                    ubuntu_path,
                    vec![(fail_image, Failure::Error(fail_error_copy))]
                ),)
            ),
            (fail_service, Err(fail_service_error_copy)),
            (
                image_fail_service,
                Ok(BuildContext::Image(
                    image_fail_image,
                    Failure::Error(image_fail_error_copy)
                ))
            )
        ]
    );
    assert_eq!(
        result.report.breaking_updates,
        vec![(
            alpine_service,
            BuildContext::Folder(alpine_path, vec![(breaking_image, breaking_tag)])
        )]
    );
    assert_eq!(result.report.no_updates, vec![]);
    assert_eq!(result.report.update_level(), UpdateLevel::Failure);
}

#[test]
fn sorts_every_image_into_its_groups() {
    let input: TestDockerfileResults = vec![
        (image("a", "1"), Ok(found(None, None))),
        (image("b", "1"), Ok(found(Some("2"), None))),
        (image("c", "1"), Ok(found(None, Some("3")))),
        (image("d", "1"), Ok(found(Some("4"), Some("5")))),
        (
            image("e", "1"),
            Ok((
                CurrentTagStatus::NotEncountered { searched_amount: 3 },
                Update {
                    compatible: None,
                    breaking: None,
                },
            )),
        ),
        (
            image("f", "1"),
            Ok((
                CurrentTagStatus::NotEncountered { searched_amount: 7 },
                Update {
                    compatible: Some("6".to_string()),
                    breaking: None,
                },
            )),
        ),
        (image("g", "1"), Err(CheckError::UnspecifiedPattern)),
        (image("h", "1"), Ok(found(None, None))),
    ];
    let report = DockerfileReport::from(input).report;
    assert_eq!(report.no_updates, vec![image("a", "1"), image("h", "1")]);
    assert_eq!(
        report.compatible_updates,
        vec![
            (image("b", "1"), "2".to_string()),
            (image("d", "1"), "4".to_string()),
            (image("f", "1"), "6".to_string())
        ]
    );
    assert_eq!(
        report.breaking_updates,
        vec![
            (image("c", "1"), "3".to_string()),
            (image("d", "1"), "5".to_string())
        ]
    );
    assert_eq!(
        report.failures,
        vec![
            (
                image("e", "1"),
                Failure::CurrentTagNotEncountered { searched_amount: 3 }
            ),
            (
                image("f", "1"),
                Failure::CurrentTagNotEncountered { searched_amount: 7 }
            ),
            (image("g", "1"), Failure::Error(CheckError::UnspecifiedPattern))
        ]
    );
}

#[test]
fn service_with_empty_dockerfile_stands_nowhere() {
    let input: Vec<(
        String,
        BuildContext<UpdateResult<CheckError>, String, Result<TestDockerfileResults, CheckError>>,
    )> = vec![
        ("empty".to_string(), BuildContext::Folder("./empty".to_string(), Ok(vec![]))),
        (
            "web".to_string(),
            BuildContext::Folder(
                "./web".to_string(),
                Ok(vec![
                    (image("a", "1"), Ok(found(None, None))),
                    (image("b", "1"), Ok(found(Some("2"), Some("3")))),
                ]),
            ),
        ),
        (
            "db".to_string(),
            BuildContext::Image(
                image("c", "1"),
                Ok((
                    CurrentTagStatus::NotEncountered { searched_amount: 9 },
                    Update {
                        compatible: None,
                        breaking: Some("2".to_string()),
                    },
                )),
            ),
        ),
        ("cache".to_string(), BuildContext::Image(image("d", "1"), Ok(found(None, None)))),
    ];
    let report = DockerComposeReport::from(input).report;
    assert_eq!(
        report.no_updates,
        vec![
            (
                "web".to_string(),
                BuildContext::Folder("./web".to_string(), vec![(image("a", "1"), ())])
            ),
            ("cache".to_string(), BuildContext::Image(image("d", "1"), ()))
        ]
    );
    assert_eq!(
        report.compatible_updates,
        vec![(
            "web".to_string(),
            BuildContext::Folder("./web".to_string(), vec![(image("b", "1"), "2".to_string())])
        )]
    );
    assert_eq!(
        report.breaking_updates,
        vec![
            (
                "web".to_string(),
                BuildContext::Folder(
                    "./web".to_string(),
                    vec![(image("b", "1"), "3".to_string())]
                )
            ),
            ("db".to_string(), BuildContext::Image(image("c", "1"), "2".to_string()))
        ]
    );
    assert_eq!(
        report.failures,
        vec![(
            "db".to_string(),
            Ok(BuildContext::Image(
                image("c", "1"),
                Failure::CurrentTagNotEncountered { searched_amount: 9 }
            ))
        )]
    );
}

#[test]
fn most_severe_finding_decides_the_level() {
    let mut report: Report<u8, u8, u8> = Report {
        no_updates: vec![1],
        compatible_updates: vec![],
        breaking_updates: vec![],
        failures: vec![],
    };
    assert_eq!(report.update_level(), UpdateLevel::NoUpdates);
    report.compatible_updates.push(1);
    assert_eq!(report.update_level(), UpdateLevel::CompatibleUpdate);
    report.breaking_updates.push(1);
    assert_eq!(report.update_level(), UpdateLevel::BreakingUpdate);
    report.failures.push(1);
    assert_eq!(report.update_level(), UpdateLevel::Failure);
}

#[test]
fn exit_codes() {
    assert_eq!(ExitCode::from(UpdateLevel::NoUpdates), ExitCode(0));
    assert_eq!(ExitCode::from(UpdateLevel::CompatibleUpdate), ExitCode(1));
    assert_eq!(ExitCode::from(UpdateLevel::BreakingUpdate), ExitCode(2));
    assert_eq!(ExitCode::from(UpdateLevel::Failure), ExitCode(10));
}

#[test]
fn formats_update() {
    assert_eq!(
        format_update(&image("ubuntu", "14.04"), "->", "14.05"),
        "ubuntu:14.04\n    -> 14.05"
    );
    assert_eq!(
        format_update(&image("a", "1"), "-!>", "2"),
        "  a:1\n-!> 2"
    );
}

#[test]
fn displays_dockerfile_report() {
    let input: TestDockerfileResults = vec![
        (image("ubuntu", "14.04"), Ok(found(Some("14.05"), Some("15.02")))),
        (image("alpine", "3.8"), Ok(found(None, None))),
        (image("node", "14.4.0"), Ok(found(Some("14.5.0"), None))),
    ];
    let report = DockerfileReport::from(input);
    assert_eq!(
        report.display_successes(),
        "1 breaking update(s):\nubuntu:14.04\n   -!> 15.02\n\n2 compatible update(s):\nubuntu:14.04\n    -> 14.05\nnode:14.4.0\n  -> 14.5.0\n\n1 without updates:\nalpine:3.8"
    );
    let empty: TestDockerfileResults = vec![];
    assert_eq!(DockerfileReport::from(empty).display_successes(), "");
}

#[test]
fn displays_dockerfile_failures() {
    let mut report: DockerfileReport<String> = DockerfileReport {
        report: Report {
            no_updates: vec![],
            compatible_updates: vec![],
            breaking_updates: vec![],
            failures: vec![],
        },
    };
    assert_eq!(report.display_failures(), "0 failure(s):\n");
    report.report.failures = vec![
        (
            image("error", "1"),
            Failure::Error("Failed to find version pattern".to_string()),
        ),
        (
            image("ubuntu", "14.04"),
            Failure::CurrentTagNotEncountered {
                searched_amount: 100,
            },
        ),
    ];
    assert_eq!(
        report.display_failures(),
        "2 failure(s):\nerror:1: Failed to find version pattern\nubuntu:14.04: Failed to find current tag `14.04` in the latest 100 tags"
    );
    assert_eq!(
        display_not_encountered("14.04", 100),
        "Failed to find current tag `14.04` in the latest 100 tags"
    );
    assert_eq!(
        describe_failure(&image("a", "1"), &Failure::Error("words".to_string())),
        "words"
    );
}

#[test]
fn displays_docker_compose_report() {
    let input: Vec<(
        String,
        BuildContext<UpdateResult<CheckError>, String, Result<TestDockerfileResults, CheckError>>,
    )> = vec![
        (
            "web".to_string(),
            BuildContext::Folder(
                "./web".to_string(),
                Ok(vec![
                    (image("a", "1"), Ok(found(None, None))),
                    (image("ubuntu", "14.04"), Ok(found(Some("14.05"), None))),
                    (image("node", "14.4.0"), Ok(found(Some("14.5.0"), None))),
                ]),
            ),
        ),
        (
            "db".to_string(),
            BuildContext::Image(image("c", "1"), Ok(found(None, Some("2")))),
        ),
        ("cache".to_string(), BuildContext::Image(image("d", "1"), Ok(found(None, None)))),
    ];
    let report = DockerComposeReport::from(input);
    assert_eq!(
        report.display_successes(),
        "1 breaking update(s):\n  service `db` with image `c:1`:\n  -   c:1\n    -!> 2\n\n\n1 compatible update(s):\n  service `web` with Dockerfile at `./web`:\n  - ubuntu:14.04\n        -> 14.05\n  - node:14.4.0\n      -> 14.5.0\n\n\n2 without updates:\n  service `web` with Dockerfile at `./web`:\n  - a:1\n\n  service `cache` with image `d:1`:"
    );
}

#[test]
fn displays_docker_compose_failures() {
    let failures = vec![
        ("debian".to_string(), Err("Failed to find file `x`".to_string())),
        (
            "python".to_string(),
            Ok(BuildContext::Image(
                image("python", "3.8.3"),
                Failure::Error("no pattern".to_string()),
            )),
        ),
        (
            "ubuntu".to_string(),
            Ok(BuildContext::Folder(
                "/path/to/ubuntu".to_string(),
                vec![
                    (image("error", "1"), Failure::Error("first".to_string())),
                    (
                        image("other", "2"),
                        Failure::CurrentTagNotEncountered { searched_amount: 5 },
                    ),
                ],
            )),
        ),
    ];
    let report: DockerComposeReport<String> = DockerComposeReport {
        report: Report {
            no_updates: vec![],
            compatible_updates: vec![],
            breaking_updates: vec![],
            failures,
        },
    };
    assert_eq!(
        report.display_failures(),
        "3 failure(s):\n  debian: Failed to find file `x`\n\n  service `python` with image `python:3.8.3`:\nno pattern\n\n  service `ubuntu` with Dockerfile at `/path/to/ubuntu`:\n  - error:1: first\n  - other:2: Failed to find current tag `2` in the latest 5 tags"
    );
}

#[test]
fn displays_error_with_its_sources() {
    assert_eq!(
        display_error(&vec![
            "The version pattern `<>.<!>` is invalid".to_string(),
            "breaking part `<!>` at position 3 follows a compatible part `<>`".to_string()
        ]),
        "The version pattern `<>.<!>` is invalid: breaking part `<!>` at position 3 follows a compatible part `<>`"
    );
    assert_eq!(display_error(&vec!["alone".to_string()]), "alone");
}
