use std::collections::HashMap;

use uptag::image::{Image, ImageName};
use uptag::report::dockerfile::DockerfileReport;
use uptag::report::{Failure, UpdateLevel};
use uptag::search::find_update_among;
use uptag::tag_fetcher::TagFetcher;
use uptag::version::extractor::VersionExtractor;
use uptag::{CurrentTagStatus, FindUpdateError, Update, Uptag};

#[derive(Debug, PartialEq, Default)]
struct ArrayFetcher {
    content: HashMap<ImageName, Vec<String>>,
}

impl ArrayFetcher {
    fn new() -> Self {
        ArrayFetcher {
            content: HashMap::new(),
        }
    }

    fn with(image_name: ImageName, tags: Vec<String>) -> ArrayFetcher {
        let mut content = HashMap::new();
        content.insert(image_name, tags);
        ArrayFetcher { content }
    }
}

#[derive(Debug, PartialEq)]
struct FetchError {
    image_name: String,
}

impl FetchError {
    fn new(image_name: String) -> Self {
        FetchError { image_name }
    }
}

impl TagFetcher for ArrayFetcher {
    type TagIter = std::vec::IntoIter<Result<String, FetchError>>;
    type FetchError = FetchError;

    fn fetch(&self, image: &ImageName) -> Self::TagIter {
        self.content
            .get(image)
            .map(|tags| tags.iter().map(|tag| Ok(tag.clone())).collect::<Vec<_>>())
            .unwrap_or_else(|| {
                vec![Err(FetchError {
                    image_name: image.to_string(),
                })]
            })
            .into_iter()
    }

    fn next_tag(&self, tags: &mut Self::TagIter) -> Option<Result<String, FetchError>> {
        tags.next()
    }
}

fn ubuntu() -> Image {
    Image {
        name: ImageName::new(None, "ubuntu".to_string()),
        tag: "14.04".to_string(),
    }
}

fn tags(list: &[&str]) -> Vec<String> {
    list.iter().map(|tag| tag.to_string()).collect()
}

fn search(pattern: &str, list: &[&str], bound: usize) -> (CurrentTagStatus, Update) {
    let image = ubuntu();
    let extractor = VersionExtractor::parse(pattern).unwrap();
    let uptag = Uptag::new(ArrayFetcher::with(image.name.clone(), tags(list)));
    let pulled = uptag.find_update(&image, &extractor, bound).unwrap();
    let at_hand = find_update_among(&extractor, &image.tag, &tags(list), bound).unwrap();
    assert_eq!(pulled, at_hand);
    pulled
}

#[test]
fn finds_compatible_update() {
    let (_, actual) = search("<!>.<>", &["14.05", "14.04", "14.03", "13.03"], 100);
    assert_eq!(
        actual,
        Update {
            compatible: Some("14.05".to_string()),
            breaking: None,
        },
    );
}

#[test]
fn finds_breaking_update() {
    let (_, actual) = search("<!>.<>", &["15.02", "14.04", "14.03", "13.03"], 100);
    assert_eq!(
        actual,
        Update {
            compatible: None,
            breaking: Some("15.02".to_string()),
        },
    );
}

#[test]
fn finds_compatible_and_breaking_update() {
    let (_, actual) = search(
        "<!>.<>",
        &["15.02", "14.05", "14.04", "14.03", "13.03"],
        100,
    );
    assert_eq!(
        actual,
        Update {
            compatible: Some("14.05".to_string()),
            breaking: Some("15.02".to_string()),
        },
    );
}

#[test]
fn ignores_lesser_version() {
    let (_, actual) = search("<>.<>", &["14.04", "14.03", "13.03"], 100);
    assert_eq!(
        actual,
        Update {
            compatible: None,
            breaking: None,
        },
    );
}

#[test]
fn signals_missing_tag() {
    let result = search("<!>.<>", &["14.03", "14.02", "13.03"], 100);
    assert_eq!(
        result,
        (
            CurrentTagStatus::NotEncountered { searched_amount: 3 },
            Update {
                compatible: None,
                breaking: None,
            }
        )
    );
}

#[test]
fn forwards_fetch_failure() {
    let image = ubuntu();
    let extractor = VersionExtractor::parse("<!>.<>").unwrap();

    // An empty fetcher knows no image, so every query fails.
    let uptag = Uptag::new(ArrayFetcher::new());

    let result = uptag.find_update(&image, &extractor, 100);
    assert_eq!(
        result,
        Err(FindUpdateError::FetchError(FetchError::new(
            image.name.to_string()
        )))
    );
}

#[test]
fn reports_greatest_compatible_update() {
    let result = search(
        "<!>.<>",
        &["14.12", "14.05", "14.04", "14.03", "13.03"],
        100,
    );
    assert_eq!(
        result,
        (
            CurrentTagStatus::Found,
            Update {
                compatible: Some("14.12".to_string()),
                breaking: None,
            }
        )
    );
}

#[test]
fn reports_breaking_update_alone() {
    let result = search("<!>.<>", &["15.01", "14.04", "14.03", "13.03"], 100);
    assert_eq!(
        result,
        (
            CurrentTagStatus::Found,
            Update {
                compatible: None,
                breaking: Some("15.01".to_string()),
            }
        )
    );
}

#[test]
fn reports_greatest_update_of_both_kinds() {
    let result = search(
        "<!>.<>",
        &["15.01", "14.12", "14.05", "14.04", "14.03"],
        100,
    );
    assert_eq!(
        result,
        (
            CurrentTagStatus::Found,
            Update {
                compatible: Some("14.12".to_string()),
                breaking: Some("15.01".to_string()),
            }
        )
    );
}

#[test]
fn reports_no_update_when_current_tag_is_newest() {
    let result = search("<!>.<>", &["14.04", "14.03", "13.03"], 100);
    assert_eq!(
        result,
        (
            CurrentTagStatus::Found,
            Update {
                compatible: None,
                breaking: None,
            }
        )
    );
}

#[test]
fn reports_missing_current_tag_at_the_bound() {
    let result = search("<!>.<>", &["14.03", "14.02", "13.03"], 3);
    assert_eq!(
        result,
        (
            CurrentTagStatus::NotEncountered { searched_amount: 3 },
            Update {
                compatible: None,
                breaking: None,
            }
        )
    );
}

#[test]
fn selects_by_version_not_by_position() {
    let result = search(
        "<!>.<>",
        &["14.05", "14.12", "16.01", "15.09", "17.00x", "14.04"],
        100,
    );
    assert_eq!(
        result,
        (
            CurrentTagStatus::Found,
            Update {
                compatible: Some("14.12".to_string()),
                breaking: Some("16.01".to_string()),
            }
        )
    );
}

#[test]
fn first_of_equal_versions_is_kept() {
    let (_, update) = search("<!>.<>", &["14.5", "14.05", "14.04"], 100);
    assert_eq!(update.compatible, Some("14.5".to_string()));
}

#[test]
fn equal_version_is_no_update() {
    let (status, update) = search("<!>.<>", &["14.4", "14.04"], 100);
    assert_eq!(status, CurrentTagStatus::Found);
    assert_eq!(
        update,
        Update {
            compatible: None,
            breaking: None,
        }
    );
}

#[test]
fn stops_at_the_current_tag() {
    // What stands behind the current tag is never pulled, so the failing
    // entry behind it is never reached.
    let result = search("<!>.<>", &["14.04", "15.00"], 100);
    assert_eq!(
        result,
        (
            CurrentTagStatus::Found,
            Update {
                compatible: None,
                breaking: None,
            }
        )
    );
}

#[test]
fn respects_the_search_bound() {
    let list = ["15.00", "14.09", "14.04", "14.03"];
    assert_eq!(
        search("<!>.<>", &list, 2),
        (
            CurrentTagStatus::NotEncountered { searched_amount: 2 },
            Update {
                compatible: Some("14.09".to_string()),
                breaking: Some("15.00".to_string()),
            }
        )
    );
    assert_eq!(search("<!>.<>", &list, 3).0, CurrentTagStatus::Found);
    assert_eq!(
        search("<!>.<>", &list, 0),
        (
            CurrentTagStatus::NotEncountered { searched_amount: 0 },
            Update {
                compatible: None,
                breaking: None,
            }
        )
    );
}

#[test]
fn rejects_current_tag_that_does_not_match() {
    let image = Image {
        name: ImageName::new(None, "ubuntu".to_string()),
        tag: "latest".to_string(),
    };
    let extractor = VersionExtractor::parse("<!>.<>").unwrap();
    let uptag = Uptag::new(ArrayFetcher::with(image.name.clone(), tags(&["14.04"])));
    assert_eq!(
        uptag.find_update(&image, &extractor, 100),
        Err(FindUpdateError::InvalidCurrentTag {
            tag: "latest".to_string(),
            pattern: "<!>.<>".to_string()
        })
    );
    assert_eq!(
        find_update_among(&extractor, &image.tag, &tags(&["14.04"]), 100),
        None
    );
}

#[test]
fn missing_current_tag_is_a_failure_in_the_report() {
    let result = search("<!>.<>", &["14.03", "14.02", "13.03"], 3);
    let results: Vec<(Image, Result<(CurrentTagStatus, Update), FetchError>)> =
        vec![(ubuntu(), Ok(result))];
    let report = DockerfileReport::from(results).report;
    assert_eq!(
        report.failures,
        vec![(
            ubuntu(),
            Failure::CurrentTagNotEncountered { searched_amount: 3 }
        )]
    );
    assert_eq!(report.no_updates, vec![]);
    assert_eq!(report.compatible_updates, vec![]);
    assert_eq!(report.breaking_updates, vec![]);
    assert_eq!(report.update_level(), UpdateLevel::Failure);
}

#[test]
fn current_tag_that_is_newest_has_no_update_in_the_report() {
    let result = search("<!>.<>", &["14.04", "14.03", "13.03"], 100);
    let results: Vec<(Image, Result<(CurrentTagStatus, Update), FetchError>)> =
        vec![(ubuntu(), Ok(result))];
    let report = DockerfileReport::from(results).report;
    assert_eq!(report.no_updates, vec![ubuntu()]);
    assert_eq!(report.failures, vec![]);
    assert_eq!(report.update_level(), UpdateLevel::NoUpdates);
}
