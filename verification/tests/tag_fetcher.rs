use uptag::image::ImageName;
use uptag::pattern::{Error, Pattern};
use uptag::dockerfile::CheckError;
use uptag::search::{fetch_latest, fetch_matching};
use uptag::tag_fetcher::{
    CurrentPage, DockerHubTagFetcher, DockerHubTagFetcherError, DockerHubTagIterator, Response,
    Step, TagFetcher,
};
use uptag::text::{join, number_to_string, parse_number};
use uptag::version::extractor::VersionExtractor;
use uptag::FindUpdateError;

struct Listed(Vec<Result<String, String>>);

impl TagFetcher for Listed {
    type TagIter = std::vec::IntoIter<Result<String, String>>;
    type FetchError = String;

    fn fetch(&self, _image: &ImageName) -> Self::TagIter {
        self.0.clone().into_iter()
    }

    fn next_tag(&self, tags: &mut Self::TagIter) -> Option<Result<String, String>> {
        tags.next()
    }
}

fn listed(tags: &[&str]) -> Listed {
    Listed(tags.iter().map(|tag| Ok(tag.to_string())).collect())
}

fn ubuntu() -> ImageName {
    ImageName::new(None, "ubuntu".to_string())
}

#[test]
fn default_search_limit() {
    assert_eq!(DockerHubTagFetcher::new().search_limit(), 100);
    assert_eq!(DockerHubTagFetcher::with_search_limit(7).search_limit(), 7);
}

#[test]
fn builds_url_of_first_page() {
    assert_eq!(
        CurrentPage::First.get_url(&ubuntu()),
        Some("https://hub.docker.com/v2/repositories/library/ubuntu/tags/?page_size=25&page=1&ordering=last_updated".to_string())
    );
    let gitlab = ImageName::new(Some("gitlab".to_string()), "gitlab-ce".to_string());
    assert_eq!(
        CurrentPage::First.get_url(&gitlab),
        Some("https://hub.docker.com/v2/repositories/gitlab/gitlab-ce/tags/?page_size=25&page=1&ordering=last_updated".to_string())
    );
    assert_eq!(
        CurrentPage::Next("https://next".to_string()).get_url(&ubuntu()),
        Some("https://next".to_string())
    );
    assert_eq!(CurrentPage::End.get_url(&ubuntu()), None);
    assert_eq!(CurrentPage::format_name_for_url(&ubuntu()), "library/ubuntu");
}

#[test]
fn runs_through_pages() {
    let mut run = DockerHubTagIterator::new(&ubuntu());
    let first = match run.advance() {
        Step::Fetch(url) => url,
        other => panic!("{:?}", other),
    };
    assert_eq!(first, CurrentPage::First.get_url(&ubuntu()).unwrap());
    let page: Result<Response, String> = Ok(Response {
        results: vec!["3".to_string(), "2".to_string()],
        next: Some("https://second".to_string()),
    });
    assert_eq!(run.receive(page), Some(Ok("3".to_string())));
    assert_eq!(run.advance(), Step::Yield("2".to_string()));
    assert_eq!(run.advance(), Step::Fetch("https://second".to_string()));
    let page: Result<Response, String> = Ok(Response {
        results: vec!["1".to_string()],
        next: None,
    });
    assert_eq!(run.receive(page), Some(Ok("1".to_string())));
    assert_eq!(run.advance(), Step::Finish);
    assert_eq!(run.advance(), Step::Finish);
}

#[test]
fn empty_first_page_is_an_error() {
    let mut run = DockerHubTagIterator::new(&ubuntu());
    let page: Result<Response, String> = Ok(Response {
        results: vec![],
        next: None,
    });
    assert_eq!(
        run.receive(page),
        Some(Err(DockerHubTagFetcherError::EmptyTags(ubuntu())))
    );
    assert_eq!(
        run.advance(),
        Step::Fetch(CurrentPage::First.get_url(&ubuntu()).unwrap())
    );
}

#[test]
fn failed_fetch_leaves_the_run_as_it_was() {
    let mut run = DockerHubTagIterator::new(&ubuntu());
    let page: Result<Response, String> = Err("offline".to_string());
    assert_eq!(
        run.receive(page),
        Some(Err(DockerHubTagFetcherError::FetchError(
            "offline".to_string()
        )))
    );
    assert_eq!(
        run.advance(),
        Step::Fetch(CurrentPage::First.get_url(&ubuntu()).unwrap())
    );
}

#[test]
fn empty_later_page_ends_the_pull() {
    let mut run = DockerHubTagIterator::new(&ubuntu());
    let page: Result<Response, String> = Ok(Response {
        results: vec!["1".to_string()],
        next: Some("https://second".to_string()),
    });
    assert_eq!(run.receive(page), Some(Ok("1".to_string())));
    let page: Result<Response, String> = Ok(Response {
        results: vec![],
        next: None,
    });
    assert_eq!(run.receive(page), None);
    assert_eq!(run.advance(), Step::Finish);
}

#[test]
fn fetches_latest_tags() {
    let fetcher = listed(&["3", "2", "1"]);
    assert_eq!(
        fetch_latest(&fetcher, &ubuntu(), 2),
        Ok(vec!["3".to_string(), "2".to_string()])
    );
    assert_eq!(fetch_latest(&fetcher, &ubuntu(), 5).unwrap().len(), 3);
    let failing = Listed(vec![Ok("3".to_string()), Err("offline".to_string())]);
    assert_eq!(fetch_latest(&failing, &ubuntu(), 1), Ok(vec!["3".to_string()]));
    assert_eq!(fetch_latest(&failing, &ubuntu(), 2), Err("offline".to_string()));
}

#[test]
fn fetches_matching_tags() {
    let extractor = VersionExtractor::parse("<>.<>").unwrap();
    let fetcher = listed(&["latest", "1.3", "1.2-slim", "1.2", "1.1", "1.0"]);
    assert_eq!(
        fetch_matching(&fetcher, &ubuntu(), &extractor, 2, 100),
        Ok((4, vec!["1.3".to_string(), "1.2".to_string()]))
    );
    assert_eq!(
        fetch_matching(&fetcher, &ubuntu(), &extractor, 10, 3),
        Ok((6, vec![
            "1.3".to_string(),
            "1.2".to_string(),
            "1.1".to_string(),
            "1.0".to_string()
        ]))
    );
    assert_eq!(
        fetch_matching(&fetcher, &ubuntu(), &extractor, 2, 2),
        Ok((2, vec!["1.3".to_string()]))
    );
    assert_eq!(fetch_matching(&fetcher, &ubuntu(), &extractor, 0, 0), Ok((0, vec![])));
}

#[test]
fn reads_and_writes_numbers() {
    assert_eq!(parse_number("0"), Some(0));
    assert_eq!(parse_number("0042"), Some(42));
    assert_eq!(parse_number("18446744073709551615"), Some(usize::MAX));
    assert_eq!(parse_number("18446744073709551616"), None);
    assert_eq!(parse_number(""), None);
    assert_eq!(parse_number("+5"), None);
    assert_eq!(parse_number("1a"), None);
    assert_eq!(number_to_string(0), "0");
    assert_eq!(number_to_string(1203), "1203");
    assert_eq!(number_to_string(usize::MAX), usize::MAX.to_string());
}

#[test]
fn joins_lines() {
    assert_eq!(join(&vec![], ", "), "");
    assert_eq!(join(&vec!["a".to_string()], ", "), "a");
    assert_eq!(
        join(&vec!["a".to_string(), "".to_string(), "c".to_string()], ", "),
        "a, , c"
    );
}

#[test]
fn errors_say_what_is_wrong() {
    assert_eq!(
        Error::Syntax { position: 4 }.to_string(),
        "unexpected character at position 4"
    );
    assert_eq!(
        Pattern::parse("<>.<!>").unwrap_err().to_string(),
        "breaking part `<!>` at position 3 follows a compatible part `<>`"
    );
    assert_eq!(Error::Matcher.to_string(), "the pattern is too large");
    assert_eq!(
        CheckError::UnspecifiedPattern.to_string(),
        "Failed to find version pattern"
    );
    let invalid = CheckError::InvalidPattern {
        pattern: "<>.<!>".to_string(),
        source: Error::Structure { position: 3 },
    };
    assert_eq!(invalid.to_string(), "The version pattern `<>.<!>` is invalid");
    assert_eq!(invalid.source(), Some(Error::Structure { position: 3 }));
    assert_eq!(CheckError::UnspecifiedPattern.source(), None);
    let invalid: FindUpdateError<String> = FindUpdateError::InvalidCurrentTag {
        tag: "latest".to_string(),
        pattern: "<>".to_string(),
    };
    assert_eq!(
        invalid.to_string(),
        "The current tag `latest` does not match the required pattern `<>`"
    );
    let fetch: FindUpdateError<String> = FindUpdateError::FetchError("offline".to_string());
    assert_eq!(fetch.to_string(), "Failed to fetch tags");
}

#[test]
fn very_large_pattern_has_no_matcher() {
    let text = "<>".repeat(200000);
    assert!(Pattern::parse(&text).is_ok());
    assert_eq!(
        VersionExtractor::parse(&text).map(|_| ()),
        Err(Error::Matcher)
    );
}

#[test]
fn asking_for_no_tag_pulls_none() {
    // The first pull would fail, so a result shows that nothing was pulled.
    let failing = Listed(vec![Err("offline".to_string())]);
    let extractor = VersionExtractor::parse("<>.<>").unwrap();
    assert_eq!(fetch_latest(&failing, &ubuntu(), 0), Ok(vec![]));
    assert_eq!(
        fetch_matching(&failing, &ubuntu(), &extractor, 0, 100),
        Ok((0, vec![]))
    );
    assert_eq!(
        fetch_matching(&failing, &ubuntu(), &extractor, 1, 0),
        Err("offline".to_string())
    );
}
