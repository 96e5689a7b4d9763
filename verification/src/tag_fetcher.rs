//! Where tags come from.

use std::collections::VecDeque;
use vstd::prelude::*;
use vstd::string::StringExecFns;
use crate::image::{ImageName, ImageNameModel, Tag};
use crate::text::{decimal_digits, push_number, texts};

verus! {

/// Enables fetching of tags that belong to an image.
///
/// The tags come one at a time, ordered from newest to oldest: tags that
/// are updates to another tag appear before that tag. Each pull may fail.
/// Nothing is promised of what an implementation hands out.
pub trait TagFetcher {
    /// The state of one run through the tags of an image.
    type TagIter;

    /// Why a pull failed.
    type FetchError;

    /// Starts a run through the tags of `image`.
    fn fetch(&self, image: &ImageName) -> Self::TagIter;

    /// Pulls the next tag of a run. `None` when there are no more tags.
    fn next_tag(&self, tags: &mut Self::TagIter) -> Option<Result<Tag, Self::FetchError>>;
}

/// How many tags are asked for at a time.
pub const FETCH_AMOUNT: usize = 25;

/// Fetches tags from DockerHub, no more than its search limit for one image.
#[derive(Debug, Default, PartialEq, Eq)]
pub struct DockerHubTagFetcher {
    search_limit: usize,
}

impl DockerHubTagFetcher {
    /// A fetcher that looks at the latest 100 tags of an image.
    pub fn new() -> (fetcher: Self)
        ensures
            fetcher.limit() == 100,
    {
        DockerHubTagFetcher { search_limit: 100 }
    }

    /// A fetcher that looks at the latest `search_limit` tags of an image.
    pub fn with_search_limit(search_limit: usize) -> (fetcher: Self)
        ensures
            fetcher.limit() == search_limit,
    {
        DockerHubTagFetcher { search_limit }
    }

    /// How many tags of an image the fetcher looks at.
    pub closed spec fn limit(&self) -> usize {
        self.search_limit
    }

    /// How many tags of an image the fetcher looks at.
    pub fn search_limit(&self) -> (limit: usize)
        ensures
            limit == self.limit(),
    {
        self.search_limit
    }
}

/// One page of tags as DockerHub hands it out: the names of the tags, and
/// the address of the next page, if there is one.
#[derive(Debug, PartialEq, Eq)]
pub struct Response {
    pub results: Vec<Tag>,
    pub next: Option<String>,
}

/// Which page of the tags of an image comes next.
#[derive(Debug, PartialEq, Eq)]
pub enum CurrentPage {
    First,
    Next(String),
    End,
}

/// Why the tags of an image cannot be had.
#[derive(Debug, PartialEq, Eq)]
pub enum DockerHubTagFetcherError<E> {
    /// A page could not be fetched.
    FetchError(E),
    /// The first page holds no tag.
    EmptyTags(ImageName),
}

/// The name of an image as it stands in an address: official images are in
/// the library.
pub open spec fn name_in_url(name: ImageNameModel) -> Seq<char> {
    match name.user {
        Some(user) => user + "/"@ + name.image,
        None => "library/"@ + name.image,
    }
}

/// The address of the first page of the tags of an image, latest tags first.
pub open spec fn first_page_url(name: ImageNameModel) -> Seq<char> {
    "https://hub.docker.com/v2/repositories/"@ + name_in_url(name) + "/tags/?page_size="@
        + decimal_digits(FETCH_AMOUNT as nat) + "&page="@ + decimal_digits(1)
        + "&ordering=last_updated"@
}

/// The address of a page, if there is a page.
pub open spec fn page_url(page: CurrentPage, name: ImageNameModel) -> Option<Seq<char>> {
    match page {
        CurrentPage::First => Some(first_page_url(name)),
        CurrentPage::Next(url) => Some(url@),
        CurrentPage::End => None,
    }
}

impl CurrentPage {
    /// The address of this page of the tags of `image`, if there is a page.
    pub fn get_url(&self, image: &ImageName) -> (url: Option<String>)
        ensures
            match page_url(*self, image@) {
                Some(text) => url matches Some(found) && found@ == text,
                None => url is None,
            },
    {
        match self {
            CurrentPage::First => {
                let mut url = String::from_str("https://hub.docker.com/v2/repositories/");
                url.append(Self::format_name_for_url(image).as_str());
                url.append("/tags/?page_size=");
                push_number(&mut url, FETCH_AMOUNT);
                url.append("&page=");
                push_number(&mut url, 1);
                url.append("&ordering=last_updated");
                Some(url)
            },
            CurrentPage::Next(page) => Some(page.clone()),
            CurrentPage::End => None,
        }
    }

    /// Writes the name of an image as it stands in an address.
    pub fn format_name_for_url(name: &ImageName) -> (text: String)
        ensures
            text@ == name_in_url(name@),
    {
        match name {
            ImageName::Official { image } => {
                let mut text = String::from_str("library/");
                text.append(image.as_str());
                text
            },
            ImageName::User { user, image } => {
                let mut text = user.clone();
                text.append("/");
                text.append(image.as_str());
                text
            },
        }
    }
}

/// What a run through the tags of an image does next.
#[derive(Debug, PartialEq, Eq)]
pub enum Step {
    /// It hands out a tag.
    Yield(Tag),
    /// It needs the page at this address.
    Fetch(String),
    /// It has come to the end.
    Finish,
}

/// A run through the tags of an image on DockerHub, page by page. The run
/// itself fetches nothing: it says which page it needs, and takes what came
/// of fetching it.
#[derive(Debug)]
pub struct DockerHubTagIterator {
    image_name: ImageName,
    /// The tags of the current page.
    fetched: VecDeque<Tag>,
    current_page: CurrentPage,
}

/// What a run through the tags of an image is, as a mathematical value.
pub struct RunModel {
    pub image_name: ImageNameModel,
    pub fetched: Seq<Seq<char>>,
    pub current_page: CurrentPage,
}

/// What a run does next: it hands out the first of the tags at hand, or asks
/// for the page that comes next, or ends where there is none.
pub open spec fn next_step(run: RunModel) -> (RunModel, Option<Option<Seq<char>>>) {
    if run.fetched.len() > 0 {
        (RunModel { fetched: run.fetched.skip(1), ..run }, Some(Some(run.fetched[0])))
    } else {
        match page_url(run.current_page, run.image_name) {
            Some(url) => (run, Some(None)),
            None => (run, None),
        }
    }
}

impl View for DockerHubTagIterator {
    type V = RunModel;

    closed spec fn view(&self) -> RunModel {
        RunModel {
            image_name: self.image_name@,
            fetched: texts(self.fetched@),
            current_page: self.current_page,
        }
    }
}

impl DockerHubTagIterator {
    /// Starts a run through the tags of an image, at the first page.
    pub fn new(image_name: &ImageName) -> (run: Self)
        ensures
            run@ == (RunModel {
                image_name: image_name@,
                fetched: Seq::empty(),
                current_page: CurrentPage::First,
            }),
    {
        let run = DockerHubTagIterator {
            fetched: VecDeque::with_capacity(FETCH_AMOUNT),
            image_name: image_name.clone(),
            current_page: CurrentPage::First,
        };
        assert(texts(run.fetched@) == Seq::<Seq<char>>::empty());
        run
    }

    /// Says what the run does next. A tag at hand is handed out. Without
    /// one, the run asks for the page that comes next, and ends where there
    /// is none.
    pub fn advance(&mut self) -> (step: Step)
        ensures
            final(self)@ == next_step(old(self)@).0,
            match next_step(old(self)@).1 {
                Some(Some(tag)) => step matches Step::Yield(found) && found@ == tag,
                Some(None) => step matches Step::Fetch(url) && Some(url@) == page_url(
                    old(self)@.current_page,
                    old(self)@.image_name,
                ),
                None => step == Step::Finish,
            },
    {
        let ghost before = self.fetched@;
        match self.fetched.pop_front() {
            Some(tag) => {
                assert(texts(self.fetched@) == texts(before).skip(1));
                Step::Yield(tag)
            },
            None => match self.current_page.get_url(&self.image_name) {
                Some(url) => Step::Fetch(url),
                None => Step::Finish,
            },
        }
    }

    /// Takes what came of fetching the page that the run asked for, and
    /// hands out its first tag. A page that could not be fetched leaves the
    /// run as it was. A first page without tags is an error: it may mean that
    /// there is no image of that name. The other tags of the page are kept at
    /// hand, and the run goes on with the page that the fetched page names as
    /// the next. `None` is handed out where the page has no tag.
    pub fn receive<E>(&mut self, response: Result<Response, E>) -> (result: Option<
        Result<Tag, DockerHubTagFetcherError<E>>,
    >)
        ensures
            match response {
                Err(error) => final(self)@ == old(self)@ && result == Some(
                    Err::<Tag, DockerHubTagFetcherError<E>>(
                        DockerHubTagFetcherError::FetchError(error),
                    ),
                ),
                Ok(page) => if old(self)@.current_page == CurrentPage::First
                    && page.results@.len() == 0 {
                    &&& final(self)@ == old(self)@
                    &&& result matches Some(Err(DockerHubTagFetcherError::EmptyTags(name)))
                    &&& name@ == old(self)@.image_name
                } else {
                    &&& final(self)@.image_name == old(self)@.image_name
                    &&& final(self)@.fetched == if page.results@.len() > 0 {
                        texts(page.results@).skip(1)
                    } else {
                        Seq::empty()
                    }
                    &&& final(self)@.current_page == match page.next {
                        Some(url) => CurrentPage::Next(url),
                        None => CurrentPage::End,
                    }
                    &&& if page.results@.len() == 0 {
                        result is None
                    } else {
                        result matches Some(Ok(tag)) && tag@ == page.results@[0]@
                    }
                },
            },
    {
        match response {
            Err(error) => Some(Err(DockerHubTagFetcherError::FetchError(error))),
            Ok(page) => {
                let Response { results, next: next_page } = page;
                let is_first = match &self.current_page {
                    CurrentPage::First => true,
                    _ => false,
                };
                // An image that does not exist has a first page without tags.
                if is_first && results.len() == 0 {
                    return Some(
                        Err(DockerHubTagFetcherError::EmptyTags(self.image_name.clone())),
                    );
                }
                let mut tags: VecDeque<Tag> = VecDeque::new();
                let mut first: Option<Tag> = None;
                let ghost all = results@;
                for tag in it: results
                    invariant
                        it.seq() == all,
                        it.index() == 0 ==> first is None && tags@.len() == 0,
                        it.index() > 0 ==> first == Some(all[0]) && tags@ == all.subrange(
                            1,
                            it.index(),
                        ),
                {
                    if first.is_none() {
                        first = Some(tag);
                    } else {
                        tags.push_back(tag);
                    }
                }
                self.fetched = tags;
                self.current_page = match next_page {
                    Some(url) => CurrentPage::Next(url),
                    None => CurrentPage::End,
                };
                proof {
                    if all.len() > 0 {
                        assert(all.subrange(1, all.len() as int) == all.skip(1));
                        assert(texts(all.skip(1)) == texts(all).skip(1));
                    } else {
                        assert(texts(self.fetched@) == Seq::<Seq<char>>::empty());
                    }
                }
                match first {
                    Some(tag) => Some(Ok(tag)),
                    None => None,
                }
            },
        }
    }
}

} // verus!
