//! The search for updates of one image.
//!
//! Tags are pulled newest first, until the current tag comes up or the
//! search bound is reached. Of the tags seen before the current one, the
//! greatest compatible version and the greatest breaking version are kept.

use vstd::prelude::*;
use vstd::string::StringExecFns;
use crate::image::{Image, ImageName, Tag};
use crate::pattern::{PatternModel, display};
use crate::tag_fetcher::TagFetcher;
use crate::version::{
    UpdateType,
    Version,
    lemma_lex_less_total,
    lemma_lex_less_transitive,
    lex_less,
    update_type_of,
};
use crate::version::extractor::{VersionExtractor, extraction, matching};

verus! {

/// What an update is, as a mathematical value.
pub struct UpdateModel {
    pub compatible: Option<Seq<char>>,
    pub breaking: Option<Seq<char>>,
}

/// The newest tags that an image can be updated to: one that is compatible
/// with the current tag, and one that is not. Both, one or none may exist.
#[derive(Debug, PartialEq, Eq, Clone)]
pub struct Update {
    pub compatible: Option<Tag>,
    pub breaking: Option<Tag>,
}

impl View for Update {
    type V = UpdateModel;

    open spec fn view(&self) -> UpdateModel {
        UpdateModel {
            compatible: match self.compatible {
                Some(tag) => Some(tag@),
                None => None,
            },
            breaking: match self.breaking {
                Some(tag) => Some(tag@),
                None => None,
            },
        }
    }
}

/// Whether the current tag came up during the search.
#[derive(Debug, PartialEq, Eq, Clone, Copy, Structural)]
pub enum CurrentTagStatus {
    /// The current tag was pulled.
    Found,
    /// The search ended after `searched_amount` tags without the current tag
    /// among them.
    NotEncountered { searched_amount: usize },
}

/// Why no update could be looked for.
#[derive(Debug, PartialEq, Eq)]
pub enum FindUpdateError<E> {
    /// A pull from the tag source failed.
    FetchError(E),
    /// The current tag does not match the pattern.
    InvalidCurrentTag { tag: Tag, pattern: String },
}

/// What a search knows after some tags, as a mathematical value.
pub struct SearchModel {
    /// How many tags were pulled.
    pub searched_amount: nat,
    /// Whether the current tag was among them.
    pub found: bool,
    /// The best compatible update so far.
    pub compatible: Option<Seq<char>>,
    /// The best breaking update so far.
    pub breaking: Option<Seq<char>>,
}

/// Whether `tag` is an update of the given kind to `current_tag`: both hold
/// a version, that of `tag` is the greater one, and the step from the
/// current version to it is of that kind.
pub open spec fn is_update(
    pattern: PatternModel,
    current_tag: Seq<char>,
    tag: Seq<char>,
    kind: UpdateType,
) -> bool {
    &&& extraction(pattern.parts, current_tag) matches Some(current)
    &&& extraction(pattern.parts, tag) matches Some(candidate)
    &&& lex_less(current, candidate)
    &&& update_type_of(current, candidate, pattern.breaking_degree) == kind
}

/// Whether the version of `tag` is greater than that of the best tag so far.
pub open spec fn beats(pattern: PatternModel, best: Option<Seq<char>>, tag: Seq<char>) -> bool {
    match best {
        None => true,
        Some(best_tag) => lex_less(
            extraction(pattern.parts, best_tag)->Some_0,
            extraction(pattern.parts, tag)->Some_0,
        ),
    }
}

/// The better of the best tag so far and `tag`, for updates of one kind.
pub open spec fn keep_best(
    pattern: PatternModel,
    current_tag: Seq<char>,
    best: Option<Seq<char>>,
    tag: Seq<char>,
    kind: UpdateType,
) -> Option<Seq<char>> {
    if is_update(pattern, current_tag, tag, kind) && beats(pattern, best, tag) {
        Some(tag)
    } else {
        best
    }
}

/// What a search knows after one more tag.
pub open spec fn step(
    pattern: PatternModel,
    current_tag: Seq<char>,
    state: SearchModel,
    tag: Seq<char>,
) -> SearchModel {
    if tag == current_tag {
        SearchModel { searched_amount: state.searched_amount + 1, found: true, ..state }
    } else {
        SearchModel {
            searched_amount: state.searched_amount + 1,
            found: false,
            compatible: keep_best(
                pattern,
                current_tag,
                state.compatible,
                tag,
                UpdateType::Compatible,
            ),
            breaking: keep_best(pattern, current_tag, state.breaking, tag, UpdateType::Breaking),
        }
    }
}

/// What a search knows after the given tags, taken in their order. Once the
/// current tag has come up, further tags change nothing.
pub open spec fn scan(pattern: PatternModel, current_tag: Seq<char>, tags: Seq<Seq<char>>)
    -> SearchModel
    decreases tags.len(),
{
    if tags.len() == 0 {
        SearchModel { searched_amount: 0, found: false, compatible: None, breaking: None }
    } else {
        let before = scan(pattern, current_tag, tags.drop_last());
        if before.found {
            before
        } else {
            step(pattern, current_tag, before, tags.last())
        }
    }
}

/// What a search reports in the end.
pub open spec fn outcome(state: SearchModel) -> (CurrentTagStatus, UpdateModel) {
    (
        if state.found {
            CurrentTagStatus::Found
        } else {
            CurrentTagStatus::NotEncountered { searched_amount: state.searched_amount as usize }
        },
        UpdateModel { compatible: state.compatible, breaking: state.breaking },
    )
}

/// What a search through a list of tags reports when it pulls no more than
/// `search_bound` of them.
pub open spec fn resolution(
    pattern: PatternModel,
    current_tag: Seq<char>,
    tags: Seq<Seq<char>>,
    search_bound: nat,
) -> (CurrentTagStatus, UpdateModel) {
    let within = if search_bound < tags.len() {
        tags.take(search_bound as int)
    } else {
        tags
    };
    outcome(scan(pattern, current_tag, within))
}

/// The texts of a list of tags.
pub open spec fn tags_view(tags: Seq<Tag>) -> Seq<Seq<char>> {
    Seq::new(tags.len(), |i: int| tags[i]@)
}

/// The state of a search: what was found so far, with the versions of the
/// best tags at hand.
struct Search {
    searched_amount: usize,
    found: bool,
    compatible: Option<(Version, Tag)>,
    breaking: Option<(Version, Tag)>,
}

/// The tag of a best candidate.
spec fn tag_of(best: Option<(Version, Tag)>) -> Option<Seq<char>> {
    match best {
        Some((_, tag)) => Some(tag@),
        None => None,
    }
}

/// The version at hand is the one that the pattern finds in the tag.
spec fn version_at_hand(pattern: PatternModel, best: Option<(Version, Tag)>) -> bool {
    best matches Some((version, tag)) ==> extraction(pattern.parts, tag@) == Some(version@)
}

impl Search {
    spec fn model(&self) -> SearchModel {
        SearchModel {
            searched_amount: self.searched_amount as nat,
            found: self.found,
            compatible: tag_of(self.compatible),
            breaking: tag_of(self.breaking),
        }
    }

    spec fn wf(&self, pattern: PatternModel) -> bool {
        &&& version_at_hand(pattern, self.compatible)
        &&& version_at_hand(pattern, self.breaking)
    }

    fn new() -> (search: Search)
        ensures
            search.model().searched_amount == 0,
            !search.model().found,
            search.model().compatible is None,
            search.model().breaking is None,
            forall|pattern: PatternModel| search.wf(pattern),
    {
        Search { searched_amount: 0, found: false, compatible: None, breaking: None }
    }

    /// Takes one more tag into account.
    fn examine(
        &mut self,
        extractor: &VersionExtractor,
        current_tag: &String,
        current_version: &Version,
        tag: Tag,
    )
        requires
            old(self).wf(extractor@),
            old(self).searched_amount < usize::MAX,
            extraction(extractor@.parts, current_tag@) == Some(current_version@),
        ensures
            final(self).wf(extractor@),
            final(self).model() == step(extractor@, current_tag@, old(self).model(), tag@),
    {
        self.searched_amount += 1;
        if tag == *current_tag {
            self.found = true;
            return ;
        }
        self.found = false;
        match extractor.extract_from(tag.as_str()) {
            Some(version) => {
                if current_version.is_less_than(&version) {
                    match current_version.update_type(&version, extractor.breaking_degree()) {
                        UpdateType::Compatible => {
                            let better = match &self.compatible {
                                Some((best, _)) => best.is_less_than(&version),
                                None => true,
                            };
                            if better {
                                self.compatible = Some((version, tag));
                            }
                        },
                        UpdateType::Breaking => {
                            let better = match &self.breaking {
                                Some((best, _)) => best.is_less_than(&version),
                                None => true,
                            };
                            if better {
                                self.breaking = Some((version, tag));
                            }
                        },
                    }
                }
            },
            None => {},
        }
    }

    /// Ends the search.
    fn finish(self) -> (result: (CurrentTagStatus, Update))
        ensures
            (result.0, result.1@) == outcome(self.model()),
    {
        let status = if self.found {
            CurrentTagStatus::Found
        } else {
            CurrentTagStatus::NotEncountered { searched_amount: self.searched_amount }
        };
        let compatible = match self.compatible {
            Some((_, tag)) => Some(tag),
            None => None,
        };
        let breaking = match self.breaking {
            Some((_, tag)) => Some(tag),
            None => None,
        };
        (status, Update { compatible, breaking })
    }
}

/// Looks for updates among tags that are at hand, newest first, and looks at
/// no more than `search_bound` of them. `None` where the current tag does
/// not match the pattern.
pub fn find_update_among(
    extractor: &VersionExtractor,
    current_tag: &String,
    tags: &Vec<Tag>,
    search_bound: usize,
) -> (result: Option<(CurrentTagStatus, Update)>)
    ensures
        match extraction(extractor@.parts, current_tag@) {
            Some(_) => result matches Some((status, update)) && (status, update@) == resolution(
                extractor@,
                current_tag@,
                tags_view(tags@),
                search_bound as nat,
            ),
            None => result is None,
        },
{
    let current_version = match extractor.extract_from(current_tag.as_str()) {
        Some(version) => version,
        None => {
            return None;
        },
    };
    let limit = if search_bound < tags.len() {
        search_bound
    } else {
        tags.len()
    };
    let ghost within = tags_view(tags@).take(limit as int);
    let mut search = Search::new();
    let mut i: usize = 0;
    while i < limit && !search.found
        invariant
            i <= limit <= tags@.len(),
            within == tags_view(tags@).take(limit as int),
            search.wf(extractor@),
            search.searched_amount <= i,
            extraction(extractor@.parts, current_tag@) == Some(current_version@),
            search.model() == scan(extractor@, current_tag@, within.take(i as int)),
        decreases limit - i,
    {
        proof {
            assert(within.take(i + 1).drop_last() == within.take(i as int));
            assert(within.take(i + 1).last() == tags@[i as int]@);
        }
        search.examine(extractor, current_tag, &current_version, tags[i].clone());
        i += 1;
    }
    proof {
        lemma_scan_stays_found(extractor@, current_tag@, within, i as int);
        assert(tags_view(tags@).take(tags@.len() as int) == tags_view(tags@));
    }
    Some(search.finish())
}

/// Once the current tag has come up, the tags behind it change nothing.
pub proof fn lemma_scan_stays_found(
    pattern: PatternModel,
    current_tag: Seq<char>,
    tags: Seq<Seq<char>>,
    n: int,
)
    requires
        0 <= n <= tags.len(),
        scan(pattern, current_tag, tags.take(n)).found || n == tags.len(),
    ensures
        scan(pattern, current_tag, tags) == scan(pattern, current_tag, tags.take(n)),
    decreases tags.len() - n,
{
    if n == tags.len() {
        assert(tags.take(n) == tags);
    } else {
        assert(tags.take(n + 1).drop_last() == tags.take(n));
        lemma_scan_stays_found(pattern, current_tag, tags, n + 1);
    }
}

/// Looks for updates of images, with tags that a fetcher hands out.
pub struct Uptag<T: TagFetcher> {
    fetcher: T,
}

impl<T: TagFetcher> Uptag<T> {
    /// Makes a finder of updates that pulls its tags from `fetcher`.
    pub fn new(fetcher: T) -> (uptag: Uptag<T>)
        ensures
            uptag.fetcher() == fetcher,
    {
        Uptag { fetcher }
    }

    /// The fetcher that the tags are pulled from.
    pub closed spec fn fetcher(&self) -> T {
        self.fetcher
    }

    /// Looks for updates of an image. Pulls tags, newest first, until the
    /// image's own tag comes up, the tags end, or `search_bound` tags have
    /// been pulled, and reports the greatest compatible and the greatest
    /// breaking version among the tags before the image's own.
    ///
    /// Fails before any pull where the image's tag does not match the
    /// pattern, and as soon as a pull fails.
    pub fn find_update(
        &self,
        image: &Image,
        extractor: &VersionExtractor,
        search_bound: usize,
    ) -> (result: Result<(CurrentTagStatus, Update), FindUpdateError<T::FetchError>>)
        ensures
            extraction(extractor@.parts, image@.tag) is None <==> result matches Err(
                FindUpdateError::InvalidCurrentTag { .. },
            ),
            result matches Err(FindUpdateError::InvalidCurrentTag { tag, pattern }) ==> tag@
                == image@.tag && pattern@ == display(
                extractor@.parts,
                extractor@.breaking_degree,
            ),
            result matches Ok((status, update)) ==> exists|pulled: Seq<Seq<char>>|
                pulled.len() <= search_bound && (status, update@) == outcome(
                    #[trigger] scan(extractor@, image@.tag, pulled),
                ),
            search_bound == 0 && extraction(extractor@.parts, image@.tag) is Some
                ==> result is Ok,
    {
        let current_version = match extractor.extract_from(image.tag.as_str()) {
            Some(version) => version,
            None => {
                return Err(
                    FindUpdateError::InvalidCurrentTag {
                        tag: image.tag.clone(),
                        pattern: extractor.to_string(),
                    },
                );
            },
        };
        let mut tags = self.fetcher.fetch(&image.name);
        let mut search = Search::new();
        let ghost mut pulled: Seq<Seq<char>> = Seq::empty();
        while search.searched_amount < search_bound && !search.found
            invariant
                search.wf(extractor@),
                search.searched_amount <= search_bound,
                pulled.len() == search.searched_amount,
                extraction(extractor@.parts, image@.tag) == Some(current_version@),
                search.model() == scan(extractor@, image@.tag, pulled),
            decreases search_bound - search.searched_amount,
        {
            match self.fetcher.next_tag(&mut tags) {
                Some(Ok(tag)) => {
                    proof {
                        assert(pulled.push(tag@).drop_last() == pulled);
                        pulled = pulled.push(tag@);
                    }
                    search.examine(extractor, &image.tag, &current_version, tag);
                },
                Some(Err(error)) => {
                    return Err(FindUpdateError::FetchError(error));
                },
                None => {
                    break ;
                },
            }
        }
        let found = search.finish();
        assert((found.0, found.1@) == outcome(scan(extractor@, image@.tag, pulled)));
        Ok(found)
    }
}

/// A search pulls every tag up to the first occurrence of the current tag:
/// it has found the current tag exactly when the tag is among the given
/// ones, and then has pulled as many tags as lead up to it; else it has
/// pulled them all.
pub proof fn lemma_scan_position(
    pattern: PatternModel,
    current_tag: Seq<char>,
    tags: Seq<Seq<char>>,
)
    ensures
        scan(pattern, current_tag, tags).found <==> exists|p: int|
            0 <= p < tags.len() && tags[p] == current_tag,
        scan(pattern, current_tag, tags).searched_amount <= tags.len(),
        !scan(pattern, current_tag, tags).found ==> scan(
            pattern,
            current_tag,
            tags,
        ).searched_amount == tags.len(),
        scan(pattern, current_tag, tags).found ==> {
            let p = scan(pattern, current_tag, tags).searched_amount - 1;
            &&& 0 <= p < tags.len()
            &&& tags[p] == current_tag
            &&& forall|i: int| 0 <= i < p ==> tags[i] != current_tag
        },
    decreases tags.len(),
{
    if tags.len() > 0 {
        let before = tags.drop_last();
        lemma_scan_position(pattern, current_tag, before);
        if scan(pattern, current_tag, before).found {
            let p = scan(pattern, current_tag, before).searched_amount - 1;
            assert(tags[p] == before[p]);
            assert forall|i: int| 0 <= i < p implies tags[i] != current_tag by {
                assert(tags[i] == before[i]);
            }
        } else {
            assert forall|i: int| 0 <= i < tags.len() - 1 implies tags[i] != current_tag by {
                assert(tags[i] == before[i]);
            }
            if tags.last() == current_tag {
                assert(tags[tags.len() - 1] == current_tag);
            }
        }
    }
}

/// The best update of one kind that a search knows of.
pub open spec fn best_of_kind(state: SearchModel, kind: UpdateType) -> Option<Seq<char>> {
    match kind {
        UpdateType::Compatible => state.compatible,
        UpdateType::Breaking => state.breaking,
    }
}

/// The tags that a search has looked at as candidates: those before the
/// current tag, or all of them where the current tag did not come up.
pub open spec fn seen_before_current(
    pattern: PatternModel,
    current_tag: Seq<char>,
    tags: Seq<Seq<char>>,
) -> Seq<Seq<char>> {
    let state = scan(pattern, current_tag, tags);
    if state.found {
        tags.take(state.searched_amount - 1)
    } else {
        tags
    }
}

/// The update of each kind that a search reports is the greatest of that
/// kind among the tags before the current tag: it is one of these tags, it
/// is an update of that kind, and no update of that kind among them has a
/// greater version. Where the search reports none, there is none among them.
pub proof fn lemma_scan_selects_greatest(
    pattern: PatternModel,
    current_tag: Seq<char>,
    tags: Seq<Seq<char>>,
    kind: UpdateType,
)
    ensures
        ({
            let seen = seen_before_current(pattern, current_tag, tags);
            match best_of_kind(scan(pattern, current_tag, tags), kind) {
                Some(best) => {
                    &&& exists|i: int| 0 <= i < seen.len() && seen[i] == best
                    &&& is_update(pattern, current_tag, best, kind)
                    &&& forall|j: int|
                        0 <= j < seen.len() && is_update(pattern, current_tag, #[trigger] seen[j], kind)
                            ==> !lex_less(
                            extraction(pattern.parts, best)->Some_0,
                            extraction(pattern.parts, seen[j])->Some_0,
                        )
                },
                None => forall|j: int|
                    0 <= j < seen.len() ==> !is_update(pattern, current_tag, #[trigger] seen[j], kind),
            }
        }),
    decreases tags.len(),
{
    if tags.len() > 0 {
        let rest = tags.drop_last();
        let last = tags.last();
        let before = scan(pattern, current_tag, rest);
        let seen_rest = seen_before_current(pattern, current_tag, rest);
        let seen = seen_before_current(pattern, current_tag, tags);
        lemma_scan_selects_greatest(pattern, current_tag, rest, kind);
        lemma_scan_position(pattern, current_tag, rest);
        if before.found {
            assert(seen == seen_rest);
        } else if last == current_tag {
            assert(seen == seen_rest);
        } else {
            assert(seen == seen_rest.push(last));
            let old_best = best_of_kind(before, kind);
            let new_best = best_of_kind(scan(pattern, current_tag, tags), kind);
            assert(new_best == keep_best(pattern, current_tag, old_best, last, kind));
            assert forall|j: int| 0 <= j < seen_rest.len() implies seen[j] == seen_rest[j] by {}
            let last_version = extraction(pattern.parts, last)->Some_0;
            if is_update(pattern, current_tag, last, kind) && beats(pattern, old_best, last) {
                assert(seen[seen.len() - 1] == last);
                lemma_lex_less_total(last_version, last_version);
                assert forall|j: int|
                    0 <= j < seen.len() && is_update(
                        pattern,
                        current_tag,
                        #[trigger] seen[j],
                        kind,
                    ) implies !lex_less(
                    last_version,
                    extraction(pattern.parts, seen[j])->Some_0,
                ) by {
                    if j < seen_rest.len() {
                        assert(seen[j] == seen_rest[j]);
                        let other = extraction(pattern.parts, seen[j])->Some_0;
                        let best_version = extraction(pattern.parts, old_best->Some_0)->Some_0;
                        if lex_less(last_version, other) {
                            lemma_lex_less_transitive(best_version, last_version, other);
                        }
                    }
                }
            } else {
                match old_best {
                    Some(best) => {
                        let at = choose|i: int| 0 <= i < seen_rest.len() && seen_rest[i] == best;
                        assert(seen[at] == best);
                        assert forall|j: int|
                            0 <= j < seen.len() && is_update(
                                pattern,
                                current_tag,
                                #[trigger] seen[j],
                                kind,
                            ) implies !lex_less(
                            extraction(pattern.parts, best)->Some_0,
                            extraction(pattern.parts, seen[j])->Some_0,
                        ) by {
                            if j < seen_rest.len() {
                                assert(seen[j] == seen_rest[j]);
                            }
                        }
                    },
                    None => {
                        assert forall|j: int| 0 <= j < seen.len() implies !is_update(
                            pattern,
                            current_tag,
                            #[trigger] seen[j],
                            kind,
                        ) by {
                            if j < seen_rest.len() {
                                assert(seen[j] == seen_rest[j]);
                            }
                        }
                    },
                }
            }
        }
    }
}

/// How many tags a search through a list of tags looks at when it pulls no
/// more than `search_bound` of them.
pub open spec fn examined(
    pattern: PatternModel,
    current_tag: Seq<char>,
    tags: Seq<Seq<char>>,
    search_bound: nat,
) -> nat {
    let within = if search_bound < tags.len() {
        tags.take(search_bound as int)
    } else {
        tags
    };
    scan(pattern, current_tag, within).searched_amount
}

/// A search through a list of tags looks at no more than `search_bound` of
/// them, and finds the current tag exactly when it is among the first
/// `search_bound` tags of the list. Where it is not, the search has looked at
/// all of the list, or `search_bound` tags of it.
pub proof fn lemma_bound_respected(
    pattern: PatternModel,
    current_tag: Seq<char>,
    tags: Seq<Seq<char>>,
    search_bound: usize,
)
    ensures
        examined(pattern, current_tag, tags, search_bound as nat) <= search_bound,
        examined(pattern, current_tag, tags, search_bound as nat) <= tags.len(),
        resolution(pattern, current_tag, tags, search_bound as nat).0 is Found <==> exists|
            p: int,
        |
            0 <= p < tags.len() && p < search_bound && tags[p] == current_tag,
        resolution(
            pattern,
            current_tag,
            tags,
            search_bound as nat,
        ).0 matches CurrentTagStatus::NotEncountered { searched_amount } ==> searched_amount
            == if search_bound < tags.len() {
            search_bound as int
        } else {
            tags.len() as int
        },
{
    let within = if search_bound < tags.len() {
        tags.take(search_bound as int)
    } else {
        tags
    };
    lemma_scan_position(pattern, current_tag, within);
    if exists|p: int| 0 <= p < within.len() && within[p] == current_tag {
        let p = choose|p: int| 0 <= p < within.len() && within[p] == current_tag;
        assert(tags[p] == current_tag);
    }
    if exists|p: int| 0 <= p < tags.len() && p < search_bound && tags[p] == current_tag {
        let p = choose|p: int| 0 <= p < tags.len() && p < search_bound && tags[p] == current_tag;
        assert(within[p] == current_tag);
    }
}

/// What an error says, for people to read.
pub open spec fn find_update_error_text<E>(error: FindUpdateError<E>) -> Seq<char> {
    match error {
        FindUpdateError::FetchError(_) => "Failed to fetch tags"@,
        FindUpdateError::InvalidCurrentTag { tag, pattern } => "The current tag `"@ + tag@
            + "` does not match the required pattern `"@ + pattern@ + "`"@,
    }
}

impl<E> FindUpdateError<E> {
    /// Says what is wrong, for people to read.
    pub fn to_string(&self) -> (text: String)
        ensures
            text@ == find_update_error_text(*self),
    {
        match self {
            FindUpdateError::FetchError(_) => String::from_str("Failed to fetch tags"),
            FindUpdateError::InvalidCurrentTag { tag, pattern } => {
                let mut text = String::from_str("The current tag `");
                text.append(tag.as_str());
                text.append("` does not match the required pattern `");
                text.append(pattern.as_str());
                text.append("`");
                text
            },
        }
    }
}

/// The pulled tags that match the pattern with the given parts, in their
/// order.
pub open spec fn matching_tags(parts: Seq<crate::pattern::Part>, pulled: Seq<Seq<char>>) -> Seq<
    Seq<char>,
> {
    pulled.filter(|tag: Seq<char>| matching(parts, tag))
}

/// Pulls the latest tags of an image, no more than `amount`, and hands them
/// out in the order in which they came. Tags are pulled until `amount` tags
/// are there or the fetcher has no more; a pull that fails ends the whole
/// with its error. Where no tag is asked for, none is pulled, and nothing can
/// fail.
pub fn fetch_latest<T: TagFetcher>(fetcher: &T, image: &ImageName, amount: usize) -> (result:
    Result<Vec<Tag>, T::FetchError>)
    ensures
        result matches Ok(tags) ==> tags@.len() <= amount,
        amount == 0 ==> (result matches Ok(tags) && tags@.len() == 0),
{
    let mut run = fetcher.fetch(image);
    let mut tags: Vec<Tag> = Vec::new();
    while tags.len() < amount
        invariant
            tags@.len() <= amount,
        decreases amount - tags@.len(),
    {
        match fetcher.next_tag(&mut run) {
            Some(Ok(tag)) => {
                tags.push(tag);
            },
            Some(Err(error)) => {
                return Err(error);
            },
            None => {
                break ;
            },
        }
    }
    Ok(tags)
}

/// How many tags are looked through at most for `amount` matching ones: as
/// many as the search limit says, and `amount` where that is more.
pub open spec fn adjusted_search_limit(search_limit: usize, amount: usize) -> usize {
    if search_limit >= amount {
        search_limit
    } else {
        amount
    }
}

/// Pulls the latest tags of an image that match a pattern: no more than
/// `amount` of them, out of no more than `search_limit` tags, or `amount`
/// tags where that is more. Returns how many tags were pulled, and those
/// among them that match, in their order. No tag is pulled once `amount`
/// matching tags are there; a pull that fails ends the whole with its error.
/// Where no tag is asked for, none is pulled, and nothing can fail.
pub fn fetch_matching<T: TagFetcher>(
    fetcher: &T,
    image: &ImageName,
    extractor: &VersionExtractor,
    amount: usize,
    search_limit: usize,
) -> (result: Result<(usize, Vec<Tag>), T::FetchError>)
    ensures
        amount == 0 ==> (result matches Ok((tag_count, tags)) && tag_count == 0 && tags@.len()
            == 0),
        result matches Ok((tag_count, tags)) ==> {
            &&& tag_count <= adjusted_search_limit(search_limit, amount)
            &&& tags@.len() <= amount
            &&& exists|pulled: Seq<Seq<char>>|
                {
                    &&& pulled.len() == tag_count
                    &&& crate::text::texts(tags@) == #[trigger] matching_tags(
                        extractor@.parts,
                        pulled,
                    )
                    &&& tags@.len() == amount && pulled.len() > 0 ==> matching(
                        extractor@.parts,
                        pulled.last(),
                    )
                }
        },
{
    let search_limit = if search_limit >= amount {
        search_limit
    } else {
        amount
    };
    let mut run = fetcher.fetch(image);
    let mut tags: Vec<Tag> = Vec::new();
    let mut tag_count: usize = 0;
    let ghost mut pulled: Seq<Seq<char>> = Seq::empty();
    while tags.len() < amount && tag_count < search_limit
        invariant
            tags@.len() <= amount,
            tag_count <= search_limit,
            amount == 0 ==> tag_count == 0,
            pulled.len() == tag_count,
            crate::text::texts(tags@) == matching_tags(extractor@.parts, pulled),
            tags@.len() == amount && pulled.len() > 0 ==> matching(
                extractor@.parts,
                pulled.last(),
            ),
        decreases search_limit - tag_count,
    {
        match fetcher.next_tag(&mut run) {
            Some(Ok(tag)) => {
                tag_count += 1;
                proof {
                    reveal(Seq::filter);
                    assert(pulled.push(tag@).drop_last() == pulled);
                    pulled = pulled.push(tag@);
                }
                let ghost before = tags@;
                if extractor.matches(tag.as_str()) {
                    tags.push(tag);
                    assert(crate::text::texts(tags@) == crate::text::texts(before).push(tag@));
                }
            },
            Some(Err(error)) => {
                return Err(error);
            },
            None => {
                break ;
            },
        }
    }
    Ok((tag_count, tags))
}

} // verus!
