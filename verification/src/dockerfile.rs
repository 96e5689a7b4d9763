//! The images of a Dockerfile.
//!
//! Every `FROM <image>:<tag>` line names an image. The comment line before
//! it says which pattern the tags of that image follow:
//! `# uptag --pattern "<pattern>"`.

use vstd::prelude::*;
use vstd::string::StringExecFns;
use crate::image::{Image, ImageModel, ImageName, ImageNameModel, group_text};
use crate::matching::{
    all_captures_of,
    captures,
    captures_iter,
    captures_of,
    compile,
    compiled,
    groups_view,
    matches_view,
};
use crate::pattern::{Pattern, pattern_of};
use crate::version::extractor::{Tagged, VersionExtractor, extractor_of};

verus! {

/// The regular expression of a `FROM` line with the comment before it, if
/// there is one. The pattern from the comment is capture group 2, the user
/// capture group 4, the image capture group 5 and the tag capture group 6.
pub const STATEMENT: &'static str =
    "(#\\s*uptag\\s+--pattern\\s+\"(?P<pattern>[^\"]*)\"\\s*\\n[\\s\\n]*)?\\s*FROM\\s*((?P<user>[[:word:]-]+)/)?(?P<image>[[:word:]-]+):(?P<tag>[[:word:][:punct:]]+)";

/// Why an image cannot be checked for updates.
#[derive(Debug, PartialEq, Eq)]
pub enum CheckError {
    /// No pattern is given for the image.
    UnspecifiedPattern,
    /// The pattern that is given is none.
    InvalidPattern { pattern: String, source: crate::pattern::Error },
}

/// What a `FROM` line with its comment holds, as a mathematical value.
pub struct MatchesModel {
    pub all: Seq<char>,
    pub user: Option<Seq<char>>,
    pub image: Seq<char>,
    pub tag: Seq<char>,
    pub pattern: Option<Seq<char>>,
}

/// What one `FROM` line holds, with the comment before it.
#[derive(Debug, PartialEq, Eq)]
pub struct Matches {
    all: String,
    user: Option<String>,
    image: String,
    tag: String,
    pattern: Option<String>,
}

impl View for Matches {
    type V = MatchesModel;

    closed spec fn view(&self) -> MatchesModel {
        MatchesModel {
            all: self.all@,
            user: match self.user {
                Some(user) => Some(user@),
                None => None,
            },
            image: self.image@,
            tag: self.tag@,
            pattern: match self.pattern {
                Some(pattern) => Some(pattern@),
                None => None,
            },
        }
    }
}

/// What the capture groups of a match of the statement expression hold.
pub open spec fn matches_of_groups(groups: Seq<Option<Seq<char>>>) -> Option<MatchesModel> {
    if groups.len() > 6 && groups[0] is Some && groups[5] is Some && groups[6] is Some {
        Some(
            MatchesModel {
                all: groups[0]->Some_0,
                user: groups[4],
                image: groups[5]->Some_0,
                tag: groups[6]->Some_0,
                pattern: groups[2],
            },
        )
    } else {
        None
    }
}

/// `matches_of_groups` as a value.
pub open spec fn select_matches() -> spec_fn(Seq<Option<Seq<char>>>) -> Option<MatchesModel> {
    |groups: Seq<Option<Seq<char>>>| matches_of_groups(groups)
}

/// The first `FROM` line of a text.
pub open spec fn first_statement(text: Seq<char>) -> Option<MatchesModel> {
    match compiled(STATEMENT@) {
        Some(regex) => match captures_of(regex, text) {
            Some(groups) => matches_of_groups(groups),
            None => None,
        },
        None => None,
    }
}

/// The `FROM` lines of a text, in their order.
pub open spec fn statements(text: Seq<char>) -> Seq<MatchesModel> {
    match compiled(STATEMENT@) {
        Some(regex) => all_captures_of(regex, text).filter_map(select_matches()),
        None => Seq::empty(),
    }
}

/// The image that a `FROM` line names.
pub open spec fn image_of(found: MatchesModel) -> ImageModel {
    ImageModel { name: ImageNameModel { user: found.user, image: found.image }, tag: found.tag }
}

/// Whether an entry says of a `FROM` line what there is to say: its image,
/// and its pattern, or why it has none.
pub open spec fn describes(entry: (Image, Result<Pattern, CheckError>), found: MatchesModel)
    -> bool {
    &&& entry.0@ == image_of(found)
    &&& match found.pattern {
        None => entry.1 == Err::<Pattern, CheckError>(CheckError::UnspecifiedPattern),
        Some(text) => match pattern_of(text) {
            Ok(model) => entry.1 matches Ok(pattern) && pattern@ == model,
            Err(error) => entry.1 matches Err(CheckError::InvalidPattern { pattern, source })
                && pattern@ == text && source == error,
        },
    }
}

/// The mathematical values of a list of matches.
pub open spec fn all_views(found: Seq<Matches>) -> Seq<MatchesModel> {
    Seq::new(found.len(), |i: int| found[i]@)
}

impl Matches {
    /// Gathers what the capture groups of a match of the statement
    /// expression hold.
    pub fn from_captures(groups: &Vec<Option<String>>) -> (result: Option<Matches>)
        ensures
            match matches_of_groups(groups_view(groups@)) {
                Some(model) => result matches Some(found) && found@ == model,
                None => result is None,
            },
    {
        if groups.len() > 6 {
            match (group_text(groups, 0), group_text(groups, 5), group_text(groups, 6)) {
                (Some(all), Some(image), Some(tag)) => Some(
                    Matches {
                        all,
                        user: group_text(groups, 4),
                        image,
                        tag,
                        pattern: group_text(groups, 2),
                    },
                ),
                _ => None,
            }
        } else {
            None
        }
    }

    /// Finds the first `FROM` line of a Dockerfile.
    pub fn first(dockerfile: &str) -> (result: Option<Matches>)
        ensures
            match first_statement(dockerfile@) {
                Some(model) => result matches Some(found) && found@ == model,
                None => result is None,
            },
    {
        match compile(STATEMENT) {
            Some(regex) => match captures(&regex, dockerfile) {
                Some(groups) => Matches::from_captures(&groups),
                None => None,
            },
            None => None,
        }
    }

    /// Finds the `FROM` lines of a Dockerfile, in their order.
    pub fn iter(dockerfile: &str) -> (result: Vec<Matches>)
        ensures
            all_views(result@) == statements(dockerfile@),
    {
        let mut result: Vec<Matches> = Vec::new();
        match compile(STATEMENT) {
            Some(regex) => {
                let found = captures_iter(&regex, dockerfile);
                let ghost all = matches_view(found@);
                let mut i: usize = 0;
                while i < found.len()
                    invariant
                        i <= found@.len(),
                        all == matches_view(found@),
                        all_views(result@) == all.take(i as int).filter_map(select_matches()),
                    decreases found@.len() - i,
                {
                    proof {
                        all.lemma_filter_map_take_succ(select_matches(), i as int);
                    }
                    let ghost before = result@;
                    match Matches::from_captures(&found[i]) {
                        Some(matches) => {
                            result.push(matches);
                            assert(all_views(result@) == all_views(before) + seq![matches@]);
                        },
                        None => {
                            assert(all_views(before) + Seq::<MatchesModel>::empty() == all_views(
                                before,
                            ));
                        },
                    }
                    i += 1;
                }
                proof {
                    assert(all.take(i as int) == all);
                }
            },
            None => {},
        }
        result
    }

    /// The pattern from the comment before the line, if there is one.
    pub fn pattern(&self) -> (pattern: &Option<String>)
        ensures
            match self@.pattern {
                Some(text) => *pattern matches Some(found) && found@ == text,
                None => *pattern is None,
            },
    {
        &self.pattern
    }

    /// The image that the line names.
    pub fn image(&self) -> (image: Image)
        ensures
            image@ == image_of(self@),
    {
        Image { name: ImageName::new(self.user.clone(), self.image.clone()), tag: self.tag.clone() }
    }

    /// The extractor for the pattern from the comment, if there is a comment.
    pub fn extractor(&self) -> (result: Option<Result<VersionExtractor, crate::pattern::Error>>)
        ensures
            match self@.pattern {
                Some(text) => match extractor_of(text) {
                    Ok(model) => result matches Some(Ok(extractor)) && extractor@ == model,
                    Err(error) => result matches Some(Err(given)) && given == error,
                },
                None => result is None,
            },
    {
        match &self.pattern {
            Some(text) => Some(VersionExtractor::parse(text.as_str())),
            None => None,
        }
    }
}

impl Tagged for Matches {
    closed spec fn tag_text(&self) -> Seq<char> {
        self.tag@
    }

    fn tag(&self) -> (tag: &str) {
        self.tag.as_str()
    }
}

/// Finds the images of a Dockerfile, in their order, each with its pattern
/// or with the reason why it has none.
pub fn parse(input: &str) -> (result: Vec<(Image, Result<Pattern, CheckError>)>)
    ensures
        result@.len() == statements(input@).len(),
        forall|i: int|
            0 <= i < result@.len() ==> describes(#[trigger] result@[i], statements(input@)[i]),
{
    let found = Matches::iter(input);
    let mut result: Vec<(Image, Result<Pattern, CheckError>)> = Vec::new();
    let mut i: usize = 0;
    while i < found.len()
        invariant
            i <= found@.len(),
            all_views(found@) == statements(input@),
            result@.len() == i,
            forall|j: int| 0 <= j < i ==> describes(#[trigger] result@[j], statements(input@)[j]),
        decreases found@.len() - i,
    {
        let matches = &found[i];
        assert(all_views(found@)[i as int] == matches@);
        let image = matches.image();
        let pattern = match matches.pattern() {
            Some(text) => match Pattern::parse(text.as_str()) {
                Ok(pattern) => Ok(pattern),
                Err(error) => Err(
                    CheckError::InvalidPattern { pattern: text.clone(), source: error },
                ),
            },
            None => Err(CheckError::UnspecifiedPattern),
        };
        result.push((image, pattern));
        i += 1;
    }
    result
}

/// What an error says, for people to read.
pub open spec fn check_error_text(error: CheckError) -> Seq<char> {
    match error {
        CheckError::UnspecifiedPattern => "Failed to find version pattern"@,
        CheckError::InvalidPattern { pattern, source } => "The version pattern `"@ + pattern@
            + "` is invalid"@,
    }
}

impl CheckError {
    /// Says what is wrong, for people to read.
    pub fn to_string(&self) -> (text: String)
        ensures
            text@ == check_error_text(*self),
    {
        match self {
            CheckError::UnspecifiedPattern => String::from_str("Failed to find version pattern"),
            CheckError::InvalidPattern { pattern, source } => {
                let mut text = String::from_str("The version pattern `");
                text.append(pattern.as_str());
                text.append("` is invalid");
                text
            },
        }
    }

    /// The error of the pattern, where this error comes from one.
    pub fn source(&self) -> (source: Option<crate::pattern::Error>)
        ensures
            source == match *self {
                CheckError::InvalidPattern { pattern, source } => Some(source),
                _ => None,
            },
    {
        match self {
            CheckError::InvalidPattern { pattern, source } => Some(*source),
            _ => None,
        }
    }
}

} // verus!
