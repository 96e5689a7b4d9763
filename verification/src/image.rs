//! Image references: an optional user, an image name and a tag.

use vstd::prelude::*;
use vstd::string::StringExecFns;
use crate::matching::{captures, captures_of, compile, compiled, groups_view};

verus! {

/// A label for one revision of an image.
pub type Tag = String;

/// What the name of an image is, as a mathematical value.
pub struct ImageNameModel {
    pub user: Option<Seq<char>>,
    pub image: Seq<char>,
}

/// What an image reference is, as a mathematical value.
pub struct ImageModel {
    pub name: ImageNameModel,
    pub tag: Seq<char>,
}

/// The name of an image: an official one, or one that belongs to a user.
#[derive(Debug, PartialEq, Eq, Hash)]
pub enum ImageName {
    Official { image: String },
    User { user: String, image: String },
}

/// An image at one of its tags.
#[derive(Debug, PartialEq, Eq, Hash)]
pub struct Image {
    pub name: ImageName,
    pub tag: Tag,
}

impl View for ImageName {
    type V = ImageNameModel;

    open spec fn view(&self) -> ImageNameModel {
        match self {
            ImageName::Official { image } => ImageNameModel { user: None, image: image@ },
            ImageName::User { user, image } => ImageNameModel { user: Some(user@), image: image@ },
        }
    }
}

impl View for Image {
    type V = ImageModel;

    open spec fn view(&self) -> ImageModel {
        ImageModel { name: self.name@, tag: self.tag@ }
    }
}

/// The text of an image name: the image, with the user and a slash in front
/// of it where there is a user.
pub open spec fn name_text(name: ImageNameModel) -> Seq<char> {
    match name.user {
        Some(user) => user + seq!['/'] + name.image,
        None => name.image,
    }
}

/// The text of an image reference: the name, a colon, the tag.
pub open spec fn image_text(image: ImageModel) -> Seq<char> {
    name_text(image.name) + seq![':'] + image.tag
}

impl Clone for ImageName {
    fn clone(&self) -> (copy: Self)
        ensures
            copy == *self,
    {
        match self {
            ImageName::Official { image } => ImageName::Official { image: image.clone() },
            ImageName::User { user, image } => ImageName::User {
                user: user.clone(),
                image: image.clone(),
            },
        }
    }
}

impl Clone for Image {
    fn clone(&self) -> (copy: Self)
        ensures
            copy == *self,
    {
        Image { name: self.name.clone(), tag: self.tag.clone() }
    }
}

impl ImageName {
    /// Names an image, of a user where one is given, official otherwise.
    pub fn new(user: Option<String>, image: String) -> (name: ImageName)
        ensures
            name@ == (ImageNameModel {
                user: match user {
                    Some(text) => Some(text@),
                    None => None,
                },
                image: image@,
            }),
    {
        match user {
            Some(name) => ImageName::User { user: name, image },
            None => ImageName::Official { image },
        }
    }

    /// Writes the name as text.
    pub fn to_string(&self) -> (text: String)
        ensures
            text@ == name_text(self@),
    {
        match self {
            ImageName::Official { image } => image.clone(),
            ImageName::User { user, image } => {
                let mut text = user.clone();
                text.push('/');
                text.append(image.as_str());
                text
            },
        }
    }
}

impl Image {
    /// Writes the image reference as text.
    pub fn to_string(&self) -> (text: String)
        ensures
            text@ == image_text(self@),
    {
        let mut text = self.name.to_string();
        text.push(':');
        text.append(self.tag.as_str());
        text
    }
}

/// The regular expression that the names of images follow: one or two runs
/// of lower case letters, digits, dots, underscores and dashes, with a slash
/// between them where there are two. The first run is capture group 2, the
/// last run capture group 3.
pub open spec fn name_expression() -> Seq<char> {
    "^((?P<first>[a-z0-9._-]+)/)?(?P<second>[a-z0-9._-]+)$"@
}

/// The regular expression that image references follow: an image, with a
/// user and a slash in front of it or without, and with a colon and a tag
/// behind it or without. The user is capture group 2, the image capture
/// group 3, the tag capture group 5.
pub open spec fn image_expression() -> Seq<char> {
    "((?P<user>[[:word:]-]+)/)?(?P<image>[[:word:]-]+)(:(?P<tag>[[:word:][:punct:]]+))?"@
}

/// The tag of an image reference that names none.
pub open spec fn default_tag() -> Seq<char> {
    "latest"@
}

/// The name that the capture groups of a match of the name expression
/// stand for.
pub open spec fn name_of_groups(groups: Seq<Option<Seq<char>>>) -> Option<ImageNameModel> {
    if groups.len() > 3 && groups[3] is Some {
        Some(ImageNameModel { user: groups[2], image: groups[3]->Some_0 })
    } else {
        None
    }
}

/// The image reference that the capture groups of a match of the image
/// expression stand for, where the match is the whole of the text.
pub open spec fn image_of_groups(text: Seq<char>, groups: Seq<Option<Seq<char>>>) -> Option<
    ImageModel,
> {
    if groups.len() > 5 && groups[0] == Some(text) && groups[3] is Some {
        Some(
            ImageModel {
                name: ImageNameModel { user: groups[2], image: groups[3]->Some_0 },
                tag: match groups[5] {
                    Some(tag) => tag,
                    None => default_tag(),
                },
            },
        )
    } else {
        None
    }
}

/// What a text means as the name of an image.
pub open spec fn parsed_name(text: Seq<char>) -> Option<ImageNameModel> {
    match compiled(name_expression()) {
        Some(regex) => match captures_of(regex, text) {
            Some(groups) => name_of_groups(groups),
            None => None,
        },
        None => None,
    }
}

/// What a text means as an image reference.
pub open spec fn parsed_image(text: Seq<char>) -> Option<ImageModel> {
    match compiled(image_expression()) {
        Some(regex) => match captures_of(regex, text) {
            Some(groups) => image_of_groups(text, groups),
            None => None,
        },
        None => None,
    }
}

/// Copies the text of a capture group.
pub fn group_text(groups: &Vec<Option<String>>, i: usize) -> (text: Option<String>)
    ensures
        match text {
            Some(found) => i < groups@.len() && groups_view(groups@)[i as int] == Some(found@),
            None => i >= groups@.len() || groups_view(groups@)[i as int] is None,
        },
{
    if i < groups.len() {
        match &groups[i] {
            Some(found) => Some(found.clone()),
            None => None,
        }
    } else {
        None
    }
}

/// The regular expression that the names of images follow, without its
/// anchors.
fn name_pattern() -> (pattern: String)
    ensures
        pattern@ == "((?P<first>[a-z0-9._-]+)/)?(?P<second>[a-z0-9._-]+)"@,
{
    String::from_str("((?P<first>[a-z0-9._-]+)/)?(?P<second>[a-z0-9._-]+)")
}

/// Makes a name of the capture groups of a match of the name expression.
pub fn image_name_of_groups(groups: &Vec<Option<String>>) -> (name: Option<ImageName>)
    ensures
        match name_of_groups(groups_view(groups@)) {
            Some(model) => name matches Some(found) && found@ == model,
            None => name is None,
        },
{
    if groups.len() > 3 {
        match group_text(groups, 3) {
            Some(second) => Some(ImageName::new(group_text(groups, 2), second)),
            None => None,
        }
    } else {
        None
    }
}

/// Makes an image reference of the capture groups of a match of the image
/// expression in `text`.
pub fn image_of_match(text: &str, groups: &Vec<Option<String>>) -> (image: Option<Image>)
    ensures
        match image_of_groups(text@, groups_view(groups@)) {
            Some(model) => image matches Some(found) && found@ == model,
            None => image is None,
        },
{
    if groups.len() > 5 {
        let whole = match group_text(groups, 0) {
            Some(full_match) => full_match == String::from_str(text),
            None => false,
        };
        if !whole {
            // The text holds more than an image reference.
            return None;
        }
        match group_text(groups, 3) {
            Some(image) => {
                let tag = match group_text(groups, 5) {
                    Some(tag) => tag,
                    None => String::from_str("latest"),
                };
                Some(Image { name: ImageName::new(group_text(groups, 2), image), tag })
            },
            None => None,
        }
    } else {
        None
    }
}

/// A text that is no name of an image.
#[derive(Debug, PartialEq, Eq)]
pub struct ParseError {
    invalid: String,
}

impl ParseError {
    /// Says that `invalid` is no name of an image.
    pub fn new(invalid: String) -> (error: ParseError)
        ensures
            error.invalid() == invalid@,
    {
        ParseError { invalid }
    }

    /// The text that is no name.
    pub closed spec fn invalid(&self) -> Seq<char> {
        self.invalid@
    }

    /// Says what is wrong, for people to read.
    pub fn to_string(&self) -> (text: String)
        ensures
            text@ == "`"@ + self.invalid()
                + "` is not a valid name of the form `<image>` or `<user>/<image>`"@,
    {
        let mut text = String::from_str("`");
        text.append(self.invalid.as_str());
        text.append("` is not a valid name of the form `<image>` or `<user>/<image>`");
        text
    }
}

impl ImageName {
    /// Reads a text as the name of an image: `<image>` or `<user>/<image>`.
    pub fn parse(image: &str) -> (name: Option<ImageName>)
        ensures
            match parsed_name(image@) {
                Some(model) => name matches Some(found) && found@ == model,
                None => name is None,
            },
    {
        let mut expression = String::from_str("^");
        expression.append(name_pattern().as_str());
        expression.append("$");
        proof {
            reveal_strlit("^");
            reveal_strlit("$");
            reveal_strlit("((?P<first>[a-z0-9._-]+)/)?(?P<second>[a-z0-9._-]+)");
            reveal_strlit("^((?P<first>[a-z0-9._-]+)/)?(?P<second>[a-z0-9._-]+)$");
            assert(expression@ == name_expression());
        }
        match compile(expression.as_str()) {
            Some(regex) => match captures(&regex, image) {
                Some(groups) => image_name_of_groups(&groups),
                None => None,
            },
            None => None,
        }
    }

    /// Reads a text as the name of an image, and says which text it was where
    /// it is none.
    pub fn from_str(s: &str) -> (name: Result<ImageName, ParseError>)
        ensures
            match parsed_name(s@) {
                Some(model) => name matches Ok(found) && found@ == model,
                None => name matches Err(error) && error.invalid() == s@,
            },
    {
        match ImageName::parse(s) {
            Some(name) => Ok(name),
            None => Err(ParseError::new(String::from_str(s))),
        }
    }
}

impl Image {
    /// Reads a text as an image reference: a name, and a tag behind a colon.
    /// Without a tag the image is taken at `latest`.
    pub fn from_str(s: &str) -> (image: Result<Image, ()>)
        ensures
            match parsed_image(s@) {
                Some(model) => image matches Ok(found) && found@ == model,
                None => image is Err,
            },
    {
        let found = match compile(
            "((?P<user>[[:word:]-]+)/)?(?P<image>[[:word:]-]+)(:(?P<tag>[[:word:][:punct:]]+))?",
        ) {
            Some(regex) => match captures(&regex, s) {
                Some(groups) => image_of_match(s, &groups),
                None => None,
            },
            None => None,
        };
        match found {
            Some(image) => Ok(image),
            None => Err(()),
        }
    }
}

impl std::str::FromStr for ImageName {
    type Err = ParseError;

    /// Reads a text as the name of an image, and says which text it was where
    /// it is none.
    fn from_str(s: &str) -> (name: Result<Self, ParseError>)
        ensures
            match parsed_name(s@) {
                Some(model) => name matches Ok(found) && found@ == model,
                None => name matches Err(error) && error.invalid() == s@,
            },
    {
        ImageName::from_str(s)
    }
}

impl std::str::FromStr for Image {
    type Err = ();

    /// Reads a text as an image reference: a name, and a tag behind a colon.
    /// Without a tag the image is taken at `latest`.
    fn from_str(s: &str) -> (image: Result<Self, ()>)
        ensures
            match parsed_image(s@) {
                Some(model) => image matches Ok(found) && found@ == model,
                None => image is Err,
            },
    {
        Image::from_str(s)
    }
}

} // verus!
