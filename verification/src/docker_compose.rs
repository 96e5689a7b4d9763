//! The services of a docker-compose file.

use vstd::prelude::*;
use vstd::string::StringExecFns;
use marked_yaml::LoadError;
use crate::image::{Image, ImageModel, ImageName, ImageNameModel, group_text};
use crate::matching::{captures, captures_of, compile, compiled, groups_view};
use crate::pattern::{Pattern, PatternModel, pattern_of};
use crate::text::{chars_of, nth_line, nth_line_from};
use crate::yaml::{Yaml, document, document_of, load, loaded};

verus! {

/// The name of a service.
pub type ServiceName = String;

/// Where the image of a service comes from: it is named, or it is built
/// from the Dockerfile in a folder.
#[derive(Debug, PartialEq, Eq)]
pub enum BuildContext<I, P, F> {
    Image(Image, I),
    Folder(P, F),
}

/// The regular expression of an image with its tag. The user is capture
/// group 2, the image capture group 3 and the tag capture group 4.
pub const IMAGE: &'static str =
    "((?P<user>[[:word:]-]+)/)?(?P<image>[[:word:]-]+):(?P<tag>[[:word:][:punct:]]+)";

/// The regular expression of the comment that gives a pattern. The pattern
/// is capture group 1.
pub const PATTERN: &'static str = "#\\s*uptag\\s+--pattern\\s+\"(?P<pattern>[^\"]*)\"";

/// Why a docker-compose file cannot be read.
#[derive(Debug, PartialEq)]
pub enum Error {
    /// The text is no YAML document.
    LoadError(LoadError),
    /// The document is not built as a docker-compose file is.
    MalformedDockerfile,
    /// The document lacks a field.
    MissingField(&'static str),
    /// The image of a service is none.
    InvalidImage(String),
    /// The service has neither a folder to build from nor an image, given as
    /// text.
    UnsupportedBuildContext { service: String },
    /// The line before the image of the service gives no pattern.
    MissingPattern(String),
    /// The pattern that is given for the service is none.
    InvalidPattern { service: String, pattern: String, source: crate::pattern::Error },
}

/// What an error is, as a mathematical value.
pub enum ErrorModel {
    LoadError(LoadError),
    MalformedDockerfile,
    MissingField(Seq<char>),
    InvalidImage(Seq<char>),
    UnsupportedBuildContext { service: Seq<char> },
    MissingPattern(Seq<char>),
    InvalidPattern { service: Seq<char>, pattern: Seq<char>, source: crate::pattern::Error },
}

impl View for Error {
    type V = ErrorModel;

    open spec fn view(&self) -> ErrorModel {
        match self {
            Error::LoadError(error) => ErrorModel::LoadError(*error),
            Error::MalformedDockerfile => ErrorModel::MalformedDockerfile,
            Error::MissingField(field) => ErrorModel::MissingField(field@),
            Error::InvalidImage(image) => ErrorModel::InvalidImage(image@),
            Error::UnsupportedBuildContext { service } => ErrorModel::UnsupportedBuildContext {
                service: service@,
            },
            Error::MissingPattern(service) => ErrorModel::MissingPattern(service@),
            Error::InvalidPattern { service, pattern, source } => ErrorModel::InvalidPattern {
                service: service@,
                pattern: pattern@,
                source: *source,
            },
        }
    }
}

/// Where the image of a service comes from, as a mathematical value.
pub enum ContextModel {
    Image(ImageModel, PatternModel),
    Folder(Seq<char>),
}

/// A service as a mathematical value.
pub open spec fn service_view(service: (ServiceName, BuildContext<Pattern, String, ()>)) -> (
    Seq<char>,
    ContextModel,
) {
    (
        service.0@,
        match service.1 {
            BuildContext::Image(image, pattern) => ContextModel::Image(image@, pattern@),
            BuildContext::Folder(path, _) => ContextModel::Folder(path@),
        },
    )
}

/// Services as mathematical values.
pub open spec fn services_view(services: Seq<(ServiceName, BuildContext<Pattern, String, ()>)>)
    -> Seq<(Seq<char>, ContextModel)> {
    Seq::new(services.len(), |i: int| service_view(services[i]))
}

/// The value of the first entry of a mapping that has the given key.
pub open spec fn entry_of(entries: Seq<(String, Yaml)>, key: Seq<char>) -> Option<Yaml>
    decreases entries.len(),
{
    if entries.len() == 0 {
        None
    } else if entries[0].0@ == key {
        Some(entries[0].1)
    } else {
        entry_of(entries.skip(1), key)
    }
}

/// The text and the line of the scalar that a mapping has at the given key.
pub open spec fn scalar_at(entries: Seq<(String, Yaml)>, key: Seq<char>) -> Option<
    (Seq<char>, Option<usize>),
> {
    match entry_of(entries, key) {
        Some(Yaml::Scalar { text, line }) => Some((text@, line)),
        _ => None,
    }
}

/// The image that the capture groups of a match of the image expression
/// stand for.
pub open spec fn image_of_reference(groups: Seq<Option<Seq<char>>>) -> Option<ImageModel> {
    if groups.len() > 4 && groups[3] is Some {
        Some(
            ImageModel {
                name: ImageNameModel { user: groups[2], image: groups[3]->Some_0 },
                tag: match groups[4] {
                    Some(tag) => tag,
                    None => "latest"@,
                },
            },
        )
    } else {
        None
    }
}

/// The image that a text names, with its tag.
pub open spec fn referenced_image(raw_image: Seq<char>) -> Option<ImageModel> {
    match compiled(IMAGE@) {
        Some(regex) => match captures_of(regex, raw_image) {
            Some(groups) => image_of_reference(groups),
            None => None,
        },
        None => None,
    }
}

/// The pattern that a line gives in a comment.
pub open spec fn pattern_in_comment(line: Seq<char>) -> Option<Seq<char>> {
    match compiled(PATTERN@) {
        Some(regex) => match captures_of(regex, line) {
            Some(groups) => if groups.len() > 1 {
                groups[1]
            } else {
                None
            },
            None => None,
        },
        None => None,
    }
}

/// The line before the line with the given number, lines being counted from
/// 1.
pub open spec fn preceding_line(input: Seq<char>, line: Option<usize>) -> Option<Seq<char>> {
    match line {
        Some(number) => if number >= 2 {
            nth_line_from(input, 0, (number - 2) as nat)
        } else {
            None
        },
        None => None,
    }
}

/// What a service with a named image means: the image, and the pattern from
/// the line before it.
pub open spec fn image_service(
    input: Seq<char>,
    service: Seq<char>,
    raw_image: Seq<char>,
    line: Option<usize>,
) -> Result<ContextModel, ErrorModel> {
    match referenced_image(raw_image) {
        None => Err(ErrorModel::InvalidImage(raw_image)),
        Some(image) => match preceding_line(input, line) {
            None => Err(ErrorModel::MissingPattern(service)),
            Some(comment) => match pattern_in_comment(comment) {
                None => Err(ErrorModel::MissingPattern(service)),
                Some(raw_pattern) => match pattern_of(raw_pattern) {
                    Ok(pattern) => Ok(ContextModel::Image(image, pattern)),
                    Err(error) => Err(
                        ErrorModel::InvalidPattern {
                            service,
                            pattern: raw_pattern,
                            source: error,
                        },
                    ),
                },
            },
        },
    }
}

/// What a service means: the folder that `build` names, or else the image
/// that `image` names, with its pattern.
pub open spec fn service_of(input: Seq<char>, service: Seq<char>, node: Yaml) -> Result<
    ContextModel,
    ErrorModel,
> {
    match node {
        Yaml::Mapping(entries) => match scalar_at(entries@, "build"@) {
            Some((path, _)) => Ok(ContextModel::Folder(path)),
            None => match scalar_at(entries@, "image"@) {
                Some((raw_image, line)) => image_service(input, service, raw_image, line),
                None => Err(ErrorModel::UnsupportedBuildContext { service }),
            },
        },
        _ => Err(ErrorModel::MalformedDockerfile),
    }
}

/// What the services mean, in their order, or what is wrong with the first
/// that is not in order.
pub open spec fn services_of(input: Seq<char>, entries: Seq<(String, Yaml)>) -> Result<
    Seq<(Seq<char>, ContextModel)>,
    ErrorModel,
>
    decreases entries.len(),
{
    if entries.len() == 0 {
        Ok(Seq::empty())
    } else {
        match services_of(input, entries.drop_last()) {
            Err(error) => Err(error),
            Ok(services) => match service_of(input, entries.last().0@, entries.last().1) {
                Ok(context) => Ok(services.push((entries.last().0@, context))),
                Err(error) => Err(error),
            },
        }
    }
}

/// What a document means as a docker-compose file: the services under
/// `services`.
pub open spec fn compose_of(input: Seq<char>, root: Yaml) -> Result<
    Seq<(Seq<char>, ContextModel)>,
    ErrorModel,
> {
    match root {
        Yaml::Mapping(entries) => match entry_of(entries@, "services"@) {
            Some(Yaml::Mapping(services)) => services_of(input, services@),
            Some(_) => Err(ErrorModel::MalformedDockerfile),
            None => Err(ErrorModel::MissingField("services"@)),
        },
        _ => Err(ErrorModel::MalformedDockerfile),
    }
}

/// What a text means as a docker-compose file.
pub open spec fn parsed(input: Seq<char>) -> Result<Seq<(Seq<char>, ContextModel)>, ErrorModel> {
    match loaded(input) {
        Ok(node) => compose_of(input, document_of(node)),
        Err(error) => Err(ErrorModel::LoadError(error)),
    }
}

/// Looks up the value of the first entry with the given key.
fn find_entry<'a>(entries: &'a Vec<(String, Yaml)>, key: &str) -> (found: Option<&'a Yaml>)
    ensures
        match entry_of(entries@, key@) {
            Some(node) => found == Some(&node),
            None => found is None,
        },
{
    let mut i: usize = 0;
    proof {
        assert(entries@.skip(0) == entries@);
    }
    while i < entries.len()
        invariant
            i <= entries@.len(),
            entry_of(entries@, key@) == entry_of(entries@.skip(i as int), key@),
        decreases entries@.len() - i,
    {
        proof {
            assert(entries@.skip(i as int)[0] == entries@[i as int]);
            assert(entries@.skip(i as int).skip(1) == entries@.skip(i + 1));
        }
        if entries[i].0 == String::from_str(key) {
            return Some(&entries[i].1);
        }
        i += 1;
    }
    None
}

/// Looks up the text and the line of the scalar at the given key.
fn find_scalar(entries: &Vec<(String, Yaml)>, key: &str) -> (found: Option<
    (String, Option<usize>),
>)
    ensures
        match scalar_at(entries@, key@) {
            Some((text, line)) => found matches Some((given, at)) && given@ == text && at == line,
            None => found is None,
        },
{
    match find_entry(entries, key) {
        Some(Yaml::Scalar { text, line }) => Some((text.clone(), *line)),
        _ => None,
    }
}

/// Makes an image of the capture groups of a match of the image expression.
pub fn image_of_captures(groups: &Vec<Option<String>>) -> (image: Option<Image>)
    ensures
        match image_of_reference(groups_view(groups@)) {
            Some(model) => image matches Some(found) && found@ == model,
            None => image is None,
        },
{
    if groups.len() > 4 {
        match group_text(groups, 3) {
            Some(image) => {
                let tag = match group_text(groups, 4) {
                    Some(tag) => tag,
                    None => String::from_str("latest"),
                };
                Some(Image { name: ImageName::new(group_text(groups, 2), image), tag })
            },
            None => None,
        }
    } else {
        None
    }
}

/// Reads a text as an image with its tag.
fn read_image(raw_image: &str) -> (image: Option<Image>)
    ensures
        match referenced_image(raw_image@) {
            Some(model) => image matches Some(found) && found@ == model,
            None => image is None,
        },
{
    match compile(IMAGE) {
        Some(regex) => match captures(&regex, raw_image) {
            Some(groups) => image_of_captures(&groups),
            None => None,
        },
        None => None,
    }
}

/// Reads the pattern that a line gives in a comment.
fn read_pattern(line: &str) -> (pattern: Option<String>)
    ensures
        match pattern_in_comment(line@) {
            Some(text) => pattern matches Some(found) && found@ == text,
            None => pattern is None,
        },
{
    match compile(PATTERN) {
        Some(regex) => match captures(&regex, line) {
            Some(groups) => if groups.len() > 1 {
                group_text(&groups, 1)
            } else {
                None
            },
            None => None,
        },
        None => None,
    }
}

/// Reads one service of a docker-compose file.
fn read_service(lines: &Vec<char>, service_name: &String, node: &Yaml) -> (result: Result<
    BuildContext<Pattern, String, ()>,
    Error,
>)
    ensures
        match service_of(lines@, service_name@, *node) {
            Ok(context) => result matches Ok(found) && service_view((*service_name, found)).1
                == context,
            Err(error) => result matches Err(given) && given@ == error,
        },
{
    let service = match node {
        Yaml::Mapping(entries) => entries,
        _ => {
            return Err(Error::MalformedDockerfile);
        },
    };
    match find_scalar(service, "build") {
        Some((raw_path, _)) => {
            return Ok(BuildContext::Folder(raw_path, ()));
        },
        None => {},
    }
    let (raw_image, image_line_number) = match find_scalar(service, "image") {
        Some(found) => found,
        None => {
            return Err(Error::UnsupportedBuildContext { service: service_name.clone() });
        },
    };
    let image = match read_image(raw_image.as_str()) {
        Some(image) => image,
        None => {
            return Err(Error::InvalidImage(raw_image));
        },
    };
    // Lines are counted from 1 in the document and from 0 in the text.
    let preceding_line = match image_line_number {
        Some(number) => if number >= 2 {
            nth_line(lines, number - 2)
        } else {
            None
        },
        None => None,
    };
    let raw_pattern = match preceding_line {
        Some(line) => match read_pattern(line.as_str()) {
            Some(raw_pattern) => raw_pattern,
            None => {
                return Err(Error::MissingPattern(service_name.clone()));
            },
        },
        None => {
            return Err(Error::MissingPattern(service_name.clone()));
        },
    };
    match Pattern::parse(raw_pattern.as_str()) {
        Ok(pattern) => Ok(BuildContext::Image(image, pattern)),
        Err(error) => Err(
            Error::InvalidPattern {
                service: service_name.clone(),
                pattern: raw_pattern,
                source: error,
            },
        ),
    }
}

/// Reads the services of a docker-compose file whose text and document are
/// at hand.
pub fn services(input: &str, root: &Yaml) -> (result: Result<
    Vec<(ServiceName, BuildContext<Pattern, String, ()>)>,
    Error,
>)
    ensures
        match compose_of(input@, *root) {
            Ok(found) => result matches Ok(given) && services_view(given@) == found,
            Err(error) => result matches Err(given) && given@ == error,
        },
{
    let entries = match root {
        Yaml::Mapping(entries) => entries,
        _ => {
            return Err(Error::MalformedDockerfile);
        },
    };
    let listed = match find_entry(entries, "services") {
        Some(Yaml::Mapping(listed)) => listed,
        Some(_) => {
            return Err(Error::MalformedDockerfile);
        },
        None => {
            return Err(Error::MissingField("services"));
        },
    };
    let lines = chars_of(input);
    let mut result: Vec<(ServiceName, BuildContext<Pattern, String, ()>)> = Vec::new();
    let mut i: usize = 0;
    proof {
        assert(services_view(result@) == Seq::<(Seq<char>, ContextModel)>::empty());
    }
    while i < listed.len()
        invariant
            i <= listed@.len(),
            result@.len() == i,
            lines@ == input@,
            compose_of(input@, *root) == services_of(input@, listed@),
            services_of(input@, listed@.take(i as int)) == Ok::<
                Seq<(Seq<char>, ContextModel)>,
                ErrorModel,
            >(services_view(result@)),
        decreases listed@.len() - i,
    {
        proof {
            assert(listed@.take(i + 1).drop_last() == listed@.take(i as int));
            assert(listed@.take(i + 1).last() == listed@[i as int]);
        }
        let ghost before = result@;
        let service_name = &listed[i].0;
        match read_service(&lines, service_name, &listed[i].1) {
            Ok(build_context) => {
                result.push((service_name.clone(), build_context));
                assert(services_view(result@) == services_view(before).push(
                    service_view(result@[i as int]),
                ));
            },
            Err(error) => {
                proof {
                    lemma_first_error_stays(input@, listed@, i + 1);
                }
                return Err(error);
            },
        }
        i += 1;
    }
    proof {
        assert(listed@.take(i as int) == listed@);
    }
    Ok(result)
}

/// What is wrong with some of the first services is wrong with all of them.
pub proof fn lemma_first_error_stays(input: Seq<char>, entries: Seq<(String, Yaml)>, n: int)
    requires
        0 <= n <= entries.len(),
        services_of(input, entries.take(n)) is Err,
    ensures
        services_of(input, entries) == services_of(input, entries.take(n)),
    decreases entries.len() - n,
{
    if n == entries.len() {
        assert(entries.take(n) == entries);
    } else {
        assert(entries.take(n + 1).drop_last() == entries.take(n));
        lemma_first_error_stays(input, entries, n + 1);
    }
}

/// Reads a docker-compose file: its services in their order, each with the
/// folder that it is built from, or with its image and the pattern that the
/// line before the image gives.
pub fn parse(input: &str) -> (result: Result<
    Vec<(ServiceName, BuildContext<Pattern, String, ()>)>,
    Error,
>)
    ensures
        match parsed(input@) {
            Ok(found) => result matches Ok(given) && services_view(given@) == found,
            Err(error) => result matches Err(given) && given@ == error,
        },
{
    match load(input) {
        Ok(node) => services(input, &document(&node)),
        Err(error) => Err(Error::LoadError(error)),
    }
}

} // verus!
