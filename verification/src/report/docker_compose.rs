//! The report on the services of one docker-compose file.

use vstd::prelude::*;
use vstd::string::StringExecFns;
use crate::docker_compose::{BuildContext, ServiceName};
use crate::image::{Image, ImageModel, Tag, image_text};
use crate::report::dockerfile::{
    DockerfileReport,
    ImageResult,
    describe_failure,
    failure_text,
    format_update,
    lemma_filter_map_keeps,
    select_breaking_update,
    select_compatible_update,
    select_failure,
    select_without_update,
    update_text,
    with_breaking_update,
    with_compatible_update,
    with_failure,
    without_update,
};
use crate::report::{Failure, Report, UpdateResult, push_section, section};
use crate::search::{CurrentTagStatus, Update};
use crate::text::{decimal_digits, indented, join, joined, push_indented, push_number, texts};

verus! {

/// A service with what the searches for its images gave. A service with a
/// folder has a result for each image of its Dockerfile, unless the
/// Dockerfile could not be had.
pub type ServiceResult<E> = (
    ServiceName,
    BuildContext<UpdateResult<E>, String, Result<Vec<ImageResult<E>>, E>>,
);

/// A service without updates, with the images concerned.
pub type ServiceWithoutUpdate = (ServiceName, BuildContext<(), String, Vec<(Image, ())>>);

/// A service with updates of one kind, with the images concerned.
pub type ServiceUpdate = (ServiceName, BuildContext<Tag, String, Vec<(Image, Tag)>>);

/// A service with failures, with the images concerned, or a service as a
/// whole that failed.
pub type ServiceFailure<E> = (
    ServiceName,
    Result<BuildContext<Failure<E>, String, Vec<(Image, Failure<E>)>>, E>,
);

/// An entry of a group as a mathematical value: lists become sequences.
pub open spec fn entry_view<I, X>(entry: (ServiceName, BuildContext<I, String, Vec<X>>)) -> (
    ServiceName,
    BuildContext<I, String, Seq<X>>,
) {
    (
        entry.0,
        match entry.1 {
            BuildContext::Image(image, value) => BuildContext::Image(image, value),
            BuildContext::Folder(path, values) => BuildContext::Folder(path, values@),
        },
    )
}

/// A group as a mathematical value.
pub open spec fn group_view<I, X>(group: Seq<(ServiceName, BuildContext<I, String, Vec<X>>)>)
    -> Seq<(ServiceName, BuildContext<I, String, Seq<X>>)> {
    Seq::new(group.len(), |i: int| entry_view(group[i]))
}

/// An entry of the group of failures as a mathematical value.
pub open spec fn failure_view<E>(entry: ServiceFailure<E>) -> (
    ServiceName,
    Result<BuildContext<Failure<E>, String, Seq<(Image, Failure<E>)>>, E>,
) {
    (
        entry.0,
        match entry.1 {
            Ok(BuildContext::Image(image, failure)) => Ok(BuildContext::Image(image, failure)),
            Ok(BuildContext::Folder(path, failures)) => Ok(BuildContext::Folder(path, failures@)),
            Err(error) => Err(error),
        },
    )
}

/// The group of failures as a mathematical value.
pub open spec fn failures_view<E>(group: Seq<ServiceFailure<E>>) -> Seq<
    (ServiceName, Result<BuildContext<Failure<E>, String, Seq<(Image, Failure<E>)>>, E>),
> {
    Seq::new(group.len(), |i: int| failure_view(group[i]))
}

/// The images, each paired with nothing.
pub open spec fn paired_with_unit(images: Seq<Image>) -> Seq<(Image, ())> {
    Seq::new(images.len(), |i: int| (images[i], ()))
}

/// The service, where it has images without updates, with those images.
pub open spec fn service_without_update<E>(entry: ServiceResult<E>) -> Option<
    (ServiceName, BuildContext<(), String, Seq<(Image, ())>>),
> {
    match entry.1 {
        BuildContext::Image(image, result) => match without_update((image, result)) {
            Some(_) => Some((entry.0, BuildContext::Image(image, ()))),
            None => None,
        },
        BuildContext::Folder(path, Ok(results)) => {
            let found = results@.filter_map(select_without_update());
            if found.len() > 0 {
                Some((entry.0, BuildContext::Folder(path, paired_with_unit(found))))
            } else {
                None
            }
        },
        BuildContext::Folder(_, Err(_)) => None,
    }
}

/// The service, where it has images with compatible updates, with those
/// images and their updates.
pub open spec fn service_compatible_update<E>(entry: ServiceResult<E>) -> Option<
    (ServiceName, BuildContext<Tag, String, Seq<(Image, Tag)>>),
> {
    match entry.1 {
        BuildContext::Image(image, result) => match with_compatible_update((image, result)) {
            Some((_, tag)) => Some((entry.0, BuildContext::Image(image, tag))),
            None => None,
        },
        BuildContext::Folder(path, Ok(results)) => {
            let found = results@.filter_map(select_compatible_update());
            if found.len() > 0 {
                Some((entry.0, BuildContext::Folder(path, found)))
            } else {
                None
            }
        },
        BuildContext::Folder(_, Err(_)) => None,
    }
}

/// The service, where it has images with breaking updates, with those
/// images and their updates.
pub open spec fn service_breaking_update<E>(entry: ServiceResult<E>) -> Option<
    (ServiceName, BuildContext<Tag, String, Seq<(Image, Tag)>>),
> {
    match entry.1 {
        BuildContext::Image(image, result) => match with_breaking_update((image, result)) {
            Some((_, tag)) => Some((entry.0, BuildContext::Image(image, tag))),
            None => None,
        },
        BuildContext::Folder(path, Ok(results)) => {
            let found = results@.filter_map(select_breaking_update());
            if found.len() > 0 {
                Some((entry.0, BuildContext::Folder(path, found)))
            } else {
                None
            }
        },
        BuildContext::Folder(_, Err(_)) => None,
    }
}

/// The service, where it failed as a whole or has images that count as
/// failures, with the reason or with those images and their reasons.
pub open spec fn service_failure<E>(entry: ServiceResult<E>) -> Option<
    (ServiceName, Result<BuildContext<Failure<E>, String, Seq<(Image, Failure<E>)>>, E>),
> {
    match entry.1 {
        BuildContext::Image(image, result) => match with_failure((image, result)) {
            Some((_, failure)) => Some((entry.0, Ok(BuildContext::Image(image, failure)))),
            None => None,
        },
        BuildContext::Folder(path, Ok(results)) => {
            let found = results@.filter_map(select_failure());
            if found.len() > 0 {
                Some((entry.0, Ok(BuildContext::Folder(path, found))))
            } else {
                None
            }
        },
        BuildContext::Folder(_, Err(error)) => Some((entry.0, Err(error))),
    }
}

/// `service_without_update` as a value.
pub open spec fn select_service_without_update<E>() -> spec_fn(ServiceResult<E>) -> Option<
    (ServiceName, BuildContext<(), String, Seq<(Image, ())>>),
> {
    |entry: ServiceResult<E>| service_without_update(entry)
}

/// `service_compatible_update` as a value.
pub open spec fn select_service_compatible_update<E>() -> spec_fn(ServiceResult<E>) -> Option<
    (ServiceName, BuildContext<Tag, String, Seq<(Image, Tag)>>),
> {
    |entry: ServiceResult<E>| service_compatible_update(entry)
}

/// `service_breaking_update` as a value.
pub open spec fn select_service_breaking_update<E>() -> spec_fn(ServiceResult<E>) -> Option<
    (ServiceName, BuildContext<Tag, String, Seq<(Image, Tag)>>),
> {
    |entry: ServiceResult<E>| service_breaking_update(entry)
}

/// `service_failure` as a value.
pub open spec fn select_service_failure<E>() -> spec_fn(ServiceResult<E>) -> Option<
    (ServiceName, Result<BuildContext<Failure<E>, String, Seq<(Image, Failure<E>)>>, E>),
> {
    |entry: ServiceResult<E>| service_failure(entry)
}

/// Pairs each image with nothing.
fn pair_with_unit(images: Vec<Image>) -> (pairs: Vec<(Image, ())>)
    ensures
        pairs@ == paired_with_unit(images@),
{
    let mut pairs: Vec<(Image, ())> = Vec::new();
    let ghost all = images@;
    for image in it: images
        invariant
            it.seq() == all,
            pairs@ == paired_with_unit(all.take(it.index())),
    {
        pairs.push((image, ()));
        assert(pairs@ == paired_with_unit(all.take(it.index() + 1)));
    }
    proof {
        assert(all.take(all.len() as int) == all);
    }
    pairs
}

/// The findings for the services of one docker-compose file.
#[derive(Debug)]
pub struct DockerComposeReport<E> {
    pub report: Report<ServiceWithoutUpdate, ServiceUpdate, ServiceFailure<E>>,
}

impl<E> DockerComposeReport<E> {
    /// Sorts the services into the groups of a report, each group in the
    /// order of the services. A service with a named image stands in the
    /// groups in which that image would stand in the report of a Dockerfile.
    /// A service with a folder gets the report of its Dockerfile, and stands
    /// in each group for which that report has images, with those images. A
    /// service whose Dockerfile could not be had is a failure as a whole.
    pub fn from(results: Vec<ServiceResult<E>>) -> (result: Self)
        ensures
            group_view(result.report.no_updates@) == results@.filter_map(
                select_service_without_update(),
            ),
            group_view(result.report.compatible_updates@) == results@.filter_map(
                select_service_compatible_update(),
            ),
            group_view(result.report.breaking_updates@) == results@.filter_map(
                select_service_breaking_update(),
            ),
            failures_view(result.report.failures@) == results@.filter_map(
                select_service_failure(),
            ),
    {
        let mut no_updates: Vec<ServiceWithoutUpdate> = Vec::new();
        let mut compatible_updates: Vec<ServiceUpdate> = Vec::new();
        let mut breaking_updates: Vec<ServiceUpdate> = Vec::new();
        let mut failures: Vec<ServiceFailure<E>> = Vec::new();
        let ghost entries = results@;
        for entry in it: results
            invariant
                it.seq() == entries,
                group_view(no_updates@) == entries.take(it.index()).filter_map(
                    select_service_without_update(),
                ),
                group_view(compatible_updates@) == entries.take(it.index()).filter_map(
                    select_service_compatible_update(),
                ),
                group_view(breaking_updates@) == entries.take(it.index()).filter_map(
                    select_service_breaking_update(),
                ),
                failures_view(failures@) == entries.take(it.index()).filter_map(
                    select_service_failure(),
                ),
        {
            proof {
                entries.lemma_filter_map_take_succ(select_service_without_update(), it.index());
                entries.lemma_filter_map_take_succ(select_service_compatible_update(), it.index());
                entries.lemma_filter_map_take_succ(select_service_breaking_update(), it.index());
                entries.lemma_filter_map_take_succ(select_service_failure(), it.index());
            }
            let ghost no_updates_before = no_updates@;
            let ghost compatible_before = compatible_updates@;
            let ghost breaking_before = breaking_updates@;
            let ghost failures_before = failures@;
            let (service, docker_compose_update) = entry;
            match docker_compose_update {
                BuildContext::Image(image, Ok((status, update))) => {
                    let Update { compatible, breaking } = update;
                    match status {
                        CurrentTagStatus::Found => {
                            if compatible.is_none() && breaking.is_none() {
                                no_updates.push(
                                    (service.clone(), BuildContext::Image(image.clone(), ())),
                                );
                            }
                        },
                        CurrentTagStatus::NotEncountered { searched_amount } => {
                            failures.push(
                                (
                                    service.clone(),
                                    Ok(
                                        BuildContext::Image(
                                            image.clone(),
                                            Failure::CurrentTagNotEncountered { searched_amount },
                                        ),
                                    ),
                                ),
                            );
                        },
                    }
                    match compatible {
                        Some(tag) => {
                            compatible_updates.push(
                                (service.clone(), BuildContext::Image(image.clone(), tag)),
                            );
                        },
                        None => {},
                    }
                    match breaking {
                        Some(tag) => {
                            breaking_updates.push((service, BuildContext::Image(image, tag)));
                        },
                        None => {},
                    }
                },
                BuildContext::Image(image, Err(error)) => {
                    failures.push((service, Ok(BuildContext::Image(image, Failure::Error(error)))));
                },
                BuildContext::Folder(path, Ok(update_results)) => {
                    let found = DockerfileReport::from(update_results).report;
                    let Report {
                        no_updates: without,
                        compatible_updates: compatible,
                        breaking_updates: breaking,
                        failures: failed,
                    } = found;
                    if without.len() > 0 {
                        no_updates.push(
                            (service.clone(), BuildContext::Folder(path.clone(), pair_with_unit(without))),
                        );
                    }
                    if compatible.len() > 0 {
                        compatible_updates.push(
                            (service.clone(), BuildContext::Folder(path.clone(), compatible)),
                        );
                    }
                    if breaking.len() > 0 {
                        breaking_updates.push(
                            (service.clone(), BuildContext::Folder(path.clone(), breaking)),
                        );
                    }
                    if failed.len() > 0 {
                        failures.push((service, Ok(BuildContext::Folder(path, failed))));
                    }
                },
                BuildContext::Folder(_, Err(error)) => {
                    failures.push((service, Err(error)));
                },
            }
            proof {
                let last = entries[it.index()];
                assert(group_view(no_updates@) == group_view(no_updates_before) + (
                match service_without_update(last) {
                    Some(found) => seq![found],
                    None => Seq::empty(),
                }));
                assert(group_view(compatible_updates@) == group_view(compatible_before) + (
                match service_compatible_update(last) {
                    Some(found) => seq![found],
                    None => Seq::empty(),
                }));
                assert(group_view(breaking_updates@) == group_view(breaking_before) + (
                match service_breaking_update(last) {
                    Some(found) => seq![found],
                    None => Seq::empty(),
                }));
                assert(failures_view(failures@) == failures_view(failures_before) + (
                match service_failure(last) {
                    Some(found) => seq![found],
                    None => Seq::empty(),
                }));
            }
        }
        proof {
            assert(entries.take(entries.len() as int) == entries);
        }
        DockerComposeReport {
            report: Report { no_updates, compatible_updates, breaking_updates, failures },
        }
    }
}

/// The heading for a service with a named image.
pub open spec fn service_image_text(service: Seq<char>, image: ImageModel) -> Seq<char> {
    "  service `"@ + service + "` with image `"@ + image_text(image) + "`:"@
}

/// The heading for a service with a folder.
pub open spec fn service_folder_text(service: Seq<char>, service_path: Seq<char>) -> Seq<char> {
    "  service `"@ + service + "` with Dockerfile at `"@ + service_path + "`:"@
}

/// An update as an item of a list.
pub open spec fn update_item_text(image: ImageModel, version_prefix: Seq<char>, update: Seq<char>)
    -> Seq<char> {
    "  - "@ + indented(update_text(image, version_prefix, update))
}

/// An image as an item of a list.
pub open spec fn image_item_text(image: ImageModel) -> Seq<char> {
    "  - "@ + image_text(image)
}

/// The updates as the items of a list.
pub open spec fn update_items(version_prefix: Seq<char>, updates: Seq<(Image, Tag)>) -> Seq<
    Seq<char>,
> {
    Seq::new(
        updates.len(),
        |i: int| update_item_text(updates[i].0@, version_prefix, updates[i].1@),
    )
}

/// The images as the items of a list.
pub open spec fn image_items(images: Seq<(Image, ())>) -> Seq<Seq<char>> {
    Seq::new(images.len(), |i: int| image_item_text(images[i].0@))
}

/// The failures of images as the items of a list.
pub open spec fn failure_items(failures: Seq<(Image, Failure<String>)>) -> Seq<Seq<char>> {
    Seq::new(
        failures.len(),
        |i: int|
            image_item_text(failures[i].0@) + ": "@ + failure_text(
                failures[i].0@,
                failures[i].1,
            ),
    )
}

/// A service with its updates of one kind, as text.
pub open spec fn service_update_text(entry: ServiceUpdate, version_prefix: Seq<char>) -> Seq<
    char,
> {
    match entry.1 {
        BuildContext::Image(image, update) => service_image_text(entry.0@, image@) + "\n"@
            + update_item_text(image@, version_prefix, update@),
        BuildContext::Folder(service_path, updates) => service_folder_text(
            entry.0@,
            service_path@,
        ) + "\n"@ + joined(update_items(version_prefix, updates@), "\n"@),
    }
}

/// A service with its images without updates, as text.
pub open spec fn service_without_update_text(entry: ServiceWithoutUpdate) -> Seq<char> {
    match entry.1 {
        BuildContext::Image(image, _) => service_image_text(entry.0@, image@),
        BuildContext::Folder(service_path, images) => service_folder_text(entry.0@, service_path@)
            + "\n"@ + joined(image_items(images@), "\n"@),
    }
}

/// A service with its failures, as text.
pub open spec fn service_failure_text(entry: ServiceFailure<String>) -> Seq<char> {
    match entry.1 {
        Err(error) => "  "@ + entry.0@ + ": "@ + error@,
        Ok(BuildContext::Image(image, failure)) => service_image_text(entry.0@, image@) + "\n"@
            + failure_text(image@, failure),
        Ok(BuildContext::Folder(service_path, errors)) => service_folder_text(
            entry.0@,
            service_path@,
        ) + "\n"@ + joined(failure_items(errors@), "\n"@),
    }
}

/// The services with their updates of one kind, as texts.
pub open spec fn service_update_texts(group: Seq<ServiceUpdate>, version_prefix: Seq<char>)
    -> Seq<Seq<char>> {
    Seq::new(group.len(), |i: int| service_update_text(group[i], version_prefix))
}

/// The services with their images without updates, as texts.
pub open spec fn service_without_update_texts(group: Seq<ServiceWithoutUpdate>) -> Seq<
    Seq<char>,
> {
    Seq::new(group.len(), |i: int| service_without_update_text(group[i]))
}

/// The services with their failures, as texts.
pub open spec fn service_failure_texts(group: Seq<ServiceFailure<String>>) -> Seq<Seq<char>> {
    Seq::new(group.len(), |i: int| service_failure_text(group[i]))
}

/// What a report says of the services that did not fail: those with
/// breaking updates, those with compatible updates and those without
/// updates, each group under its title, an empty line between the services
/// of a group and two between the groups. A group without members is left
/// out.
pub open spec fn compose_successes_text(
    no_updates: Seq<ServiceWithoutUpdate>,
    compatible_updates: Seq<ServiceUpdate>,
    breaking_updates: Seq<ServiceUpdate>,
) -> Seq<char> {
    joined(
        section(
            " breaking update(s):\n"@,
            service_update_texts(breaking_updates, "-!>"@),
            "\n\n"@,
        ) + section(
            " compatible update(s):\n"@,
            service_update_texts(compatible_updates, "->"@),
            "\n\n"@,
        ) + section(
            " without updates:\n"@,
            service_without_update_texts(no_updates),
            "\n\n"@,
        ),
        "\n\n\n"@,
    )
}

/// What a report says of failures: how many services have some, and what
/// went wrong with each.
pub open spec fn compose_failures_text(failures: Seq<ServiceFailure<String>>) -> Seq<char> {
    decimal_digits(failures.len()) + " failure(s):\n"@ + joined(
        service_failure_texts(failures),
        "\n\n"@,
    )
}

/// Writes the heading for a service with a named image.
fn display_service_image(service: &str, image: &Image) -> (text: String)
    ensures
        text@ == service_image_text(service@, image@),
{
    let mut text = String::from_str("  service `");
    text.append(service);
    text.append("` with image `");
    text.append(image.to_string().as_str());
    text.append("`:");
    text
}

/// Writes the heading for a service with a folder.
fn display_service_folder(service: &str, service_path: &str) -> (text: String)
    ensures
        text@ == service_folder_text(service@, service_path@),
{
    let mut text = String::from_str("  service `");
    text.append(service);
    text.append("` with Dockerfile at `");
    text.append(service_path);
    text.append("`:");
    text
}

/// Writes an update as an item of a list.
fn display_update(image: &Image, version_prefix: &str, update: &str) -> (text: String)
    ensures
        text@ == update_item_text(image@, version_prefix@, update@),
{
    let output = format_update(image, version_prefix, update);
    let mut text = String::from_str("  - ");
    push_indented(&mut text, output.as_str());
    text
}

/// Writes an image as an item of a list.
fn display_image(image: &Image) -> (text: String)
    ensures
        text@ == image_item_text(image@),
{
    let mut text = String::from_str("  - ");
    text.append(image.to_string().as_str());
    text
}

/// Writes updates as the items of a list, one below the other.
fn display_updates(version_prefix: &str, updates: &Vec<(Image, Tag)>) -> (text: String)
    ensures
        text@ == joined(update_items(version_prefix@, updates@), "\n"@),
{
    let mut lines: Vec<String> = Vec::new();
    let mut i: usize = 0;
    while i < updates.len()
        invariant
            i <= updates@.len(),
            lines@.len() == i,
            forall|j: int|
                0 <= j < i ==> (#[trigger] lines@[j])@ == update_item_text(
                    updates@[j].0@,
                    version_prefix@,
                    updates@[j].1@,
                ),
        decreases updates@.len() - i,
    {
        lines.push(display_update(&updates[i].0, version_prefix, updates[i].1.as_str()));
        i += 1;
    }
    assert(texts(lines@) == update_items(version_prefix@, updates@));
    join(&lines, "\n")
}

/// Writes images as the items of a list, one below the other.
fn display_images(images: &Vec<(Image, ())>) -> (text: String)
    ensures
        text@ == joined(image_items(images@), "\n"@),
{
    let mut lines: Vec<String> = Vec::new();
    let mut i: usize = 0;
    while i < images.len()
        invariant
            i <= images@.len(),
            lines@.len() == i,
            forall|j: int|
                0 <= j < i ==> (#[trigger] lines@[j])@ == image_item_text(images@[j].0@),
        decreases images@.len() - i,
    {
        lines.push(display_image(&images[i].0));
        i += 1;
    }
    assert(texts(lines@) == image_items(images@));
    join(&lines, "\n")
}

/// Writes the failures of images as the items of a list, one below the
/// other.
fn display_image_failures(failures: &Vec<(Image, Failure<String>)>) -> (text: String)
    ensures
        text@ == joined(failure_items(failures@), "\n"@),
{
    let mut lines: Vec<String> = Vec::new();
    let mut i: usize = 0;
    while i < failures.len()
        invariant
            i <= failures@.len(),
            lines@.len() == i,
            forall|j: int|
                0 <= j < i ==> (#[trigger] lines@[j])@ == image_item_text(failures@[j].0@) + ": "@
                    + failure_text(failures@[j].0@, failures@[j].1),
        decreases failures@.len() - i,
    {
        let mut line = display_image(&failures[i].0);
        line.append(": ");
        line.append(describe_failure(&failures[i].0, &failures[i].1).as_str());
        lines.push(line);
        i += 1;
    }
    assert(texts(lines@) == failure_items(failures@));
    join(&lines, "\n")
}

/// Writes the services of a group of updates, each as a text.
fn display_service_updates(group: &Vec<ServiceUpdate>, version_prefix: &str) -> (lines: Vec<
    String,
>)
    ensures
        texts(lines@) == service_update_texts(group@, version_prefix@),
{
    let mut lines: Vec<String> = Vec::new();
    let mut i: usize = 0;
    while i < group.len()
        invariant
            i <= group@.len(),
            lines@.len() == i,
            forall|j: int|
                0 <= j < i ==> (#[trigger] lines@[j])@ == service_update_text(
                    group@[j],
                    version_prefix@,
                ),
        decreases group@.len() - i,
    {
        let service = &group[i].0;
        let mut text;
        match &group[i].1 {
            BuildContext::Image(image, update) => {
                text = display_service_image(service.as_str(), image);
                text.append("\n");
                text.append(display_update(image, version_prefix, update.as_str()).as_str());
            },
            BuildContext::Folder(service_path, updates) => {
                text = display_service_folder(service.as_str(), service_path.as_str());
                text.append("\n");
                text.append(display_updates(version_prefix, updates).as_str());
            },
        }
        lines.push(text);
        i += 1;
    }
    assert(texts(lines@) == service_update_texts(group@, version_prefix@));
    lines
}

impl DockerComposeReport<String> {
    /// Says of the failures, for people to read, how many services have
    /// some, and what went wrong with each. The errors are at hand in words.
    pub fn display_failures(&self) -> (text: String)
        ensures
            text@ == compose_failures_text(self.report.failures@),
    {
        let failures = &self.report.failures;
        let mut lines: Vec<String> = Vec::new();
        let mut i: usize = 0;
        while i < failures.len()
            invariant
                i <= failures@.len(),
                lines@.len() == i,
                forall|j: int|
                    0 <= j < i ==> (#[trigger] lines@[j])@ == service_failure_text(failures@[j]),
            decreases failures@.len() - i,
        {
            let service = &failures[i].0;
            let mut line;
            match &failures[i].1 {
                Err(error) => {
                    line = String::from_str("  ");
                    line.append(service.as_str());
                    line.append(": ");
                    line.append(error.as_str());
                },
                Ok(BuildContext::Image(image, failure)) => {
                    line = display_service_image(service.as_str(), image);
                    line.append("\n");
                    line.append(describe_failure(image, failure).as_str());
                },
                Ok(BuildContext::Folder(service_path, errors)) => {
                    line = display_service_folder(service.as_str(), service_path.as_str());
                    line.append("\n");
                    line.append(display_image_failures(errors).as_str());
                },
            }
            lines.push(line);
            i += 1;
        }
        assert(texts(lines@) == service_failure_texts(failures@));
        let mut text = String::new();
        push_number(&mut text, failures.len());
        text.append(" failure(s):\n");
        text.append(join(&lines, "\n\n").as_str());
        proof {
            assert(Seq::<char>::empty() + decimal_digits(failures@.len()) == decimal_digits(
                failures@.len(),
            ));
        }
        text
    }
}

impl<E> DockerComposeReport<E> {
    /// Says, for people to read, which services have which updates, and
    /// which have none.
    pub fn display_successes(&self) -> (text: String)
        ensures
            text@ == compose_successes_text(
                self.report.no_updates@,
                self.report.compatible_updates@,
                self.report.breaking_updates@,
            ),
    {
        let breaking_updates = display_service_updates(&self.report.breaking_updates, "-!>");
        let compatible_updates = display_service_updates(&self.report.compatible_updates, "->");
        let group = &self.report.no_updates;
        let mut no_updates: Vec<String> = Vec::new();
        let mut i: usize = 0;
        while i < group.len()
            invariant
                i <= group@.len(),
                no_updates@.len() == i,
                forall|j: int|
                    0 <= j < i ==> (#[trigger] no_updates@[j])@ == service_without_update_text(
                        group@[j],
                    ),
            decreases group@.len() - i,
        {
            let service = &group[i].0;
            let mut text;
            match &group[i].1 {
                BuildContext::Image(image, _) => {
                    text = display_service_image(service.as_str(), image);
                },
                BuildContext::Folder(service_path, images) => {
                    text = display_service_folder(service.as_str(), service_path.as_str());
                    text.append("\n");
                    text.append(display_images(images).as_str());
                },
            }
            no_updates.push(text);
            i += 1;
        }
        assert(texts(no_updates@) == service_without_update_texts(group@));
        let mut output: Vec<String> = Vec::new();
        push_section(&mut output, " breaking update(s):\n", &breaking_updates, "\n\n");
        push_section(&mut output, " compatible update(s):\n", &compatible_updates, "\n\n");
        push_section(&mut output, " without updates:\n", &no_updates, "\n\n");
        proof {
            assert(Seq::<Seq<char>>::empty() + section(
                " breaking update(s):\n"@,
                texts(breaking_updates@),
                "\n\n"@,
            ) == section(" breaking update(s):\n"@, texts(breaking_updates@), "\n\n"@));
        }
        join(&output, "\n\n\n")
    }
}

/// No service is lost, unless it has a Dockerfile without images: every
/// other service stands in at least one group of the report.
pub proof fn lemma_no_service_lost<E>(results: Seq<ServiceResult<E>>, i: int)
    requires
        0 <= i < results.len(),
        !(results[i].1 matches BuildContext::Folder(_, Ok(images)) && images@.len() == 0),
    ensures
        ({
            ||| exists|context: BuildContext<(), String, Seq<(Image, ())>>|
                results.filter_map(select_service_without_update()).contains(
                    (results[i].0, context),
                )
            ||| exists|context: BuildContext<Tag, String, Seq<(Image, Tag)>>|
                results.filter_map(select_service_compatible_update()).contains(
                    (results[i].0, context),
                )
            ||| exists|context: BuildContext<Tag, String, Seq<(Image, Tag)>>|
                results.filter_map(select_service_breaking_update()).contains(
                    (results[i].0, context),
                )
            ||| exists|failure: Result<BuildContext<Failure<E>, String, Seq<(Image, Failure<E>)>>, E>|

                results.filter_map(select_service_failure()).contains((results[i].0, failure))
        }),
{
    let entry = results[i];
    match entry.1 {
        BuildContext::Folder(_, Ok(images)) => {
            let last = images@.len() - 1;
            if without_update(images@[last]) is Some {
                lemma_filter_map_keeps(images@, select_without_update(), last);
            }
            if with_compatible_update(images@[last]) is Some {
                lemma_filter_map_keeps(images@, select_compatible_update(), last);
            }
            if with_breaking_update(images@[last]) is Some {
                lemma_filter_map_keeps(images@, select_breaking_update(), last);
            }
            if with_failure(images@[last]) is Some {
                lemma_filter_map_keeps(images@, select_failure(), last);
            }
        },
        _ => {},
    }
    if service_without_update(entry) is Some {
        lemma_filter_map_keeps(results, select_service_without_update(), i);
    }
    if service_compatible_update(entry) is Some {
        lemma_filter_map_keeps(results, select_service_compatible_update(), i);
    }
    if service_breaking_update(entry) is Some {
        lemma_filter_map_keeps(results, select_service_breaking_update(), i);
    }
    if service_failure(entry) is Some {
        lemma_filter_map_keeps(results, select_service_failure(), i);
    }
}

} // verus!
