//! The report on the images of one Dockerfile.

use vstd::prelude::*;
use vstd::string::StringExecFns;
use crate::image::{Image, ImageModel, Tag, image_text, name_text};
use crate::report::{
    Failure,
    Report,
    UpdateResult,
    display_not_encountered,
    not_encountered_text,
    push_section,
    section,
};
use crate::search::{CurrentTagStatus, Update};
use crate::text::{decimal_digits, join, joined, padded, push_number, push_padded, texts};

verus! {

/// An image with what its search gave.
pub type ImageResult<E> = (Image, UpdateResult<E>);

/// The image, where its search found the current tag and no update.
pub open spec fn without_update<E>(entry: ImageResult<E>) -> Option<Image> {
    match entry.1 {
        Ok((CurrentTagStatus::Found, update)) => if update.compatible is None
            && update.breaking is None {
            Some(entry.0)
        } else {
            None
        },
        _ => None,
    }
}

/// The image and its compatible update, where its search found one.
pub open spec fn with_compatible_update<E>(entry: ImageResult<E>) -> Option<(Image, Tag)> {
    match entry.1 {
        Ok((_, update)) => match update.compatible {
            Some(tag) => Some((entry.0, tag)),
            None => None,
        },
        Err(_) => None,
    }
}

/// The image and its breaking update, where its search found one.
pub open spec fn with_breaking_update<E>(entry: ImageResult<E>) -> Option<(Image, Tag)> {
    match entry.1 {
        Ok((_, update)) => match update.breaking {
            Some(tag) => Some((entry.0, tag)),
            None => None,
        },
        Err(_) => None,
    }
}

/// The image and why it counts as a failure, where it does: its search
/// failed, or did not come upon the current tag.
pub open spec fn with_failure<E>(entry: ImageResult<E>) -> Option<(Image, Failure<E>)> {
    match entry.1 {
        Ok((CurrentTagStatus::NotEncountered { searched_amount }, _)) => Some(
            (entry.0, Failure::CurrentTagNotEncountered { searched_amount }),
        ),
        Ok((CurrentTagStatus::Found, _)) => None,
        Err(error) => Some((entry.0, Failure::Error(error))),
    }
}

/// `without_update` as a value.
pub open spec fn select_without_update<E>() -> spec_fn(ImageResult<E>) -> Option<Image> {
    |entry: ImageResult<E>| without_update(entry)
}

/// `with_compatible_update` as a value.
pub open spec fn select_compatible_update<E>() -> spec_fn(ImageResult<E>) -> Option<
    (Image, Tag),
> {
    |entry: ImageResult<E>| with_compatible_update(entry)
}

/// `with_breaking_update` as a value.
pub open spec fn select_breaking_update<E>() -> spec_fn(ImageResult<E>) -> Option<(Image, Tag)> {
    |entry: ImageResult<E>| with_breaking_update(entry)
}

/// `with_failure` as a value.
pub open spec fn select_failure<E>() -> spec_fn(ImageResult<E>) -> Option<(Image, Failure<E>)> {
    |entry: ImageResult<E>| with_failure(entry)
}

/// The findings for the images of one Dockerfile.
#[derive(Debug)]
pub struct DockerfileReport<E> {
    pub report: Report<Image, (Image, Tag), (Image, Failure<E>)>,
}

impl<E> DockerfileReport<E> {
    /// Sorts the images into the groups of a report, each group in the
    /// order of the images. An image whose search found the current tag and
    /// nothing newer has no update. An image with a compatible update, a
    /// breaking update or both stands in the group of each. An image whose
    /// search failed, or did not come upon the current tag, is a failure,
    /// beside the updates that were found for it.
    pub fn from(results: Vec<ImageResult<E>>) -> (result: Self)
        ensures
            result.report.no_updates@ == results@.filter_map(select_without_update()),
            result.report.compatible_updates@ == results@.filter_map(select_compatible_update()),
            result.report.breaking_updates@ == results@.filter_map(select_breaking_update()),
            result.report.failures@ == results@.filter_map(select_failure()),
    {
        let mut no_updates: Vec<Image> = Vec::new();
        let mut compatible_updates: Vec<(Image, Tag)> = Vec::new();
        let mut breaking_updates: Vec<(Image, Tag)> = Vec::new();
        let mut failures: Vec<(Image, Failure<E>)> = Vec::new();
        let ghost entries = results@;
        for entry in it: results
            invariant
                it.seq() == entries,
                no_updates@ == entries.take(it.index()).filter_map(select_without_update()),
                compatible_updates@ == entries.take(it.index()).filter_map(
                    select_compatible_update(),
                ),
                breaking_updates@ == entries.take(it.index()).filter_map(
                    select_breaking_update(),
                ),
                failures@ == entries.take(it.index()).filter_map(select_failure()),
        {
            proof {
                entries.lemma_filter_map_take_succ(select_without_update(), it.index());
                entries.lemma_filter_map_take_succ(select_compatible_update(), it.index());
                entries.lemma_filter_map_take_succ(select_breaking_update(), it.index());
                entries.lemma_filter_map_take_succ(select_failure(), it.index());
            }
            let (image, result) = entry;
            match result {
                Ok((status, update)) => {
                    let Update { compatible, breaking } = update;
                    match status {
                        CurrentTagStatus::Found => {
                            if compatible.is_none() && breaking.is_none() {
                                no_updates.push(image.clone());
                            }
                        },
                        CurrentTagStatus::NotEncountered { searched_amount } => {
                            failures.push(
                                (
                                    image.clone(),
                                    Failure::CurrentTagNotEncountered { searched_amount },
                                ),
                            );
                        },
                    }
                    match compatible {
                        Some(tag) => {
                            compatible_updates.push((image.clone(), tag));
                        },
                        None => {},
                    }
                    match breaking {
                        Some(tag) => {
                            breaking_updates.push((image, tag));
                        },
                        None => {},
                    }
                },
                Err(error) => {
                    failures.push((image, Failure::Error(error)));
                },
            }
        }
        proof {
            assert(entries.take(entries.len() as int) == entries);
        }
        DockerfileReport {
            report: Report { no_updates, compatible_updates, breaking_updates, failures },
        }
    }
}

/// What is selected from an entry of a sequence is among what is selected
/// from the sequence.
pub proof fn lemma_filter_map_keeps<A, B>(entries: Seq<A>, select: spec_fn(A) -> Option<B>, i: int)
    requires
        0 <= i < entries.len(),
        select(entries[i]) is Some,
    ensures
        entries.filter_map(select).contains(select(entries[i])->Some_0),
    decreases entries.len(),
{
    let rest = entries.drop_last();
    let found = select(entries[i])->Some_0;
    if i == entries.len() - 1 {
        let all = rest.filter_map(select) + seq![found];
        assert(all[all.len() - 1] == found);
    } else {
        lemma_filter_map_keeps(rest, select, i);
        let kept = rest.filter_map(select);
        let at = choose|at: int| 0 <= at < kept.len() && kept[at] == found;
        match select(entries.last()) {
            Some(other) => {
                assert((kept + seq![other])[at] == found);
            },
            None => {},
        }
    }
}

/// No image is lost: each one stands in at least one group of the report,
/// and one with a compatible and a breaking update stands in the groups of
/// both.
pub proof fn lemma_no_image_lost<E>(results: Seq<ImageResult<E>>, i: int)
    requires
        0 <= i < results.len(),
    ensures
        ({
            ||| results.filter_map(select_without_update()).contains(results[i].0)
            ||| exists|tag: Tag|
                results.filter_map(select_compatible_update()).contains((results[i].0, tag))
            ||| exists|tag: Tag|
                results.filter_map(select_breaking_update()).contains((results[i].0, tag))
            ||| exists|failure: Failure<E>|
                results.filter_map(select_failure()).contains((results[i].0, failure))
        }),
        results[i].1 matches Ok((_, update)) ==> {
            &&& update.compatible matches Some(tag) ==> results.filter_map(
                select_compatible_update(),
            ).contains((results[i].0, tag))
            &&& update.breaking matches Some(tag) ==> results.filter_map(
                select_breaking_update(),
            ).contains((results[i].0, tag))
        },
{
    let entry = results[i];
    if without_update(entry) is Some {
        lemma_filter_map_keeps(results, select_without_update(), i);
    }
    if with_compatible_update(entry) is Some {
        lemma_filter_map_keeps(results, select_compatible_update(), i);
    }
    if with_breaking_update(entry) is Some {
        lemma_filter_map_keeps(results, select_breaking_update(), i);
    }
    if with_failure(entry) is Some {
        lemma_filter_map_keeps(results, select_failure(), i);
    }
}

/// How many bytes a text takes.
pub open spec fn byte_length(text: Seq<char>) -> nat {
    vstd::utf8::encode_utf8(text).len()
}

/// An update as text, on two lines: the image at its current tag, and below
/// it the prefix and the new tag. The name of the image and the prefix are
/// set flush right, to the width in bytes of the longer of the two.
pub open spec fn update_text(image: ImageModel, version_prefix: Seq<char>, new_tag: Seq<char>)
    -> Seq<char> {
    let name = name_text(image.name);
    let width = if byte_length(version_prefix) as usize >= byte_length(name) as usize {
        byte_length(version_prefix) as usize
    } else {
        byte_length(name) as usize
    };
    padded(name, width as nat) + seq![':'] + image.tag + seq!['\n'] + padded(
        version_prefix,
        width as nat,
    )
        + seq![' '] + new_tag
}

/// Writes an update as text.
pub fn format_update(current_image: &Image, version_prefix: &str, new_tag: &str) -> (text:
    String)
    ensures
        text@ == update_text(current_image@, version_prefix@, new_tag@),
{
    let image_name = current_image.name.to_string();
    let prefix_width = if version_prefix.len() >= image_name.as_str().len() {
        version_prefix.len()
    } else {
        image_name.as_str().len()
    };
    let mut text = String::new();
    push_padded(&mut text, image_name.as_str(), prefix_width);
    text.push(':');
    text.append(current_image.tag.as_str());
    text.push('\n');
    push_padded(&mut text, version_prefix, prefix_width);
    text.push(' ');
    text.append(new_tag);
    proof {
        assert(Seq::<char>::empty() + padded(image_name@, prefix_width as nat) == padded(
            image_name@,
            prefix_width as nat,
        ));
    }
    text
}

/// The updates as text, one text for each.
pub open spec fn update_lines(updates: Seq<(Image, Tag)>, version_prefix: Seq<char>) -> Seq<
    Seq<char>,
> {
    Seq::new(updates.len(), |i: int| update_text(updates[i].0@, version_prefix, updates[i].1@))
}

/// The images as text, one line for each.
pub open spec fn image_lines(images: Seq<Image>) -> Seq<Seq<char>> {
    Seq::new(images.len(), |i: int| image_text(images[i]@))
}

/// Why an image counts as a failure, in words: the words of its error, or
/// that its current tag did not come up.
pub open spec fn failure_text(image: ImageModel, failure: Failure<String>) -> Seq<char> {
    match failure {
        Failure::Error(message) => message@,
        Failure::CurrentTagNotEncountered { searched_amount } => not_encountered_text(
            image.tag,
            searched_amount as nat,
        ),
    }
}

/// The failures as text, one line for each: the image, and behind a colon
/// what went wrong.
pub open spec fn failure_lines(failures: Seq<(Image, Failure<String>)>) -> Seq<Seq<char>> {
    Seq::new(
        failures.len(),
        |i: int| image_text(failures[i].0@) + ": "@ + failure_text(failures[i].0@, failures[i].1),
    )
}

/// What a report says of the images that did not fail: the breaking updates,
/// the compatible updates and the images without updates, each group under
/// its title, with an empty line between the groups. A group without
/// members is left out.
pub open spec fn successes_text(
    no_updates: Seq<Image>,
    compatible_updates: Seq<(Image, Tag)>,
    breaking_updates: Seq<(Image, Tag)>,
) -> Seq<char> {
    joined(
        section(" breaking update(s):\n"@, update_lines(breaking_updates, "-!>"@), "\n"@)
            + section(" compatible update(s):\n"@, update_lines(compatible_updates, "->"@), "\n"@)
            + section(" without updates:\n"@, image_lines(no_updates), "\n"@),
        "\n\n"@,
    )
}

/// What a report says of failures: how many there are, and one line for
/// each.
pub open spec fn failures_text(failures: Seq<(Image, Failure<String>)>) -> Seq<char> {
    decimal_digits(failures.len()) + " failure(s):\n"@ + joined(failure_lines(failures), "\n"@)
}

/// Writes each update as text.
pub fn format_updates(updates: &Vec<(Image, Tag)>, version_prefix: &str) -> (lines: Vec<String>)
    ensures
        texts(lines@) == update_lines(updates@, version_prefix@),
{
    let mut lines: Vec<String> = Vec::new();
    let mut i: usize = 0;
    while i < updates.len()
        invariant
            i <= updates@.len(),
            lines@.len() == i,
            texts(lines@) == update_lines(updates@.take(i as int), version_prefix@),
        decreases updates@.len() - i,
    {
        let ghost before = lines@;
        let line = format_update(&updates[i].0, version_prefix, updates[i].1.as_str());
        lines.push(line);
        proof {
            let shorter = update_lines(updates@.take(i as int), version_prefix@);
            let longer = update_lines(updates@.take(i + 1), version_prefix@);
            assert forall|j: int| 0 <= j <= i implies texts(lines@)[j] == longer[j] by {
                if j < i {
                    assert(texts(before)[j] == shorter[j]);
                }
            }
        }
        i += 1;
    }
    proof {
        assert(updates@.take(i as int) == updates@);
    }
    lines
}

/// Writes each image as text.
pub fn format_images(images: &Vec<Image>) -> (lines: Vec<String>)
    ensures
        texts(lines@) == image_lines(images@),
{
    let mut lines: Vec<String> = Vec::new();
    let mut i: usize = 0;
    while i < images.len()
        invariant
            i <= images@.len(),
            lines@.len() == i,
            texts(lines@) == image_lines(images@.take(i as int)),
        decreases images@.len() - i,
    {
        let ghost before = lines@;
        lines.push(images[i].to_string());
        proof {
            let shorter = image_lines(images@.take(i as int));
            let longer = image_lines(images@.take(i + 1));
            assert forall|j: int| 0 <= j <= i implies texts(lines@)[j] == longer[j] by {
                if j < i {
                    assert(texts(before)[j] == shorter[j]);
                }
            }
        }
        i += 1;
    }
    proof {
        assert(images@.take(i as int) == images@);
    }
    lines
}

/// Says in words why an image counts as a failure.
pub fn describe_failure(image: &Image, failure: &Failure<String>) -> (text: String)
    ensures
        text@ == failure_text(image@, *failure),
{
    match failure {
        Failure::Error(message) => message.clone(),
        Failure::CurrentTagNotEncountered { searched_amount } => display_not_encountered(
            image.tag.as_str(),
            *searched_amount,
        ),
    }
}

impl DockerfileReport<String> {
    /// Says of the failures, for people to read, how many there are and what
    /// went wrong with each image. The errors are at hand in words.
    pub fn display_failures(&self) -> (text: String)
        ensures
            text@ == failures_text(self.report.failures@),
    {
        let failures = &self.report.failures;
        let mut lines: Vec<String> = Vec::new();
        let mut i: usize = 0;
        while i < failures.len()
            invariant
                i <= failures@.len(),
                lines@.len() == i,
                forall|j: int|
                    0 <= j < i ==> (#[trigger] lines@[j])@ == image_text(failures@[j].0@) + ": "@
                        + failure_text(failures@[j].0@, failures@[j].1),
            decreases failures@.len() - i,
        {
            let mut line = failures[i].0.to_string();
            line.append(": ");
            line.append(describe_failure(&failures[i].0, &failures[i].1).as_str());
            lines.push(line);
            i += 1;
        }
        assert(texts(lines@) == failure_lines(failures@));
        let mut text = String::new();
        push_number(&mut text, failures.len());
        text.append(" failure(s):\n");
        text.append(join(&lines, "\n").as_str());
        proof {
            assert(Seq::<char>::empty() + decimal_digits(failures@.len()) == decimal_digits(
                failures@.len(),
            ));
        }
        text
    }
}

impl<E> DockerfileReport<E> {
    /// Says, for people to read, which images have which updates, and which
    /// have none.
    pub fn display_successes(&self) -> (text: String)
        ensures
            text@ == successes_text(
                self.report.no_updates@,
                self.report.compatible_updates@,
                self.report.breaking_updates@,
            ),
    {
        let breaking_updates = format_updates(&self.report.breaking_updates, "-!>");
        let compatible_updates = format_updates(&self.report.compatible_updates, "->");
        let no_updates = format_images(&self.report.no_updates);
        let mut output: Vec<String> = Vec::new();
        push_section(&mut output, " breaking update(s):\n", &breaking_updates, "\n");
        push_section(&mut output, " compatible update(s):\n", &compatible_updates, "\n");
        push_section(&mut output, " without updates:\n", &no_updates, "\n");
        proof {
            assert(Seq::<Seq<char>>::empty() + section(
                " breaking update(s):\n"@,
                texts(breaking_updates@),
                "\n"@,
            ) == section(" breaking update(s):\n"@, texts(breaking_updates@), "\n"@));
        }
        join(&output, "\n\n")
    }
}

} // verus!
