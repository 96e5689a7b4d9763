//! Reports: the outcomes of many searches, grouped by what they found.

use vstd::prelude::*;
use vstd::string::StringExecFns;
use crate::search::{CurrentTagStatus, Update};
use crate::text::{decimal_digits, join, joined, push_number, texts};

pub mod docker_compose;
pub mod dockerfile;

verus! {

/// What the search for the updates of one image gave: a status and the
/// updates, or the reason why there are none.
pub type UpdateResult<E> = Result<(CurrentTagStatus, Update), E>;

/// Four groups of findings, each in the order in which they were made.
#[derive(Debug)]
pub struct Report<NoUpdate, Update, Error> {
    pub no_updates: Vec<NoUpdate>,
    pub compatible_updates: Vec<Update>,
    pub breaking_updates: Vec<Update>,
    pub failures: Vec<Error>,
}

/// The most severe kind of finding in a report.
#[derive(Debug, PartialEq, Eq, Clone, Copy, Structural)]
pub enum UpdateLevel {
    NoUpdates,
    CompatibleUpdate,
    BreakingUpdate,
    Failure,
}

/// Why an image counts as a failure: its search failed, or the search went
/// through `searched_amount` tags without coming upon the current tag.
#[derive(Debug, PartialEq, Eq)]
pub enum Failure<E> {
    Error(E),
    CurrentTagNotEncountered { searched_amount: usize },
}

/// The most severe kind of finding among groups of the given sizes: a
/// failure before a breaking update, that before a compatible one.
pub open spec fn level_of(compatible_updates: nat, breaking_updates: nat, failures: nat)
    -> UpdateLevel {
    if failures > 0 {
        UpdateLevel::Failure
    } else if breaking_updates > 0 {
        UpdateLevel::BreakingUpdate
    } else if compatible_updates > 0 {
        UpdateLevel::CompatibleUpdate
    } else {
        UpdateLevel::NoUpdates
    }
}

impl<N, U, E> Report<N, U, E> {
    /// The most severe kind of finding in this report.
    pub fn update_level(&self) -> (level: UpdateLevel)
        ensures
            level == level_of(
                self.compatible_updates@.len(),
                self.breaking_updates@.len(),
                self.failures@.len(),
            ),
    {
        if self.failures.len() > 0 {
            UpdateLevel::Failure
        } else if self.breaking_updates.len() > 0 {
            UpdateLevel::BreakingUpdate
        } else if self.compatible_updates.len() > 0 {
            UpdateLevel::CompatibleUpdate
        } else {
            UpdateLevel::NoUpdates
        }
    }
}

/// One part of a report as text, or none where there are no lines: how many
/// lines there are, the title, and the lines with the separator between
/// them.
pub open spec fn section(title: Seq<char>, lines: Seq<Seq<char>>, separator: Seq<char>) -> Seq<
    Seq<char>,
> {
    if lines.len() > 0 {
        seq![decimal_digits(lines.len()) + title + joined(lines, separator)]
    } else {
        Seq::empty()
    }
}

/// Adds a part of a report to the parts, unless it has no lines.
pub fn push_section(output: &mut Vec<String>, title: &str, lines: &Vec<String>, separator: &str)
    ensures
        texts(final(output)@) == texts(old(output)@) + section(
            title@,
            texts(lines@),
            separator@,
        ),
{
    if lines.len() > 0 {
        let mut text = String::new();
        push_number(&mut text, lines.len());
        text.append(title);
        text.append(join(lines, separator).as_str());
        assert(text@ == decimal_digits(lines@.len()) + title@ + joined(
            texts(lines@),
            separator@,
        ));
        output.push(text);
        assert(texts(output@) == texts(old(output)@) + seq![text@]);
    } else {
        assert(texts(output@) + Seq::<Seq<char>>::empty() == texts(output@));
    }
}

/// What a search that did not come upon the current tag is reported as.
pub open spec fn not_encountered_text(current_tag: Seq<char>, searched_amount: nat) -> Seq<char> {
    "Failed to find current tag `"@ + current_tag + "` in the latest "@ + decimal_digits(
        searched_amount,
    ) + " tags"@
}

/// Says, for people to read, that a search did not come upon the current
/// tag.
pub fn display_not_encountered(current_tag: &str, searched_amount: usize) -> (text: String)
    ensures
        text@ == not_encountered_text(current_tag@, searched_amount as nat),
{
    let mut text = String::from_str("Failed to find current tag `");
    text.append(current_tag);
    text.append("` in the latest ");
    push_number(&mut text, searched_amount);
    text.append(" tags");
    text
}

/// Writes an error with what caused it: the messages of the error, of its
/// source, of the source of that and so on, with a colon between each two.
pub fn display_error(messages: &Vec<String>) -> (output: String)
    ensures
        output@ == joined(texts(messages@), ": "@),
{
    join(messages, ": ")
}

/// The code with which the process ends.
#[derive(Debug, PartialEq, Eq, Clone, Copy, Structural)]
pub struct ExitCode(pub i32);

/// The exit code for the most severe kind of finding: 0 without updates, 1
/// with compatible updates only, 2 with a breaking update, 10 with a failure.
pub open spec fn exit_code_of(level: UpdateLevel) -> ExitCode {
    match level {
        UpdateLevel::Failure => ExitCode(10),
        UpdateLevel::BreakingUpdate => ExitCode(2),
        UpdateLevel::CompatibleUpdate => ExitCode(1),
        UpdateLevel::NoUpdates => ExitCode(0),
    }
}

impl ExitCode {
    /// The exit code for the most severe kind of finding.
    pub fn from(level: UpdateLevel) -> (code: ExitCode)
        ensures
            code == exit_code_of(level),
    {
        match level {
            UpdateLevel::Failure => ExitCode(10),
            UpdateLevel::BreakingUpdate => ExitCode(2),
            UpdateLevel::CompatibleUpdate => ExitCode(1),
            UpdateLevel::NoUpdates => ExitCode(0),
        }
    }
}

/// The more severe the findings, the greater the exit code.
pub proof fn lemma_exit_code_grows(
    compatible_updates: nat,
    breaking_updates: nat,
    failures: nat,
)
    ensures
        failures > 0 ==> exit_code_of(level_of(compatible_updates, breaking_updates, failures)).0
            == 10,
        failures == 0 && breaking_updates > 0 ==> exit_code_of(
            level_of(compatible_updates, breaking_updates, failures),
        ).0 == 2,
        failures == 0 && breaking_updates == 0 && compatible_updates > 0 ==> exit_code_of(
            level_of(compatible_updates, breaking_updates, failures),
        ).0 == 1,
        failures == 0 && breaking_updates == 0 && compatible_updates == 0 ==> exit_code_of(
            level_of(compatible_updates, breaking_updates, failures),
        ).0 == 0,
{
}

} // verus!
