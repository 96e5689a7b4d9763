//! Taking versions out of tags.
//!
//! A pattern is turned into a regular expression in which every slot is a
//! capture group for digits. What the groups capture in a tag are the
//! numbers of the tag's version.

use vstd::prelude::*;
use vstd::string::StringExecFns;
use regex::Regex;
use crate::image::Image;
use crate::matching::{captures, captures_of, compile, compiled, groups_view, is_match};
use crate::pattern::{Error, Part, Pattern, PatternModel, PatternPart, parts_view, pattern_of};
use crate::text::{number_of, parse_number};
use crate::version::{Version, lex_less};

verus! {

/// The regular expression for a slot: a capture group of one or more digits.
pub open spec fn slot_expression() -> Seq<char> {
    seq!['(', '\\', 'd', '+', ')']
}

/// Literal text with a backslash in front of every dot.
pub open spec fn escaped(text: Seq<char>) -> Seq<char>
    decreases text.len(),
{
    if text.len() == 0 {
        Seq::empty()
    } else if text.last() == '.' {
        escaped(text.drop_last()).push('\\').push('.')
    } else {
        escaped(text.drop_last()).push(text.last())
    }
}

/// The regular expressions of the parts, one after the other.
pub open spec fn expression_body(parts: Seq<Part>) -> Seq<char>
    decreases parts.len(),
{
    if parts.len() == 0 {
        Seq::empty()
    } else {
        expression_body(parts.drop_last()) + match parts.last() {
            Part::Literal(text) => escaped(text),
            Part::Slot => slot_expression(),
        }
    }
}

/// The regular expression of a pattern: that of its parts, anchored at both
/// ends.
pub open spec fn expression_of(parts: Seq<Part>) -> Seq<char> {
    seq!['^'] + expression_body(parts) + seq!['$']
}

/// The numbers that the groups hold, in their order. Groups that took no
/// part in the match are passed over; a group that holds no number spoils
/// the whole.
pub open spec fn numbers_of(groups: Seq<Option<Seq<char>>>) -> Option<Seq<usize>>
    decreases groups.len(),
{
    if groups.len() == 0 {
        Some(Seq::empty())
    } else {
        match numbers_of(groups.drop_last()) {
            None => None,
            Some(numbers) => match groups.last() {
                None => Some(numbers),
                Some(text) => match number_of(text) {
                    Some(number) => Some(numbers.push(number)),
                    None => None,
                },
            },
        }
    }
}

/// The version that the capture groups of a match stand for: the numbers of
/// all groups but the first, which is the whole match, if each of them holds
/// a number and there is at least one.
pub open spec fn version_of(groups: Seq<Option<Seq<char>>>) -> Option<Seq<usize>> {
    if groups.len() == 0 {
        None
    } else {
        match numbers_of(groups.skip(1)) {
            Some(numbers) => if numbers.len() > 0 {
                Some(numbers)
            } else {
                None
            },
            None => None,
        }
    }
}

/// Whether a tag matches the pattern with the given parts.
pub open spec fn matching(parts: Seq<Part>, tag: Seq<char>) -> bool {
    match compiled(expression_of(parts)) {
        Some(regex) => captures_of(regex, tag) is Some,
        None => false,
    }
}

/// The version that the pattern with the given parts finds in a tag.
pub open spec fn extraction(parts: Seq<Part>, tag: Seq<char>) -> Option<Seq<usize>> {
    match compiled(expression_of(parts)) {
        Some(regex) => match captures_of(regex, tag) {
            Some(groups) => version_of(groups),
            None => None,
        },
        None => None,
    }
}

/// What a text means as the pattern of an extractor: the pattern that it
/// spells, where a regular expression can be compiled for that pattern.
pub open spec fn extractor_of(text: Seq<char>) -> Result<PatternModel, Error> {
    match pattern_of(text) {
        Ok(model) => if compiled(expression_of(model.parts)) is Some {
            Ok(model)
        } else {
            Err(Error::Matcher)
        },
        Err(error) => Err(error),
    }
}

/// Makes a version of the capture groups of a match.
pub fn version_of_groups(groups: &Vec<Option<String>>) -> (result: Option<Version>)
    ensures
        match version_of(groups_view(groups@)) {
            Some(numbers) => result matches Some(version) && version@ == numbers && version.wf(),
            None => result is None,
        },
{
    if groups.len() == 0 {
        return None;
    }
    let ghost all = groups_view(groups@);
    let mut numbers: Vec<usize> = Vec::new();
    let mut valid = true;
    let mut i: usize = 1;
    while i < groups.len()
        invariant
            1 <= i <= groups@.len(),
            all == groups_view(groups@),
            numbers_of(all.subrange(1, i as int)) == if valid {
                Some(numbers@)
            } else {
                None
            },
        decreases groups@.len() - i,
    {
        proof {
            assert(all.subrange(1, i + 1).drop_last() == all.subrange(1, i as int));
            assert(all.subrange(1, i + 1).last() == all[i as int]);
        }
        match &groups[i] {
            Some(text) => {
                match parse_number(text.as_str()) {
                    Some(number) => {
                        if valid {
                            numbers.push(number);
                        }
                    },
                    None => {
                        valid = false;
                    },
                }
            },
            None => {},
        }
        i += 1;
    }
    proof {
        assert(all.subrange(1, i as int) == all.skip(1));
    }
    if valid {
        Version::new(numbers)
    } else {
        None
    }
}

impl Pattern {
    /// Literal text as a regular expression: every dot gets a backslash.
    pub fn escape_literal(literal: &str) -> (result: String)
        ensures
            result@ == escaped(literal@),
    {
        let mut result = String::new();
        for c in it: literal.chars()
            invariant
                it.seq() == literal@,
                result@ == escaped(it.seq().take(it.index())),
        {
            proof {
                let next = it.seq().take(it.index() + 1);
                assert(next.drop_last() == it.seq().take(it.index()));
                assert(next.last() == c);
            }
            if c == '.' {
                result.push('\\');
                result.push('.');
            } else {
                result.push(c);
            }
        }
        proof {
            assert(literal@.take(literal@.len() as int) == literal@);
        }
        result
}

/// Writes the regular expression of the pattern.
pub fn expression(&self) -> (result: String)
    ensures
        result@ == expression_of(self@.parts),
{
    let parts = self.parts();
    let ghost all = parts_view(parts@);
    let mut result = String::new();
    result.push('^');
    let mut i: usize = 0;
    while i < parts.len()
        invariant
            i <= parts@.len(),
            all == parts_view(parts@),
            result@ == seq!['^'] + expression_body(all.take(i as int)),
        decreases parts@.len() - i,
    {
        proof {
            assert(all.take(i + 1).drop_last() == all.take(i as int));
            assert(all.take(i + 1).last() == parts@[i as int]@);
        }
        let ghost before = result@;
        match &parts[i] {
            PatternPart::Literal(literal) => {
                let piece = Pattern::escape_literal(literal.as_str());
                result.append(piece.as_str());
                assert(result@ == seq!['^'] + (expression_body(all.take(i as int)) + escaped(
                    literal@,
                )));
            },
            PatternPart::VersionPart => {
                result.push('(');
                result.push('\\');
                result.push('d');
                result.push('+');
                result.push(')');
                assert(result@ == seq!['^'] + (expression_body(all.take(i as int))
                    + slot_expression()));
            },
        }
        i += 1;
    }
    result.push('$');
    proof {
        assert(all.take(i as int) == all);
    }
    result
}

/// Compiles the regular expression of the pattern. `None` where the regular
/// expression is refused, which happens to patterns that are too large.
pub fn regex(&self) -> (result: Option<Regex>)
    ensures
        result == compiled(expression_of(self@.parts)),
{
    let raw_regex = self.expression();
    compile(raw_regex.as_str())
}
}

/// Something that carries a tag.
pub trait Tagged {
    /// The text of the tag.
    spec fn tag_text(&self) -> Seq<char>;

    /// The tag.
    fn tag(&self) -> (tag: &str)
        ensures
            tag@ == self.tag_text(),
    ;
}

impl Tagged for String {
    open spec fn tag_text(&self) -> Seq<char> {
        self@
    }

    fn tag(&self) -> (tag: &str) {
        self.as_str()
    }
}

impl<'a> Tagged for &'a str {
    open spec fn tag_text(&self) -> Seq<char> {
        self@
    }

    fn tag(&self) -> (tag: &str) {
        *self
    }
}

impl Tagged for Image {
    open spec fn tag_text(&self) -> Seq<char> {
        self.tag@
    }

    fn tag(&self) -> (tag: &str) {
        self.tag.as_str()
    }
}

/// The candidate with its version, where the pattern finds one in its tag.
pub open spec fn with_version<T: Tagged>(parts: Seq<Part>, candidate: T) -> Option<
    (Seq<usize>, T),
> {
    match extraction(parts, candidate.tag_text()) {
        Some(numbers) => Some((numbers, candidate)),
        None => None,
    }
}

/// `matching` for the tag of a candidate, as a value.
pub open spec fn select_matching<T: Tagged>(parts: Seq<Part>) -> spec_fn(T) -> bool {
    |candidate: T| matching(parts, candidate.tag_text())
}

/// `with_version` as a value.
pub open spec fn select_with_version<T: Tagged>(parts: Seq<Part>) -> spec_fn(T) -> Option<
    (Seq<usize>, T),
> {
    |candidate: T| with_version(parts, candidate)
}

/// Candidates with their versions as mathematical values.
pub open spec fn versions_view<T>(found: Seq<(Version, T)>) -> Seq<(Seq<usize>, T)> {
    Seq::new(found.len(), |i: int| (found[i].0@, found[i].1))
}

/// The place of the candidate with the greatest version among those in whose
/// tags the pattern finds a version. Of several with the greatest version,
/// it is the last.
pub open spec fn greatest<T: Tagged>(parts: Seq<Part>, candidates: Seq<T>) -> Option<int>
    decreases candidates.len(),
{
    if candidates.len() == 0 {
        None
    } else {
        let before = greatest(parts, candidates.drop_last());
        match extraction(parts, candidates.last().tag_text()) {
            None => before,
            Some(version) => match before {
                Some(i) => if lex_less(
                    version,
                    extraction(parts, candidates[i].tag_text())->Some_0,
                ) {
                    Some(i)
                } else {
                    Some(candidates.len() - 1)
                },
                None => Some(candidates.len() - 1),
            },
        }
    }
}

/// A pattern together with the regular expression that was compiled for it.
#[derive(Debug)]
pub struct VersionExtractor {
    pattern: Pattern,
    regex: Regex,
}

impl View for VersionExtractor {
    type V = PatternModel;

    closed spec fn view(&self) -> PatternModel {
        self.pattern@
    }
}

impl VersionExtractor {
    /// The regular expression is the one that belongs to the pattern.
    #[verifier::type_invariant]
    spec fn well_formed(&self) -> bool {
        compiled(expression_of(self.pattern@.parts)) == Some(self.regex)
    }

    /// Compiles the regular expression of a pattern. `None` where the
    /// regular expression is refused, which happens to patterns that are too
    /// large.
    pub fn regex_for_pattern(pattern: &Pattern) -> (result: Option<Regex>)
        ensures
            result == compiled(expression_of(pattern@.parts)),
    {
        pattern.regex()
    }

    /// Makes an extractor for a pattern, unless no regular expression can be
    /// compiled for it.
    pub fn new(pattern: Pattern) -> (result: Option<VersionExtractor>)
        ensures
            compiled(expression_of(pattern@.parts)) is Some <==> result is Some,
            result matches Some(extractor) ==> extractor@ == pattern@,
    {
        match Self::regex_for_pattern(&pattern) {
            Some(regex) => Some(VersionExtractor { pattern, regex }),
            None => None,
        }
    }

    /// Reads a text as a pattern and makes an extractor for it.
    pub fn parse(pattern: &str) -> (result: Result<VersionExtractor, Error>)
        ensures
            match extractor_of(pattern@) {
                Ok(model) => result matches Ok(extractor) && extractor@ == model,
                Err(error) => result matches Err(given) && given == error,
            },
    {
        match Pattern::parse(pattern) {
            Ok(parsed) => match Self::new(parsed) {
                Some(extractor) => Ok(extractor),
                None => Err(Error::Matcher),
            },
            Err(error) => Err(error),
        }
    }

    /// The pattern that this extractor was made for.
    pub fn pattern(&self) -> (pattern: &Pattern)
        ensures
            pattern@ == self@,
    {
        &self.pattern
    }

    /// How many of the pattern's slots, counted from the first, are breaking.
    pub fn breaking_degree(&self) -> (degree: usize)
        ensures
            degree == self@.breaking_degree,
    {
        self.pattern.breaking_degree()
    }

    /// Whether the candidate's tag matches the pattern.
    pub fn matches<T: Tagged>(&self, candidate: T) -> (result: bool)
        ensures
            result == matching(self@.parts, candidate.tag_text()),
    {
        proof {
            use_type_invariant(self);
        }
        is_match(&self.regex, candidate.tag())
    }

    /// Takes the version out of a tag: the numbers that stand in the tag
    /// where the pattern has its slots. `None` where the tag does not match
    /// the pattern, where one of the numbers does not fit the machine's
    /// word, and where the pattern has no slot.
    pub fn extract_from<T: Tagged>(&self, candidate: T) -> (result: Option<Version>)
        ensures
            match extraction(self@.parts, candidate.tag_text()) {
                Some(numbers) => result matches Some(version) && version@ == numbers
                    && version.wf(),
                None => result is None,
            },
    {
        proof {
            use_type_invariant(self);
        }
        match captures(&self.regex, candidate.tag()) {
            Some(groups) => version_of_groups(&groups),
            None => None,
        }
    }

    /// Keeps the candidates whose tags match the pattern, in their order.
    pub fn filter<T: Tagged>(&self, candidates: Vec<T>) -> (result: Vec<T>)
        ensures
            result@ == candidates@.filter(select_matching(self@.parts)),
    {
        let mut result: Vec<T> = Vec::new();
        let ghost all = candidates@;
        let ghost keep = select_matching::<T>(self@.parts);
        for candidate in it: candidates
            invariant
                it.seq() == all,
                keep == select_matching::<T>(self@.parts),
                result@ == all.take(it.index()).filter(keep),
        {
            proof {
                reveal(Seq::filter);
                assert(all.take(it.index() + 1).drop_last() == all.take(it.index()));
            }
            if is_match_of(self, &candidate) {
                result.push(candidate);
            }
        }
        proof {
            assert(all.take(all.len() as int) == all);
        }
        result
    }

    /// Keeps the candidates in whose tags the pattern finds a version, each
    /// with that version, in their order.
    pub fn extract_iter<T: Tagged>(&self, candidates: Vec<T>) -> (result: Vec<(Version, T)>)
        ensures
            versions_view(result@) == candidates@.filter_map(select_with_version(self@.parts)),
    {
        let mut result: Vec<(Version, T)> = Vec::new();
        let ghost all = candidates@;
        let ghost select = select_with_version::<T>(self@.parts);
        for candidate in it: candidates
            invariant
                it.seq() == all,
                select == select_with_version::<T>(self@.parts),
                versions_view(result@) == all.take(it.index()).filter_map(select),
        {
            proof {
                all.lemma_filter_map_take_succ(select, it.index());
            }
            let ghost before = result@;
            match version_in(self, &candidate) {
                Some(version) => {
                    result.push((version, candidate));
                    assert(versions_view(result@) == versions_view(before) + seq![
                        (version@, candidate),
                    ]);
                },
                None => {
                    assert(versions_view(before) + Seq::<(Seq<usize>, T)>::empty()
                        == versions_view(before));
                },
            }
        }
        proof {
            assert(all.take(all.len() as int) == all);
        }
        result
    }

    /// The candidate with the greatest version, with that version. Of
    /// several with the greatest version, it is the last. `None` where the
    /// pattern finds a version in none of the tags.
    pub fn max<T: Tagged>(&self, candidates: Vec<T>) -> (result: Option<(Version, T)>)
        ensures
            match greatest(self@.parts, candidates@) {
                Some(i) => result matches Some((version, candidate)) && candidate
                    == candidates@[i] && extraction(self@.parts, candidate.tag_text()) == Some(
                    version@,
                ),
                None => result is None,
            },
    {
        let mut best: Option<(Version, T)> = None;
        let ghost all = candidates@;
        let ghost parts = self@.parts;
        for candidate in it: candidates
            invariant
                it.seq() == all,
                parts == self@.parts,
                match greatest(parts, all.take(it.index())) {
                    Some(i) => {
                        &&& 0 <= i < it.index()
                        &&& best matches Some((version, kept))
                        &&& kept == all[i]
                        &&& extraction(parts, kept.tag_text()) == Some(version@)
                    },
                    None => best is None,
                },
        {
            proof {
                assert(all.take(it.index() + 1).drop_last() == all.take(it.index()));
            }
            match version_in(self, &candidate) {
                Some(version) => {
                    let keep = match &best {
                        Some((greatest_version, _)) => version.is_less_than(greatest_version),
                        None => false,
                    };
                    if !keep {
                        best = Some((version, candidate));
                    }
                },
                None => {},
            }
        }
        proof {
            assert(all.take(all.len() as int) == all);
        }
        best
    }

    /// Writes the pattern as text.
    pub fn to_string(&self) -> (text: String)
        ensures
            text@ == crate::pattern::display(self@.parts, self@.breaking_degree),
    {
        self.pattern.to_string()
    }
}

/// Whether the tag of a candidate that is only borrowed matches.
fn is_match_of<T: Tagged>(extractor: &VersionExtractor, candidate: &T) -> (result: bool)
    ensures
        result == matching(extractor@.parts, candidate.tag_text()),
{
    extractor.matches(candidate.tag())
}

/// The version in the tag of a candidate that is only borrowed.
fn version_in<T: Tagged>(extractor: &VersionExtractor, candidate: &T) -> (result: Option<Version>)
    ensures
        match extraction(extractor@.parts, candidate.tag_text()) {
            Some(numbers) => result matches Some(version) && version@ == numbers && version.wf(),
            None => result is None,
        },
{
    extractor.extract_from(candidate.tag())
}

/// The candidate that `greatest` points at has the greatest version: the
/// pattern finds a version in its tag, no candidate has a greater one, and
/// every candidate behind it has a smaller one. Where `greatest` points at
/// none, the pattern finds a version in no tag.
pub proof fn lemma_greatest_is_greatest<T: Tagged>(parts: Seq<Part>, candidates: Seq<T>)
    ensures
        match greatest(parts, candidates) {
            Some(i) => {
                &&& 0 <= i < candidates.len()
                &&& extraction(parts, candidates[i].tag_text()) is Some
                &&& forall|j: int|
                    0 <= j < candidates.len() && extraction(
                        parts,
                        (#[trigger] candidates[j]).tag_text(),
                    ) is Some ==> !lex_less(
                        extraction(parts, candidates[i].tag_text())->Some_0,
                        extraction(parts, candidates[j].tag_text())->Some_0,
                    )
                &&& forall|j: int|
                    i < j < candidates.len() && extraction(
                        parts,
                        (#[trigger] candidates[j]).tag_text(),
                    ) is Some ==> lex_less(
                        extraction(parts, candidates[j].tag_text())->Some_0,
                        extraction(parts, candidates[i].tag_text())->Some_0,
                    )
            },
            None => forall|j: int|
                0 <= j < candidates.len() ==> extraction(
                    parts,
                    (#[trigger] candidates[j]).tag_text(),
                ) is None,
        },
    decreases candidates.len(),
{
    if candidates.len() > 0 {
        let rest = candidates.drop_last();
        let last = candidates.len() - 1;
        lemma_greatest_is_greatest(parts, rest);
        assert forall|j: int| 0 <= j < last implies candidates[j] == rest[j] by {}
        match greatest(parts, candidates) {
            Some(i) => {
                let best = extraction(parts, candidates[i].tag_text())->Some_0;
                assert forall|j: int|
                    0 <= j < candidates.len() && extraction(
                        parts,
                        (#[trigger] candidates[j]).tag_text(),
                    ) is Some implies !lex_less(
                    best,
                    extraction(parts, candidates[j].tag_text())->Some_0,
                ) by {
                    let other = extraction(parts, candidates[j].tag_text())->Some_0;
                    crate::version::lemma_lex_less_total(best, other);
                    if j < last {
                        assert(candidates[j] == rest[j]);
                        if i == last && lex_less(best, other) {
                            // The last candidate took the place of one that no
                            // earlier candidate exceeds.
                            let before = greatest(parts, rest)->Some_0;
                            assert(candidates[before] == rest[before]);
                            let earlier = extraction(parts, rest[before].tag_text())->Some_0;
                            crate::version::lemma_lex_less_total(earlier, best);
                            if earlier != best {
                                crate::version::lemma_lex_less_transitive(earlier, best, other);
                            }
                        }
                    } else if i < last {
                        assert(candidates[i] == rest[i]);
                    }
                }
                assert forall|j: int|
                    i < j < candidates.len() && extraction(
                        parts,
                        (#[trigger] candidates[j]).tag_text(),
                    ) is Some implies lex_less(
                    extraction(parts, candidates[j].tag_text())->Some_0,
                    best,
                ) by {
                    assert(candidates[i] == rest[i]);
                    if j < last {
                        assert(candidates[j] == rest[j]);
                    }
                }
            },
            None => {
                assert forall|j: int| 0 <= j < candidates.len() implies extraction(
                    parts,
                    (#[trigger] candidates[j]).tag_text(),
                ) is None by {
                    if j < last {
                        assert(candidates[j] == rest[j]);
                    }
                }
            },
        }
    }
}

impl std::str::FromStr for VersionExtractor {
    type Err = String;

    /// Reads a text as a pattern and makes an extractor for it; the error
    /// is told in words.
    fn from_str(s: &str) -> (result: Result<Self, String>)
        ensures
            match extractor_of(s@) {
                Ok(model) => result matches Ok(extractor) && extractor@ == model,
                Err(error) => result matches Err(text) && text@ == crate::pattern::error_text(
                    error,
                ),
            },
    {
        match VersionExtractor::parse(s) {
            Ok(extractor) => Ok(extractor),
            Err(error) => Err(error.to_string()),
        }
    }
}

} // verus!
