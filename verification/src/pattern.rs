//! The version pattern language.
//!
//! A pattern is written as text in which `<!>` stands for a number whose
//! change breaks compatibility, `<>` for a number whose change does not, and
//! everything else for itself. All `<!>` come before the first `<>`.

use vstd::prelude::*;
use vstd::string::StringExecFns;
use crate::text::{chars_of, decimal_digits, push_number, string_of};

verus! {

/// What a part of a pattern is, as a mathematical value.
pub enum Part {
    /// A place where a tag holds a number.
    Slot,
    /// Text that a tag has to repeat.
    Literal(Seq<char>),
}

/// What a pattern is, as a mathematical value: its parts, and how many of
/// its leading slots are breaking.
pub struct PatternModel {
    pub parts: Seq<Part>,
    pub breaking_degree: nat,
}

/// One part of a pattern.
#[derive(Debug, PartialEq, Eq)]
pub enum PatternPart {
    VersionPart,
    Literal(String),
}

impl View for PatternPart {
    type V = Part;

    open spec fn view(&self) -> Part {
        match self {
            PatternPart::VersionPart => Part::Slot,
            PatternPart::Literal(text) => Part::Literal(text@),
        }
    }
}

/// A parsed pattern.
#[derive(Debug, PartialEq, Eq)]
pub struct Pattern {
    parts: Vec<PatternPart>,
    breaking_degree: usize,
}

/// Why a text is no pattern, and where.
#[derive(Debug, PartialEq, Eq, Clone, Copy, Structural)]
pub enum Error {
    /// Nothing that a pattern may hold starts at `position`.
    Syntax { position: usize },
    /// The breaking slot at `position` comes after a compatible slot.
    Structure { position: usize },
    /// The text is a pattern, but no matcher can be built for it.
    Matcher,
}

/// The characters that may open a pattern's leading literal: ASCII letters,
/// ASCII digits and the underscore.
pub open spec fn is_outer_literal_char(c: char) -> bool {
    ||| 'a' <= c <= 'z'
    ||| 'A' <= c <= 'Z'
    ||| '0' <= c <= '9'
    ||| c == '_'
}

/// The characters that literal text may hold.
pub open spec fn is_inner_literal_char(c: char) -> bool {
    is_outer_literal_char(c) || c == '.' || c == '-'
}

/// Where the longest run of outer literal characters that starts at `from`
/// ends.
pub open spec fn outer_run_end(s: Seq<char>, from: int) -> int
    decreases s.len() - from,
{
    if 0 <= from < s.len() && is_outer_literal_char(s[from]) {
        outer_run_end(s, from + 1)
    } else {
        from
    }
}

/// Where the longest run of inner literal characters that starts at `from`
/// ends.
pub open spec fn inner_run_end(s: Seq<char>, from: int) -> int
    decreases s.len() - from,
{
    if 0 <= from < s.len() && is_inner_literal_char(s[from]) {
        inner_run_end(s, from + 1)
    } else {
        from
    }
}

/// The end of the inner literal that starts at `from`, if one does.
pub open spec fn inner_literal_at(s: Seq<char>, from: int) -> Option<int> {
    let end = inner_run_end(s, from);
    if from < end {
        Some(end)
    } else {
        None
    }
}

/// The end of the outer literal that starts at `from`, if one does: a run of
/// outer literal characters with a run of inner literal characters behind it.
pub open spec fn outer_literal_at(s: Seq<char>, from: int) -> Option<int> {
    let middle = outer_run_end(s, from);
    let end = inner_run_end(s, middle);
    if from < middle && middle < end {
        Some(end)
    } else {
        None
    }
}

/// Whether the text holds `<!>` at `from`.
pub open spec fn breaking_slot_at(s: Seq<char>, from: int) -> bool {
    &&& 0 <= from
    &&& from + 3 <= s.len()
    &&& s[from] == '<'
    &&& s[from + 1] == '!'
    &&& s[from + 2] == '>'
}

/// Whether the text holds `<>` at `from`.
pub open spec fn compatible_slot_at(s: Seq<char>, from: int) -> bool {
    &&& 0 <= from
    &&& from + 2 <= s.len()
    &&& s[from] == '<'
    &&& s[from + 1] == '>'
}

/// The end of the slot of the given kind that starts at `from`, if one does.
pub open spec fn slot_at(s: Seq<char>, from: int, breaking: bool) -> Option<int> {
    if breaking {
        if breaking_slot_at(s, from) {
            Some(from + 3)
        } else {
            None
        }
    } else {
        if compatible_slot_at(s, from) {
            Some(from + 2)
        } else {
            None
        }
    }
}

/// A run of characters ends no earlier than it starts and within the text.
pub proof fn lemma_run_end_bounds(s: Seq<char>, from: int)
    requires
        0 <= from <= s.len(),
    ensures
        from <= outer_run_end(s, from) <= s.len(),
        from <= inner_run_end(s, from) <= s.len(),
        forall|i: int| from <= i < outer_run_end(s, from) ==> is_outer_literal_char(#[trigger] s[i]),
        forall|i: int| from <= i < inner_run_end(s, from) ==> is_inner_literal_char(#[trigger] s[i]),
        outer_run_end(s, from) < s.len() ==> !is_outer_literal_char(s[outer_run_end(s, from)]),
        inner_run_end(s, from) < s.len() ==> !is_inner_literal_char(s[inner_run_end(s, from)]),
    decreases s.len() - from,
{
    if from < s.len() {
        lemma_run_end_bounds(s, from + 1);
    }
}

/// The parts that are read from `from` on, and where reading stops: inner
/// literals and slots of the one given kind, as many as follow each other.
pub open spec fn parts_from(s: Seq<char>, from: int, breaking: bool) -> (Seq<Part>, int)
    decreases s.len() - from,
{
    if 0 <= from <= s.len() {
        let literal_end = inner_run_end(s, from);
        proof {
            lemma_run_end_bounds(s, from);
        }
        if from < literal_end {
            let (rest, end) = parts_from(s, literal_end, breaking);
            (seq![Part::Literal(s.subrange(from, literal_end))] + rest, end)
        } else {
            match slot_at(s, from, breaking) {
                Some(slot_end) => {
                    let (rest, end) = parts_from(s, slot_end, breaking);
                    (seq![Part::Slot] + rest, end)
                },
                None => (Seq::empty(), from),
            }
        }
    } else {
        (Seq::empty(), from)
    }
}

/// The number of slots among the parts.
pub open spec fn slot_count(parts: Seq<Part>) -> nat
    decreases parts.len(),
{
    if parts.len() == 0 {
        0
    } else if parts[0] is Slot {
        1 + slot_count(parts.skip(1))
    } else {
        slot_count(parts.skip(1))
    }
}

/// What a text means as a pattern: an optional outer literal, then the
/// breaking parts, then the compatible parts, and nothing after them. Where
/// something is left over, the error names the place, and says whether a
/// breaking slot stands there.
pub open spec fn pattern_of(s: Seq<char>) -> Result<PatternModel, Error> {
    let start = match outer_literal_at(s, 0) {
        Some(end) => end,
        None => 0,
    };
    let first = if start > 0 {
        seq![Part::Literal(s.subrange(0, start))]
    } else {
        Seq::empty()
    };
    let (breaking, middle) = parts_from(s, start, true);
    let (compatible, end) = parts_from(s, middle, false);
    if end == s.len() {
        Ok(
            PatternModel {
                parts: first + breaking + compatible,
                breaking_degree: slot_count(breaking),
            },
        )
    } else if breaking_slot_at(s, end) {
        Err(Error::Structure { position: end as usize })
    } else {
        Err(Error::Syntax { position: end as usize })
    }
}

/// The text of a breaking slot.
pub open spec fn breaking_token() -> Seq<char> {
    seq!['<', '!', '>']
}

/// The text of a compatible slot.
pub open spec fn compatible_token() -> Seq<char> {
    seq!['<', '>']
}

/// The text of a pattern: literals as they are, the first `breaking_degree`
/// slots as `<!>`, the others as `<>`.
pub open spec fn display(parts: Seq<Part>, breaking_degree: nat) -> Seq<char>
    decreases parts.len(),
{
    if parts.len() == 0 {
        Seq::empty()
    } else {
        match parts[0] {
            Part::Literal(text) => text + display(parts.skip(1), breaking_degree),
            Part::Slot => if breaking_degree > 0 {
                breaking_token() + display(parts.skip(1), (breaking_degree - 1) as nat)
            } else {
                compatible_token() + display(parts.skip(1), 0)
            },
        }
    }
}

/// The mathematical values of a sequence of parts.
pub open spec fn parts_view(parts: Seq<PatternPart>) -> Seq<Part> {
    Seq::new(parts.len(), |i: int| parts[i]@)
}

impl View for Pattern {
    type V = PatternModel;

    closed spec fn view(&self) -> PatternModel {
        PatternModel {
            parts: parts_view(self.parts@),
            breaking_degree: self.breaking_degree as nat,
        }
    }
}

/// Whether the character may open a pattern's leading literal.
pub fn is_outer_literal(c: char) -> (result: bool)
    ensures
        result == is_outer_literal_char(c),
{
    (c >= 'a' && c <= 'z') || (c >= 'A' && c <= 'Z') || (c >= '0' && c <= '9') || c == '_'
}

/// Whether the character may stand in literal text.
pub fn is_inner_literal(c: char) -> (result: bool)
    ensures
        result == is_inner_literal_char(c),
{
    is_outer_literal(c) || c == '.' || c == '-'
}

/// Skips the outer literal characters that start at `from`.
fn outer_run(input: &Vec<char>, from: usize) -> (end: usize)
    ensures
        end == outer_run_end(input@, from as int),
        from <= end,
        from <= input@.len() ==> end <= input@.len(),
{
    let mut end: usize = from;
    while end < input.len() && is_outer_literal(input[end])
        invariant
            from <= end,
            from <= input@.len() ==> end <= input@.len(),
            outer_run_end(input@, from as int) == outer_run_end(input@, end as int),
        decreases input@.len() - end,
    {
        end += 1;
    }
    end
}

/// Skips the inner literal characters that start at `from`.
fn inner_run(input: &Vec<char>, from: usize) -> (end: usize)
    ensures
        end == inner_run_end(input@, from as int),
        from <= end,
        from <= input@.len() ==> end <= input@.len(),
{
    let mut end: usize = from;
    while end < input.len() && is_inner_literal(input[end])
        invariant
            from <= end,
            from <= input@.len() ==> end <= input@.len(),
            inner_run_end(input@, from as int) == inner_run_end(input@, end as int),
        decreases input@.len() - end,
    {
        end += 1;
    }
    end
}

/// Reads literal text at `from`: at least one inner literal character, and
/// all that follow it. Returns where the literal ends, and the literal.
pub fn inner_literal(input: &Vec<char>, from: usize) -> (result: Option<(usize, PatternPart)>)
    ensures
        match inner_literal_at(input@, from as int) {
            Some(end) => result matches Some((to, part)) && to == end && part@ == Part::Literal(
                input@.subrange(from as int, end),
            ),
            None => result is None,
        },
{
    let end = inner_run(input, from);
    if from < end {
        Some((end, PatternPart::Literal(string_of(input, from, end))))
    } else {
        None
    }
}

/// Reads the literal that a pattern may start with: at least one outer
/// literal character, then at least one inner literal character, and all
/// that follow. Returns where the literal ends, and the literal.
pub fn outer_literal(input: &Vec<char>, from: usize) -> (result: Option<(usize, PatternPart)>)
    ensures
        match outer_literal_at(input@, from as int) {
            Some(end) => result matches Some((to, part)) && to == end && part@ == Part::Literal(
                input@.subrange(from as int, end),
            ),
            None => result is None,
        },
{
    let middle = outer_run(input, from);
    let end = inner_run(input, middle);
    if from < middle && middle < end {
        Some((end, PatternPart::Literal(string_of(input, from, end))))
    } else {
        None
    }
}

/// Reads `<!>` at `from`. Returns where it ends, and the slot.
pub fn breaking_version_part(input: &Vec<char>, from: usize) -> (result: Option<
    (usize, PatternPart),
>)
    ensures
        match slot_at(input@, from as int, true) {
            Some(end) => result matches Some((to, part)) && to == end && part@ == Part::Slot,
            None => result is None,
        },
{
    if from <= input.len() && input.len() - from >= 3 && input[from] == '<' && input[from + 1]
        == '!' && input[from + 2] == '>' {
        Some((from + 3, PatternPart::VersionPart))
    } else {
        None
    }
}

/// Reads `<>` at `from`. Returns where it ends, and the slot.
pub fn compatible_version_part(input: &Vec<char>, from: usize) -> (result: Option<
    (usize, PatternPart),
>)
    ensures
        match slot_at(input@, from as int, false) {
            Some(end) => result matches Some((to, part)) && to == end && part@ == Part::Slot,
            None => result is None,
        },
{
    if from <= input.len() && input.len() - from >= 2 && input[from] == '<' && input[from + 1]
        == '>' {
        Some((from + 2, PatternPart::VersionPart))
    } else {
        None
    }
}

/// Reads literals and slots of one kind for as long as they follow each other.
fn parts_of_kind(input: &Vec<char>, from: usize, breaking: bool) -> (result: (
    usize,
    Vec<PatternPart>,
))
    ensures
        (parts_view(result.1@), result.0 as int) == parts_from(input@, from as int, breaking),
        from <= result.0,
        from <= input@.len() ==> result.0 <= input@.len(),
{
    let mut parts: Vec<PatternPart> = Vec::new();
    let mut position: usize = from;
    if from > input.len() {
        assert(parts_view(parts@) == Seq::<Part>::empty());
        return (position, parts);
    }
    loop
        invariant
            from <= position <= input@.len(),
            parts_from(input@, from as int, breaking).0 == parts_view(parts@) + parts_from(
                input@,
                position as int,
                breaking,
            ).0,
            parts_from(input@, from as int, breaking).1 == parts_from(
                input@,
                position as int,
                breaking,
            ).1,
        ensures
            from <= position <= input@.len(),
            parts_from(input@, from as int, breaking) == (parts_view(parts@), position as int),
        decreases input@.len() - position,
    {
        let ghost before = parts_view(parts@);
        let ghost here = position as int;
        proof {
            lemma_run_end_bounds(input@, here);
        }
        let next = match inner_literal(input, position) {
            Some(found) => Some(found),
            None => if breaking {
                breaking_version_part(input, position)
            } else {
                compatible_version_part(input, position)
            },
        };
        match next {
            Some((end, part)) => {
                let ghost rest = parts_from(input@, end as int, breaking).0;
                assert(parts_from(input@, here, breaking).0 == seq![part@] + rest);
                parts.push(part);
                position = end;
                assert(parts_view(parts@) == before + seq![part@]);
                assert(before + (seq![part@] + rest) == (before + seq![part@]) + rest);
            },
            None => {
                assert(parts_from(input@, here, breaking).0 == Seq::<Part>::empty());
                assert(before + Seq::<Part>::empty() == before);
                break ;
            },
        }
    }
    (position, parts)
}

/// Reads the breaking parts of a pattern: literals and `<!>`, as many as
/// follow each other from `from` on.
pub fn breaking_parts(input: &Vec<char>, from: usize) -> (result: (usize, Vec<PatternPart>))
    ensures
        (parts_view(result.1@), result.0 as int) == parts_from(input@, from as int, true),
        from <= result.0,
        from <= input@.len() ==> result.0 <= input@.len(),
{
    parts_of_kind(input, from, true)
}

/// Reads the compatible parts of a pattern: literals and `<>`, as many as
/// follow each other from `from` on.
pub fn compatible_parts(input: &Vec<char>, from: usize) -> (result: (usize, Vec<PatternPart>))
    ensures
        (parts_view(result.1@), result.0 as int) == parts_from(input@, from as int, false),
        from <= result.0,
        from <= input@.len() ==> result.0 <= input@.len(),
{
    parts_of_kind(input, from, false)
}

/// A single part has one slot if it is one, and reads as itself.
pub proof fn lemma_single_part(part: Part, breaking_degree: nat)
    ensures
        slot_count(seq![part]) == if part is Slot {
            1nat
        } else {
            0nat
        },
        display(seq![part], breaking_degree) == match part {
            Part::Literal(text) => text,
            Part::Slot => if breaking_degree > 0 {
                breaking_token()
            } else {
                compatible_token()
            },
        },
{
    let one = seq![part];
    assert(one.skip(1) == Seq::<Part>::empty());
    assert(slot_count(Seq::<Part>::empty()) == 0);
    assert(display(Seq::<Part>::empty(), breaking_degree) == Seq::<char>::empty());
    assert(display(Seq::<Part>::empty(), 0) == Seq::<char>::empty());
    if breaking_degree > 0 {
        assert(display(Seq::<Part>::empty(), (breaking_degree - 1) as nat) == Seq::<char>::empty());
    }
    match part {
        Part::Literal(text) => {
            assert(text + Seq::<char>::empty() == text);
        },
        Part::Slot => {
            assert(breaking_token() + Seq::<char>::empty() == breaking_token());
            assert(compatible_token() + Seq::<char>::empty() == compatible_token());
        },
    }
}

/// The slots of two sequences of parts add up.
pub proof fn lemma_slot_count_concat(x: Seq<Part>, y: Seq<Part>)
    ensures
        slot_count(x + y) == slot_count(x) + slot_count(y),
    decreases x.len(),
{
    if x.len() == 0 {
        assert(x + y == y);
    } else {
        assert((x + y).skip(1) == x.skip(1) + y);
        lemma_slot_count_concat(x.skip(1), y);
    }
}

/// The text of two sequences of parts in a row is the text of the first,
/// then the text of the second with the breaking slots that the first has
/// left over.
pub proof fn lemma_display_concat(x: Seq<Part>, y: Seq<Part>, breaking_degree: nat)
    ensures
        display(x + y, breaking_degree) == display(x, breaking_degree) + display(
            y,
            if breaking_degree >= slot_count(x) {
                (breaking_degree - slot_count(x)) as nat
            } else {
                0
            },
        ),
    decreases x.len(),
{
    if x.len() == 0 {
        assert(x + y == y);
        assert(Seq::<char>::empty() + display(y, breaking_degree) == display(y, breaking_degree));
    } else {
        assert((x + y).skip(1) == x.skip(1) + y);
        assert((x + y)[0] == x[0]);
        let left: nat = if breaking_degree >= slot_count(x) {
            (breaking_degree - slot_count(x)) as nat
        } else {
            0
        };
        match x[0] {
            Part::Literal(text) => {
                lemma_display_concat(x.skip(1), y, breaking_degree);
                assert(text + (display(x.skip(1), breaking_degree) + display(y, left)) == (text
                    + display(x.skip(1), breaking_degree)) + display(y, left));
            },
            Part::Slot => {
                if breaking_degree > 0 {
                    let fewer = (breaking_degree - 1) as nat;
                    lemma_display_concat(x.skip(1), y, fewer);
                    assert(breaking_token() + (display(x.skip(1), fewer) + display(y, left)) == (
                    breaking_token() + display(x.skip(1), fewer)) + display(y, left));
                } else {
                    lemma_display_concat(x.skip(1), y, 0);
                    assert(compatible_token() + (display(x.skip(1), 0) + display(y, left)) == (
                    compatible_token() + display(x.skip(1), 0)) + display(y, left));
                }
            },
        }
    }
}

/// The parts that are read from a place on spell out the text that was read:
/// the breaking parts with all their slots breaking, the compatible parts
/// with none.
pub proof fn lemma_parts_from_display(s: Seq<char>, from: int, breaking: bool)
    requires
        0 <= from <= s.len(),
    ensures
        from <= parts_from(s, from, breaking).1 <= s.len(),
        display(
            parts_from(s, from, breaking).0,
            if breaking {
                slot_count(parts_from(s, from, breaking).0)
            } else {
                0
            },
        ) == s.subrange(from, parts_from(s, from, breaking).1),
    decreases s.len() - from,
{
    let (parts, end) = parts_from(s, from, breaking);
    let literal_end = inner_run_end(s, from);
    lemma_run_end_bounds(s, from);
    if from < literal_end {
        let rest = parts_from(s, literal_end, breaking).0;
        lemma_parts_from_display(s, literal_end, breaking);
        let text = s.subrange(from, literal_end);
        assert(parts == seq![Part::Literal(text)] + rest);
        assert(parts.skip(1) == rest);
        assert(text + s.subrange(literal_end, end) == s.subrange(from, end));
    } else {
        match slot_at(s, from, breaking) {
            Some(slot_end) => {
                let rest = parts_from(s, slot_end, breaking).0;
                lemma_parts_from_display(s, slot_end, breaking);
                assert(parts == seq![Part::Slot] + rest);
                assert(parts.skip(1) == rest);
                if breaking {
                    assert(breaking_token() == s.subrange(from, slot_end));
                } else {
                    assert(compatible_token() == s.subrange(from, slot_end));
                }
                assert(s.subrange(from, slot_end) + s.subrange(slot_end, end) == s.subrange(
                    from,
                    end,
                ));
            },
            None => {
                assert(s.subrange(from, from) == Seq::<char>::empty());
            },
        }
    }
}

/// The text of a pattern that was read from a text is that text: reading it
/// again gives the same pattern.
pub proof fn lemma_round_trip(s: Seq<char>)
    requires
        pattern_of(s) is Ok,
    ensures
        display(pattern_of(s)->Ok_0.parts, pattern_of(s)->Ok_0.breaking_degree) == s,
        pattern_of(display(pattern_of(s)->Ok_0.parts, pattern_of(s)->Ok_0.breaking_degree))
            == pattern_of(s),
        pattern_of(s)->Ok_0.breaking_degree <= slot_count(pattern_of(s)->Ok_0.parts),
{
    let start = match outer_literal_at(s, 0) {
        Some(end) => end,
        None => 0,
    };
    lemma_run_end_bounds(s, 0);
    lemma_run_end_bounds(s, outer_run_end(s, 0));
    let first = if start > 0 {
        seq![Part::Literal(s.subrange(0, start))]
    } else {
        Seq::empty()
    };
    let (breaking, middle) = parts_from(s, start, true);
    lemma_parts_from_display(s, start, true);
    let (compatible, end) = parts_from(s, middle, false);
    lemma_parts_from_display(s, middle, false);
    let degree = slot_count(breaking);
    if start > 0 {
        lemma_single_part(Part::Literal(s.subrange(0, start)), degree);
    } else {
        assert(s.subrange(0, 0) == Seq::<char>::empty());
    }
    lemma_slot_count_concat(first, breaking);
    lemma_slot_count_concat(first + breaking, compatible);
    lemma_display_concat(first, breaking, degree);
    lemma_display_concat(first + breaking, compatible, degree);
    assert(s.subrange(0, start) + s.subrange(start, middle) + s.subrange(middle, end) == s);
}

/// Whether a text can stand as a literal: it is not empty, and holds inner
/// literal characters only.
pub open spec fn is_literal_text(text: Seq<char>) -> bool {
    &&& text.len() > 0
    &&& forall|i: int| 0 <= i < text.len() ==> is_inner_literal_char(#[trigger] text[i])
}

/// Whether parts are as reading leaves them: every literal can stand as one,
/// and no literal follows another.
pub open spec fn normal(parts: Seq<Part>) -> bool {
    &&& forall|i: int|
        0 <= i < parts.len() ==> ((#[trigger] parts[i]) matches Part::Literal(text)
            ==> is_literal_text(text))
    &&& forall|i: int|
        0 <= i < parts.len() - 1 ==> !((#[trigger] parts[i]) is Literal && parts[i + 1] is Literal)
}

/// How many of the parts stand before the first compatible slot, that is,
/// before the slot behind `breaking_degree` breaking slots.
pub open spec fn breaking_len(parts: Seq<Part>, breaking_degree: nat) -> nat
    decreases parts.len(),
{
    if parts.len() == 0 {
        0
    } else if parts[0] is Slot {
        if breaking_degree == 0 {
            0
        } else {
            1 + breaking_len(parts.skip(1), (breaking_degree - 1) as nat)
        }
    } else {
        1 + breaking_len(parts.skip(1), breaking_degree)
    }
}

/// A run of inner literal characters that ends at the end of the text or at
/// another character is the longest one.
pub proof fn lemma_inner_run_exact(s: Seq<char>, from: int, to: int)
    requires
        0 <= from <= to <= s.len(),
        forall|i: int| from <= i < to ==> is_inner_literal_char(#[trigger] s[i]),
        to == s.len() || !is_inner_literal_char(s[to]),
    ensures
        inner_run_end(s, from) == to,
    decreases to - from,
{
    if from < to {
        lemma_inner_run_exact(s, from + 1, to);
    }
}

/// Behind the outer literal characters at the start of a run of inner
/// literal characters, the run ends where it ends from its start.
pub proof fn lemma_outer_run_within_inner(s: Seq<char>, from: int)
    requires
        0 <= from <= s.len(),
    ensures
        from <= outer_run_end(s, from) <= inner_run_end(s, from),
        inner_run_end(s, outer_run_end(s, from)) == inner_run_end(s, from),
    decreases s.len() - from,
{
    lemma_run_end_bounds(s, from);
    if from < s.len() && is_outer_literal_char(s[from]) {
        lemma_outer_run_within_inner(s, from + 1);
    }
}

/// The parts before the first compatible slot hold all the breaking slots,
/// and a slot follows them if anything does.
pub proof fn lemma_breaking_len(parts: Seq<Part>, breaking_degree: nat)
    requires
        breaking_degree <= slot_count(parts),
    ensures
        breaking_len(parts, breaking_degree) <= parts.len(),
        slot_count(parts.take(breaking_len(parts, breaking_degree) as int)) == breaking_degree,
        breaking_len(parts, breaking_degree) < parts.len() ==> parts[breaking_len(
            parts,
            breaking_degree,
        ) as int] is Slot,
        parts.len() > 0 && parts[0] is Literal ==> breaking_len(parts, breaking_degree) > 0,
    decreases parts.len(),
{
    if parts.len() == 0 {
        assert(parts.take(0) == parts);
    } else {
        let rest = parts.skip(1);
        if parts[0] is Slot && breaking_degree == 0 {
            assert(slot_count(parts.take(0)) == 0);
        } else {
            let fewer = if parts[0] is Slot {
                (breaking_degree - 1) as nat
            } else {
                breaking_degree
            };
            lemma_breaking_len(rest, fewer);
            let n = breaking_len(rest, fewer) as int;
            assert(parts.take(n + 1).skip(1) == rest.take(n));
            assert(parts.take(n + 1)[0] == parts[0]);
            if n < rest.len() {
                assert(rest[n] == parts[n + 1]);
            }
        }
    }
}

/// A stretch of normal parts is normal.
pub proof fn lemma_normal_subrange(parts: Seq<Part>, from: int, to: int)
    requires
        normal(parts),
        0 <= from <= to <= parts.len(),
    ensures
        normal(parts.subrange(from, to)),
{
    let stretch = parts.subrange(from, to);
    assert forall|i: int| 0 <= i < stretch.len() implies ((#[trigger] stretch[i]) matches Part::Literal(
        text,
    ) ==> is_literal_text(text)) by {
        assert(stretch[i] == parts[i + from]);
    }
    assert forall|i: int| 0 <= i < stretch.len() - 1 implies !((#[trigger] stretch[i]) is Literal
        && stretch[i + 1] is Literal) by {
        assert(stretch[i] == parts[i + from]);
        assert(stretch[i + 1] == parts[i + from + 1]);
    }
}

/// The text of parts that start with a slot starts with the text of a slot.
pub proof fn lemma_display_of_slot_first(parts: Seq<Part>, breaking_degree: nat)
    requires
        parts.len() > 0,
        parts[0] is Slot,
    ensures
        display(parts, breaking_degree).len() >= 2,
        display(parts, breaking_degree)[0] == '<',
        breaking_degree == 0 ==> display(parts, breaking_degree)[1] == '>',
        breaking_degree > 0 ==> display(parts, breaking_degree).len() >= 3 && display(
            parts,
            breaking_degree,
        )[1] == '!' && display(parts, breaking_degree)[2] == '>',
{
}

/// Reading the text of normal parts of one kind gives the parts back, where
/// the text is followed by nothing that reading would go on with.
pub proof fn lemma_parts_from_of_display(s: Seq<char>, from: int, parts: Seq<Part>, breaking: bool)
    requires
        0 <= from,
        normal(parts),
        from + display(parts, if breaking { slot_count(parts) } else { 0 }).len() <= s.len(),
        s.subrange(
            from,
            from + display(parts, if breaking { slot_count(parts) } else { 0 }).len(),
        ) == display(parts, if breaking { slot_count(parts) } else { 0 }),
        ({
            let end = from + display(parts, if breaking { slot_count(parts) } else { 0 }).len();
            &&& end == s.len() || !is_inner_literal_char(s[end])
            &&& slot_at(s, end, breaking) is None
        }),
    ensures
        parts_from(s, from, breaking) == (
            parts,
            from + display(parts, if breaking { slot_count(parts) } else { 0 }).len(),
        ),
    decreases parts.len(),
{
    let degree: nat = if breaking {
        slot_count(parts)
    } else {
        0
    };
    let text = display(parts, degree);
    let end = from + text.len();
    if parts.len() == 0 {
        assert(inner_run_end(s, from) == from);
    } else {
        let rest = parts.skip(1);
        lemma_normal_subrange(parts, 1, parts.len() as int);
        match parts[0] {
            Part::Literal(literal) => {
                let rest_text = display(rest, degree);
                assert(text == literal + rest_text);
                let middle = from + literal.len();
                assert forall|i: int| from <= i < middle implies is_inner_literal_char(
                    #[trigger] s[i],
                ) by {
                    assert(s[i] == s.subrange(from, end)[i - from]);
                    assert(text[i - from] == literal[i - from]);
                }
                if rest.len() > 0 {
                    assert(rest[0] == parts[1]);
                    lemma_display_of_slot_first(rest, degree);
                    assert(s[middle] == s.subrange(from, end)[middle - from]);
                    assert(s[middle] == '<');
                } else {
                    assert(rest_text.len() == 0);
                }
                lemma_inner_run_exact(s, from, middle);
                assert(s.subrange(middle, end) == rest_text) by {
                    assert(s.subrange(middle, end) == s.subrange(from, end).subrange(
                        literal.len() as int,
                        text.len() as int,
                    ));
                }
                assert(s.subrange(from, middle) == literal) by {
                    assert(s.subrange(from, middle) == s.subrange(from, end).subrange(
                        0,
                        literal.len() as int,
                    ));
                }
                lemma_parts_from_of_display(s, middle, rest, breaking);
                assert(seq![Part::Literal(literal)] + rest == parts);
            },
            Part::Slot => {
                let fewer: nat = if breaking {
                    (degree - 1) as nat
                } else {
                    0
                };
                let token = if breaking {
                    breaking_token()
                } else {
                    compatible_token()
                };
                let rest_text = display(rest, fewer);
                assert(text == token + rest_text);
                let middle = from + token.len();
                assert(s[from] == s.subrange(from, end)[0]);
                assert(s[from + 1] == s.subrange(from, end)[1]);
                if breaking {
                    assert(s[from + 2] == s.subrange(from, end)[2]);
                }
                assert(inner_run_end(s, from) == from);
                assert(slot_at(s, from, breaking) == Some(middle));
                assert(s.subrange(middle, end) == rest_text) by {
                    assert(s.subrange(middle, end) == s.subrange(from, end).subrange(
                        token.len() as int,
                        text.len() as int,
                    ));
                }
                lemma_parts_from_of_display(s, middle, rest, breaking);
                assert(seq![Part::Slot] + rest == parts);
            },
        }
    }
}

/// The text of a pattern with normal parts falls into the text of the parts
/// before the first compatible slot and the text of the others. Read from
/// where the second begins, the text gives the other parts, and the breaking
/// parts cannot be read on into it.
pub proof fn lemma_display_splits(parts: Seq<Part>, breaking_degree: nat)
    requires
        normal(parts),
        breaking_degree <= slot_count(parts),
    ensures
        ({
            let s = display(parts, breaking_degree);
            let n = breaking_len(parts, breaking_degree) as int;
            let middle = display(parts.take(n), breaking_degree).len() as int;
            &&& 0 <= n <= parts.len()
            &&& slot_count(parts.take(n)) == breaking_degree
            &&& middle <= s.len()
            &&& s.subrange(0, middle) == display(parts.take(n), breaking_degree)
            &&& parts_from(s, middle, false) == (parts.skip(n), s.len() as int)
            &&& middle == s.len() || !is_inner_literal_char(s[middle])
            &&& slot_at(s, middle, true) is None
        }),
{
    let s = display(parts, breaking_degree);
    lemma_breaking_len(parts, breaking_degree);
    let n = breaking_len(parts, breaking_degree) as int;
    let breaking = parts.take(n);
    let compatible = parts.skip(n);
    assert(breaking + compatible == parts);
    lemma_display_concat(breaking, compatible, breaking_degree);
    let breaking_text = display(breaking, breaking_degree);
    let compatible_text = display(compatible, 0);
    assert(s == breaking_text + compatible_text);
    let middle = breaking_text.len() as int;
    lemma_normal_subrange(parts, n, parts.len() as int);
    if compatible.len() > 0 {
        assert(compatible[0] == parts[n]);
        lemma_display_of_slot_first(compatible, 0);
        assert(s[middle] == compatible_text[0]);
        assert(s[middle + 1] == compatible_text[1]);
    }
    assert(s.subrange(middle, s.len() as int) == compatible_text);
    assert(s.subrange(0, middle) == breaking_text);
    lemma_parts_from_of_display(s, middle, compatible, false);
}

/// The text of a pattern with normal parts reads as that pattern: writing
/// and reading undo each other.
pub proof fn lemma_display_parses_back(parts: Seq<Part>, breaking_degree: nat)
    requires
        normal(parts),
        breaking_degree <= slot_count(parts),
    ensures
        pattern_of(display(parts, breaking_degree)) == Ok::<PatternModel, Error>(
            PatternModel { parts, breaking_degree },
        ),
{
    let s = display(parts, breaking_degree);
    lemma_display_splits(parts, breaking_degree);
    let n = breaking_len(parts, breaking_degree) as int;
    let breaking = parts.take(n);
    let compatible = parts.skip(n);
    let middle = display(breaking, breaking_degree).len() as int;
    lemma_normal_subrange(parts, 0, n);
    assert(breaking + compatible == parts);
    if outer_literal_at(s, 0) is Some {
        lemma_run_end_bounds(s, 0);
        lemma_outer_run_within_inner(s, 0);
        lemma_breaking_len(parts, breaking_degree);
        // The text starts with a literal character, so the parts start with
        // a literal.
        if parts.len() == 0 {
            assert(s.len() == 0);
        } else if parts[0] is Slot {
            lemma_display_of_slot_first(parts, breaking_degree);
        }
        assert(parts.len() > 0 && parts[0] is Literal);
        lemma_leading_literal_split(parts, breaking_degree);
        let literal = parts[0]->Literal_0;
        let rest = parts.subrange(1, n);
        assert(outer_literal_at(s, 0) == Some(literal.len() as int));
        assert(parts_from(s, literal.len() as int, true) == (rest, middle));
        assert(parts_from(s, middle, false) == (compatible, s.len() as int));
        assert(seq![Part::Literal(literal)] + rest + compatible == parts);
    } else {
        assert(s.subrange(0, middle) == display(breaking, slot_count(breaking)));
        lemma_parts_from_of_display(s, 0, breaking, true);
        assert(parts_from(s, 0, true) == (breaking, middle));
        assert(parts_from(s, middle, false) == (compatible, s.len() as int));
        assert(Seq::<Part>::empty() + breaking + compatible == parts);
    }
}

/// Where a pattern with normal parts starts with a literal, its text read
/// from behind that literal gives the other parts before the first
/// compatible slot, and the run of inner literal characters at the start of
/// the text is that literal.
pub proof fn lemma_leading_literal_split(parts: Seq<Part>, breaking_degree: nat)
    requires
        normal(parts),
        breaking_degree <= slot_count(parts),
        parts.len() > 0,
        parts[0] is Literal,
    ensures
        ({
            let s = display(parts, breaking_degree);
            let n = breaking_len(parts, breaking_degree) as int;
            let literal = parts[0]->Literal_0;
            let middle = display(parts.take(n), breaking_degree).len() as int;
            &&& n >= 1
            &&& inner_run_end(s, 0) == literal.len()
            &&& s.subrange(0, literal.len() as int) == literal
            &&& parts_from(s, literal.len() as int, true) == (parts.subrange(1, n), middle)
            &&& slot_count(parts.subrange(1, n)) == breaking_degree
        }),
{
    let s = display(parts, breaking_degree);
    lemma_display_splits(parts, breaking_degree);
    lemma_breaking_len(parts, breaking_degree);
    let n = breaking_len(parts, breaking_degree) as int;
    let breaking = parts.take(n);
    let literal = parts[0]->Literal_0;
    let rest = parts.subrange(1, n);
    let breaking_text = display(breaking, breaking_degree);
    let middle = breaking_text.len() as int;
    assert(breaking[0] == parts[0]);
    assert(breaking.skip(1) == rest);
    let rest_text = display(rest, breaking_degree);
    assert(breaking_text == literal + rest_text);
    let literal_end = literal.len() as int;
    assert forall|i: int| 0 <= i < literal_end implies is_inner_literal_char(#[trigger] s[i]) by {
        assert(s[i] == s.subrange(0, middle)[i]);
        assert(breaking_text[i] == literal[i]);
    }
    if rest.len() > 0 {
        assert(rest[0] == parts[1]);
        lemma_display_of_slot_first(rest, breaking_degree);
        assert(s[literal_end] == s.subrange(0, middle)[literal_end]);
        assert(breaking_text[literal_end] == rest_text[0]);
    } else {
        assert(rest_text.len() == 0);
        assert(literal_end == middle);
    }
    lemma_inner_run_exact(s, 0, literal_end);
    assert(s.subrange(0, literal_end) == literal) by {
        assert(s.subrange(0, literal_end) == s.subrange(0, middle).subrange(0, literal_end));
    }
    lemma_normal_subrange(parts, 1, n);
    assert(slot_count(rest) == breaking_degree);
    assert(s.subrange(literal_end, middle) == rest_text) by {
        assert(s.subrange(literal_end, middle) == s.subrange(0, middle).subrange(
            literal_end,
            middle,
        ));
    }
    lemma_parts_from_of_display(s, literal_end, rest, true);
}

/// Normal parts in a row are normal, unless a literal meets a literal where
/// they join.
pub proof fn lemma_normal_concat(x: Seq<Part>, y: Seq<Part>)
    requires
        normal(x),
        normal(y),
        x.len() > 0 && y.len() > 0 ==> !(x.last() is Literal && y[0] is Literal),
    ensures
        normal(x + y),
{
    let all = x + y;
    assert forall|i: int| 0 <= i < all.len() implies ((#[trigger] all[i]) matches Part::Literal(
        text,
    ) ==> is_literal_text(text)) by {
        if i < x.len() {
            assert(all[i] == x[i]);
        } else {
            assert(all[i] == y[i - x.len()]);
        }
    }
    assert forall|i: int| 0 <= i < all.len() - 1 implies !((#[trigger] all[i]) is Literal && all[i
        + 1] is Literal) by {
        if i + 1 < x.len() {
            assert(all[i] == x[i]);
            assert(all[i + 1] == x[i + 1]);
        } else if i < x.len() {
            assert(all[i] == x.last());
            assert(all[i + 1] == y[0]);
        } else {
            assert(all[i] == y[i - x.len()]);
            assert(all[i + 1] == y[i - x.len() + 1]);
        }
    }
}

/// What is read from a place on is normal. It starts with a literal only
/// where literal text stands at that place, and reading stops where no
/// literal text stands.
pub proof fn lemma_parts_from_normal(s: Seq<char>, from: int, breaking: bool)
    requires
        0 <= from <= s.len(),
    ensures
        normal(parts_from(s, from, breaking).0),
        inner_run_end(s, from) == from ==> parts_from(s, from, breaking).0.len() == 0
            || parts_from(s, from, breaking).0[0] is Slot,
        inner_run_end(s, parts_from(s, from, breaking).1) == parts_from(s, from, breaking).1,
    decreases s.len() - from,
{
    let parts = parts_from(s, from, breaking).0;
    let literal_end = inner_run_end(s, from);
    lemma_run_end_bounds(s, from);
    if from < literal_end {
        let rest = parts_from(s, literal_end, breaking).0;
        lemma_parts_from_normal(s, literal_end, breaking);
        let literal = s.subrange(from, literal_end);
        assert(inner_run_end(s, literal_end) == literal_end);
        assert(is_literal_text(literal)) by {
            assert forall|i: int| 0 <= i < literal.len() implies is_inner_literal_char(
                #[trigger] literal[i],
            ) by {
                assert(literal[i] == s[from + i]);
            }
        }
        let first = seq![Part::Literal(literal)];
        assert(normal(first));
        lemma_normal_concat(first, rest);
    } else {
        match slot_at(s, from, breaking) {
            Some(slot_end) => {
                let rest = parts_from(s, slot_end, breaking).0;
                lemma_parts_from_normal(s, slot_end, breaking);
                let first = seq![Part::Slot];
                assert(normal(first));
                lemma_normal_concat(first, rest);
            },
            None => {},
        }
    }
}

/// The parts of a pattern that was read from a text are normal.
pub proof fn lemma_parsed_is_normal(s: Seq<char>)
    requires
        pattern_of(s) is Ok,
    ensures
        normal(pattern_of(s)->Ok_0.parts),
{
    lemma_run_end_bounds(s, 0);
    lemma_run_end_bounds(s, outer_run_end(s, 0));
    lemma_outer_run_within_inner(s, 0);
    let start = match outer_literal_at(s, 0) {
        Some(end) => end,
        None => 0,
    };
    let first = if start > 0 {
        seq![Part::Literal(s.subrange(0, start))]
    } else {
        Seq::empty()
    };
    let (breaking, middle) = parts_from(s, start, true);
    lemma_parts_from_normal(s, start, true);
    lemma_parts_from_display(s, start, true);
    let (compatible, end) = parts_from(s, middle, false);
    lemma_parts_from_normal(s, middle, false);
    if start > 0 {
        lemma_run_end_bounds(s, 0);
        let literal = s.subrange(0, start);
        assert(is_literal_text(literal)) by {
            assert forall|i: int| 0 <= i < literal.len() implies is_inner_literal_char(
                #[trigger] literal[i],
            ) by {
                assert(literal[i] == s[i]);
            }
        }
        assert(inner_run_end(s, start) == start);
    }
    assert(normal(first));
    lemma_normal_concat(first, breaking);
    lemma_normal_concat(first + breaking, compatible);
}

/// Counts the slots among the parts.
fn count_version_parts(parts: &Vec<PatternPart>) -> (count: usize)
    ensures
        count == slot_count(parts_view(parts@)),
{
    let mut count: usize = 0;
    let mut i: usize = 0;
    while i < parts.len()
        invariant
            i <= parts@.len(),
            count <= i,
            count == slot_count(parts_view(parts@).take(i as int)),
        decreases parts@.len() - i,
    {
        proof {
            let all = parts_view(parts@);
            assert(all.take(i + 1) == all.take(i as int) + seq![all[i as int]]);
            lemma_slot_count_concat(all.take(i as int), seq![all[i as int]]);
            lemma_single_part(all[i as int], 0);
        }
        match &parts[i] {
            PatternPart::VersionPart => {
                count += 1;
            },
            PatternPart::Literal(_) => {},
        }
        i += 1;
    }
    proof {
        assert(parts_view(parts@).take(i as int) == parts_view(parts@));
    }
    count
}

/// Reads a whole text as a pattern.
pub fn pattern(input: &Vec<char>) -> (result: Result<Pattern, Error>)
    ensures
        match pattern_of(input@) {
            Ok(model) => result matches Ok(found) && found@ == model,
            Err(error) => result matches Err(given) && given == error,
        },
{
    let mut parts: Vec<PatternPart> = Vec::new();
    let mut start: usize = 0;
    match outer_literal(input, 0) {
        Some((end, part)) => {
            parts.push(part);
            start = end;
        },
        None => {},
    }
    proof {
        lemma_run_end_bounds(input@, 0);
        lemma_run_end_bounds(input@, outer_run_end(input@, 0));
    }
    let ghost first = parts_view(parts@);
    proof {
        if start > 0 {
            assert(first == seq![Part::Literal(input@.subrange(0, start as int))]);
        } else {
            assert(first == Seq::<Part>::empty());
        }
    }
    let (middle, mut breaking) = breaking_parts(input, start);
    let breaking_degree = count_version_parts(&breaking);
    let ghost breaking_model = parts_view(breaking@);
    let (end, mut compatible) = compatible_parts(input, middle);
    let ghost compatible_model = parts_view(compatible@);
    if end == input.len() {
        parts.append(&mut breaking);
        parts.append(&mut compatible);
        proof {
            assert(parts_view(parts@) == first + breaking_model + compatible_model);
            lemma_round_trip(input@);
            lemma_parsed_is_normal(input@);
        }
        Ok(Pattern { parts, breaking_degree })
    } else if breaking_version_part(input, end).is_some() {
        Err(Error::Structure { position: end })
    } else {
        Err(Error::Syntax { position: end })
    }
}

impl Clone for PatternPart {
    fn clone(&self) -> (copy: Self)
        ensures
            copy == *self,
    {
        match self {
            PatternPart::VersionPart => PatternPart::VersionPart,
            PatternPart::Literal(text) => PatternPart::Literal(text.clone()),
        }
    }
}

impl Clone for Pattern {
    fn clone(&self) -> (copy: Self)
        ensures
            copy@ == self@,
    {
        proof {
            use_type_invariant(self);
        }
        let mut parts: Vec<PatternPart> = Vec::new();
        let mut i: usize = 0;
        while i < self.parts.len()
            invariant
                i <= self.parts@.len(),
                parts@ == self.parts@.take(i as int),
            decreases self.parts@.len() - i,
        {
            parts.push(self.parts[i].clone());
            i += 1;
        }
        proof {
            assert(self.parts@.take(i as int) == self.parts@);
        }
        Pattern { parts, breaking_degree: self.breaking_degree }
    }
}

impl Pattern {
    /// The parts are as reading leaves them, and the breaking slots are
    /// among the slots that the pattern has.
    #[verifier::type_invariant]
    spec fn well_formed(&self) -> bool {
        &&& normal(parts_view(self.parts@))
        &&& self.breaking_degree <= slot_count(parts_view(self.parts@))
    }

    /// Reads a text as a pattern.
    pub fn parse(i: &str) -> (result: Result<Pattern, Error>)
        ensures
            match pattern_of(i@) {
                Ok(model) => result matches Ok(found) && found@ == model,
                Err(error) => result matches Err(given) && given == error,
            },
    {
        let input = chars_of(i);
        pattern(&input)
    }

    /// The parts of the pattern, in the order in which they were written.
    /// Every literal among them holds literal characters, at least one, and
    /// no literal follows another.
    pub fn parts(&self) -> (parts: &Vec<PatternPart>)
        ensures
            parts_view(parts@) == self@.parts,
            normal(self@.parts),
    {
        proof {
            use_type_invariant(self);
        }
        &self.parts
    }

    /// How many of the pattern's slots, counted from the first, are
    /// breaking: no more than it has slots.
    pub fn breaking_degree(&self) -> (degree: usize)
        ensures
            degree == self@.breaking_degree,
            degree <= slot_count(self@.parts),
    {
        proof {
            use_type_invariant(self);
        }
        self.breaking_degree
    }

    /// Writes the pattern as text: as text that reads as this pattern.
    pub fn to_string(&self) -> (text: String)
        ensures
            text@ == display(self@.parts, self@.breaking_degree),
            pattern_of(text@) == Ok::<PatternModel, Error>(self@),
    {
        proof {
            use_type_invariant(self);
            lemma_display_parses_back(self@.parts, self@.breaking_degree);
        }
        let mut text = String::new();
        let mut version_part_counter: usize = 0;
        let mut i: usize = 0;
        let ghost all = parts_view(self.parts@);
        let ghost degree = self.breaking_degree as nat;
        while i < self.parts.len()
            invariant
                i <= self.parts@.len(),
                all == parts_view(self.parts@),
                degree == self.breaking_degree,
                version_part_counter <= i,
                version_part_counter == slot_count(all.take(i as int)),
                text@ == display(all.take(i as int), degree),
            decreases self.parts@.len() - i,
        {
            proof {
                let one = seq![all[i as int]];
                assert(all.take(i + 1) == all.take(i as int) + one);
                lemma_slot_count_concat(all.take(i as int), one);
                lemma_display_concat(all.take(i as int), one, degree);
                lemma_single_part(all[i as int], 0);
                lemma_single_part(all[i as int], 1);
                if degree > version_part_counter {
                    lemma_single_part(all[i as int], (degree - version_part_counter) as nat);
                }
            }
            match &self.parts[i] {
                PatternPart::VersionPart => {
                    version_part_counter += 1;
                    if version_part_counter <= self.breaking_degree {
                        text.push('<');
                        text.push('!');
                        text.push('>');
                    } else {
                        text.push('<');
                        text.push('>');
                    }
                },
                PatternPart::Literal(literal) => {
                    text.append(literal.as_str());
                },
            }
            i += 1;
        }
        proof {
            assert(all.take(i as int) == all);
        }
        text
    }
}

/// What an error says, for people to read.
pub open spec fn error_text(error: Error) -> Seq<char> {
    match error {
        Error::Syntax { position } => "unexpected character at position "@ + decimal_digits(
            position as nat,
        ),
        Error::Structure { position } => "breaking part `<!>` at position "@ + decimal_digits(
            position as nat,
        ) + " follows a compatible part `<>`"@,
        Error::Matcher => "the pattern is too large"@,
    }
}

impl Error {
    /// Says what is wrong with the pattern, for people to read.
    pub fn to_string(&self) -> (text: String)
        ensures
            text@ == error_text(*self),
    {
        match self {
            Error::Syntax { position } => {
                let mut text = String::from_str("unexpected character at position ");
                push_number(&mut text, *position);
                text
            },
            Error::Structure { position } => {
                let mut text = String::from_str("breaking part `<!>` at position ");
                push_number(&mut text, *position);
                text.append(" follows a compatible part `<>`");
                text
            },
            Error::Matcher => String::from_str("the pattern is too large"),
        }
    }
}

} // verus!
