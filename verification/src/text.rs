//! Small helpers for working with text as sequences of characters.

use vstd::prelude::*;
use vstd::string::StringExecFns;

verus! {

/// `String::push` appends the character to the end of the string.
pub assume_specification[ String::push ](s: &mut String, c: char)
    ensures
        final(s)@ == old(s)@.push(c),
;

/// Collects the characters of a string slice.
pub fn chars_of(s: &str) -> (chars: Vec<char>)
    ensures
        chars@ == s@,
{
    let mut chars: Vec<char> = Vec::new();
    for c in it: s.chars()
        invariant
            it.seq() == s@,
            chars@ == it.seq().take(it.index()),
    {
        chars.push(c);
    }
    chars
}

/// Builds a string of the characters in `chars[from..to]`.
pub(crate) fn string_of(chars: &Vec<char>, from: usize, to: usize) -> (s: String)
    requires
        from <= to <= chars@.len(),
    ensures
        s@ == chars@.subrange(from as int, to as int),
{
    let mut s = String::new();
    let mut i: usize = from;
    while i < to
        invariant
            from <= i <= to <= chars@.len(),
            s@ == chars@.subrange(from as int, i as int),
        decreases to - i,
    {
        s.push(chars[i]);
        i += 1;
    }
    s
}

/// Whether the character is one of the ten ASCII digits.
pub open spec fn is_digit(c: char) -> bool {
    '0' <= c <= '9'
}

/// The number that an ASCII digit stands for.
pub open spec fn digit_value(c: char) -> nat {
    (c as u32 - '0' as u32) as nat
}

/// The number that a text of ASCII digits stands for in base ten.
pub open spec fn decimal_value(text: Seq<char>) -> nat
    decreases text.len(),
{
    if text.len() == 0 {
        0
    } else {
        decimal_value(text.drop_last()) * 10 + digit_value(text.last())
    }
}

/// The number that a text stands for: the text holds ASCII digits only, at
/// least one, and their value fits the machine's word.
pub open spec fn number_of(text: Seq<char>) -> Option<usize> {
    if text.len() > 0 && (forall|i: int| 0 <= i < text.len() ==> is_digit(#[trigger] text[i]))
        && decimal_value(text) <= usize::MAX {
        Some(decimal_value(text) as usize)
    } else {
        None
    }
}

/// Reads a text as a number in base ten.
pub fn parse_number(text: &str) -> (result: Option<usize>)
    ensures
        result == number_of(text@),
{
    let chars = chars_of(text);
    if chars.len() == 0 {
        return None;
    }
    let mut value: usize = 0;
    let mut fits = true;
    let mut i: usize = 0;
    while i < chars.len()
        invariant
            chars@ == text@,
            i <= chars@.len(),
            forall|j: int| 0 <= j < i ==> is_digit(#[trigger] chars@[j]),
            fits ==> value == decimal_value(chars@.take(i as int)),
            !fits ==> decimal_value(chars@.take(i as int)) > usize::MAX,
        decreases chars@.len() - i,
    {
        let c = chars[i];
        if !(c >= '0' && c <= '9') {
            assert(!is_digit(text@[i as int]));
            return None;
        }
        let digit: usize = (c as u32 - '0' as u32) as usize;
        proof {
            assert(chars@.take(i + 1).drop_last() == chars@.take(i as int));
            assert(chars@.take(i + 1).last() == c);
        }
        if fits && value <= (usize::MAX - digit) / 10 {
            value = value * 10 + digit;
        } else {
            fits = false;
        }
        i += 1;
    }
    proof {
        assert(chars@.take(i as int) == chars@);
    }
    if fits {
        Some(value)
    } else {
        None
    }
}

/// The ASCII digit that stands for a number below ten.
pub open spec fn digit_char(digit: nat) -> char {
    if digit == 0 {
        '0'
    } else if digit == 1 {
        '1'
    } else if digit == 2 {
        '2'
    } else if digit == 3 {
        '3'
    } else if digit == 4 {
        '4'
    } else if digit == 5 {
        '5'
    } else if digit == 6 {
        '6'
    } else if digit == 7 {
        '7'
    } else if digit == 8 {
        '8'
    } else {
        '9'
    }
}

/// A number written in base ten, without leading zeros.
pub open spec fn decimal_digits(n: nat) -> Seq<char>
    decreases n,
{
    if n < 10 {
        seq![digit_char(n)]
    } else {
        decimal_digits(n / 10).push(digit_char(n % 10))
    }
}

/// A number that is written in base ten and read again is the number.
pub proof fn lemma_number_round_trip(n: nat)
    ensures
        decimal_digits(n).len() > 0,
        forall|i: int| 0 <= i < decimal_digits(n).len() ==> is_digit(#[trigger] decimal_digits(n)[i]),
        decimal_value(decimal_digits(n)) == n,
        n <= usize::MAX ==> number_of(decimal_digits(n)) == Some(n as usize),
    decreases n,
{
    let digits = decimal_digits(n);
    if n < 10 {
        assert(digits.drop_last() == Seq::<char>::empty());
        assert(decimal_value(Seq::<char>::empty()) == 0);
        assert(digit_value(digit_char(n)) == n);
    } else {
        let front = decimal_digits(n / 10);
        lemma_number_round_trip(n / 10);
        assert(digits.drop_last() == front);
        assert(digit_value(digit_char(n % 10)) == n % 10);
        assert forall|i: int| 0 <= i < digits.len() implies is_digit(#[trigger] digits[i]) by {
            if i < front.len() {
                assert(digits[i] == front[i]);
            }
        }
    }
}

/// The ASCII digit that stands for a number below ten.
fn digit_of(digit: usize) -> (c: char)
    requires
        digit < 10,
    ensures
        c == digit_char(digit as nat),
{
    if digit == 0 {
        '0'
    } else if digit == 1 {
        '1'
    } else if digit == 2 {
        '2'
    } else if digit == 3 {
        '3'
    } else if digit == 4 {
        '4'
    } else if digit == 5 {
        '5'
    } else if digit == 6 {
        '6'
    } else if digit == 7 {
        '7'
    } else if digit == 8 {
        '8'
    } else {
        '9'
    }
}

/// Appends a number, written in base ten, to a text.
pub fn push_number(text: &mut String, n: usize)
    ensures
        final(text)@ == old(text)@ + decimal_digits(n as nat),
    decreases n,
{
    if n >= 10 {
        push_number(text, n / 10);
    }
    text.push(digit_of(n % 10));
    proof {
        let before = old(text)@;
        if n >= 10 {
            assert((before + decimal_digits((n / 10) as nat)).push(digit_char((n % 10) as nat))
                == before + decimal_digits(n as nat));
        } else {
            assert(before.push(digit_char(n as nat)) == before + decimal_digits(n as nat));
        }
    }
}

/// Writes a number in base ten.
pub fn number_to_string(n: usize) -> (text: String)
    ensures
        text@ == decimal_digits(n as nat),
{
    let mut text = String::new();
    push_number(&mut text, n);
    assert(Seq::<char>::empty() + decimal_digits(n as nat) == decimal_digits(n as nat));
    text
}

/// The texts of a list of strings.
pub open spec fn texts(lines: Seq<String>) -> Seq<Seq<char>> {
    Seq::new(lines.len(), |i: int| lines[i]@)
}

/// The lines in a row, with the separator between each two of them.
pub open spec fn joined(lines: Seq<Seq<char>>, separator: Seq<char>) -> Seq<char>
    decreases lines.len(),
{
    if lines.len() == 0 {
        Seq::empty()
    } else if lines.len() == 1 {
        lines[0]
    } else {
        joined(lines.drop_last(), separator) + separator + lines.last()
    }
}

/// Puts the lines in a row, with the separator between each two of them.
pub fn join(lines: &Vec<String>, separator: &str) -> (text: String)
    ensures
        text@ == joined(texts(lines@), separator@),
{
    let mut text = String::new();
    let ghost all = texts(lines@);
    let mut i: usize = 0;
    while i < lines.len()
        invariant
            i <= lines@.len(),
            all == texts(lines@),
            text@ == joined(all.take(i as int), separator@),
        decreases lines@.len() - i,
    {
        proof {
            assert(all.take(i + 1).drop_last() == all.take(i as int));
            assert(all.take(i + 1).last() == lines@[i as int]@);
            if i == 0 {
                assert(Seq::<char>::empty() + lines@[0]@ == lines@[0]@);
            }
        }
        if i > 0 {
            text.append(separator);
        }
        text.append(lines[i].as_str());
        i += 1;
    }
    proof {
        assert(all.take(i as int) == all);
    }
    text
}

/// As many spaces as are asked for.
pub open spec fn spaces(count: nat) -> Seq<char> {
    Seq::new(count, |i: int| ' ')
}

/// The text with spaces in front of it, as many as it has characters less
/// than `width`.
pub open spec fn padded(text: Seq<char>, width: nat) -> Seq<char> {
    if text.len() < width {
        spaces((width - text.len()) as nat) + text
    } else {
        text
    }
}

/// Appends a text to another, with spaces in front of it where it has less
/// than `width` characters.
pub fn push_padded(out: &mut String, text: &str, width: usize)
    ensures
        final(out)@ == old(out)@ + padded(text@, width as nat),
{
    let length = text.unicode_len();
    let mut i: usize = length;
    while i < width
        invariant
            length == text@.len(),
            length <= i,
            i <= width || i == length,
            out@ == old(out)@ + spaces((i - length) as nat),
        decreases width - i,
    {
        out.push(' ');
        i += 1;
        assert(spaces((i - 1 - length) as nat).push(' ') == spaces((i - length) as nat));
    }
    out.append(text);
    proof {
        if length < width {
            assert(old(out)@ + spaces((width - length) as nat) + text@ == old(out)@ + (spaces(
                (width - length) as nat,
            ) + text@));
        } else {
            assert(old(out)@ + spaces(0) + text@ == old(out)@ + text@);
        }
    }
}

/// The text with four spaces behind every line break.
pub open spec fn indented(text: Seq<char>) -> Seq<char>
    decreases text.len(),
{
    if text.len() == 0 {
        Seq::empty()
    } else if text.last() == '\n' {
        indented(text.drop_last()) + seq!['\n', ' ', ' ', ' ', ' ']
    } else {
        indented(text.drop_last()).push(text.last())
    }
}

/// Appends a text to another, with four spaces behind each of its line
/// breaks.
pub fn push_indented(out: &mut String, text: &str)
    ensures
        final(out)@ == old(out)@ + indented(text@),
{
    for c in it: text.chars()
        invariant
            it.seq() == text@,
            out@ == old(out)@ + indented(it.seq().take(it.index())),
    {
        proof {
            let next = it.seq().take(it.index() + 1);
            assert(next.drop_last() == it.seq().take(it.index()));
            assert(next.last() == c);
        }
        let ghost before = out@;
        out.push(c);
        if c == '\n' {
            out.push(' ');
            out.push(' ');
            out.push(' ');
            out.push(' ');
            assert(out@ == before + seq!['\n', ' ', ' ', ' ', ' ']);
        }
        assert(out@ == old(out)@ + indented(it.seq().take(it.index() + 1)));
    }
    proof {
        assert(text@.take(text@.len() as int) == text@);
    }
}

/// Where the first line break at or behind `from` stands, or the end of the
/// text where there is none.
pub open spec fn line_end(text: Seq<char>, from: int) -> int
    decreases text.len() - from,
{
    if 0 <= from < text.len() && text[from] != '\n' {
        line_end(text, from + 1)
    } else {
        from
    }
}

/// The line that starts at `from`, as `str::lines` hands it out: up to the
/// next line break, and without the carriage return before that line break.
pub open spec fn line_from(text: Seq<char>, from: int) -> Seq<char> {
    let end = line_end(text, from);
    if end < text.len() && from < end && text[end - 1] == '\r' {
        text.subrange(from, end - 1)
    } else {
        text.subrange(from, end)
    }
}

/// The line with the given number, the first line being number 0, from
/// `from` on. A text has a line for every line break, and one more where
/// something stands behind the last line break.
pub open spec fn nth_line_from(text: Seq<char>, from: int, n: nat) -> Option<Seq<char>>
    decreases text.len() - from,
{
    if 0 <= from < text.len() {
        if n == 0 {
            Some(line_from(text, from))
        } else {
            let end = line_end(text, from);
            proof {
                lemma_line_end_bounds(text, from);
            }
            if end < text.len() {
                nth_line_from(text, end + 1, (n - 1) as nat)
            } else {
                None
            }
        }
    } else {
        None
    }
}

/// A line ends no earlier than it starts, within the text, and at a line
/// break if within the text.
pub proof fn lemma_line_end_bounds(text: Seq<char>, from: int)
    requires
        0 <= from <= text.len(),
    ensures
        from <= line_end(text, from) <= text.len(),
        line_end(text, from) < text.len() ==> text[line_end(text, from)] == '\n',
    decreases text.len() - from,
{
    if from < text.len() && text[from] != '\n' {
        lemma_line_end_bounds(text, from + 1);
    }
}

/// The line of a text with the given number, the first line being number 0.
pub fn nth_line(text: &Vec<char>, n: usize) -> (line: Option<String>)
    ensures
        match nth_line_from(text@, 0, n as nat) {
            Some(found) => line matches Some(given) && given@ == found,
            None => line is None,
        },
{
    let mut from: usize = 0;
    let mut left: usize = n;
    loop
        invariant
            from <= text@.len(),
            nth_line_from(text@, 0, n as nat) == nth_line_from(text@, from as int, left as nat),
        decreases text@.len() - from,
    {
        if from >= text.len() {
            return None;
        }
        let mut end: usize = from;
        while end < text.len() && text[end] != '\n'
            invariant
                from <= end <= text@.len(),
                line_end(text@, from as int) == line_end(text@, end as int),
            decreases text@.len() - end,
        {
            end += 1;
        }
        if left == 0 {
            if end < text.len() && from < end && text[end - 1] == '\r' {
                return Some(string_of(text, from, end - 1));
            } else {
                return Some(string_of(text, from, end));
            }
        }
        if end >= text.len() {
            return None;
        }
        from = end + 1;
        left -= 1;
    }
}

} // verus!
