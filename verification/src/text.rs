//! Text as a sequence of characters: white space, blank lines, and the
//! division of a text into lines.

use vstd::prelude::*;

verus! {

/// The characters that count as white space: those with the Unicode
/// property `White_Space`.
pub open spec fn is_whitespace(c: char) -> bool {
    let n = c as u32;
    ||| 0x09 <= n <= 0x0D
    ||| n == 0x20
    ||| n == 0x85
    ||| n == 0xA0
    ||| n == 0x1680
    ||| 0x2000 <= n <= 0x200A
    ||| n == 0x2028
    ||| n == 0x2029
    ||| n == 0x202F
    ||| n == 0x205F
    ||| n == 0x3000
}

/// A line is blank when it holds nothing but white space; the empty line is
/// blank.
pub open spec fn is_blank(line: Seq<char>) -> bool {
    forall|i: int| 0 <= i < line.len() ==> is_whitespace(#[trigger] line[i])
}

/// The position of the first line feed in `s`, or the length of `s` where it
/// holds none.
pub open spec fn first_newline(s: Seq<char>) -> int
    decreases s.len(),
{
    if s.len() == 0 || s[0] == '\n' {
        0
    } else {
        1 + first_newline(s.drop_first())
    }
}

/// A line without the carriage return that stood before its line feed.
pub open spec fn strip_cr(line: Seq<char>) -> Seq<char> {
    if line.len() > 0 && line.last() == '\r' {
        line.drop_last()
    } else {
        line
    }
}

/// The lines of a text. A line ends with a line feed, or with a carriage
/// return and a line feed; neither belongs to the line. What follows the last
/// line feed is a line too, unless it is empty, and is kept as it stands.
pub open spec fn split_lines(text: Seq<char>) -> Seq<Seq<char>>
    decreases text.len(),
{
    let k = first_newline(text);
    if text.len() == 0 {
        Seq::empty()
    } else if 0 <= k < text.len() {
        seq![strip_cr(text.take(k))] + split_lines(text.skip(k + 1))
    } else {
        seq![text]
    }
}

/// `first_newline` is the least position of a line feed.
pub proof fn lemma_first_newline(s: Seq<char>)
    ensures
        0 <= first_newline(s) <= s.len(),
        forall|j: int| 0 <= j < first_newline(s) ==> s[j] != '\n',
        first_newline(s) < s.len() ==> s[first_newline(s)] == '\n',
    decreases s.len(),
{
    if s.len() == 0 || s[0] == '\n' {
    } else {
        let rest = s.drop_first();
        lemma_first_newline(rest);
        assert forall|j: int| 0 <= j < first_newline(s) implies s[j] != '\n' by {
            if j > 0 {
                assert(s[j] == rest[j - 1]);
            }
        }
    }
}

/// A position with a line feed, or the end, before which no line feed stands
/// is `first_newline`.
pub proof fn lemma_first_newline_at(s: Seq<char>, k: int)
    requires
        0 <= k <= s.len(),
        forall|j: int| 0 <= j < k ==> s[j] != '\n',
        k < s.len() ==> s[k] == '\n',
    ensures
        first_newline(s) == k,
{
    lemma_first_newline(s);
}

/// One step of `split_lines`: where a line begins at `start` and `end` is the
/// position of its line feed, or the end of the text where it has none.
pub proof fn lemma_split_lines_step(text: Seq<char>, start: int, end: int)
    requires
        0 <= start < text.len(),
        start <= end <= text.len(),
        forall|j: int| start <= j < end ==> text[j] != '\n',
        end < text.len() ==> text[end] == '\n',
    ensures
        end < text.len() ==> split_lines(text.skip(start)) == seq![
            strip_cr(text.subrange(start, end)),
        ] + split_lines(text.skip(end + 1)),
        end == text.len() ==> split_lines(text.skip(start)) == seq![text.subrange(start, end)],
{
    let s = text.skip(start);
    lemma_first_newline_at(s, end - start);
    assert(s.take(end - start) =~= text.subrange(start, end));
    if end < text.len() {
        assert(s.skip(end - start + 1) =~= text.skip(end + 1));
    }
}

/// No line of a text holds a line feed.
pub proof fn lemma_lines_hold_no_newline(text: Seq<char>, i: int)
    requires
        0 <= i < split_lines(text).len(),
    ensures
        !split_lines(text)[i].contains('\n'),
    decreases text.len(),
{
    lemma_first_newline(text);
    let k = first_newline(text);
    if 0 < i && k < text.len() {
        lemma_lines_hold_no_newline(text.skip(k + 1), i - 1);
    }
}

/// `String::push` appends one character to the string.
pub assume_specification[ String::push ](s: &mut String, ch: char)
    ensures
        final(s)@ == old(s)@.push(ch),
;

/// Tells whether `c` is white space.
pub fn is_whitespace_char(c: char) -> (b: bool)
    ensures
        b == is_whitespace(c),
{
    let n: u32 = c as u32;
    (0x09 <= n && n <= 0x0D) || n == 0x20 || n == 0x85 || n == 0xA0 || n == 0x1680 || (0x2000 <= n
        && n <= 0x200A) || n == 0x2028 || n == 0x2029 || n == 0x202F || n == 0x205F || n == 0x3000
}

/// Tells whether the characters from `start` up to `end` are a blank line.
pub(crate) fn is_blank_in(chars: &Vec<char>, start: usize, end: usize) -> (b: bool)
    requires
        start <= end <= chars.len(),
    ensures
        b == is_blank(chars@.subrange(start as int, end as int)),
{
    let ghost line = chars@.subrange(start as int, end as int);
    let mut i: usize = start;
    while i < end
        invariant
            start <= i <= end <= chars.len(),
            line == chars@.subrange(start as int, end as int),
            forall|j: int| 0 <= j < i - start ==> is_whitespace(#[trigger] line[j]),
        decreases end - i,
    {
        if !is_whitespace_char(chars[i]) {
            assert(!is_whitespace(line[i - start]));
            return false;
        }
        i += 1;
    }
    true
}

/// The characters of `text`, in order.
pub fn chars_of(text: &str) -> (chars: Vec<char>)
    ensures
        chars@ == text@,
{
    let mut chars: Vec<char> = Vec::new();
    for c in it: text.chars()
        invariant
            chars@ == it.seq().take(it.index()),
    {
        chars.push(c);
    }
    chars
}

} // verus!
