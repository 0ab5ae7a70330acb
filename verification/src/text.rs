//! Texts: their lines, and how they grow.
use vstd::prelude::*;
use vstd::string::*;

verus! {

/// The first position at or behind `from` that holds a line break, or the
/// text's length if there is none.
pub open spec fn line_end(text: Seq<char>, from: int) -> int
    decreases text.len() - from,
{
    if from >= text.len() || text[from] == '\n' {
        from
    } else {
        line_end(text, from + 1)
    }
}

/// The first position at or behind `from` that holds no line break, or the
/// text's length if there is none.
pub open spec fn line_start(text: Seq<char>, from: int) -> int
    decreases text.len() - from,
{
    if from >= text.len() || text[from] != '\n' {
        from
    } else {
        line_start(text, from + 1)
    }
}

/// The first line of the text that is not empty.
pub open spec fn first_line(text: Seq<char>) -> Option<Seq<char>> {
    let start = line_start(text, 0);
    if start >= text.len() {
        None
    } else {
        Some(text.subrange(start, line_end(text, start)))
    }
}

/// Finds the end of the line that holds position `from`.
fn find_line_end(text: &str, from: usize) -> (end: usize)
    requires
        from <= text@.len(),
    ensures
        end == line_end(text@, from as int),
        from <= end <= text@.len(),
{
    let n: usize = text.unicode_len();
    let mut i: usize = from;
    while i < n && text.get_char(i) != '\n'
        invariant
            from <= i <= n,
            n == text@.len(),
            line_end(text@, from as int) == line_end(text@, i as int),
        decreases n - i,
    {
        i += 1;
    }
    i
}

/// Finds the start of the first line at or behind `from` that is not empty.
fn find_line_start(text: &str, from: usize) -> (start: usize)
    requires
        from <= text@.len(),
    ensures
        start == line_start(text@, from as int),
        from <= start <= text@.len(),
{
    let n: usize = text.unicode_len();
    let mut i: usize = from;
    while i < n && text.get_char(i) == '\n'
        invariant
            from <= i <= n,
            n == text@.len(),
            line_start(text@, from as int) == line_start(text@, i as int),
        decreases n - i,
    {
        i += 1;
    }
    i
}

/// The first line of `text` that is not empty, borrowed from it.
pub fn first_line_of(text: &str) -> (line: Option<&str>)
    ensures
        match line {
            Some(l) => first_line(text@) == Some(l@),
            None => first_line(text@) is None,
        },
{
    let n: usize = text.unicode_len();
    let start: usize = find_line_start(text, 0);
    if start >= n {
        None
    } else {
        let end: usize = find_line_end(text, start);
        Some(text.substring_char(start, end))
    }
}

/// Appends a character with `String::push` of std, whose documentation says
/// that it appends the character to the end of the string.
#[verifier::external_body]
pub(crate) fn push_char(text: &mut String, c: char)
    ensures
        final(text)@ == old(text)@.push(c),
{
    text.push(c);
}

} // verus!
