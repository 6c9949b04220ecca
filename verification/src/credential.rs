//! The API key, as it stands in the file that holds it: the first line, without the
//! white space around it.

use vstd::prelude::*;
use vstd::string::StrSliceExecFns;

verus! {

/// White space, as Unicode defines it.
pub open spec fn is_space(c: char) -> bool {
    let n = c as u32;
    ||| 0x09 <= n <= 0x0d
    ||| n == 0x20
    ||| n == 0x85
    ||| n == 0xa0
    ||| n == 0x1680
    ||| 0x2000 <= n <= 0x200a
    ||| n == 0x2028
    ||| n == 0x2029
    ||| n == 0x202f
    ||| n == 0x205f
    ||| n == 0x3000
}

/// The offset of the first line feed of `text` from `i` on, or the length of `text`.
pub open spec fn line_end(text: Seq<char>, i: int) -> int
    decreases text.len() - i,
{
    if 0 <= i < text.len() && text[i] != '\n' {
        line_end(text, i + 1)
    } else {
        i
    }
}

/// `text` without the white space at its start.
pub open spec fn trim_start(text: Seq<char>) -> Seq<char>
    decreases text.len(),
{
    if text.len() > 0 && is_space(text.first()) {
        trim_start(text.drop_first())
    } else {
        text
    }
}

/// `text` without the white space at its end.
pub open spec fn trim_end(text: Seq<char>) -> Seq<char>
    decreases text.len(),
{
    if text.len() > 0 && is_space(text.last()) {
        trim_end(text.drop_last())
    } else {
        text
    }
}

/// The first line of `text`, without its line feed and without the white space around it.
pub open spec fn key_text(text: Seq<char>) -> Seq<char> {
    trim_end(trim_start(text.take(line_end(text, 0))))
}

/// Tells whether `c` is white space.
pub fn is_white_space(c: char) -> (space: bool)
    ensures
        space == is_space(c),
{
    let n: u32 = c as u32;
    (0x09 <= n && n <= 0x0d) || n == 0x20 || n == 0x85 || n == 0xa0 || n == 0x1680 || (0x2000 <= n
        && n <= 0x200a) || n == 0x2028 || n == 0x2029 || n == 0x202f || n == 0x205f || n == 0x3000
}

/// The API key that the contents of a key file give: the first line, trimmed. A file
/// without any contents holds no line and gives no key.
pub fn api_key(text: &str) -> (key: Option<String>)
    ensures
        key is None <==> text@.len() == 0,
        key matches Some(k) ==> k@ == key_text(text@),
{
    let n: usize = text.unicode_len();
    if n == 0 {
        return None;
    }
    let mut end: usize = 0;
    while end < n && text.get_char(end) != '\n'
        invariant
            end <= n,
            n == text@.len(),
            line_end(text@, 0) == line_end(text@, end as int),
        decreases n - end,
    {
        end += 1;
    }
    let ghost line = text@.take(end as int);
    let mut start: usize = 0;
    assert(line.skip(0) =~= line);
    while start < end && is_white_space(text.get_char(start))
        invariant
            start <= end <= n,
            n == text@.len(),
            line == text@.take(end as int),
            trim_start(line) == trim_start(line.skip(start as int)),
        decreases end - start,
    {
        proof {
            assert(line.skip(start as int).first() == text@[start as int]);
            assert(line.skip(start as int).drop_first() =~= line.skip(start + 1));
        }
        start += 1;
    }
    proof {
        if start < end {
            assert(line.skip(start as int).first() == text@[start as int]);
        }
        assert(trim_start(line) == line.skip(start as int));
        assert(line.skip(start as int) =~= text@.subrange(start as int, end as int));
    }
    let mut stop: usize = end;
    while stop > start && is_white_space(text.get_char(stop - 1))
        invariant
            start <= stop <= end <= n,
            n == text@.len(),
            trim_end(text@.subrange(start as int, end as int)) == trim_end(
                text@.subrange(start as int, stop as int),
            ),
        decreases stop,
    {
        proof {
            let part = text@.subrange(start as int, stop as int);
            assert(part.last() == text@[stop - 1]);
            assert(part.drop_last() =~= text@.subrange(start as int, stop - 1));
        }
        stop -= 1;
    }
    proof {
        let part = text@.subrange(start as int, stop as int);
        if stop > start {
            assert(part.last() == text@[stop - 1]);
        }
        assert(trim_end(part) == part);
    }
    Some(text.substring_char(start, stop).to_owned())
}

} // verus!
