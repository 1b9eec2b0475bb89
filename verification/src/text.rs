//! Trimming of text fields.

use vstd::prelude::*;
use vstd::string::StrSliceExecFns;

verus! {

/// Characters with the Unicode property White_Space.
pub open spec fn is_blank(c: char) -> bool {
    let u = c as u32;
    ||| 0x09 <= u <= 0x0D
    ||| u == 0x20
    ||| u == 0x85
    ||| u == 0xA0
    ||| u == 0x1680
    ||| 0x2000 <= u <= 0x200A
    ||| u == 0x2028
    ||| u == 0x2029
    ||| u == 0x202F
    ||| u == 0x205F
    ||| u == 0x3000
}

/// Position of the first character at or after `from` that is not blank, or
/// the length of `text` when there is none.
pub open spec fn skip_blanks(text: Seq<char>, from: int) -> int
    decreases text.len() - from,
{
    if 0 <= from < text.len() && is_blank(text[from]) {
        skip_blanks(text, from + 1)
    } else {
        from
    }
}

/// End of `text[start..to]` once the blank characters at its end are left
/// off.
pub open spec fn drop_blanks(text: Seq<char>, start: int, to: int) -> int
    decreases to,
{
    if 0 <= start < to <= text.len() && is_blank(text[to - 1]) {
        drop_blanks(text, start, to - 1)
    } else {
        to
    }
}

/// `text` without the blank characters at its start and at its end.
pub open spec fn trimmed(text: Seq<char>) -> Seq<char> {
    let start = skip_blanks(text, 0);
    let end = drop_blanks(text, start, text.len() as int);
    text.subrange(start, end)
}

/// Whether `c` is a blank character.
pub fn blank(c: char) -> (b: bool)
    ensures
        b == is_blank(c),
{
    let u: u32 = c as u32;
    (0x09 <= u && u <= 0x0D) || u == 0x20 || u == 0x85 || u == 0xA0 || u == 0x1680 || (0x2000 <= u
        && u <= 0x200A) || u == 0x2028 || u == 0x2029 || u == 0x202F || u == 0x205F || u == 0x3000
}

/// Returns `text` without leading and trailing blank characters.
pub fn trim<'a>(text: &'a str) -> (r: &'a str)
    ensures
        r@ == trimmed(text@),
{
    let n = text.unicode_len();
    let mut start: usize = 0;
    while start < n && blank(text.get_char(start))
        invariant
            n == text@.len(),
            start <= n,
            skip_blanks(text@, 0) == skip_blanks(text@, start as int),
        decreases n - start,
    {
        start += 1;
    }
    let mut end: usize = n;
    while end > start && blank(text.get_char(end - 1))
        invariant
            n == text@.len(),
            start <= end <= n,
            drop_blanks(text@, start as int, n as int) == drop_blanks(
                text@,
                start as int,
                end as int,
            ),
        decreases end,
    {
        end -= 1;
    }
    text.substring_char(start, end)
}

} // verus!
