use vstd::prelude::*;
use vstd::string::StrSliceExecFns;
use vstd::string::StringExecFns;

verus! {

/// Whether Unicode counts a character as white space (`White_Space`).
pub open spec fn is_space(c: char) -> bool {
    let u = c as u32;
    ||| 0x09 <= u <= 0x0D
    ||| u == 0x20
    ||| u == 0x85
    ||| u == 0xA0
    ||| u == 0x1680
    ||| 0x2000 <= u <= 0x200A
    ||| u == 0x2028
    ||| u == 0x2029
    ||| u == 0x202F
    ||| u == 0x205F
    ||| u == 0x3000
}

/// The first position at or after `from` that holds no white space, or the length of `s`.
pub open spec fn skip_spaces(s: Seq<char>, from: int) -> int
    decreases s.len() - from,
{
    if 0 <= from < s.len() && is_space(s[from]) {
        skip_spaces(s, from + 1)
    } else {
        from
    }
}

/// The first position at or after `from` that holds white space, or the length of `s`.
pub open spec fn skip_word(s: Seq<char>, from: int) -> int
    decreases s.len() - from,
{
    if 0 <= from < s.len() && !is_space(s[from]) {
        skip_word(s, from + 1)
    } else {
        from
    }
}

/// The first run of characters of `s` that are not white space, taken as long as it goes;
/// `None` where `s` holds white space only.
pub open spec fn first_token(s: Seq<char>) -> Option<Seq<char>> {
    let start = skip_spaces(s, 0);
    if start < s.len() {
        Some(s.subrange(start, skip_word(s, start)))
    } else {
        None
    }
}

/// Whether a character is white space, as `char::is_whitespace` has it.
pub fn is_whitespace(c: char) -> (r: bool)
    ensures
        r == is_space(c),
{
    let u: u32 = c as u32;
    (0x09 <= u && u <= 0x0D) || u == 0x20 || u == 0x85 || u == 0xA0 || u == 0x1680 || (0x2000 <= u
        && u <= 0x200A) || u == 0x2028 || u == 0x2029 || u == 0x202F || u == 0x205F || u == 0x3000
}

/// The first token of a text, where white space parts the tokens; `None` for a text that is
/// empty or white space only.
pub fn leading_token(text: &str) -> (r: Option<String>)
    ensures
        match r {
            Some(token) => first_token(text@) == Some(token@),
            None => first_token(text@) is None,
        },
{
    let n = text.unicode_len();
    let mut start: usize = 0;
    while start < n && is_whitespace(text.get_char(start))
        invariant
            n == text@.len(),
            start <= n,
            skip_spaces(text@, 0) == skip_spaces(text@, start as int),
        decreases n - start,
    {
        start += 1;
    }
    if start == n {
        return None;
    }
    let mut end: usize = start + 1;
    while end < n && !is_whitespace(text.get_char(end))
        invariant
            n == text@.len(),
            start < end <= n,
            skip_word(text@, start as int) == skip_word(text@, end as int),
        decreases n - end,
    {
        end += 1;
    }
    Some(String::from_str(text.substring_char(start, end)))
}

} // verus!
