//! Text handed to the parser: what counts as text, and trimming.

use std::borrow::Cow;
use vstd::prelude::*;

verus! {

/// A value that can be read as text. The parse functions take any such value
/// and hand it back untouched inside the error when parsing fails.
pub trait Text {
    /// The characters of the text.
    spec fn text(&self) -> Seq<char>;

    /// Borrows the value as a string slice.
    fn as_text(&self) -> (r: &str)
        ensures
            r@ == self.text(),
    ;
}

impl<'a> Text for &'a str {
    open spec fn text(&self) -> Seq<char> {
        (*self)@
    }

    fn as_text(&self) -> (r: &str) {
        *self
    }
}

impl Text for String {
    open spec fn text(&self) -> Seq<char> {
        self@
    }

    fn as_text(&self) -> (r: &str) {
        self.as_str()
    }
}

impl<'a> Text for Cow<'a, str> {
    open spec fn text(&self) -> Seq<char> {
        self@
    }

    fn as_text(&self) -> (r: &str) {
        match self {
            Cow::Borrowed(borrowed) => borrowed,
            Cow::Owned(owned) => owned.as_str(),
        }
    }
}

/// Whether `c` has the Unicode property `White_Space`.
pub open spec fn is_space(c: char) -> bool {
    let u = c as u32;
    ||| 0x09 <= u <= 0x0D
    ||| u == 0x20
    ||| u == 0x85
    ||| u == 0xA0
    ||| u == 0x1680
    ||| 0x2000 <= u <= 0x200A
    ||| u == 0x2028
    ||| u == 0x2029
    ||| u == 0x202F
    ||| u == 0x205F
    ||| u == 0x3000
}

/// Number of white-space characters at the start of `s`, counted from `from`.
pub open spec fn leading_spaces(s: Seq<char>, from: int) -> nat
    decreases s.len() - from,
{
    if 0 <= from < s.len() && is_space(s[from]) {
        1 + leading_spaces(s, from + 1)
    } else {
        0
    }
}

/// Number of white-space characters at the end of the first `to` characters of `s`.
pub open spec fn trailing_spaces(s: Seq<char>, to: int) -> nat
    decreases to,
{
    if 0 < to <= s.len() && is_space(s[to - 1]) {
        1 + trailing_spaces(s, to - 1)
    } else {
        0
    }
}

/// `s` without its leading and trailing white space.
pub open spec fn trimmed(s: Seq<char>) -> Seq<char> {
    let start = leading_spaces(s, 0) as int;
    if start == s.len() {
        Seq::empty()
    } else {
        s.subrange(start, s.len() - trailing_spaces(s, s.len() as int))
    }
}

/// Executable form of [`is_space`].
pub fn is_white_space(c: char) -> (r: bool)
    ensures
        r == is_space(c),
{
    let u = c as u32;
    (0x09 <= u && u <= 0x0D) || u == 0x20 || u == 0x85 || u == 0xA0 || u == 0x1680 || (0x2000 <= u
        && u <= 0x200A) || u == 0x2028 || u == 0x2029 || u == 0x202F || u == 0x205F || u == 0x3000
}

/// Removes leading and trailing white space, in one pass over the characters.
pub fn trim(s: &str) -> (r: &str)
    ensures
        r@ == trimmed(s@),
{
    let len = s.unicode_len();
    // `start`: index of the first character that is no white space, if any was seen.
    // `end`: one past the last such character.
    let mut start: usize = 0;
    let mut end: usize = 0;
    let mut seen = false;
    let mut i: usize = 0;
    for c in it: s.chars()
        invariant
            it.seq() == s@,
            len == s@.len(),
            i == it.index(),
            i <= len,
            !seen ==> start == 0 && end == 0 && leading_spaces(s@, 0) == i + leading_spaces(
                s@,
                i as int,
            ),
            seen ==> start == leading_spaces(s@, 0) && start < end <= i && !is_space(
                s@[end - 1],
            ) && i - end == trailing_spaces(s@, i as int),
    {
        if !is_white_space(c) {
            if !seen {
                seen = true;
                start = i;
            }
            end = i + 1;
        }
        i = i + 1;
    }
    if seen {
        s.substring_char(start, end)
    } else {
        s.substring_char(0, 0)
    }
}

} // verus!
