//! How many columns text takes on the screen.

use crate::text;
use unicode_width::UnicodeWidthStr;
use vstd::prelude::*;

verus! {

/// What `UnicodeWidthStr::width` of `unicode_width` makes of a text.
pub uninterp spec fn display_width(s: Seq<char>) -> usize;

/// The width of one character.
pub open spec fn char_columns(c: char) -> int {
    display_width(seq![c]) as int
}

/// `UnicodeWidthStr::width` of `unicode_width` gives the number of columns that a
/// text takes, which is a function of the text alone. How wide each character is
/// comes from the tables of that crate and is left unsaid.
#[verifier::external_body]
pub(crate) fn measure(s: &str) -> (r: usize)
    ensures
        r == display_width(s@),
{
    UnicodeWidthStr::width(s)
}

/// The columns that a text takes.
pub fn text_width(s: &str) -> (r: usize)
    ensures
        r == display_width(s@),
{
    measure(s)
}

/// The columns that a character takes.
pub fn char_width(c: char) -> (r: usize)
    ensures
        r as int == char_columns(c),
{
    let mut one: Vec<char> = Vec::new();
    one.push(c);
    let s = text::string_of(&one);
    assert(s@ =~= seq![c]);
    measure(&s)
}

} // verus!
