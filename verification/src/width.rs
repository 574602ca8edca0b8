//! How many columns characters and texts take on screen.

use vstd::prelude::*;

use unicode_width::{UnicodeWidthChar, UnicodeWidthStr};

verus! {

/// The columns that `UnicodeWidthChar::width` counts for a character.
pub uninterp spec fn char_columns(c: char) -> Option<usize>;

/// The columns that `UnicodeWidthStr::width` counts for a text.
pub uninterp spec fn text_columns(text: Seq<char>) -> usize;

/// Calls `UnicodeWidthChar::width`. The result is a function of the character
/// alone, which `char_columns` names: `None` for exactly the control characters,
/// one for printable ASCII, and never more than three.
#[verifier::external_body]
pub(crate) fn char_width(c: char) -> (result: Option<usize>)
    ensures
        result == char_columns(c),
        result is None <==> crate::text::control_char(c),
        ' ' <= c <= '~' ==> result == Some(1usize),
        result matches Some(columns) ==> columns <= 3,
{
    UnicodeWidthChar::width(c)
}

/// Whether a character is printable ASCII.
pub open spec fn plain_char(c: char) -> bool {
    ' ' <= c <= '~'
}

/// Calls `UnicodeWidthStr::width`. The result is a function of the text alone,
/// which `text_columns` names; a text of printable ASCII takes one column for
/// each character.
#[verifier::external_body]
pub(crate) fn str_width(text: &str) -> (result: usize)
    ensures
        result == text_columns(text@),
        (forall|i: int| 0 <= i < text@.len() ==> plain_char(#[trigger] text@[i])) ==> result
            == text@.len(),
{
    UnicodeWidthStr::width(text)
}

/// The columns a text takes, as far as a screen can have them.
pub open spec fn shown_columns(text: Seq<char>) -> u16 {
    if text_columns(text) > u16::MAX {
        u16::MAX
    } else {
        text_columns(text) as u16
    }
}

pub fn text_width(text: &str) -> (result: u16)
    ensures
        result == shown_columns(text@),
        (forall|i: int| 0 <= i < text@.len() ==> plain_char(#[trigger] text@[i])) && text@.len()
            <= u16::MAX ==> result == text@.len(),
{
    let columns: usize = str_width(text);
    if columns > u16::MAX as usize {
        u16::MAX
    } else {
        columns as u16
    }
}

/// The columns that a character of a terminal takes: one where its width is
/// not known.
pub open spec fn char_room(c: char) -> usize {
    match char_columns(c) {
        Some(columns) => columns,
        None => 1,
    }
}

pub fn char_columns_or_one(c: char) -> (result: usize)
    ensures
        result == char_room(c),
        result <= 3,
{
    match char_width(c) {
        Some(columns) => columns,
        None => 1,
    }
}

} // verus!
