//! Display widths of text in terminal columns, as the `unicode-width` crate
//! measures them.

use vstd::prelude::*;

use unicode_width::{UnicodeWidthChar, UnicodeWidthStr};

verus! {

/// The displayed width of a string, as `UnicodeWidthStr::width` gives it.
pub uninterp spec fn display_width(s: Seq<char>) -> nat;

/// The displayed width of a character, as `UnicodeWidthChar::width` gives
/// it: `None` for control characters.
pub uninterp spec fn char_display_width(c: char) -> Option<nat>;

/// The view of an optional `usize` as a natural number.
pub open spec fn opt_nat(o: Option<usize>) -> Option<nat> {
    match o {
        Some(v) => Some(v as nat),
        None => None,
    }
}

/// Calls `UnicodeWidthStr::width`; the result is named, not stated.
#[verifier::external_body]
pub fn str_width(s: &str) -> (r: usize)
    ensures
        r == display_width(s@),
{
    UnicodeWidthStr::width(s)
}

/// Calls `UnicodeWidthChar::width`; the result is named, not stated.
#[verifier::external_body]
pub fn char_width(c: char) -> (r: Option<usize>)
    ensures
        opt_nat(r) == char_display_width(c),
{
    UnicodeWidthChar::width(c)
}

} // verus!
