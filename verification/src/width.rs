//! Display width of a character, as the `unicode-width` crate reports it.

use vstd::prelude::*;

verus! {

/// The display width in terminal columns that `unicode-width` gives for `c`
/// (`None` for control characters).
pub uninterp spec fn char_display_width(c: char) -> Option<usize>;

/// The width used for layout: a control character counts as one column.
pub open spec fn layout_width(c: char) -> int {
    match char_display_width(c) {
        Some(w) => w as int,
        None => 1,
    }
}

/// Calls `UnicodeWidthChar::width` of `unicode-width`. Its source gives
/// `None` below U+0020 and in U+007F..U+009F, `Some(1)` for U+0020..U+007E,
/// and a table value of at most 3 from U+00A0 on; the table itself is not restated.
#[verifier::external_body]
pub(crate) fn char_width(c: char) -> (r: Option<usize>)
    ensures
        r == char_display_width(c),
        (c as u32) < 0x20 ==> r is None,
        0x20 <= (c as u32) < 0x7f ==> r == Some(1usize),
        0x7f <= (c as u32) < 0xa0 ==> r is None,
        0xa0 <= (c as u32) ==> (r is Some && r->0 <= 3),
{
    unicode_width::UnicodeWidthChar::width(c)
}

/// The layout width of `c`: its display width, or 1 for a control character.
pub fn layout_width_of(c: char) -> (w: usize)
    ensures
        w as int == layout_width(c),
        w <= 3,
        0x20 <= (c as u32) < 0x7f ==> w == 1,
{
    match char_width(c) {
        Some(w) => w,
        None => 1,
    }
}

} // verus!
