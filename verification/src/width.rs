//! The display width of characters, as the `unicode-width` crate measures it.

use vstd::prelude::*;

verus! {

/// The display width that the `unicode-width` crate assigns to `c`: `None`
/// for a control character, otherwise the number of terminal columns the
/// character occupies. The result depends on the character alone.
pub uninterp spec fn unicode_display_width(c: char) -> Option<usize>;

/// Relies on unicode_width::UnicodeWidthChar::width: the display width of one
/// character in terminal columns, `None` for a control character. The bounds
/// stated here are the ones the crate's width tables give: printable ASCII is
/// one column wide, the C0, DEL and C1 ranges are control characters, and no
/// character is wider than three columns.
#[verifier::external_body]
pub(crate) fn char_width_opt(c: char) -> (r: Option<usize>)
    ensures
        r == unicode_display_width(c),
        (c as u32) < 0x20 ==> r is None,
        0x20 <= (c as u32) < 0x7F ==> r == Some(1usize),
        c == ' ' ==> r == Some(1usize),
        c == '\0' ==> r is None,
        0x7F <= (c as u32) < 0xA0 ==> r is None,
        (c as u32) >= 0xA0 ==> (r is Some && r->0 <= 3),
{
    unicode_width::UnicodeWidthChar::width(c)
}

/// The number of columns the renderer reserves for `c`: its display width,
/// with control characters counting as zero columns.
pub open spec fn spec_char_cols(c: char) -> nat {
    match unicode_display_width(c) {
        None => 0,
        Some(w) => w as nat,
    }
}

/// The number of columns the renderer reserves for `c`.
pub fn char_cols(c: char) -> (w: usize)
    ensures
        w == spec_char_cols(c),
        w <= 3,
        0x20 <= (c as u32) < 0x7F ==> w == 1,
        (c as u32) < 0x20 ==> w == 0,
        c == ' ' ==> w == 1,
        c == '\0' ==> w == 0,
{
    match char_width_opt(c) {
        None => 0,
        Some(w) => w,
    }
}

} // verus!
