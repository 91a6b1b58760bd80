use vstd::prelude::*;

verus! {

/// The first visible row of a list of `n` rows shown `h` rows at a time, with the cursor on
/// row `c` and at least `s` rows kept in view from the cursor row downwards.
pub open spec fn scroll_offset_spec(n: int, c: int, h: int, s: int) -> int {
    if n <= h || c + s < h {
        0
    } else if c + s - h < n - h {
        c + s - h
    } else {
        n - h
    }
}

/// Computes how many entries to skip so that the cursor keeps `slack` rows of lookahead
/// while the last page is never scrolled past.
pub fn scroll_offset(num_items: usize, cursor: usize, height: usize, slack: usize) -> (off: usize)
    requires
        num_items == 0 || cursor < num_items,
    ensures
        off == scroll_offset_spec(num_items as int, cursor as int, height as int, slack as int),
{
    if num_items <= height {
        0
    } else if cursor < height && slack < height - cursor {
        0
    } else if slack < num_items - cursor {
        cursor + slack - height
    } else {
        num_items - height
    }
}

/// The offset never scrolls past the last full page, and the cursor row is among the `h`
/// visible rows whenever the slack keeps it there: that is, unless the list overflows the
/// viewport, the cursor is past the first page, and the slack is zero or exceeds the height
/// while the cursor is above the last page.
pub proof fn lemma_cursor_stays_visible(n: int, h: int, s: int, c: int)
    requires
        n > 0,
        h > 0,
        s >= 0,
        0 <= c < n,
        n <= h || c + s < h || (1 <= s && (s <= h || c >= n - h)),
    ensures
        0 <= scroll_offset_spec(n, c, h, s),
        scroll_offset_spec(n, c, h, s) <= if n - h > 0 { n - h } else { 0 },
        scroll_offset_spec(n, c, h, s) <= c < scroll_offset_spec(n, c, h, s) + h,
{
}

} // verus!
