//! Pane geometry.
use vstd::prelude::*;

verus! {

/// The recipe list is at least this wide.
pub const MIN_LEFT_COLS: u16 = 28;
/// The right pane is at least this wide, when the terminal allows.
pub const MIN_RIGHT_COLS: u16 = 48;

/// Widths of the list and right panes for a body `total` columns wide:
/// the list takes `split_pct` percent (rounded), at least `MIN_LEFT_COLS`,
/// and gives way so the right pane keeps `MIN_RIGHT_COLS` when it can.
pub open spec fn pane_widths_spec(total: u16, split_pct: u16) -> (u16, u16) {
    let want = (split_pct * total + 50) / 100;
    let left0 = if want < MIN_LEFT_COLS { MIN_LEFT_COLS as int } else { want };
    let left = if total - left0 < MIN_RIGHT_COLS {
        if total < MIN_RIGHT_COLS { 0 } else { total - MIN_RIGHT_COLS }
    } else {
        left0
    };
    let right = if total < left { 0 } else { total - left };
    (left as u16, right as u16)
}

pub fn pane_widths(total: u16, split_pct: u16) -> (r: (u16, u16))
    requires
        split_pct <= 100,
    ensures
        r == pane_widths_spec(total, split_pct),
{
    assert((split_pct as u32) * (total as u32) <= 100 * 65535) by (nonlinear_arith)
        requires split_pct <= 100, total <= 65535;
    let want: u32 = ((split_pct as u32) * (total as u32) + 50) / 100;
    let mut left: u32 = if want < MIN_LEFT_COLS as u32 { MIN_LEFT_COLS as u32 } else { want };
    let t = total as u32;
    if t < left || t - left < MIN_RIGHT_COLS as u32 {
        left = if t < MIN_RIGHT_COLS as u32 { 0 } else { t - MIN_RIGHT_COLS as u32 };
    }
    let right = if t < left { 0 } else { t - left };
    (left as u16, right as u16)
}

/// Where the scrollbar thumb sits and how tall it is, for `total_rows`
/// lines shown `viewport_rows` at a time from `top_row` on a track of
/// `track_h` cells; `None` when everything fits or there is no track.
pub open spec fn scroll_thumb_spec(total_rows: usize, viewport_rows: usize, top_row: usize, track_h: usize) -> Option<(usize, usize)> {
    if total_rows <= viewport_rows || track_h == 0 {
        None
    } else {
        let h = (viewport_rows * track_h) / (total_rows as int);
        Some((((top_row * track_h) / (total_rows as int)) as usize, if h < 1 { 1usize } else { h as usize }))
    }
}

/// Returns `(thumb_y, thumb_h)`.
pub fn scroll_thumb(total_rows: usize, viewport_rows: usize, top_row: usize, track_h: usize) -> (r: Option<(usize, usize)>)
    requires
        viewport_rows * track_h <= usize::MAX,
        top_row * track_h <= usize::MAX,
    ensures
        r == scroll_thumb_spec(total_rows, viewport_rows, top_row, track_h),
{
    if total_rows <= viewport_rows || track_h == 0 {
        return None;
    }
    let h = (viewport_rows * track_h) / total_rows;
    let y = (top_row * track_h) / total_rows;
    Some((y, if h < 1 { 1 } else { h }))
}

} // verus!
