//! Geometry of the virtualized, vertically scrolling comment list.
//!
//! The renderer never walks the whole log: each frame it lays out only the
//! rows that intersect the viewport. That row range is a pure function of
//! the scroll offset, the viewport height and the total row count, computed
//! here, so the per-frame work is bounded by the viewport size alone.

use vstd::prelude::*;

verus! {

/// Height of one comment row, in pixels.
pub const ROW_HEIGHT: u64 = 60;

/// Vertical gap between adjacent rows, in pixels.
pub const ROW_GAP: u64 = 8;

/// Distance between the tops of adjacent rows: row height plus gap.
pub const ROW_STRIDE: u64 = 68;

/// Smallest integer at or above `a / b`.
pub open spec fn div_ceil(a: int, b: int) -> int
    recommends
        b > 0,
{
    (a + b - 1) / b
}

/// The half-open row range `[first, last)` that intersects the viewport:
/// `first` is the row whose band contains the top of the viewport, `last`
/// stops at the row past the bottom of the viewport, clamped to the row
/// count. When the scroll offset lies beyond the last row, the range is
/// empty at `total_rows`.
pub open spec fn spec_visible_rows(scroll_y: int, viewport_height: int, total_rows: int) -> (
    int,
    int,
) {
    let stride = ROW_STRIDE as int;
    let past_bottom = div_ceil(scroll_y + viewport_height, stride);
    let last = if total_rows <= past_bottom {
        total_rows
    } else {
        past_bottom
    };
    let first_raw = scroll_y / stride;
    let first = if first_raw <= last {
        first_raw
    } else {
        last
    };
    (first, last)
}

/// Rows laid out in one frame, as the renderer sees them.
pub fn visible_rows(scroll_y: u64, viewport_height: u64, total_rows: u64) -> (r: (u64, u64))
    ensures
        (r.0 as int, r.1 as int) == spec_visible_rows(
            scroll_y as int,
            viewport_height as int,
            total_rows as int,
        ),
        r.0 <= r.1 <= total_rows,
{
    let sum: u128 = scroll_y as u128 + viewport_height as u128;
    let past_bottom: u128 = (sum + (ROW_STRIDE as u128 - 1)) / (ROW_STRIDE as u128);
    let last: u64 = if (total_rows as u128) <= past_bottom {
        total_rows
    } else {
        past_bottom as u64
    };
    let first_raw: u64 = scroll_y / ROW_STRIDE;
    let first: u64 = if first_raw <= last {
        first_raw
    } else {
        last
    };
    (first, last)
}

/// Total height of the scrollable content; the scrollbar reflects every
/// row, not only the rendered ones.
pub fn scroll_extent(total_rows: u64) -> (e: u64)
    requires
        total_rows * ROW_STRIDE <= u64::MAX,
    ensures
        e == total_rows * ROW_STRIDE,
        total_rows == 0 ==> e == 0,
{
    total_rows * ROW_STRIDE
}

/// However long the log grows, one frame lays out no more rows than fit in
/// the viewport, plus one partially visible row at each edge.
pub proof fn lemma_frame_work_bounded(scroll_y: int, viewport_height: int, total_rows: int)
    requires
        0 <= scroll_y,
        0 <= viewport_height,
        0 <= total_rows,
    ensures
        ({
            let (first, last) = spec_visible_rows(scroll_y, viewport_height, total_rows);
            last - first <= div_ceil(viewport_height, ROW_STRIDE as int) + 1
        }),
{
    let stride = ROW_STRIDE as int;
    let (first, last) = spec_visible_rows(scroll_y, viewport_height, total_rows);
    assert(0 <= div_ceil(viewport_height, stride)) by (nonlinear_arith)
        requires
            0 <= viewport_height,
            stride == 68,
    ;
    if first < last {
        assert(div_ceil(scroll_y + viewport_height, stride) - scroll_y / stride <= div_ceil(
            viewport_height,
            stride,
        ) + 1) by (nonlinear_arith)
            requires
                0 <= scroll_y,
                0 <= viewport_height,
                stride == 68,
        ;
    }
}

/// With no rows at all, nothing is laid out and the scroll extent is zero.
pub proof fn lemma_empty_list_lays_out_nothing(scroll_y: int, viewport_height: int)
    requires
        0 <= scroll_y,
        0 <= viewport_height,
    ensures
        spec_visible_rows(scroll_y, viewport_height, 0) == (0int, 0int),
        0 * ROW_STRIDE as int == 0,
{
    let stride = ROW_STRIDE as int;
    assert(0 <= div_ceil(scroll_y + viewport_height, stride)) by (nonlinear_arith)
        requires
            0 <= scroll_y,
            0 <= viewport_height,
            stride == 68,
    ;
    assert(0 <= scroll_y / stride) by (nonlinear_arith)
        requires
            0 <= scroll_y,
            stride == 68,
    ;
}

} // verus!
