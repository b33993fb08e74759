//! Tests of the virtualized list geometry.

use many_comments::list_view::{scroll_extent, visible_rows, ROW_GAP, ROW_HEIGHT, ROW_STRIDE};

#[test]
fn stride_is_row_height_plus_gap() {
    assert_eq!(ROW_HEIGHT, 60);
    assert_eq!(ROW_GAP, 8);
    assert_eq!(ROW_STRIDE, 68);
}

#[test]
fn empty_log_lays_out_zero_rows_and_zero_extent() {
    let (first, last) = visible_rows(0, 680, 0);
    assert_eq!((first, last), (0, 0));
    assert_eq!(scroll_extent(0), 0);
}

#[test]
fn top_of_huge_log_starts_at_row_zero() {
    let (first, last) = visible_rows(0, 680, 131072);
    assert_eq!(first, 0);
    assert_eq!(last, 10);
}

#[test]
fn frame_work_is_independent_of_total_rows() {
    // A viewport for ~10 rows lays out the same number of rows whether
    // the log holds 10 entries or 131072.
    let (f_small, l_small) = visible_rows(0, 680, 10);
    let (f_huge, l_huge) = visible_rows(0, 680, 131072);
    assert_eq!(l_small - f_small, l_huge - f_huge);
    for scroll in [0u64, 67, 68, 69, 1000, 131072 * 68 - 680] {
        let (first, last) = visible_rows(scroll, 680, 131072);
        // No more than ceil(viewport / stride) + 1 rows, whatever the log holds.
        assert!(last - first <= (680 + 67) / 68 + 1);
        assert!(first <= last);
    }
}

#[test]
fn scrolled_range_matches_formula() {
    // first = floor(scroll_y / stride), last = ceil((scroll_y + viewport) / stride)
    let (first, last) = visible_rows(100, 680, 131072);
    assert_eq!(first, 100 / 68);
    assert_eq!(last, (100 + 680 + 67) / 68);
}

#[test]
fn range_clamps_to_total_rows() {
    let (first, last) = visible_rows(0, 680, 3);
    assert_eq!((first, last), (0, 3));
    // Scrolled past the end: empty range at the end.
    let (first, last) = visible_rows(10_000, 680, 3);
    assert_eq!((first, last), (3, 3));
}

#[test]
fn scrollbar_extent_reflects_all_rows() {
    assert_eq!(scroll_extent(131072), 131072 * 68);
}
