use ded::scroll::{next_scroll_top, num_digits};
use ded::viewport::{saturating_offset, Viewport};

#[test]
fn store_then_read_back() {
    let mut v = Viewport::default();
    v.store(7, 3, 80, 24);
    assert_eq!(v.scroll_top(), (7, 3));
    assert_eq!(v.rect(), (7, 3, 80, 24));
}

#[test]
fn position_is_inclusive() {
    let mut v = Viewport::default();
    v.store(10, 4, 20, 5);
    assert_eq!(v.position(), (10, 4, 14, 23));
}

#[test]
fn position_of_zero_sized_viewport() {
    let mut v = Viewport::default();
    v.store(10, 4, 0, 0);
    let (rt, ct, rb, cb) = v.position();
    assert!(rb >= rt);
    assert!(cb >= ct);
    assert_eq!((rt, ct, rb, cb), (10, 4, 10, 4));
}

#[test]
fn position_saturates_at_the_top_of_u64() {
    let mut v = Viewport::default();
    v.store(u64::MAX - 1, u64::MAX, 10, 10);
    assert_eq!(v.position(), (u64::MAX - 1, u64::MAX, u64::MAX - 1, u64::MAX));
}

#[test]
fn scroll_clamps_at_zero() {
    let mut v = Viewport::default();
    v.store(3, 2, 10, 10);
    v.scroll(-5, -1);
    assert_eq!(v.rect(), (0, 1, 10, 10));
    v.scroll(4, i64::MIN);
    assert_eq!(v.scroll_top(), (4, 0));
}

#[test]
fn scroll_clamps_at_max() {
    let mut v = Viewport::default();
    v.store(u64::MAX - 2, 0, 1, 1);
    v.scroll(i64::MAX, i64::MAX);
    assert_eq!(v.scroll_top(), (u64::MAX, i64::MAX as u64));
}

#[test]
fn saturating_offset_values() {
    assert_eq!(saturating_offset(10, -3), 7);
    assert_eq!(saturating_offset(0, i64::MIN), 0);
    assert_eq!(saturating_offset(u64::MAX, 1), u64::MAX);
}

#[test]
fn follow_cursor_above_window() {
    assert_eq!(next_scroll_top(5, 3, 10), 3);
}

#[test]
fn follow_cursor_below_window() {
    assert_eq!(next_scroll_top(0, 15, 10), 6);
    assert_eq!(next_scroll_top(0, 10, 10), 1);
}

#[test]
fn follow_cursor_inside_window_keeps_top() {
    assert_eq!(next_scroll_top(2, 5, 10), 2);
    assert_eq!(next_scroll_top(2, 11, 10), 2);
    assert_eq!(next_scroll_top(2, 2, 10), 2);
}

#[test]
fn follow_cursor_always_visible() {
    for t in 0..30u64 {
        for c in 0..30u64 {
            for l in 1..8u64 {
                let n = next_scroll_top(t, c, l);
                assert!(n <= c && c <= n + l - 1);
                if t <= c && c <= t + l - 1 {
                    assert_eq!(n, t);
                }
            }
        }
    }
}

#[test]
fn follow_with_zero_length_window() {
    assert_eq!(next_scroll_top(5, 9, 0), 9);
    assert_eq!(next_scroll_top(5, 2, 0), 2);
    assert_eq!(next_scroll_top(u64::MAX, u64::MAX, 0), u64::MAX);
}

#[test]
fn follow_at_extreme_positions() {
    assert_eq!(next_scroll_top(0, u64::MAX, u64::MAX), 1);
    assert_eq!(next_scroll_top(0, u64::MAX, 1), u64::MAX);
}

#[test]
fn digit_counts() {
    assert_eq!(num_digits(0), 1);
    assert_eq!(num_digits(9), 1);
    assert_eq!(num_digits(10), 2);
    assert_eq!(num_digits(999), 3);
    assert_eq!(num_digits(1000), 4);
    assert_eq!(num_digits(usize::MAX), 20);
}
