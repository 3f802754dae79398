use resizer::geometry::{clamp_dimensions, isqrt, presize_dimensions, shrink};

#[test]
fn shrink_takes_a_tenth_off_rounding_down() {
    assert_eq!(shrink(1000), 900);
    assert_eq!(shrink(900), 810);
    assert_eq!(shrink(500), 450);
    assert_eq!(shrink(450), 405);
    assert_eq!(shrink(11), 9);
    assert_eq!(shrink(10), 9);
    assert_eq!(shrink(9), 8);
    assert_eq!(shrink(3), 2);
}

#[test]
fn shrink_never_goes_below_one_pixel() {
    assert_eq!(shrink(2), 1);
    assert_eq!(shrink(1), 1);
    assert_eq!(shrink(0), 1);
}

#[test]
fn shrink_handles_the_largest_dimension() {
    assert_eq!(shrink(u32::MAX), 3_865_470_565);
}

#[test]
fn clamp_without_bounds_changes_nothing() {
    assert_eq!(clamp_dimensions(4000, 3000, None, None), (4000, 3000));
}

#[test]
fn clamp_within_bounds_changes_nothing() {
    assert_eq!(clamp_dimensions(800, 600, Some(800), Some(600)), (800, 600));
    assert_eq!(clamp_dimensions(800, 600, Some(5000), None), (800, 600));
    assert_eq!(clamp_dimensions(800, 600, None, Some(601)), (800, 600));
}

#[test]
fn clamp_by_width_keeps_the_aspect_ratio() {
    assert_eq!(clamp_dimensions(4000, 3000, Some(2000), None), (2000, 1500));
    assert_eq!(clamp_dimensions(4000, 3000, Some(1000), Some(3000)), (1000, 750));
}

#[test]
fn clamp_by_height_keeps_the_aspect_ratio() {
    assert_eq!(clamp_dimensions(4000, 3000, None, Some(300)), (400, 300));
    assert_eq!(clamp_dimensions(4000, 3000, Some(4000), Some(1500)), (2000, 1500));
}

#[test]
fn clamp_by_both_takes_the_tighter_bound() {
    assert_eq!(clamp_dimensions(4000, 3000, Some(2000), Some(300)), (400, 300));
    assert_eq!(clamp_dimensions(4000, 3000, Some(200), Some(3000)), (200, 150));
    assert_eq!(clamp_dimensions(1000, 1000, Some(10), Some(10)), (10, 10));
}

#[test]
fn clamp_rounds_to_the_nearest_pixel_halves_up() {
    // 505 * 900 / 1000 = 454.5
    assert_eq!(clamp_dimensions(1000, 505, Some(900), None), (900, 455));
    // 333 * 100 / 1000 = 33.3
    assert_eq!(clamp_dimensions(1000, 333, Some(100), None), (100, 33));
    // 337 * 100 / 1000 = 33.7
    assert_eq!(clamp_dimensions(1000, 337, Some(100), None), (100, 34));
}

#[test]
fn clamp_never_goes_below_one_pixel() {
    assert_eq!(clamp_dimensions(10000, 3, Some(10), None), (10, 1));
    assert_eq!(clamp_dimensions(3, 10000, None, Some(10)), (1, 10));
    assert_eq!(clamp_dimensions(100, 100, Some(0), None), (1, 1));
}

#[test]
fn clamp_handles_the_largest_dimensions() {
    assert_eq!(
        clamp_dimensions(u32::MAX, u32::MAX, Some(u32::MAX - 1), None),
        (u32::MAX - 1, u32::MAX - 1)
    );
    assert_eq!(clamp_dimensions(u32::MAX, 1, Some(1), Some(1)), (1, 1));
}

#[test]
fn isqrt_is_the_integer_square_root() {
    assert_eq!(isqrt(0), 0);
    assert_eq!(isqrt(1), 1);
    assert_eq!(isqrt(2), 1);
    assert_eq!(isqrt(3), 1);
    assert_eq!(isqrt(4), 2);
    assert_eq!(isqrt(99), 9);
    assert_eq!(isqrt(100), 10);
    assert_eq!(isqrt(101), 10);
    assert_eq!(isqrt(1_000_000_000_000), 1_000_000);
    assert_eq!(isqrt(u128::MAX), u64::MAX);
    assert_eq!(isqrt((u64::MAX as u128) * (u64::MAX as u128) - 1), u64::MAX - 1);
}

#[test]
fn presize_leaves_a_reasonable_image_alone() {
    // 100 * 100 = 10_000 pixels against 4 * 25_600
    assert_eq!(presize_dimensions(100, 100, 50 * 1024), (100, 100));
    // exactly four times the pixels the budget pays for: not more
    assert_eq!(presize_dimensions(320, 320, 50 * 1024), (320, 320));
}

#[test]
fn presize_shrinks_a_grossly_oversized_image() {
    // sqrt(2 * 25_600 / 12_000_000) = 0.06532: 261.28 by 195.96
    assert_eq!(presize_dimensions(4000, 3000, 50 * 1024), (261, 196));
    // one pixel over the threshold: sqrt(51_200 / 102_720) = 0.70601
    assert_eq!(presize_dimensions(321, 320, 50 * 1024), (227, 226));
}

#[test]
fn presize_with_no_budget_goes_down_to_one_pixel() {
    assert_eq!(presize_dimensions(4000, 3000, 0), (1, 1));
    assert_eq!(presize_dimensions(4000, 3000, 1), (1, 1));
    assert_eq!(presize_dimensions(1, 1, 0), (1, 1));
}

#[test]
fn presize_handles_the_largest_inputs() {
    // plenty of budget: nothing to do
    assert_eq!(presize_dimensions(u32::MAX, u32::MAX, u64::MAX), (u32::MAX, u32::MAX));
    // sqrt(2 * 2^32) = 92681.9
    assert_eq!(presize_dimensions(u32::MAX, u32::MAX, 1 << 33), (92682, 92682));
    // sqrt(2^30 * (2^32 - 1)) is just under 2^31, sqrt(2^30 / (2^32 - 1)) just over one half
    assert_eq!(presize_dimensions(u32::MAX, 1, 1 << 30), (2_147_483_648, 1));
}
