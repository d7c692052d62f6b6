use pc_remote::scale::{scale_coordinate, HostDisplayMetrics};

#[test]
fn doubles_positions_for_a_viewport_of_half_the_host_height() {
    let metrics = HostDisplayMetrics::new(2000);
    assert_eq!(metrics.scale((100, 200), 1000), Some((200, 400)));
}

#[test]
fn same_result_when_both_heights_double() {
    let small = HostDisplayMetrics::new(1080);
    let large = HostDisplayMetrics::new(2160);
    for x in [-700, -1, 0, 1, 3, 77, 512, 100_000] {
        for viewport in [1u32, 7, 360, 719, 1080, 4000] {
            assert_eq!(
                small.scale((x, -x), viewport),
                large.scale((x, -x), viewport * 2)
            );
        }
    }
}

#[test]
fn adds_up_where_nothing_is_rounded() {
    let metrics = HostDisplayMetrics::new(1500);
    let a = metrics.scale((20, 40), 500).unwrap();
    let b = metrics.scale((7, -9), 500).unwrap();
    let sum = metrics.scale((27, 31), 500).unwrap();
    assert_eq!((a.0 + b.0, a.1 + b.1), sum);
    assert_eq!(sum, (81, 93));
}

#[test]
fn rounded_sums_stay_within_a_pixel() {
    let metrics = HostDisplayMetrics::new(1);
    // Half a pixel each rounds up to one pixel each, while the whole is one.
    assert_eq!(metrics.scale((1, 1), 2), Some((1, 1)));
    assert_eq!(metrics.scale((2, 2), 2), Some((1, 1)));
}

#[test]
fn rounds_to_the_nearest_pixel_with_halves_away_from_zero() {
    assert_eq!(scale_coordinate(1, 1, 3), 0);
    assert_eq!(scale_coordinate(2, 1, 3), 1);
    assert_eq!(scale_coordinate(1, 1, 2), 1);
    assert_eq!(scale_coordinate(3, 1, 2), 2);
    assert_eq!(scale_coordinate(-1, 1, 2), -1);
    assert_eq!(scale_coordinate(-1, 1, 3), 0);
    assert_eq!(scale_coordinate(-2, 1, 3), -1);
    assert_eq!(scale_coordinate(10, 768, 1024), 8);
    assert_eq!(scale_coordinate(333, 1080, 719), 500);
}

#[test]
fn a_viewport_without_height_has_no_scale() {
    let metrics = HostDisplayMetrics::new(1080);
    assert_eq!(metrics.scale((10, 10), 0), None);
}

#[test]
fn the_farthest_positions_fit() {
    let metrics = HostDisplayMetrics::new(u32::MAX);
    assert_eq!(
        metrics.scale((i32::MAX, i32::MIN), 1),
        Some((
            i32::MAX as i64 * u32::MAX as i64,
            i32::MIN as i64 * u32::MAX as i64
        ))
    );
    assert_eq!(metrics.scale((i32::MAX, i32::MIN), u32::MAX), Some((i32::MAX as i64, i32::MIN as i64)));
}

#[test]
fn a_host_without_height_maps_everything_to_the_origin() {
    let metrics = HostDisplayMetrics::new(0);
    assert_eq!(metrics.scale((123, -456), 300), Some((0, 0)));
}
