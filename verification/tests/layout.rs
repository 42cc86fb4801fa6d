use comphwde::layout::{compute_layout, Rect, StackSide, TilingConfig};
use comphwde::ratio::Ratio;

const AREA: Rect = Rect { x: 0, y: 0, w: 1920, h: 1080 };

fn ratio(value: f64) -> Ratio {
    Ratio::from_bits(value.to_bits())
}

#[test]
fn zero_windows_produces_nothing() {
    assert!(compute_layout(AREA, 0, &TilingConfig::default()).is_empty());
}

#[test]
fn one_window_fills_the_whole_usable_area() {
    let cfg = TilingConfig { gaps_px: 10, ..Default::default() };
    let rects = compute_layout(AREA, 1, &cfg);
    assert_eq!(rects.len(), 1);
    assert_eq!(rects[0], Rect::new(10, 10, 1900, 1060));
}

#[test]
fn two_windows_split_master_and_one_stack_window() {
    let cfg = TilingConfig { gaps_px: 0, master_ratio: ratio(0.5), stack_side: StackSide::Right };
    let rects = compute_layout(AREA, 2, &cfg);
    assert_eq!(rects.len(), 2);
    assert_eq!(rects[0], Rect::new(0, 0, 960, 1080));
    assert_eq!(rects[1], Rect::new(960, 0, 960, 1080));
}

#[test]
fn stack_windows_are_evenly_divided_and_cover_the_full_height() {
    let cfg = TilingConfig { gaps_px: 0, master_ratio: ratio(0.5), stack_side: StackSide::Right };
    let rects = compute_layout(AREA, 4, &cfg);
    assert_eq!(rects.len(), 4);
    let stack = &rects[1..];
    let total_h: i32 = stack.iter().map(|r| r.h).sum();
    assert_eq!(
        total_h, 1080,
        "stack windows must cover the full height with no gap, no overlap"
    );
    for pair in stack.windows(2) {
        assert_eq!(pair[0].y + pair[0].h, pair[1].y);
    }
}

#[test]
fn gaps_are_applied_between_stack_windows_and_outer_edge() {
    let cfg = TilingConfig { gaps_px: 10, master_ratio: ratio(0.5), stack_side: StackSide::Right };
    let rects = compute_layout(AREA, 3, &cfg);
    assert!(rects.iter().all(|r| r.x >= 10 && r.y >= 10));
    let (a, b) = (rects[1], rects[2]);
    assert_eq!(b.y - (a.y + a.h), 10);
}

#[test]
fn stack_side_left_puts_master_on_the_right() {
    let cfg = TilingConfig { gaps_px: 0, master_ratio: ratio(0.5), stack_side: StackSide::Left };
    let rects = compute_layout(AREA, 2, &cfg);
    assert_eq!(rects[0].x, 960, "master should be on the right when stack_side is Left");
    assert_eq!(rects[1].x, 0, "stack should be on the left when stack_side is Left");
}

#[test]
fn stack_side_bottom_splits_vertically() {
    let cfg = TilingConfig { gaps_px: 0, master_ratio: ratio(0.6), stack_side: StackSide::Bottom };
    let rects = compute_layout(AREA, 2, &cfg);
    assert_eq!(rects[0], Rect::new(0, 0, 1920, 648));
    assert_eq!(rects[1], Rect::new(0, 648, 1920, 432));
}

#[test]
fn ratio_is_clamped_to_a_usable_range() {
    let extreme_low = TilingConfig { master_ratio: ratio(0.0), gaps_px: 0, ..Default::default() };
    let rects = compute_layout(AREA, 2, &extreme_low);
    assert!(
        rects[0].w >= (AREA.w as f64 * 0.1) as i32 - 1,
        "clamped ratio should keep master usably wide"
    );

    let extreme_high = TilingConfig { master_ratio: ratio(5.0), gaps_px: 0, ..Default::default() };
    let rects = compute_layout(AREA, 2, &extreme_high);
    assert!(
        rects[1].w >= (AREA.w as f64 * 0.1) as i32 - 1,
        "clamped ratio should keep stack usably wide"
    );
}

#[test]
fn nan_ratio_falls_back_to_the_default_instead_of_producing_nan_geometry() {
    let cfg = TilingConfig { master_ratio: ratio(f64::NAN), gaps_px: 0, ..Default::default() };
    let rects = compute_layout(AREA, 2, &cfg);
    assert!(rects.iter().all(|r| r.w > 0 && r.h > 0));
}

#[test]
fn tiny_output_degrades_gracefully_instead_of_panicking() {
    let cfg = TilingConfig { gaps_px: 1000, ..Default::default() };
    let rects = compute_layout(Rect::new(0, 0, 100, 100), 3, &cfg);
    assert_eq!(rects.len(), 3);
    assert!(rects.iter().all(|r| r.w >= 0 && r.h >= 0));
}

#[test]
fn many_stacked_windows_still_cover_the_full_area_with_no_overlap() {
    let cfg = TilingConfig { gaps_px: 4, master_ratio: ratio(0.5), stack_side: StackSide::Right };
    let rects = compute_layout(AREA, 9, &cfg);
    assert_eq!(rects.len(), 9);
    let stack = &rects[1..];
    for pair in stack.windows(2) {
        assert!(
            pair[1].y >= pair[0].y + pair[0].h,
            "stack windows must never overlap"
        );
    }
}

#[test]
fn shares_are_rounded_floating_point_products() {
    for value in [0.1, 0.25, 0.33, 0.5, 0.55, 0.6, 0.7, 0.9, 0.123456789] {
        for len in [0, 1, 7, 99, 648, 1080, 1920, 3840, 65535, i32::MAX] {
            assert_eq!(ratio(value).of(len), (len as f64 * value).round() as i32, "{len} * {value}");
        }
    }
}

#[test]
fn ratios_outside_the_range_become_its_bounds() {
    assert_eq!(ratio(-3.0).sanitize(), ratio(0.1));
    assert_eq!(ratio(0.05).sanitize(), ratio(0.1));
    assert_eq!(ratio(0.95).sanitize(), ratio(0.9));
    assert_eq!(ratio(0.42).sanitize(), ratio(0.42));
    assert_eq!(ratio(f64::INFINITY).sanitize(), ratio(0.55));
    assert_eq!(ratio(f64::NAN).sanitize(), ratio(0.55));
}

#[test]
fn an_inset_rectangle_never_gets_a_negative_size() {
    assert_eq!(Rect::new(5, 6, 100, 50).inset(10), Rect::new(15, 16, 80, 30));
    let tiny = Rect::new(0, 0, 10, 10).inset(20);
    assert!(tiny.w >= 0 && tiny.h >= 0);
}

#[test]
fn windows_never_overlap_and_stay_inside() {
    for side in [StackSide::Right, StackSide::Left, StackSide::Bottom, StackSide::Top] {
        for gaps_px in [0, 3, 8] {
            let cfg = TilingConfig { gaps_px, master_ratio: ratio(0.6), stack_side: side };
            let inner = AREA.inset(gaps_px);
            for count in 1..8 {
                let rects = compute_layout(AREA, count, &cfg);
                for (i, a) in rects.iter().enumerate() {
                    assert!(a.x >= inner.x && a.x + a.w <= inner.x + inner.w);
                    assert!(a.y >= inner.y && a.y + a.h <= inner.y + inner.h);
                    for b in &rects[i + 1..] {
                        assert!(
                            a.x + a.w <= b.x
                                || b.x + b.w <= a.x
                                || a.y + a.h <= b.y
                                || b.y + b.h <= a.y
                        );
                    }
                }
            }
        }
    }
}
