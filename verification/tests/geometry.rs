use watermark::error::ItemFailure;
use watermark::geometry::{
    bottom_right_position, max1, resolve_geometry, scaled_width, Geometry, PlacementRect,
};
use watermark::ratio::{clamp01, Ratio};

fn ratio(num: i32, den: u32) -> Ratio {
    Ratio::new(num, den).expect("positive denominator")
}

#[test]
fn ratio_rejects_zero_denominator() {
    assert!(Ratio::new(1, 0).is_none());
    assert!(Ratio::new(0, 0).is_none());
    let r = Ratio::new(-3, 7).unwrap();
    assert_eq!(r.numerator(), -3);
    assert_eq!(r.denominator(), 7);
}

#[test]
fn ratio_zero_and_one() {
    assert_eq!((Ratio::zero().numerator(), Ratio::zero().denominator()), (0, 1));
    assert_eq!((Ratio::one().numerator(), Ratio::one().denominator()), (1, 1));
}

#[test]
fn clamp01_brings_out_of_range_to_the_nearer_end() {
    let below = clamp01(ratio(-5, 10));
    assert_eq!((below.numerator(), below.denominator()), (0, 10));
    let above = clamp01(ratio(25, 10));
    assert_eq!((above.numerator(), above.denominator()), (10, 10));
    let inside = clamp01(ratio(3, 10));
    assert_eq!((inside.numerator(), inside.denominator()), (3, 10));
    let edge_low = clamp01(ratio(0, 4));
    assert_eq!((edge_low.numerator(), edge_low.denominator()), (0, 4));
    let edge_high = clamp01(ratio(4, 4));
    assert_eq!((edge_high.numerator(), edge_high.denominator()), (4, 4));
}

#[test]
fn clamp01_is_idempotent() {
    for num in [-7, 0, 1, 5, 9, 10, 11, 1000] {
        let once = clamp01(ratio(num, 10));
        let twice = clamp01(once);
        assert_eq!(once.numerator(), twice.numerator());
        assert_eq!(once.denominator(), twice.denominator());
    }
}

#[test]
fn clamp01_with_huge_denominator() {
    let r = clamp01(ratio(i32::MAX, u32::MAX));
    assert_eq!((r.numerator(), r.denominator()), (i32::MAX, u32::MAX));
    let s = clamp01(ratio(i32::MAX, 3));
    assert_eq!((s.numerator(), s.denominator()), (3, 3));
}

#[test]
fn max1_raises_zero_only() {
    assert_eq!(max1(0), 1);
    assert_eq!(max1(1), 1);
    assert_eq!(max1(2), 2);
    assert_eq!(max1(u32::MAX), u32::MAX);
}

#[test]
fn bottom_right_position_subtracts_size_and_margin() {
    assert_eq!(bottom_right_position(800, 600, 160, 80, 20), (620, 500));
    assert_eq!(bottom_right_position(100, 100, 10, 10, 0), (90, 90));
    assert_eq!(bottom_right_position(100, 50, 100, 50, 0), (0, 0));
}

#[test]
fn bottom_right_position_saturates_at_zero() {
    assert_eq!(bottom_right_position(100, 100, 200, 300, 20), (0, 0));
    assert_eq!(bottom_right_position(100, 100, 90, 10, 20), (0, 70));
    assert_eq!(bottom_right_position(10, 10, u32::MAX, u32::MAX, u32::MAX), (0, 0));
    assert_eq!(bottom_right_position(0, 0, 1, 1, 0), (0, 0));
}

#[test]
fn scaled_width_rounds_to_nearest() {
    let fifth = ratio(1, 5);
    assert_eq!(scaled_width(800, fifth), 160);
    assert_eq!(scaled_width(7, fifth), 1); // 1.4
    assert_eq!(scaled_width(12, fifth), 2); // 2.4
    assert_eq!(scaled_width(13, fifth), 3); // 2.6
    assert_eq!(scaled_width(1000, ratio(1, 3)), 333); // 333.33
    assert_eq!(scaled_width(1001, ratio(2, 3)), 667); // 667.33
}

#[test]
fn scaled_width_rounds_halves_up() {
    assert_eq!(scaled_width(5, ratio(1, 2)), 3); // 2.5
    assert_eq!(scaled_width(15, ratio(1, 10)), 2); // 1.5
    assert_eq!(scaled_width(25, ratio(1, 10)), 3); // 2.5
}

#[test]
fn scaled_width_is_at_least_one_pixel() {
    assert_eq!(scaled_width(1, ratio(1, 5)), 1); // 0.2
    assert_eq!(scaled_width(2, ratio(1, 5)), 1); // 0.4
    assert_eq!(scaled_width(100, ratio(0, 5)), 1);
    assert_eq!(scaled_width(100, ratio(-3, 5)), 1);
    assert_eq!(scaled_width(0, ratio(1, 5)), 1);
}

#[test]
fn scaled_width_is_capped() {
    assert_eq!(scaled_width(u32::MAX, ratio(1, 1)), u32::MAX);
    assert_eq!(scaled_width(u32::MAX, ratio(2, 1)), u32::MAX);
    assert_eq!(scaled_width(u32::MAX, ratio(i32::MAX, 1)), u32::MAX);
    assert_eq!(scaled_width(u32::MAX, ratio(1, 5)), 858_993_459);
}

/// The scaled height for a watermark scaled to the full width of the base.
fn height_at_width(width: u32, wm_w: u32, wm_h: u32) -> u32 {
    let g = resolve_geometry(width, 1, wm_w, wm_h, ratio(1, 1), 0).unwrap();
    assert_eq!(g.scaled_width, width);
    g.scaled_height
}

#[test]
fn scaled_height_keeps_aspect_ratio() {
    assert_eq!(height_at_width(160, 300, 150), 80);
    assert_eq!(height_at_width(160, 150, 300), 320);
    assert_eq!(height_at_width(10, 3, 1), 3); // 3.33
    assert_eq!(height_at_width(10, 4, 1), 3); // 2.5 goes up
    assert_eq!(height_at_width(1, 1000, 1), 1); // 0.001, at least one pixel
    assert_eq!(height_at_width(u32::MAX, 1, u32::MAX), u32::MAX);
}

#[test]
fn resolve_geometry_example() {
    // base 800x600, watermark 300x150, a fifth of the width, margin 20
    let g = resolve_geometry(800, 600, 300, 150, ratio(1, 5), 20).unwrap();
    assert_eq!(g.scaled_width, 160);
    assert_eq!(g.scaled_height, 80);
    assert_eq!(g.rect, PlacementRect { x: 620, y: 500, width: 160, height: 80 });
}

#[test]
fn resolve_geometry_rejects_zero_sizes() {
    let r = ratio(1, 5);
    assert_eq!(resolve_geometry(0, 600, 300, 150, r, 20), Err(ItemFailure::InvalidGeometry));
    assert_eq!(resolve_geometry(800, 600, 0, 150, r, 20), Err(ItemFailure::InvalidGeometry));
    assert_eq!(resolve_geometry(800, 600, 300, 0, r, 20), Err(ItemFailure::InvalidGeometry));
    assert_eq!(resolve_geometry(0, 0, 0, 0, r, 0), Err(ItemFailure::InvalidGeometry));
}

#[test]
fn resolve_geometry_accepts_zero_height_base() {
    let g = resolve_geometry(100, 0, 10, 10, ratio(1, 5), 5).unwrap();
    assert_eq!(
        g,
        Geometry {
            scaled_width: 20,
            scaled_height: 20,
            rect: PlacementRect { x: 75, y: 0, width: 20, height: 0 },
        }
    );
}

#[test]
fn resolve_geometry_clamps_oversized_watermark_to_origin() {
    // a tall watermark: 20 wide on a 100x30 base becomes 20x200
    let g = resolve_geometry(100, 30, 10, 100, ratio(1, 5), 4).unwrap();
    assert_eq!(g.scaled_width, 20);
    assert_eq!(g.scaled_height, 200);
    assert_eq!(g.rect, PlacementRect { x: 76, y: 0, width: 20, height: 30 });
    // a ratio above one makes the watermark wider than the base
    let wide = resolve_geometry(100, 100, 10, 10, ratio(3, 1), 0).unwrap();
    assert_eq!(wide.scaled_width, 300);
    assert_eq!(wide.scaled_height, 300);
    assert_eq!(wide.rect, PlacementRect { x: 0, y: 0, width: 100, height: 100 });
}

#[test]
fn resolve_geometry_margin_larger_than_base() {
    let g = resolve_geometry(50, 40, 10, 10, ratio(1, 5), 1000).unwrap();
    assert_eq!(g.scaled_width, 10);
    assert_eq!(g.scaled_height, 10);
    assert_eq!(g.rect, PlacementRect { x: 0, y: 0, width: 10, height: 10 });
}

#[test]
fn placement_rect_always_inside_base() {
    let ratios = [ratio(1, 5), ratio(1, 1), ratio(7, 2), ratio(0, 1), ratio(-1, 2)];
    let sizes = [1u32, 2, 3, 10, 99, 640, 4096];
    let margins = [0u32, 1, 20, 5000, u32::MAX];
    for r in ratios {
        for bw in sizes {
            for bh in sizes {
                for (ww, wh) in [(1u32, 1u32), (300, 150), (1, 4000), (4000, 1)] {
                    for m in margins {
                        let g = resolve_geometry(bw, bh, ww, wh, r, m).unwrap();
                        assert!(g.scaled_width >= 1 && g.scaled_height >= 1);
                        assert!(g.rect.x as u64 + g.rect.width as u64 <= bw as u64);
                        assert!(g.rect.y as u64 + g.rect.height as u64 <= bh as u64);
                        if g.scaled_width as u64 + m as u64 >= bw as u64 {
                            assert_eq!(g.rect.x, 0);
                        }
                        if g.scaled_height as u64 + m as u64 >= bh as u64 {
                            assert_eq!(g.rect.y, 0);
                        }
                    }
                }
            }
        }
    }
}
