use screenforge::canvas::Canvas;
use screenforge::color::Color;
use screenforge::noise::pseudo_noise;
use screenforge::raster::{
    blend_color, blend_pixel, fill_circle, fill_rounded_rect, inside_rounded_rect,
};
use screenforge::resample::{resize_cover, resize_exact};

const RED: Color = Color { r: 255, g: 0, b: 0, a: 255 };

#[test]
fn zero_radius_admits_every_point() {
    assert!(inside_rounded_rect(0, 0, 10, 10, 0));
    assert!(inside_rounded_rect(9, 9, 10, 10, 0));
    assert!(inside_rounded_rect(-5, 100, 10, 10, 0));
    assert!(inside_rounded_rect(3, 7, 10, 10, -4));
}

#[test]
fn corners_are_cut_with_a_radius() {
    assert!(!inside_rounded_rect(0, 0, 100, 100, 20));
    assert!(inside_rounded_rect(50, 0, 100, 100, 20));
    assert!(inside_rounded_rect(0, 50, 100, 100, 20));
    assert!(inside_rounded_rect(50, 50, 100, 100, 20));
}

#[test]
fn blend_with_zero_alpha_keeps_destination_rgb() {
    let dst = Color { r: 10, g: 20, b: 30, a: 77 };
    let src = Color { r: 200, g: 200, b: 200, a: 0 };
    let out = blend_color(dst, src);
    assert_eq!((out.r, out.g, out.b), (10, 20, 30));
    assert_eq!(out.a, 255);
}

#[test]
fn blend_with_full_alpha_takes_source_rgb() {
    let dst = Color { r: 10, g: 20, b: 30, a: 77 };
    let src = Color { r: 200, g: 100, b: 50, a: 255 };
    let out = blend_color(dst, src);
    assert_eq!((out.r, out.g, out.b), (200, 100, 50));
    assert_eq!(out.a, 255);
}

#[test]
fn blend_pixel_ignores_out_of_bounds() {
    let mut c = Canvas::new(4, 4, Color { r: 1, g: 2, b: 3, a: 255 });
    blend_pixel(&mut c, -1, 0, RED);
    blend_pixel(&mut c, 0, -1, RED);
    blend_pixel(&mut c, 4, 0, RED);
    blend_pixel(&mut c, 0, 4, RED);
    for y in 0..4u32 {
        for x in 0..4u32 {
            assert_eq!(c.get_pixel(x, y), Color { r: 1, g: 2, b: 3, a: 255 });
        }
    }
    blend_pixel(&mut c, 2, 3, RED);
    assert_eq!(c.get_pixel(2, 3), RED);
}

#[test]
fn fill_rounded_rect_radius_zero_fills_every_pixel() {
    let mut c = Canvas::new(10, 10, Color { r: 0, g: 0, b: 0, a: 255 });
    fill_rounded_rect(&mut c, 0, 0, 10, 10, 0, RED);
    let mut filled = 0;
    for y in 0..10u32 {
        for x in 0..10u32 {
            if c.get_pixel(x, y) == RED {
                filled += 1;
            }
        }
    }
    assert_eq!(filled, 100);
}

#[test]
fn fill_circle_with_nonpositive_radius_draws_nothing() {
    let base = Color { r: 9, g: 9, b: 9, a: 255 };
    let mut c = Canvas::new(8, 8, base);
    fill_circle(&mut c, 4, 4, 0, RED);
    fill_circle(&mut c, 4, 4, -3, RED);
    for y in 0..8u32 {
        for x in 0..8u32 {
            assert_eq!(c.get_pixel(x, y), base);
        }
    }
    fill_circle(&mut c, 4, 4, 2, RED);
    assert_eq!(c.get_pixel(4, 4), RED);
    assert_eq!(c.get_pixel(0, 0), base);
}

#[test]
fn noise_is_deterministic_and_in_range() {
    for (seed, x, y) in [(1u64, 0u32, 0u32), (42, 17, 93), (u64::MAX, 4096, 1)] {
        let a = pseudo_noise(seed, x, y);
        let b = pseudo_noise(seed, x, y);
        assert_eq!(a, b);
        assert!((-1023..=1023).contains(&a));
    }
    assert_ne!(pseudo_noise(1, 0, 0), pseudo_noise(2, 0, 0));
}

#[test]
fn resize_cover_returns_exactly_the_target_dimensions() {
    for (sw, sh) in [(50u32, 100u32), (100, 50), (7, 7), (1, 64)] {
        let src = Canvas::new(sw, sh, RED);
        let out = resize_cover(&src, 20, 20);
        assert_eq!(out.width(), 20);
        assert_eq!(out.height(), 20);
    }
}

#[test]
fn resize_cover_of_a_uniform_canvas_stays_that_color() {
    let src = Canvas::new(40, 60, RED);
    let out = resize_cover(&src, 16, 16);
    let p = out.get_pixel(8, 8);
    assert!(p.r >= 250 && p.g <= 5 && p.b <= 5);
}

#[test]
fn resize_exact_returns_the_requested_dimensions() {
    let src = Canvas::new(33, 9, RED);
    let out = resize_exact(&src, 12, 34);
    assert_eq!(out.width(), 12);
    assert_eq!(out.height(), 34);
}
