use mdimgedit::ops::canvas::{
    blend_pixels, calculate_anchor_offset, canvas_resize, composite, pad,
};
use mdimgedit::{Anchor, BlendMode, ImgEditError, Milli, PixelBuffer, Rgba};

fn rgba(r: u8, g: u8, b: u8, a: u8) -> Rgba {
    Rgba { r, g, b, a }
}

fn create_test_image(width: u32, height: u32, color: Rgba) -> PixelBuffer {
    PixelBuffer::from_pixel(width, height, color)
}

fn gradient(width: u32, height: u32) -> PixelBuffer {
    let mut img = PixelBuffer::from_pixel(width, height, rgba(0, 0, 0, 255));
    for y in 0..height {
        for x in 0..width {
            img.put_pixel(x, y, rgba(x as u8, y as u8, 128, 255));
        }
    }
    img
}

#[test]
fn canvas_test_pad_all_sides() {
    let img = create_test_image(10, 10, rgba(255, 0, 0, 255));
    let result = pad(&img, 5, 5, 5, 5, rgba(0, 0, 0, 255)).unwrap();

    assert_eq!(result.width(), 20);
    assert_eq!(result.height(), 20);

    assert_eq!(result.get_pixel(0, 0), rgba(0, 0, 0, 255));
    assert_eq!(result.get_pixel(10, 10), rgba(255, 0, 0, 255));
}

#[test]
fn test_pad_asymmetric() {
    let img = create_test_image(10, 10, rgba(255, 0, 0, 255));
    let result = pad(&img, 2, 3, 4, 5, rgba(0, 255, 0, 255)).unwrap();

    assert_eq!(result.width(), 10 + 4 + 5);
    assert_eq!(result.height(), 10 + 2 + 3);
}

#[test]
fn test_pad_transparent() {
    let img = create_test_image(10, 10, rgba(255, 0, 0, 255));
    let result = pad(&img, 5, 5, 5, 5, rgba(0, 0, 0, 0)).unwrap();

    assert_eq!(result.get_pixel(0, 0).a, 0);
}

#[test]
fn canvas_test_canvas_expand() {
    let img = create_test_image(10, 10, rgba(255, 0, 0, 255));
    let result = canvas_resize(&img, 20, 20, Anchor::Center, rgba(0, 0, 0, 255)).unwrap();

    assert_eq!(result.width(), 20);
    assert_eq!(result.height(), 20);

    assert_eq!(result.get_pixel(10, 10), rgba(255, 0, 0, 255));
    assert_eq!(result.get_pixel(0, 0), rgba(0, 0, 0, 255));
}

#[test]
fn canvas_test_canvas_shrink() {
    let img = create_test_image(20, 20, rgba(255, 0, 0, 255));
    let result = canvas_resize(&img, 10, 10, Anchor::Center, rgba(0, 0, 0, 255)).unwrap();

    assert_eq!(result.width(), 10);
    assert_eq!(result.height(), 10);

    assert_eq!(result.get_pixel(5, 5), rgba(255, 0, 0, 255));
}

#[test]
fn test_canvas_anchor_top_left() {
    let img = create_test_image(10, 10, rgba(255, 0, 0, 255));
    let result = canvas_resize(&img, 20, 20, Anchor::TopLeft, rgba(0, 0, 0, 255)).unwrap();

    assert_eq!(result.get_pixel(0, 0), rgba(255, 0, 0, 255));
    assert_eq!(result.get_pixel(15, 15), rgba(0, 0, 0, 255));
}

#[test]
fn test_canvas_anchor_bottom_right() {
    let img = create_test_image(10, 10, rgba(255, 0, 0, 255));
    let result = canvas_resize(&img, 20, 20, Anchor::BottomRight, rgba(0, 0, 0, 255)).unwrap();

    assert_eq!(result.get_pixel(0, 0), rgba(0, 0, 0, 255));
    assert_eq!(result.get_pixel(15, 15), rgba(255, 0, 0, 255));
}

#[test]
fn test_canvas_anchor_remaining_variants() {
    let img = create_test_image(10, 10, rgba(255, 0, 0, 255));
    let anchors = [
        Anchor::TopCenter,
        Anchor::TopRight,
        Anchor::CenterLeft,
        Anchor::CenterRight,
        Anchor::BottomLeft,
        Anchor::BottomCenter,
    ];

    for anchor in anchors {
        let result = canvas_resize(&img, 20, 20, anchor, rgba(0, 0, 0, 255)).unwrap();
        assert_eq!(result.width(), 20);
        assert_eq!(result.height(), 20);
    }
}

#[test]
fn test_blend_mode_overlay() {
    let base = create_test_image(1, 1, rgba(64, 64, 64, 255));
    let overlay = create_test_image(1, 1, rgba(128, 128, 128, 255));

    let result = composite(&base, &overlay, 0, 0, None, Milli(1000), BlendMode::Overlay).unwrap();
    let pixel = result.get_pixel(0, 0).r;
    assert!((pixel as i32 - 64).abs() < 2);

    let base = create_test_image(1, 1, rgba(192, 192, 192, 255));
    let overlay = create_test_image(1, 1, rgba(128, 128, 128, 255));

    let result = composite(&base, &overlay, 0, 0, None, Milli(1000), BlendMode::Overlay).unwrap();
    let pixel = result.get_pixel(0, 0).r;
    assert!((pixel as i32 - 192).abs() < 2);
}

#[test]
fn test_canvas_zero_dimension() {
    let img = create_test_image(10, 10, rgba(255, 0, 0, 255));
    let result = canvas_resize(&img, 0, 10, Anchor::Center, rgba(0, 0, 0, 255));
    assert!(result.is_err());
}

#[test]
fn canvas_test_composite_basic() {
    let base = create_test_image(20, 20, rgba(255, 0, 0, 255));
    let overlay = create_test_image(10, 10, rgba(0, 255, 0, 255));

    let result = composite(&base, &overlay, 5, 5, None, Milli(1000), BlendMode::Normal).unwrap();

    assert_eq!(result.width(), 20);
    assert_eq!(result.height(), 20);

    assert_eq!(result.get_pixel(0, 0), rgba(255, 0, 0, 255));
    assert_eq!(result.get_pixel(10, 10), rgba(0, 255, 0, 255));
}

#[test]
fn canvas_test_composite_with_anchor() {
    let base = create_test_image(20, 20, rgba(255, 0, 0, 255));
    let overlay = create_test_image(10, 10, rgba(0, 255, 0, 255));

    let result = composite(
        &base,
        &overlay,
        0,
        0,
        Some(Anchor::Center),
        Milli(1000),
        BlendMode::Normal,
    )
    .unwrap();

    assert_eq!(result.get_pixel(10, 10), rgba(0, 255, 0, 255));
}

#[test]
fn canvas_test_composite_with_opacity() {
    let base = create_test_image(10, 10, rgba(255, 0, 0, 255));
    let overlay = create_test_image(10, 10, rgba(0, 255, 0, 255));

    let result = composite(&base, &overlay, 0, 0, None, Milli(500), BlendMode::Normal).unwrap();

    let pixel = result.get_pixel(5, 5);
    assert!(pixel.r > 100 && pixel.r < 200);
    assert!(pixel.g > 100 && pixel.g < 200);
}

#[test]
fn test_composite_zero_opacity() {
    let base = create_test_image(10, 10, rgba(255, 0, 0, 255));
    let overlay = create_test_image(10, 10, rgba(0, 255, 0, 255));

    let result = composite(&base, &overlay, 0, 0, None, Milli(0), BlendMode::Normal).unwrap();

    assert_eq!(result.get_pixel(5, 5), rgba(255, 0, 0, 255));
}

#[test]
fn test_composite_invalid_opacity() {
    let base = create_test_image(10, 10, rgba(255, 0, 0, 255));
    let overlay = create_test_image(10, 10, rgba(0, 255, 0, 255));

    assert!(composite(&base, &overlay, 0, 0, None, Milli(1500), BlendMode::Normal).is_err());
    assert!(composite(&base, &overlay, 0, 0, None, Milli(-500), BlendMode::Normal).is_err());
}

#[test]
fn test_composite_overlay_clipped() {
    let base = create_test_image(10, 10, rgba(255, 0, 0, 255));
    let overlay = create_test_image(10, 10, rgba(0, 255, 0, 255));

    let result = composite(&base, &overlay, 5, 5, None, Milli(1000), BlendMode::Normal).unwrap();

    assert_eq!(result.get_pixel(0, 0), rgba(255, 0, 0, 255));
    assert_eq!(result.get_pixel(8, 8), rgba(0, 255, 0, 255));
}

#[test]
fn test_blend_mode_multiply() {
    let base = create_test_image(1, 1, rgba(255, 255, 255, 255));
    let overlay = create_test_image(1, 1, rgba(128, 128, 128, 255));

    let result = composite(&base, &overlay, 0, 0, None, Milli(1000), BlendMode::Multiply).unwrap();
    let pixel = result.get_pixel(0, 0);
    assert!(pixel.r > 120 && pixel.r < 136);
}

#[test]
fn test_blend_mode_screen() {
    let base = create_test_image(1, 1, rgba(0, 0, 0, 255));
    let overlay = create_test_image(1, 1, rgba(128, 128, 128, 255));

    let result = composite(&base, &overlay, 0, 0, None, Milli(1000), BlendMode::Screen).unwrap();
    let pixel = result.get_pixel(0, 0);
    assert!(pixel.r > 120 && pixel.r < 136);
}

#[test]
fn test_pad_keeps_the_image_inside_and_colors_the_margins() {
    let img = gradient(10, 10);
    let color = rgba(9, 8, 7, 6);
    let out = pad(&img, 5, 5, 5, 5, color).unwrap();
    assert_eq!((out.width(), out.height()), (20, 20));
    assert_eq!(out.get_pixel(0, 0), color);
    assert_eq!(out.get_pixel(10, 10), img.get_pixel(5, 5));
    assert_eq!(out.get_pixel(5, 5), img.get_pixel(0, 0));
    for y in 0..20u32 {
        for x in 0..20u32 {
            let inside = (5..15).contains(&x) && (5..15).contains(&y);
            let expected = if inside { img.get_pixel(x - 5, y - 5) } else { color };
            assert_eq!(out.get_pixel(x, y), expected);
        }
    }
}

#[test]
fn test_pad_each_side_alone() {
    let img = gradient(3, 2);
    let c = rgba(1, 2, 3, 4);
    let out = pad(&img, 1, 0, 0, 0, c).unwrap();
    assert_eq!((out.width(), out.height()), (3, 3));
    assert_eq!(out.get_pixel(2, 0), c);
    assert_eq!(out.get_pixel(2, 1), img.get_pixel(2, 0));
    let out = pad(&img, 0, 0, 2, 0, c).unwrap();
    assert_eq!((out.width(), out.height()), (5, 2));
    assert_eq!(out.get_pixel(1, 1), c);
    assert_eq!(out.get_pixel(2, 1), img.get_pixel(0, 1));
    let out = pad(&img, 0, 0, 0, 0, c).unwrap();
    assert_eq!(out.to_raw(), img.to_raw());
}

#[test]
fn test_pad_to_nothing_is_refused() {
    let empty = PixelBuffer::from_pixel(0, 0, rgba(0, 0, 0, 0));
    match pad(&empty, 0, 0, 3, 3, rgba(0, 0, 0, 255)) {
        Err(ImgEditError::InvalidDimensions(m)) => {
            assert_eq!(m, "Resulting image dimensions would be zero")
        }
        other => panic!("expected InvalidDimensions, got {:?}", other.map(|_| ())),
    }
    let out = pad(&empty, 1, 1, 1, 1, rgba(5, 5, 5, 5)).unwrap();
    assert_eq!((out.width(), out.height()), (2, 2));
    assert_eq!(out.get_pixel(1, 1), rgba(5, 5, 5, 5));
}

#[test]
fn test_canvas_bottom_right_places_red_at_15_15() {
    let red = rgba(255, 0, 0, 255);
    let black = rgba(0, 0, 0, 255);
    let img = create_test_image(10, 10, red);
    let out = canvas_resize(&img, 20, 20, Anchor::BottomRight, black).unwrap();
    assert_eq!(out.get_pixel(15, 15), red);
    assert_eq!(out.get_pixel(0, 0), black);
    assert_eq!(out.get_pixel(9, 15), black);
    assert_eq!(out.get_pixel(10, 10), red);
}

#[test]
fn test_canvas_shrink_drops_what_falls_outside() {
    let img = gradient(20, 20);
    let out = canvas_resize(&img, 10, 10, Anchor::Center, rgba(0, 0, 0, 0)).unwrap();
    for y in 0..10u32 {
        for x in 0..10u32 {
            assert_eq!(out.get_pixel(x, y), img.get_pixel(x + 5, y + 5));
        }
    }
    let out = canvas_resize(&img, 4, 30, Anchor::TopRight, rgba(1, 1, 1, 1)).unwrap();
    assert_eq!(out.get_pixel(0, 0), img.get_pixel(16, 0));
    assert_eq!(out.get_pixel(3, 19), img.get_pixel(19, 19));
    assert_eq!(out.get_pixel(3, 20), rgba(1, 1, 1, 1));
}

#[test]
fn test_canvas_zero_message() {
    let img = create_test_image(2, 2, rgba(0, 0, 0, 0));
    for (w, h) in [(0, 10), (10, 0), (0, 0)] {
        match canvas_resize(&img, w, h, Anchor::Center, rgba(0, 0, 0, 255)) {
            Err(ImgEditError::InvalidDimensions(m)) => {
                assert_eq!(m, "Canvas dimensions must be positive")
            }
            other => panic!("expected InvalidDimensions, got {:?}", other.map(|_| ())),
        }
    }
}

#[test]
fn test_anchor_offsets() {
    assert_eq!(calculate_anchor_offset(20, 30, 10, 10, Anchor::TopLeft), (0, 0));
    assert_eq!(calculate_anchor_offset(20, 30, 10, 10, Anchor::TopCenter), (5, 0));
    assert_eq!(calculate_anchor_offset(20, 30, 10, 10, Anchor::TopRight), (10, 0));
    assert_eq!(calculate_anchor_offset(20, 30, 10, 10, Anchor::CenterLeft), (0, 10));
    assert_eq!(calculate_anchor_offset(20, 30, 10, 10, Anchor::Center), (5, 10));
    assert_eq!(calculate_anchor_offset(20, 30, 10, 10, Anchor::CenterRight), (10, 10));
    assert_eq!(calculate_anchor_offset(20, 30, 10, 10, Anchor::BottomLeft), (0, 20));
    assert_eq!(calculate_anchor_offset(20, 30, 10, 10, Anchor::BottomCenter), (5, 20));
    assert_eq!(calculate_anchor_offset(20, 30, 10, 10, Anchor::BottomRight), (10, 20));
}

#[test]
fn test_anchor_offset_of_larger_content_is_negative_and_floored() {
    assert_eq!(calculate_anchor_offset(10, 10, 20, 20, Anchor::Center), (-5, -5));
    assert_eq!(calculate_anchor_offset(10, 10, 15, 13, Anchor::Center), (-3, -2));
    assert_eq!(calculate_anchor_offset(10, 10, 15, 13, Anchor::BottomRight), (-5, -3));
    assert_eq!(calculate_anchor_offset(11, 11, 10, 10, Anchor::Center), (0, 0));
    assert_eq!(
        calculate_anchor_offset(0, 0, u32::MAX, u32::MAX, Anchor::BottomRight),
        (-(u32::MAX as i64), -(u32::MAX as i64))
    );
    assert_eq!(
        calculate_anchor_offset(u32::MAX, 0, 0, 0, Anchor::Center),
        ((u32::MAX / 2) as i64, 0)
    );
}

#[test]
fn test_composite_half_opacity_white_under_black() {
    let base = create_test_image(10, 10, rgba(255, 255, 255, 255));
    let overlay = create_test_image(10, 10, rgba(0, 0, 0, 255));
    let out = composite(&base, &overlay, 0, 0, None, Milli(500), BlendMode::Normal).unwrap();
    for y in 0..10u32 {
        for x in 0..10u32 {
            let p = out.get_pixel(x, y);
            assert!(p.r > 100 && p.r < 200);
            assert!(p.g > 100 && p.g < 200);
            assert!(p.b > 100 && p.b < 200);
            assert_eq!(p, rgba(128, 128, 128, 255));
        }
    }
}

#[test]
fn test_composite_zero_opacity_is_identity_for_every_mode() {
    let base = gradient(7, 5);
    let overlay = create_test_image(4, 9, rgba(200, 100, 50, 255));
    for mode in [
        BlendMode::Normal,
        BlendMode::Multiply,
        BlendMode::Screen,
        BlendMode::Overlay,
    ] {
        for anchor in [None, Some(Anchor::Center), Some(Anchor::BottomRight)] {
            let out = composite(&base, &overlay, -2, 3, anchor, Milli(0), mode).unwrap();
            assert_eq!(out.to_raw(), base.to_raw());
        }
    }
}

#[test]
fn test_composite_anchor_goes_before_coordinates() {
    let base = create_test_image(20, 20, rgba(255, 0, 0, 255));
    let overlay = create_test_image(10, 10, rgba(0, 255, 0, 255));
    let out = composite(
        &base,
        &overlay,
        100,
        100,
        Some(Anchor::TopLeft),
        Milli(1000),
        BlendMode::Normal,
    )
    .unwrap();
    assert_eq!(out.get_pixel(0, 0), rgba(0, 255, 0, 255));
    assert_eq!(out.get_pixel(9, 9), rgba(0, 255, 0, 255));
    assert_eq!(out.get_pixel(10, 10), rgba(255, 0, 0, 255));
}

#[test]
fn test_composite_outside_and_negative_positions() {
    let base = gradient(10, 10);
    let overlay = create_test_image(10, 10, rgba(0, 255, 0, 255));
    let out = composite(&base, &overlay, 50, 50, None, Milli(1000), BlendMode::Normal).unwrap();
    assert_eq!(out.to_raw(), base.to_raw());
    let out = composite(&base, &overlay, -8, -8, None, Milli(1000), BlendMode::Normal).unwrap();
    assert_eq!(out.get_pixel(1, 1), rgba(0, 255, 0, 255));
    assert_eq!(out.get_pixel(2, 2), base.get_pixel(2, 2));
    assert_eq!(out.get_pixel(1, 2), base.get_pixel(1, 2));
    let out = composite(
        &base,
        &overlay,
        i32::MIN,
        i32::MAX,
        None,
        Milli(1000),
        BlendMode::Normal,
    )
    .unwrap();
    assert_eq!(out.to_raw(), base.to_raw());
}

#[test]
fn test_composite_opacity_messages() {
    let base = create_test_image(1, 1, rgba(0, 0, 0, 255));
    match composite(&base, &base, 0, 0, None, Milli(1500), BlendMode::Normal) {
        Err(ImgEditError::InvalidParameter(m)) => {
            assert_eq!(m, "Opacity must be between 0.0 and 1.0, got 1.5")
        }
        other => panic!("expected InvalidParameter, got {:?}", other.map(|_| ())),
    }
    match composite(&base, &base, 0, 0, None, Milli(-1), BlendMode::Normal) {
        Err(ImgEditError::InvalidParameter(m)) => {
            assert_eq!(m, "Opacity must be between 0.0 and 1.0, got -0.001")
        }
        other => panic!("expected InvalidParameter, got {:?}", other.map(|_| ())),
    }
    assert!(composite(&base, &base, 0, 0, None, Milli(1000), BlendMode::Normal).is_ok());
    assert!(composite(&base, &base, 0, 0, None, Milli(1001), BlendMode::Normal).is_err());
}

#[test]
fn test_blend_pixels_exact_values() {
    let full = Milli(1000);
    // multiply: 200 * 100 / 255 = 78.43
    assert_eq!(
        blend_pixels(rgba(200, 255, 0, 255), rgba(100, 128, 77, 255), full, BlendMode::Multiply),
        rgba(78, 128, 0, 255)
    );
    // screen: 255 - 55 * 155 / 255 = 221.57
    assert_eq!(
        blend_pixels(rgba(200, 0, 255, 255), rgba(100, 128, 3, 255), full, BlendMode::Screen),
        rgba(222, 128, 255, 255)
    );
    // overlay: below 128, 2 * 64 * 128 / 255 = 64.25; else 255 - 2 * 63 * 127 / 255 = 192.25
    assert_eq!(
        blend_pixels(rgba(64, 192, 127, 255), rgba(128, 128, 255, 255), full, BlendMode::Overlay),
        rgba(64, 192, 254, 255)
    );
    assert_eq!(
        blend_pixels(rgba(128, 128, 128, 255), rgba(0, 0, 0, 255), full, BlendMode::Overlay),
        rgba(1, 1, 1, 255)
    );
    // half opacity over an opaque base: t = 1/2
    assert_eq!(
        blend_pixels(rgba(255, 0, 10, 255), rgba(0, 255, 20, 255), Milli(500), BlendMode::Normal),
        rgba(128, 128, 15, 255)
    );
    // over a transparent base the overlay's color is kept and the alpha is its own share
    assert_eq!(
        blend_pixels(rgba(9, 9, 9, 0), rgba(100, 150, 200, 255), Milli(500), BlendMode::Normal),
        rgba(100, 150, 200, 128)
    );
    // both half transparent: alpha 0.5 + 0.5 * 0.5 = 0.75, t = 2/3
    assert_eq!(
        blend_pixels(rgba(0, 0, 0, 128), rgba(255, 255, 255, 128), full, BlendMode::Normal),
        rgba(170, 170, 170, 192)
    );
}

#[test]
fn test_blend_pixels_below_a_thousandth_keeps_the_base() {
    let base = rgba(1, 2, 3, 4);
    assert_eq!(
        blend_pixels(base, rgba(255, 255, 255, 0), Milli(1000), BlendMode::Normal),
        base
    );
    assert_eq!(
        blend_pixels(base, rgba(255, 255, 255, 254), Milli(1), BlendMode::Normal),
        base
    );
    assert_ne!(
        blend_pixels(base, rgba(255, 255, 255, 255), Milli(1), BlendMode::Normal),
        base
    );
}

#[test]
fn test_blend_matches_the_real_valued_formula() {
    let samples = [0u8, 1, 63, 127, 128, 200, 254, 255];
    for mode in [
        BlendMode::Normal,
        BlendMode::Multiply,
        BlendMode::Screen,
        BlendMode::Overlay,
    ] {
        for &b in &samples {
            for &o in &samples {
                for &(ba, oa, p) in &[(255u8, 255u8, 1000i64), (255, 128, 700), (100, 200, 333)] {
                    let out = blend_pixels(rgba(b, b, b, ba), rgba(o, o, o, oa), Milli(p), mode);
                    let (bf, of) = (b as f64, o as f64);
                    let m = match mode {
                        BlendMode::Normal => of,
                        BlendMode::Multiply => bf * of / 255.0,
                        BlendMode::Screen => 255.0 - (255.0 - bf) * (255.0 - of) / 255.0,
                        BlendMode::Overlay => {
                            if bf < 128.0 {
                                2.0 * bf * of / 255.0
                            } else {
                                255.0 - 2.0 * (255.0 - bf) * (255.0 - of) / 255.0
                            }
                        }
                    };
                    let e = oa as f64 / 255.0 * (p as f64 / 1000.0);
                    let alpha = e + ba as f64 / 255.0 * (1.0 - e);
                    let t = e / alpha;
                    let channel = bf + (m - bf) * t;
                    assert!((out.r as f64 - channel).abs() <= 0.5 + 1e-6);
                    assert!((out.a as f64 - alpha * 255.0).abs() <= 0.5 + 1e-6);
                    assert_eq!(out.r, out.g);
                    assert_eq!(out.g, out.b);
                }
            }
        }
    }
}
