use mdimgedit::ops::adjust::{
    adjust_channel, brightness, contrast, contrast_channel, gamma, GammaTable,
};
use mdimgedit::{ImgEditError, Milli, PixelBuffer, Rgba};

fn solid(width: u32, height: u32, r: u8, g: u8, b: u8, a: u8) -> PixelBuffer {
    PixelBuffer::from_pixel(width, height, Rgba { r, g, b, a })
}

fn create_test_image() -> PixelBuffer {
    solid(10, 10, 128, 128, 128, 255)
}

fn create_gray_image(value: u8) -> PixelBuffer {
    solid(1, 1, value, value, value, 255)
}

fn gamma_table(value: f64) -> GammaTable {
    let entries: Vec<u8> = (0..=255)
        .map(|i| {
            let normalized = i as f64 / 255.0;
            let corrected = normalized.powf(value);
            (corrected * 255.0).round().clamp(0.0, 255.0) as u8
        })
        .collect();
    GammaTable::new(entries).unwrap()
}

#[test]
fn adjust_test_brightness_increase() {
    let img = create_gray_image(100);
    let result = brightness(&img, 50).unwrap();
    let pixel = result.get_pixel(0, 0);
    assert_eq!(pixel.r, 150);
}

#[test]
fn adjust_test_brightness_decrease() {
    let img = create_gray_image(100);
    let result = brightness(&img, -50).unwrap();
    let pixel = result.get_pixel(0, 0);
    assert_eq!(pixel.r, 50);
}

#[test]
fn test_brightness_clamp_high() {
    let img = create_gray_image(200);
    let result = brightness(&img, 100).unwrap();
    let pixel = result.get_pixel(0, 0);
    assert_eq!(pixel.r, 255);
}

#[test]
fn test_brightness_clamp_low() {
    let img = create_gray_image(50);
    let result = brightness(&img, -100).unwrap();
    let pixel = result.get_pixel(0, 0);
    assert_eq!(pixel.r, 0);
}

#[test]
fn test_brightness_preserves_alpha() {
    let img = solid(1, 1, 128, 128, 128, 100);
    let result = brightness(&img, 50).unwrap();
    let pixel = result.get_pixel(0, 0);
    assert_eq!(pixel.a, 100);
}

#[test]
fn test_brightness_invalid_value() {
    let img = create_test_image();
    assert!(brightness(&img, 300).is_err());
    assert!(brightness(&img, -300).is_err());
}

#[test]
fn adjust_test_contrast_increase() {
    let img = create_gray_image(200);
    let result = contrast(&img, Milli(2000)).unwrap();
    let pixel = result.get_pixel(0, 0);
    assert_eq!(pixel.r, 255);
}

#[test]
fn adjust_test_contrast_decrease() {
    let img = create_gray_image(200);
    let result = contrast(&img, Milli(500)).unwrap();
    let pixel = result.get_pixel(0, 0);
    assert_eq!(pixel.r, 164);
}

#[test]
fn test_contrast_no_change_at_midpoint() {
    let img = create_gray_image(128);
    let result = contrast(&img, Milli(2000)).unwrap();
    let pixel = result.get_pixel(0, 0);
    assert_eq!(pixel.r, 128);
}

#[test]
fn test_contrast_invalid_value() {
    let img = create_test_image();
    assert!(contrast(&img, Milli(-500)).is_err());
    assert!(contrast(&img, Milli(15000)).is_err());
}

#[test]
fn adjust_test_gamma_lighten() {
    let img = create_gray_image(128);
    let result = gamma(&img, Milli(500), &gamma_table(0.5)).unwrap();
    let pixel = result.get_pixel(0, 0);
    assert!(pixel.r > 128);
}

#[test]
fn adjust_test_gamma_darken() {
    let img = create_gray_image(128);
    let result = gamma(&img, Milli(2000), &gamma_table(2.0)).unwrap();
    let pixel = result.get_pixel(0, 0);
    assert!(pixel.r < 128);
}

#[test]
fn test_gamma_no_change() {
    let img = create_gray_image(128);
    let result = gamma(&img, Milli(1000), &gamma_table(1.0)).unwrap();
    let pixel = result.get_pixel(0, 0);
    assert_eq!(pixel.r, 128);
}

#[test]
fn test_gamma_preserves_extremes() {
    let img = create_gray_image(0);
    let result = gamma(&img, Milli(500), &gamma_table(0.5)).unwrap();
    assert_eq!(result.get_pixel(0, 0).r, 0);

    let img = create_gray_image(255);
    let result = gamma(&img, Milli(500), &gamma_table(0.5)).unwrap();
    assert_eq!(result.get_pixel(0, 0).r, 255);
}

#[test]
fn test_gamma_invalid_value() {
    let img = create_test_image();
    assert!(gamma(&img, Milli(0), &GammaTable::identity()).is_err());
    assert!(gamma(&img, Milli(15000), &GammaTable::identity()).is_err());
}

#[test]
fn test_brightness_range_is_inclusive_and_messages_name_the_value() {
    let img = create_gray_image(10);
    assert_eq!(brightness(&img, 255).unwrap().get_pixel(0, 0).r, 255);
    assert_eq!(brightness(&img, -255).unwrap().get_pixel(0, 0).r, 0);
    assert_eq!(brightness(&img, 0).unwrap().get_pixel(0, 0).r, 10);
    match brightness(&img, 256) {
        Err(ImgEditError::InvalidParameter(m)) => {
            assert_eq!(m, "Brightness value must be between -255 and 255, got 256")
        }
        other => panic!("expected InvalidParameter, got {:?}", other.map(|_| ())),
    }
    match brightness(&img, -300) {
        Err(ImgEditError::InvalidParameter(m)) => {
            assert_eq!(m, "Brightness value must be between -255 and 255, got -300")
        }
        other => panic!("expected InvalidParameter, got {:?}", other.map(|_| ())),
    }
}

#[test]
fn test_adjust_channel_formula() {
    assert_eq!(adjust_channel(100, 50), 150);
    assert_eq!(adjust_channel(0, -1), 0);
    assert_eq!(adjust_channel(255, 1), 255);
    assert_eq!(adjust_channel(255, -255), 0);
    assert_eq!(adjust_channel(0, 255), 255);
}

#[test]
fn test_contrast_channel_formula() {
    assert_eq!(contrast_channel(200, Milli(500)), 164);
    assert_eq!(contrast_channel(200, Milli(2000)), 255);
    assert_eq!(contrast_channel(100, Milli(2000)), 72);
    assert_eq!(contrast_channel(0, Milli(10000)), 0);
    assert_eq!(contrast_channel(77, Milli(0)), 128);
    assert_eq!(contrast_channel(77, Milli(1000)), 77);
    // (129 - 128) * 1.5 + 128 = 129.5, and (127 - 128) * 1.5 + 128 = 126.5
    assert_eq!(contrast_channel(129, Milli(1500)), 130);
    assert_eq!(contrast_channel(127, Milli(1500)), 127);
}

#[test]
fn test_channel_helpers_take_any_parameter() {
    assert_eq!(adjust_channel(0, i32::MAX), 255);
    assert_eq!(adjust_channel(255, i32::MIN), 0);
    assert_eq!(contrast_channel(129, Milli(i64::MAX)), 255);
    assert_eq!(contrast_channel(127, Milli(i64::MAX)), 0);
    assert_eq!(contrast_channel(128, Milli(i64::MIN)), 128);
    assert_eq!(contrast_channel(0, Milli(-1000)), 255);
    assert_eq!(contrast_channel(200, Milli(-1000)), 56);
}

#[test]
fn test_contrast_keeps_the_midpoint_for_every_factor() {
    for factor in [0, 1, 499, 1000, 2500, 9999, 10000] {
        assert_eq!(contrast_channel(128, Milli(factor)), 128);
    }
}

#[test]
fn test_contrast_matches_the_floating_point_formula() {
    for factor in [0i64, 250, 500, 1000, 1500, 2000, 10000] {
        for value in 0..=255u8 {
            let expected = ((value as f64 - 128.0) * (factor as f64 / 1000.0) + 128.0)
                .round()
                .clamp(0.0, 255.0) as u8;
            assert_eq!(contrast_channel(value, Milli(factor)), expected);
        }
    }
}

#[test]
fn test_contrast_messages_name_the_value() {
    let img = create_gray_image(10);
    match contrast(&img, Milli(-500)) {
        Err(ImgEditError::InvalidParameter(m)) => {
            assert_eq!(m, "Contrast value must be between 0.0 and 10.0, got -0.5")
        }
        other => panic!("expected InvalidParameter, got {:?}", other.map(|_| ())),
    }
    match contrast(&img, Milli(15000)) {
        Err(ImgEditError::InvalidParameter(m)) => {
            assert_eq!(m, "Contrast value must be between 0.0 and 10.0, got 15")
        }
        other => panic!("expected InvalidParameter, got {:?}", other.map(|_| ())),
    }
    match gamma(&img, Milli(10010), &GammaTable::identity()) {
        Err(ImgEditError::InvalidParameter(m)) => {
            assert_eq!(m, "Gamma value must be between 0.1 and 10.0, got 10.01")
        }
        other => panic!("expected InvalidParameter, got {:?}", other.map(|_| ())),
    }
}

#[test]
fn test_gamma_identity_table_gives_the_image_back() {
    let mut img = PixelBuffer::from_pixel(16, 16, Rgba { r: 0, g: 0, b: 0, a: 7 });
    for y in 0..16u32 {
        for x in 0..16u32 {
            let v = (y * 16 + x) as u8;
            img.put_pixel(x, y, Rgba { r: v, g: 255 - v, b: v / 2, a: v });
        }
    }
    let out = gamma(&img, Milli(1000), &GammaTable::identity()).unwrap();
    assert_eq!(out.to_raw(), img.to_raw());
    let out = gamma(&img, Milli(1000), &gamma_table(1.0)).unwrap();
    assert_eq!(out.to_raw(), img.to_raw());
}

#[test]
fn test_gamma_one_gives_the_image_back_whatever_the_table() {
    let mut entries: Vec<u8> = (0..=255).collect();
    entries[5] = 7;
    let table = GammaTable::new(entries).unwrap();
    let img = solid(3, 2, 5, 5, 5, 5);
    let out = gamma(&img, Milli(1000), &table).unwrap();
    assert_eq!(out.to_raw(), img.to_raw());
    assert_eq!((out.width(), out.height()), (3, 2));
    let out = gamma(&img, Milli(1001), &table).unwrap();
    assert_eq!(out.get_pixel(0, 0), Rgba { r: 7, g: 7, b: 7, a: 5 });
    let out = gamma(&img, Milli(999), &table).unwrap();
    assert_eq!(out.get_pixel(2, 1), Rgba { r: 7, g: 7, b: 7, a: 5 });
}

#[test]
fn test_gamma_table_must_fix_black_and_white() {
    let mut entries: Vec<u8> = (0..=255).collect();
    assert!(GammaTable::new(entries.clone()).is_some());
    entries[0] = 1;
    assert!(GammaTable::new(entries.clone()).is_none());
    entries[0] = 0;
    entries[255] = 254;
    assert!(GammaTable::new(entries.clone()).is_none());
    entries[255] = 255;
    entries.push(0);
    assert!(GammaTable::new(entries).is_none());
    assert!(GammaTable::new(Vec::new()).is_none());
    for gamma in [0.1, 0.5, 1.0, 2.2, 10.0] {
        let table = gamma_table(gamma);
        assert_eq!(table.get(0), 0);
        assert_eq!(table.get(255), 255);
    }
}

#[test]
fn test_gamma_applies_the_table_to_rgb_only() {
    let mut entries: Vec<u8> = (0..=255).collect();
    entries[10] = 20;
    entries[30] = 40;
    entries[50] = 60;
    entries[70] = 80;
    let table = GammaTable::new(entries).unwrap();
    let img = solid(2, 2, 10, 30, 50, 70);
    let out = gamma(&img, Milli(100), &table).unwrap();
    assert_eq!(out.get_pixel(1, 1), Rgba { r: 20, g: 40, b: 60, a: 70 });
    assert_eq!(out.width(), 2);
    assert_eq!(out.height(), 2);
}
