use mdimgedit::ops::filter::{check_blur, check_sharpen, sharpen, sharpen_channel};
use mdimgedit::{ImgEditError, Milli, PixelBuffer, Rgba};

fn from_fn(width: u32, height: u32, f: fn(u32, u32) -> Rgba) -> PixelBuffer {
    let mut pixels = Vec::new();
    for y in 0..height {
        for x in 0..width {
            pixels.push(f(x, y));
        }
    }
    PixelBuffer::from_pixels(width, height, pixels).unwrap()
}

fn create_test_image() -> PixelBuffer {
    from_fn(20, 20, |x, y| {
        let val = if (x + y) % 2 == 0 { 255 } else { 0 };
        Rgba { r: val, g: val, b: val, a: 255 }
    })
}

fn blurred(img: &PixelBuffer, radius: f32) -> PixelBuffer {
    let source = image::RgbaImage::from_raw(img.width(), img.height(), img.to_raw()).unwrap();
    let soft = imageproc::filter::gaussian_blur_f32(&source, radius / 3.0);
    PixelBuffer::from_raw(soft.width(), soft.height(), soft.as_raw()).unwrap()
}

#[test]
fn test_blur_invalid_radius() {
    assert!(check_blur(Milli(0)).is_err());
    assert!(check_blur(Milli(150000)).is_err());
}

#[test]
fn filter_test_sharpen_basic() {
    let img = create_test_image();
    let result = sharpen(&img, &blurred(&img, 1.0), Milli(1000), Milli(1000)).unwrap();

    assert_eq!(result.width(), 20);
    assert_eq!(result.height(), 20);
}

#[test]
fn test_sharpen_zero_amount() {
    let img = create_test_image();
    let result = sharpen(&img, &blurred(&img, 1.0), Milli(0), Milli(1000)).unwrap();

    assert_eq!(result.to_raw(), img.to_raw());
}

#[test]
fn test_sharpen_invalid_amount() {
    let img = create_test_image();
    assert!(sharpen(&img, &img, Milli(-1000), Milli(1000)).is_err());
    assert!(sharpen(&img, &img, Milli(15000), Milli(1000)).is_err());
}

#[test]
fn test_sharpen_invalid_radius() {
    let img = create_test_image();
    assert!(sharpen(&img, &img, Milli(1000), Milli(0)).is_err());
    assert!(sharpen(&img, &img, Milli(1000), Milli(15000)).is_err());
}

#[test]
fn test_sharpen_increases_contrast() {
    let img = from_fn(20, 1, |x, _| {
        let val = (x * 12) as u8;
        Rgba { r: val, g: val, b: val, a: 255 }
    });

    let result = sharpen(&img, &blurred(&img, 1.0), Milli(2000), Milli(1000)).unwrap();

    let pixel_5 = result.get_pixel(5, 0).r;
    let pixel_15 = result.get_pixel(15, 0).r;

    assert!(pixel_15 > pixel_5 || pixel_15 == 255);
}

#[test]
fn test_check_blur_range() {
    assert!(check_blur(Milli(100)).is_ok());
    assert!(check_blur(Milli(100000)).is_ok());
    assert!(check_blur(Milli(2000)).is_ok());
    match check_blur(Milli(99)) {
        Err(ImgEditError::InvalidParameter(m)) => {
            assert_eq!(m, "Blur radius must be between 0.1 and 100.0, got 0.099")
        }
        other => panic!("expected InvalidParameter, got {:?}", other),
    }
    match check_blur(Milli(100001)) {
        Err(ImgEditError::InvalidParameter(m)) => {
            assert_eq!(m, "Blur radius must be between 0.1 and 100.0, got 100.001")
        }
        other => panic!("expected InvalidParameter, got {:?}", other),
    }
}

#[test]
fn test_check_sharpen() {
    assert_eq!(check_sharpen(Milli(0), Milli(100)).unwrap(), false);
    assert_eq!(check_sharpen(Milli(1), Milli(10000)).unwrap(), true);
    assert_eq!(check_sharpen(Milli(10000), Milli(1000)).unwrap(), true);
    match check_sharpen(Milli(10001), Milli(0)) {
        Err(ImgEditError::InvalidParameter(m)) => {
            assert_eq!(m, "Sharpen amount must be between 0.0 and 10.0, got 10.001")
        }
        other => panic!("expected InvalidParameter, got {:?}", other),
    }
    match check_sharpen(Milli(1000), Milli(99)) {
        Err(ImgEditError::InvalidParameter(m)) => {
            assert_eq!(m, "Sharpen radius must be between 0.1 and 10.0, got 0.099")
        }
        other => panic!("expected InvalidParameter, got {:?}", other),
    }
    match check_sharpen(Milli(-1), Milli(10001)) {
        Err(ImgEditError::InvalidParameter(m)) => {
            assert_eq!(m, "Sharpen amount must be between 0.0 and 10.0, got -0.001")
        }
        other => panic!("expected InvalidParameter, got {:?}", other),
    }
}

#[test]
fn test_sharpen_channel_formula() {
    assert_eq!(sharpen_channel(100, 90, Milli(1000)), 110);
    assert_eq!(sharpen_channel(100, 110, Milli(1000)), 90);
    assert_eq!(sharpen_channel(100, 90, Milli(2500)), 125);
    assert_eq!(sharpen_channel(250, 200, Milli(1000)), 255);
    assert_eq!(sharpen_channel(5, 200, Milli(1000)), 0);
    assert_eq!(sharpen_channel(77, 3, Milli(0)), 77);
    // 100 + 0.25 * 2 = 100.5 and 100 - 0.25 * 2 = 99.5
    assert_eq!(sharpen_channel(100, 98, Milli(250)), 101);
    assert_eq!(sharpen_channel(100, 102, Milli(250)), 100);
    for amount in [0i64, 250, 500, 1000, 2500, 10000] {
        for sample in [0u8, 1, 100, 128, 254, 255] {
            for soft in [0u8, 3, 100, 127, 129, 255] {
                let expected = (sample as f64
                    + (amount as f64 / 1000.0) * (sample as f64 - soft as f64))
                    .round()
                    .clamp(0.0, 255.0) as u8;
                assert_eq!(sharpen_channel(sample, soft, Milli(amount)), expected);
            }
        }
    }
}

#[test]
fn test_sharpen_channel_takes_any_amount() {
    assert_eq!(sharpen_channel(100, 99, Milli(i64::MAX)), 255);
    assert_eq!(sharpen_channel(100, 101, Milli(i64::MAX)), 0);
    assert_eq!(sharpen_channel(100, 7, Milli(-1000)), 7);
    assert_eq!(sharpen_channel(100, 100, Milli(i64::MIN)), 100);
}

#[test]
fn test_sharpen_keeps_alpha_and_moves_away_from_the_blur() {
    let img = PixelBuffer::from_pixel(2, 2, Rgba { r: 100, g: 100, b: 100, a: 33 });
    let soft = PixelBuffer::from_pixel(2, 2, Rgba { r: 90, g: 100, b: 120, a: 200 });
    let out = sharpen(&img, &soft, Milli(1500), Milli(1000)).unwrap();
    assert_eq!(out.get_pixel(1, 1), Rgba { r: 115, g: 100, b: 70, a: 33 });
}
