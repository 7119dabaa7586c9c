use mdimgedit::ops::resize::{fit, fit_dimensions, resize, target_dimensions};
use mdimgedit::{ImgEditError, Milli, PixelBuffer, ResizeFilter, Rgba};

fn create_test_image(width: u32, height: u32) -> PixelBuffer {
    PixelBuffer::from_pixel(width, height, Rgba { r: 128, g: 128, b: 128, a: 255 })
}

#[test]
fn resize_test_resize_exact_dimensions() {
    let img = create_test_image(100, 100);
    let result = resize(&img, Some(50), Some(50), None, ResizeFilter::Lanczos).unwrap();
    assert_eq!(result.width(), 50);
    assert_eq!(result.height(), 50);
}

#[test]
fn test_resize_width_only() {
    let img = create_test_image(100, 50);
    let result = resize(&img, Some(50), None, None, ResizeFilter::Lanczos).unwrap();
    assert_eq!(result.width(), 50);
    assert_eq!(result.height(), 25);
}

#[test]
fn resize_test_resize_height_only() {
    let img = create_test_image(100, 50);
    let result = resize(&img, None, Some(100), None, ResizeFilter::Lanczos).unwrap();
    assert_eq!(result.width(), 200);
    assert_eq!(result.height(), 100);
}

#[test]
fn test_resize_scale_up() {
    let img = create_test_image(100, 100);
    let result = resize(&img, None, None, Some(Milli(2000)), ResizeFilter::Lanczos).unwrap();
    assert_eq!(result.width(), 200);
    assert_eq!(result.height(), 200);
}

#[test]
fn test_resize_scale_down() {
    let img = create_test_image(100, 100);
    let result = resize(&img, None, None, Some(Milli(500)), ResizeFilter::Lanczos).unwrap();
    assert_eq!(result.width(), 50);
    assert_eq!(result.height(), 50);
}

#[test]
fn test_resize_invalid_zero_scale() {
    let img = create_test_image(100, 100);
    let result = resize(&img, None, None, Some(Milli(0)), ResizeFilter::Lanczos);
    assert!(result.is_err());
}

#[test]
fn test_resize_negative_scale() {
    let img = create_test_image(100, 100);
    let result = resize(&img, None, None, Some(Milli(-1000)), ResizeFilter::Lanczos);
    assert!(result.is_err());
}

#[test]
fn test_resize_no_params() {
    let img = create_test_image(100, 100);
    let result = resize(&img, None, None, None, ResizeFilter::Lanczos);
    assert!(result.is_err());
}

#[test]
fn test_resize_zero_dimension() {
    let img = create_test_image(100, 100);
    let result = resize(&img, Some(0), Some(50), None, ResizeFilter::Lanczos);
    assert!(result.is_err());
}

#[test]
fn test_fit_within_width() {
    let img = create_test_image(200, 100);
    let result = fit(&img, Some(100), None, false, ResizeFilter::Lanczos).unwrap();
    assert_eq!(result.width(), 100);
    assert_eq!(result.height(), 50);
}

#[test]
fn test_fit_within_height() {
    let img = create_test_image(200, 100);
    let result = fit(&img, None, Some(50), false, ResizeFilter::Lanczos).unwrap();
    assert_eq!(result.width(), 100);
    assert_eq!(result.height(), 50);
}

#[test]
fn test_fit_within_both_width_limited() {
    let img = create_test_image(200, 100);
    let result = fit(&img, Some(100), Some(100), false, ResizeFilter::Lanczos).unwrap();
    assert_eq!(result.width(), 100);
    assert_eq!(result.height(), 50);
}

#[test]
fn test_fit_within_both_height_limited() {
    let img = create_test_image(100, 200);
    let result = fit(&img, Some(100), Some(100), false, ResizeFilter::Lanczos).unwrap();
    assert_eq!(result.width(), 50);
    assert_eq!(result.height(), 100);
}

#[test]
fn resize_test_fit_no_upscale() {
    let img = create_test_image(50, 50);
    let result = fit(&img, Some(100), Some(100), false, ResizeFilter::Lanczos).unwrap();
    assert_eq!(result.width(), 50);
    assert_eq!(result.height(), 50);
}

#[test]
fn resize_test_fit_with_upscale() {
    let img = create_test_image(50, 50);
    let result = fit(&img, Some(100), Some(100), true, ResizeFilter::Lanczos).unwrap();
    assert_eq!(result.width(), 100);
    assert_eq!(result.height(), 100);
}

#[test]
fn test_fit_no_params() {
    let img = create_test_image(100, 100);
    let result = fit(&img, None, None, false, ResizeFilter::Lanczos);
    assert!(result.is_err());
}

#[test]
fn test_resize_all_filters() {
    let img = create_test_image(100, 100);

    let filters = [
        ResizeFilter::Nearest,
        ResizeFilter::Linear,
        ResizeFilter::Cubic,
        ResizeFilter::Lanczos,
    ];

    for filter in filters {
        let result = resize(&img, Some(50), Some(50), None, filter).unwrap();
        assert_eq!(result.width(), 50);
        assert_eq!(result.height(), 50);
    }
}

fn refusal(res: Result<(u32, u32), ImgEditError>) -> (String, String) {
    match res {
        Err(e) => (e.code().to_string(), e.to_string()),
        Ok(d) => panic!("expected a refusal, got {:?}", d),
    }
}

#[test]
fn test_target_dimensions() {
    assert_eq!(target_dimensions(100, 50, Some(7), Some(9), None).unwrap(), (7, 9));
    assert_eq!(target_dimensions(100, 50, Some(50), None, None).unwrap(), (50, 25));
    assert_eq!(target_dimensions(100, 50, None, Some(100), None).unwrap(), (200, 100));
    // 3 * 10 / 4 = 7.5 rounds to 8; 1 * 1 / 1000 rounds to 0 and is raised to 1
    assert_eq!(target_dimensions(4, 3, Some(10), None, None).unwrap(), (10, 8));
    assert_eq!(target_dimensions(1000, 1, Some(1), None, None).unwrap(), (1, 1));
    assert_eq!(target_dimensions(1, 1000, None, Some(1), None).unwrap(), (1, 1));
    assert_eq!(
        target_dimensions(1, 1000000, Some(100000), None, None).unwrap(),
        (100000, u32::MAX)
    );
    assert_eq!(target_dimensions(100, 50, None, None, Some(Milli(2000))).unwrap(), (200, 100));
    assert_eq!(target_dimensions(100, 50, None, None, Some(Milli(500))).unwrap(), (50, 25));
    assert_eq!(target_dimensions(3, 5, None, None, Some(Milli(1500))).unwrap(), (5, 8));
    assert_eq!(target_dimensions(100, 50, Some(1), Some(1), Some(Milli(1000))).unwrap(), (100, 50));
    assert_eq!(
        target_dimensions(u32::MAX, 1, None, None, Some(Milli(i64::MAX))).unwrap(),
        (u32::MAX, u32::MAX)
    );
}

#[test]
fn test_target_dimension_refusals() {
    assert_eq!(
        refusal(target_dimensions(10, 10, None, None, Some(Milli(0)))),
        ("INVALID_PARAMETER".to_string(), "Invalid parameter: Scale must be positive".to_string())
    );
    assert_eq!(
        refusal(target_dimensions(10, 10, Some(5), Some(5), Some(Milli(-1)))).0,
        "INVALID_PARAMETER"
    );
    assert_eq!(
        refusal(target_dimensions(10, 10, None, None, Some(Milli(49)))),
        (
            "INVALID_DIMENSIONS".to_string(),
            "Invalid dimensions: Scaled dimensions would be zero".to_string()
        )
    );
    assert_eq!(target_dimensions(10, 10, None, None, Some(Milli(50))).unwrap(), (1, 1));
    assert_eq!(
        refusal(target_dimensions(10, 10, Some(0), Some(5), None)).1,
        "Invalid dimensions: Width and height must be positive"
    );
    assert_eq!(
        refusal(target_dimensions(10, 10, Some(5), Some(0), None)).1,
        "Invalid dimensions: Width and height must be positive"
    );
    assert_eq!(
        refusal(target_dimensions(10, 10, Some(0), None, None)).1,
        "Invalid dimensions: Width must be positive"
    );
    assert_eq!(
        refusal(target_dimensions(10, 10, None, Some(0), None)).1,
        "Invalid dimensions: Height must be positive"
    );
    assert_eq!(
        refusal(target_dimensions(10, 10, None, None, None)),
        (
            "INVALID_PARAMETER".to_string(),
            "Invalid parameter: Must specify width, height, or scale".to_string()
        )
    );
}

#[test]
fn test_fit_dimensions() {
    assert_eq!(fit_dimensions(200, 100, Some(100), None, false).unwrap(), Some((100, 50)));
    assert_eq!(fit_dimensions(200, 100, None, Some(50), false).unwrap(), Some((100, 50)));
    assert_eq!(fit_dimensions(100, 200, Some(100), Some(100), false).unwrap(), Some((50, 100)));
    assert_eq!(fit_dimensions(50, 50, Some(100), Some(100), false).unwrap(), None);
    assert_eq!(fit_dimensions(50, 50, Some(100), Some(100), true).unwrap(), Some((100, 100)));
    assert_eq!(fit_dimensions(50, 50, Some(50), Some(70), true).unwrap(), None);
    // within one part in ten thousand of the size it has
    assert_eq!(fit_dimensions(20000, 20000, Some(19999), None, false).unwrap(), None);
    assert_eq!(fit_dimensions(20000, 20000, Some(19998), None, false).unwrap(), Some((19998, 19998)));
    assert_eq!(fit_dimensions(3, 7, Some(2), None, false).unwrap(), Some((2, 5)));
    match fit_dimensions(1000, 1, Some(100), None, false) {
        Err(ImgEditError::InvalidDimensions(m)) => {
            assert_eq!(m, "Resulting dimensions would be zero")
        }
        other => panic!("expected InvalidDimensions, got {:?}", other),
    }
    match fit_dimensions(10, 10, None, None, true) {
        Err(ImgEditError::InvalidParameter(m)) => {
            assert_eq!(m, "Must specify at least one of max-width or max-height")
        }
        other => panic!("expected InvalidParameter, got {:?}", other),
    }
    assert!(matches!(
        fit_dimensions(0, 10, Some(5), None, true),
        Err(ImgEditError::InvalidDimensions(_))
    ));
    assert!(matches!(
        fit_dimensions(10, 10, Some(0), None, true),
        Err(ImgEditError::InvalidDimensions(_))
    ));
}

#[test]
fn test_resize_to_the_same_size_is_a_copy_and_resampling_changes_the_size() {
    let mut img = PixelBuffer::from_pixel(8, 6, Rgba { r: 0, g: 0, b: 0, a: 255 });
    for y in 0..6u32 {
        for x in 0..8u32 {
            img.put_pixel(x, y, Rgba { r: (x * 30) as u8, g: (y * 40) as u8, b: 7, a: 255 });
        }
    }
    let same = resize(&img, Some(8), Some(6), None, ResizeFilter::Lanczos).unwrap();
    assert_eq!(same.to_raw(), img.to_raw());
    let half = resize(&img, None, None, Some(Milli(500)), ResizeFilter::Nearest).unwrap();
    assert_eq!((half.width(), half.height()), (4, 3));
    assert_eq!(half.to_raw().len(), 4 * 4 * 3);
    let kept = fit(&img, Some(8), Some(100), false, ResizeFilter::Cubic).unwrap();
    assert_eq!(kept.to_raw(), img.to_raw());
    let solid = create_test_image(10, 10);
    let grown = resize(&solid, Some(20), Some(5), None, ResizeFilter::Linear).unwrap();
    assert_eq!((grown.width(), grown.height()), (20, 5));
    assert_eq!(grown.get_pixel(10, 2), Rgba { r: 128, g: 128, b: 128, a: 255 });
}
