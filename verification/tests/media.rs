use app_core::media::{
    validate_dimensions, validate_size, ImageOptions, ImageProcessor, SupportedFormat,
    DEFAULT_JPEG_QUALITY, MAX_IMAGE_DIMENSION, MAX_IMAGE_SIZE,
};

#[test]
fn test_supported_format_mime_types() {
    assert_eq!(SupportedFormat::Jpeg.mime_type(), "image/jpeg");
    assert_eq!(SupportedFormat::Png.mime_type(), "image/png");
}

#[test]
fn test_supported_format_extensions() {
    assert_eq!(SupportedFormat::Jpeg.extension(), "jpg");
    assert_eq!(SupportedFormat::Png.extension(), "png");
}

#[test]
fn test_supported_format_from_mime_type() {
    assert_eq!(
        SupportedFormat::from_mime_type("image/jpeg").unwrap(),
        SupportedFormat::Jpeg
    );
    assert_eq!(
        SupportedFormat::from_mime_type("image/png").unwrap(),
        SupportedFormat::Png
    );
    assert!(SupportedFormat::from_mime_type("image/gif").is_err());
}

#[test]
fn test_image_options_default() {
    let options = ImageOptions::default();
    assert_eq!(options.format, SupportedFormat::Jpeg);
    assert_eq!(options.max_width, Some(MAX_IMAGE_DIMENSION));
    assert_eq!(options.max_height, Some(MAX_IMAGE_DIMENSION));
    assert_eq!(options.jpeg_quality, DEFAULT_JPEG_QUALITY);
}

#[test]
fn test_image_processor_creation() {
    let processor = ImageProcessor::new();
    assert_eq!(processor.options.format, SupportedFormat::Jpeg);

    let processor = ImageProcessor::new()
        .with_format(SupportedFormat::Png)
        .with_max_dimensions(1000, 1000)
        .with_jpeg_quality(90);

    assert_eq!(processor.options.format, SupportedFormat::Png);
    assert_eq!(processor.options.max_width, Some(1000));
    assert_eq!(processor.options.max_height, Some(1000));
    assert_eq!(processor.options.jpeg_quality, 90);
}

#[test]
fn test_validate_dimensions() {
    assert!(validate_dimensions(1000, 1000).is_ok());
    assert!(validate_dimensions(MAX_IMAGE_DIMENSION, MAX_IMAGE_DIMENSION).is_ok());
    assert!(validate_dimensions(MAX_IMAGE_DIMENSION + 1, 1000).is_err());
    assert!(validate_dimensions(1000, MAX_IMAGE_DIMENSION + 1).is_err());
}

#[test]
fn test_validate_size() {
    assert!(validate_size(500_000).is_ok());
    assert!(validate_size(MAX_IMAGE_SIZE).is_ok());
    assert!(validate_size(MAX_IMAGE_SIZE + 1).is_err());
}

#[test]
fn test_jpeg_quality_clamping() {
    let processor = ImageProcessor::new().with_jpeg_quality(150);
    assert_eq!(processor.options.jpeg_quality, 100);

    let processor = ImageProcessor::new().with_jpeg_quality(0);
    assert_eq!(processor.options.jpeg_quality, 1);
}
