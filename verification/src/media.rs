//! Media: the supported image formats, the limits images must meet, the options of image
//! processing, and the decisions taken while processing.
use vstd::prelude::*;
use crate::text::{concat2, decimal, decimal_string, owned, str_eq};

verus! {

/// Maximum size of an uploaded image, in bytes.
pub const MAX_IMAGE_SIZE: usize = 1_000_000;

/// Maximum width or height of an uploaded image, in pixels.
pub const MAX_IMAGE_DIMENSION: u32 = 2000;

/// Default JPEG quality.
pub const DEFAULT_JPEG_QUALITY: u8 = 85;

#[verifier::external_type_specification]
#[verifier::external_body]
pub struct ExIoError(std::io::Error);

#[verifier::external_type_specification]
#[verifier::external_body]
pub struct ExFilterType(image::imageops::FilterType);

/// The message of an I/O error (`Display` of `std::io::Error`); not stated.
#[verifier::external_body]
fn io_error_message(e: &std::io::Error) -> String {
    e.to_string()
}

/// `image::imageops::FilterType::Lanczos3`.
#[verifier::external_body]
fn lanczos3() -> image::imageops::FilterType {
    image::imageops::FilterType::Lanczos3
}

/// `FilterType::clone`; nothing is stated of the copy.
pub assume_specification[<image::imageops::FilterType as core::clone::Clone>::clone](f: &image::imageops::FilterType) -> image::imageops::FilterType;

/// Media errors.
#[derive(Debug)]
pub enum MediaError {
    /// Failed to decode image
    DecodeError(String),
    /// Failed to encode image
    EncodeError(String),
    /// Unsupported image format
    UnsupportedFormat(String),
    /// File too large
    FileTooLarge { size: usize, max: usize },
    /// Dimension too large
    DimensionTooLarge { dimension: u32, max: u32 },
    /// I/O error
    Io(std::io::Error),
    /// Invalid MIME type
    InvalidMimeType(String),
}

impl MediaError {
    /// The error message (that of an I/O error is std's).
    pub fn to_string(&self) -> (r: String)
        ensures
            match self {
                MediaError::DecodeError(m) => r@ == "Failed to decode image: "@ + m@,
                MediaError::EncodeError(m) => r@ == "Failed to encode image: "@ + m@,
                MediaError::UnsupportedFormat(m) => r@ == "Unsupported image format: "@ + m@,
                MediaError::FileTooLarge { size, max } => r@ == "File size "@ + decimal(*size as nat)
                    + " exceeds maximum "@ + decimal(*max as nat),
                MediaError::DimensionTooLarge { dimension, max } => r@ == "Image dimension "@ + decimal(
                    *dimension as nat,
                ) + " exceeds maximum "@ + decimal(*max as nat),
                MediaError::Io(_) => true,
                MediaError::InvalidMimeType(m) => r@ == "Invalid MIME type: "@ + m@,
            },
    {
        match self {
            MediaError::DecodeError(m) => concat2("Failed to decode image: ", m.as_str()),
            MediaError::EncodeError(m) => concat2("Failed to encode image: ", m.as_str()),
            MediaError::UnsupportedFormat(m) => concat2("Unsupported image format: ", m.as_str()),
            MediaError::FileTooLarge { size, max } => {
                let a = decimal_string(*size as u64);
                let b = decimal_string(*max as u64);
                let mut r = concat2("File size ", a.as_str());
                r.append(" exceeds maximum ");
                r.append(b.as_str());
                r
            },
            MediaError::DimensionTooLarge { dimension, max } => {
                let a = decimal_string(*dimension as u64);
                let b = decimal_string(*max as u64);
                let mut r = concat2("Image dimension ", a.as_str());
                r.append(" exceeds maximum ");
                r.append(b.as_str());
                r
            },
            MediaError::Io(e) => {
                let m = io_error_message(e);
                concat2("IO error: ", m.as_str())
            },
            MediaError::InvalidMimeType(m) => concat2("Invalid MIME type: ", m.as_str()),
        }
    }
}

/// Image formats that can be uploaded.
#[derive(Debug, Clone, Copy, PartialEq, Eq)]
pub enum SupportedFormat {
    /// JPEG
    Jpeg,
    /// PNG
    Png,
}

/// The format of a MIME type, if supported.
pub open spec fn format_of_mime(m: Seq<char>) -> Option<SupportedFormat> {
    if m == "image/jpeg"@ || m == "image/jpg"@ {
        Some(SupportedFormat::Jpeg)
    } else if m == "image/png"@ {
        Some(SupportedFormat::Png)
    } else {
        None
    }
}

impl SupportedFormat {
    /// The MIME type.
    pub fn mime_type(&self) -> (r: &'static str)
        ensures
            r@ == (match self {
                SupportedFormat::Jpeg => "image/jpeg"@,
                SupportedFormat::Png => "image/png"@,
            }),
    {
        match self {
            SupportedFormat::Jpeg => "image/jpeg",
            SupportedFormat::Png => "image/png",
        }
    }

    /// The file extension.
    pub fn extension(&self) -> (r: &'static str)
        ensures
            r@ == (match self {
                SupportedFormat::Jpeg => "jpg"@,
                SupportedFormat::Png => "png"@,
            }),
    {
        match self {
            SupportedFormat::Jpeg => "jpg",
            SupportedFormat::Png => "png",
        }
    }

    /// The format of a MIME type (`image/jpeg` or `image/jpg`, `image/png`); any other is refused.
    pub fn from_mime_type(mime_type: &str) -> (r: Result<Self, MediaError>)
        ensures
            match format_of_mime(mime_type@) {
                Some(f) => r == Ok::<SupportedFormat, MediaError>(f),
                None => r matches Err(MediaError::InvalidMimeType(m)) && m@ == mime_type@,
            },
    {
        if str_eq(mime_type, "image/jpeg") || str_eq(mime_type, "image/jpg") {
            Ok(SupportedFormat::Jpeg)
        } else if str_eq(mime_type, "image/png") {
            Ok(SupportedFormat::Png)
        } else {
            Err(MediaError::InvalidMimeType(owned(mime_type)))
        }
    }
}

/// An image ready for upload.
#[derive(Debug, Clone)]
pub struct ProcessedImage {
    /// Encoded bytes
    pub data: Vec<u8>,
    /// MIME type
    pub mime_type: String,
    /// Width in pixels
    pub width: u32,
    /// Height in pixels
    pub height: u32,
    /// Size in bytes
    pub size: usize,
}

/// Options of image processing.
#[derive(Debug, Clone)]
pub struct ImageOptions {
    /// Output format
    pub format: SupportedFormat,
    /// Maximum width
    pub max_width: Option<u32>,
    /// Maximum height
    pub max_height: Option<u32>,
    /// JPEG quality (1-100)
    pub jpeg_quality: u8,
    /// Resize filter
    pub filter: image::imageops::FilterType,
}

impl Default for ImageOptions {
    fn default() -> (r: Self)
        ensures
            r.format == SupportedFormat::Jpeg,
            r.max_width == Some(MAX_IMAGE_DIMENSION),
            r.max_height == Some(MAX_IMAGE_DIMENSION),
            r.jpeg_quality == DEFAULT_JPEG_QUALITY,
    {
        ImageOptions {
            format: SupportedFormat::Jpeg,
            max_width: Some(MAX_IMAGE_DIMENSION),
            max_height: Some(MAX_IMAGE_DIMENSION),
            jpeg_quality: DEFAULT_JPEG_QUALITY,
            filter: lanczos3(),
        }
    }
}

/// An image processor and its options.
pub struct ImageProcessor {
    /// The options
    pub options: ImageOptions,
}

/// `q` clamped to 1..=100.
pub open spec fn clamp_quality(q: u8) -> u8 {
    if q < 1 {
        1
    } else if q > 100 {
        100
    } else {
        q
    }
}

impl ImageProcessor {
    /// A processor with the default options.
    pub fn new() -> (r: Self)
        ensures
            r.options.format == SupportedFormat::Jpeg,
            r.options.max_width == Some(MAX_IMAGE_DIMENSION),
            r.options.max_height == Some(MAX_IMAGE_DIMENSION),
            r.options.jpeg_quality == DEFAULT_JPEG_QUALITY,
    {
        ImageProcessor { options: ImageOptions::default() }
    }

    /// A processor with the given options.
    pub fn with_options(options: ImageOptions) -> (r: Self)
        ensures
            r.options == options,
    {
        ImageProcessor { options }
    }

    /// The same processor with another output format.
    pub fn with_format(self, format: SupportedFormat) -> (r: Self)
        ensures
            r.options == (ImageOptions { format, ..self.options }),
    {
        let mut s = self;
        s.options.format = format;
        s
    }

    /// The same processor with other maximum dimensions.
    pub fn with_max_dimensions(self, width: u32, height: u32) -> (r: Self)
        ensures
            r.options == (ImageOptions { max_width: Some(width), max_height: Some(height), ..self.options }),
    {
        let mut s = self;
        s.options.max_width = Some(width);
        s.options.max_height = Some(height);
        s
    }

    /// The same processor with another JPEG quality, clamped to 1..=100.
    pub fn with_jpeg_quality(self, quality: u8) -> (r: Self)
        ensures
            r.options == (ImageOptions { jpeg_quality: clamp_quality(quality), ..self.options }),
    {
        let mut s = self;
        s.options.jpeg_quality = if quality < 1 {
            1
        } else if quality > 100 {
            100
        } else {
            quality
        };
        s
    }

    /// Whether an image of this size must be resized: when both maximum dimensions are set and
    /// it exceeds one of them.
    pub fn needs_resize(&self, width: u32, height: u32) -> (r: bool)
        ensures
            r == (self.options.max_width matches Some(w) && self.options.max_height matches Some(h) && (
            width > w || height > h)),
    {
        match (self.options.max_width, self.options.max_height) {
            (Some(w), Some(h)) => width > w || height > h,
            _ => false,
        }
    }
}

impl Default for ImageProcessor {
    fn default() -> (r: Self)
        ensures
            r.options.format == SupportedFormat::Jpeg,
            r.options.max_width == Some(MAX_IMAGE_DIMENSION),
            r.options.max_height == Some(MAX_IMAGE_DIMENSION),
            r.options.jpeg_quality == DEFAULT_JPEG_QUALITY,
    {
        ImageProcessor::new()
    }
}

/// Refuses input larger than twice the upload limit (room for uncompressed input).
pub fn check_input_size(len: usize) -> (r: Result<(), MediaError>)
    ensures
        len <= 2 * MAX_IMAGE_SIZE ==> r is Ok,
        len > 2 * MAX_IMAGE_SIZE ==> (r matches Err(MediaError::FileTooLarge { size, max }) && size
            == len && max == 2 * MAX_IMAGE_SIZE),
{
    if len > MAX_IMAGE_SIZE * 2 {
        Err(MediaError::FileTooLarge { size: len, max: MAX_IMAGE_SIZE * 2 })
    } else {
        Ok(())
    }
}

/// Refuses a decoded image wider or taller than twice the dimension limit, naming the larger
/// dimension.
pub fn check_source_dimensions(width: u32, height: u32) -> (r: Result<(), MediaError>)
    ensures
        width <= 2 * MAX_IMAGE_DIMENSION && height <= 2 * MAX_IMAGE_DIMENSION ==> r is Ok,
        !(width <= 2 * MAX_IMAGE_DIMENSION && height <= 2 * MAX_IMAGE_DIMENSION) ==> (r matches Err(
            MediaError::DimensionTooLarge { dimension, max },
        ) && dimension == (if width >= height {
            width
        } else {
            height
        }) && max == 2 * MAX_IMAGE_DIMENSION),
{
    if width > MAX_IMAGE_DIMENSION * 2 || height > MAX_IMAGE_DIMENSION * 2 {
        let d = if width >= height {
            width
        } else {
            height
        };
        Err(MediaError::DimensionTooLarge { dimension: d, max: MAX_IMAGE_DIMENSION * 2 })
    } else {
        Ok(())
    }
}

/// What to do after an attempt of automatic processing.
#[derive(Debug, Clone, Copy, PartialEq, Eq)]
pub enum QualityStep {
    /// The result fits: keep it
    Done,
    /// Try again at this JPEG quality
    Retry(u8),
    /// The image cannot be made small enough
    TooLarge,
}

/// The decision after processing at `quality` gave `size` bytes: done when it fits, else retry
/// 5 lower while the quality is above 60, else give up.
pub fn quality_step(quality: u8, size: usize) -> (r: QualityStep)
    ensures
        size <= MAX_IMAGE_SIZE ==> r == QualityStep::Done,
        size > MAX_IMAGE_SIZE && quality > 60 ==> r == QualityStep::Retry((quality - 5) as u8),
        size > MAX_IMAGE_SIZE && quality <= 60 ==> r == QualityStep::TooLarge,
{
    if size <= MAX_IMAGE_SIZE {
        QualityStep::Done
    } else if quality > 60 {
        QualityStep::Retry(quality - 5)
    } else {
        QualityStep::TooLarge
    }
}

/// Automatic processing stops: every retry lowers the quality.
pub proof fn law_quality_steps_decrease(quality: u8, size: usize, next: u8)
    requires
        size > MAX_IMAGE_SIZE,
        quality > 60,
        next == (quality - 5) as u8,
    ensures
        next < quality,
        next > 55,
{
}

/// Checks an image's dimensions against the limit: the width first, then the height.
pub fn validate_dimensions(width: u32, height: u32) -> (r: Result<(), MediaError>)
    ensures
        width > MAX_IMAGE_DIMENSION ==> (r matches Err(MediaError::DimensionTooLarge { dimension, max })
            && dimension == width && max == MAX_IMAGE_DIMENSION),
        width <= MAX_IMAGE_DIMENSION && height > MAX_IMAGE_DIMENSION ==> (r matches Err(
            MediaError::DimensionTooLarge { dimension, max },
        ) && dimension == height && max == MAX_IMAGE_DIMENSION),
        width <= MAX_IMAGE_DIMENSION && height <= MAX_IMAGE_DIMENSION ==> r is Ok,
{
    if width > MAX_IMAGE_DIMENSION {
        return Err(MediaError::DimensionTooLarge { dimension: width, max: MAX_IMAGE_DIMENSION });
    }
    if height > MAX_IMAGE_DIMENSION {
        return Err(MediaError::DimensionTooLarge { dimension: height, max: MAX_IMAGE_DIMENSION });
    }
    Ok(())
}

/// Checks a file size against the limit.
pub fn validate_size(size: usize) -> (r: Result<(), MediaError>)
    ensures
        size > MAX_IMAGE_SIZE ==> (r matches Err(MediaError::FileTooLarge { size: s, max }) && s == size
            && max == MAX_IMAGE_SIZE),
        size <= MAX_IMAGE_SIZE ==> r is Ok,
{
    if size > MAX_IMAGE_SIZE {
        return Err(MediaError::FileTooLarge { size, max: MAX_IMAGE_SIZE });
    }
    Ok(())
}

} // verus!
