use vstd::prelude::*;
use crate::image_loader::{ImageRef, ImageRequest};
use crate::layers::Orientation;
use image::DynamicImage;

verus! {

/// The resolution tiers at which an image can be decoded, from worst to best.
#[derive(Debug, Clone, Copy, PartialEq, Eq, Structural, Hash, PartialOrd, Ord)]
pub enum ImageResolution {
    THUMBNAIL,
    FULLHD,
    NATIVE,
}

impl ImageResolution {
    /// Position of the tier in the order THUMBNAIL < FULLHD < NATIVE.
    pub open spec fn spec_rank(self) -> nat {
        match self {
            ImageResolution::THUMBNAIL => 0,
            ImageResolution::FULLHD => 1,
            ImageResolution::NATIVE => 2,
        }
    }

    /// Executable form of `spec_rank`, used to compare tiers.
    pub fn rank(&self) -> (r: u8)
        ensures
            r as nat == self.spec_rank(),
    {
        match self {
            ImageResolution::THUMBNAIL => 0,
            ImageResolution::FULLHD => 1,
            ImageResolution::NATIVE => 2,
        }
    }

    /// Whether `self` is a strictly better tier than `other`.
    pub fn is_better_than(&self, other: &ImageResolution) -> (r: bool)
        ensures
            r == (self.spec_rank() > other.spec_rank()),
    {
        self.rank() > other.rank()
    }
}

/// Ranks identify tiers: two tiers of equal rank are the same tier.
pub proof fn lemma_rank_injective(a: ImageResolution, b: ImageResolution)
    ensures
        a.spec_rank() == b.spec_rank() <==> a == b,
{
}

/// Pixel layouts a decoder may produce.
#[derive(Debug, Clone, Copy, PartialEq, Eq, Structural)]
pub enum ColorSpace {
    Rgb,
    Rgba,
    Yuv,
    Raw,
}

/// Size and duration of one decode, for diagnostics.
pub struct DecodeStats {
    bytes: usize,
    elapsed: std::time::Duration,
}

impl DecodeStats {
    pub fn new(bytes: usize, elapsed: std::time::Duration) -> (r: Self)
        ensures
            r.bytes() == bytes,
            r.elapsed() == elapsed,
    {
        Self { bytes, elapsed }
    }

    pub closed spec fn bytes(&self) -> usize {
        self.bytes
    }

    pub closed spec fn elapsed(&self) -> std::time::Duration {
        self.elapsed
    }

    /// Number of bytes produced by the decode.
    pub fn byte_count(&self) -> (r: usize)
        ensures
            r == self.bytes(),
    {
        self.bytes
    }

    /// Time the decode took.
    pub fn elapsed_time(&self) -> (r: &std::time::Duration)
        ensures
            *r == self.elapsed(),
    {
        &self.elapsed
    }
}

/// Why an image could not be decoded.
#[derive(Debug, Clone, Copy, PartialEq, Eq, Structural)]
pub enum DecodeError {
    /// The decoder only produces images at scale 8 (one to one).
    UnsupportedScale(u8),
    /// The decoder produces RGB or RGBA pixels only.
    UnsupportedColorSpace(ColorSpace),
    /// No decode path exists for this resolution.
    UnsupportedResolution(ImageResolution),
    /// The decoded pixels do not fill a `width` x `height` RGBA image.
    BufferTooSmall { width: u32, height: u32, len: usize },
}

/// Pixel layout asked of the JPEG decoder.
#[derive(Debug, Clone, Copy, PartialEq, Eq, Structural)]
pub enum PixelFormat {
    RGB,
    RGBA,
}

/// The pixel layout to decode into at `scale` (in eighths) and `color_space`.
pub fn pixel_format(scale: u8, color_space: ColorSpace) -> (r: Result<PixelFormat, DecodeError>)
    ensures
        r == if scale != 8 {
            Err(DecodeError::UnsupportedScale(scale))
        } else {
            match color_space {
                ColorSpace::Rgb => Ok(PixelFormat::RGB),
                ColorSpace::Rgba => Ok(PixelFormat::RGBA),
                _ => Err(DecodeError::UnsupportedColorSpace(color_space)),
            }
        },
{
    if scale != 8 {
        return Err(DecodeError::UnsupportedScale(scale));
    }
    match color_space {
        ColorSpace::Rgb => Ok(PixelFormat::RGB),
        ColorSpace::Rgba => Ok(PixelFormat::RGBA),
        _ => Err(DecodeError::UnsupportedColorSpace(color_space)),
    }
}

/// Where the compressed bytes of an image are read from.
#[derive(Debug, Clone, Copy, PartialEq, Eq, Structural)]
pub enum ByteSource {
    /// The thumbnail embedded in the file's metadata.
    EmbeddedThumbnail,
    /// The whole file.
    WholeFile,
}

/// Where to read the bytes to decode at `resolution`: a THUMBNAIL comes from
/// the embedded thumbnail when the file has one, else from the whole file; a
/// NATIVE image from the whole file. FULLHD has no decode path.
pub fn byte_source(resolution: ImageResolution, has_thumbnail: bool) -> (r: Result<
    ByteSource,
    DecodeError,
>)
    ensures
        r == match resolution {
            ImageResolution::THUMBNAIL => if has_thumbnail {
                Ok(ByteSource::EmbeddedThumbnail)
            } else {
                Ok(ByteSource::WholeFile)
            },
            ImageResolution::NATIVE => Ok(ByteSource::WholeFile),
            ImageResolution::FULLHD => Err(DecodeError::UnsupportedResolution(resolution)),
        },
{
    match resolution {
        ImageResolution::THUMBNAIL => if has_thumbnail {
            Ok(ByteSource::EmbeddedThumbnail)
        } else {
            Ok(ByteSource::WholeFile)
        },
        ImageResolution::NATIVE => Ok(ByteSource::WholeFile),
        ImageResolution::FULLHD => Err(DecodeError::UnsupportedResolution(resolution)),
    }
}

/// `image::DynamicImage`, a decoded bitmap, carried opaquely.
#[verifier::external_type_specification]
#[verifier::external_body]
pub struct ExDynamicImage(image::DynamicImage);

/// Relies on `ImageBuffer::from_vec` of image 0.24: it gives an RGBA image
/// exactly when `4 * width * height`, computed without overflow, is at most the
/// buffer's length.
#[verifier::external_body]
fn rgba_image(width: u32, height: u32, pixels: Vec<u8>) -> (r: Option<DynamicImage>)
    ensures
        (r is Some) == (4 * width * height <= pixels@.len()),
{
    image::ImageBuffer::<image::Rgba<u8>, Vec<u8>>::from_vec(width, height, pixels).map(
        DynamicImage::ImageRgba8,
    )
}

/// A decoded image for one request, with its orientation.
pub struct SizedImage {
    pub image_ref: ImageRef,
    pub resolution: ImageResolution,
    pub orientation: Orientation,
    pub image: DynamicImage,
}

impl SizedImage {
    /// The decoded image of `request` from RGBA pixels, `width` x `height`. Fails
    /// when the pixels are too few for that size.
    pub fn from_rgba(
        request: ImageRequest,
        orientation: Orientation,
        width: u32,
        height: u32,
        pixels: Vec<u8>,
    ) -> (r: Result<Self, DecodeError>)
        ensures
            (r is Ok) == (4 * width * height <= pixels@.len()),
            (r matches Ok(s) ==> s.image_ref@ == request.reference@ && s.resolution
                == request.resolution && s.orientation == orientation),
            (r matches Err(e) ==> e == (DecodeError::BufferTooSmall {
                width,
                height,
                len: pixels@.len() as usize,
            })),
    {
        let len = pixels.len();
        match rgba_image(width, height, pixels) {
            Some(image) => Ok(
                SizedImage {
                    image_ref: request.reference,
                    resolution: request.resolution,
                    orientation,
                    image,
                },
            ),
            None => Err(DecodeError::BufferTooSmall { width, height, len }),
        }
    }
}

} // verus!
