//! The picture that a texture is made of.

use crate::error::BrumousError;
use crate::error::BrumousResult;
use image::error::ImageError;
use image::error::ImageFormatHint;
use image::error::LimitError;
use image::error::LimitErrorKind;
use image::error::UnsupportedError;
use image::error::UnsupportedErrorKind;
use image::DynamicImage;
use std::io;
use vstd::prelude::*;

verus! {

/// `image::DynamicImage`, a decoded picture.  Nothing is known of what it
/// holds but what the names below say.
#[verifier::external_type_specification]
#[verifier::external_body]
pub struct ExDynamicImage(DynamicImage);

/// The width and the height of a picture, as `GenericImageView::dimensions`
/// gives them.
pub uninterp spec fn dimensions_of(img: DynamicImage) -> (u32, u32);

/// The pixels of a picture as `DynamicImage::to_rgba8` gives them: row by
/// row, each pixel the four bytes of red, green, blue and alpha.
pub uninterp spec fn rgba8_of(img: DynamicImage) -> Seq<u8>;

/// The number of bytes that the pixels of a picture take, four each.
pub open spec fn rgba8_len(img: DynamicImage) -> int {
    4 * dimensions_of(img).0 * dimensions_of(img).1
}

/// Whether the samples of a picture are floating-point numbers: whether it
/// is one of the variants `ImageRgb32F` and `ImageRgba32F`.
pub uninterp spec fn has_float_samples(img: DynamicImage) -> bool;

/// `image::load_from_memory` guesses the format of a picture from its bytes
/// and decodes it.  Nothing is said of what it returns: a decoder may take
/// a faster path on one machine than on another, and the two need not agree
/// to the last bit.
pub assume_specification[ image::load_from_memory ](buffer: &[u8]) -> (r: Result<
    DynamicImage,
    ImageError,
>);

/// The width and the height of a picture, by `GenericImageView::dimensions`.
#[verifier::external_body]
fn dimensions(img: &DynamicImage) -> (size: (u32, u32))
    ensures
        size == dimensions_of(*img),
{
    image::GenericImageView::dimensions(img)
}

/// The pixels of a picture at four bytes each, by `DynamicImage::to_rgba8`,
/// which makes a buffer of four bytes for each pixel and fills it from the
/// picture; none for a picture of floating-point samples, which is not
/// converted: a sample that is no number has no byte.  It is not to be called
/// where the buffer would be larger than a vector can be.
#[verifier::external_body]
fn to_rgba8(img: &DynamicImage) -> (rgba: Option<Vec<u8>>)
    requires
        rgba8_len(*img) <= isize::MAX,
    ensures
        rgba is None <==> has_float_samples(*img),
        rgba matches Some(bytes) ==> bytes@ == rgba8_of(*img) && bytes@.len() == rgba8_len(*img),
{
    match img {
        DynamicImage::ImageRgb32F(_) => None,
        DynamicImage::ImageRgba32F(_) => None,
        _ => Some(img.to_rgba8().into_raw()),
    }
}

/// The error of `image` that tells of too little memory, by
/// `LimitError::from_kind`.
#[verifier::external_body]
fn insufficient_memory() -> (error: ImageError) {
    ImageError::Limits(LimitError::from_kind(LimitErrorKind::InsufficientMemory))
}

/// The error of `image` that tells that the colour type of a picture is not
/// supported, by `UnsupportedError::from_format_and_kind`.
#[verifier::external_body]
fn unsupported_color(img: &DynamicImage) -> (error: ImageError) {
    ImageError::Unsupported(
        UnsupportedError::from_format_and_kind(
            ImageFormatHint::Unknown,
            UnsupportedErrorKind::Color(img.color().into()),
        ),
    )
}

/// What a texture is made of: its size, and the pixels that are written to
/// it, if any.
pub struct TextureData {
    pub width: u32,
    pub height: u32,
    /// The pixels row by row, each the four bytes of red, green, blue and
    /// alpha.
    pub pixels: Option<Vec<u8>>,
}

impl TextureData {
    /// The texture of one pixel that nothing is written to.
    pub open spec fn spec_blank() -> TextureData {
        TextureData { width: 1, height: 1, pixels: None }
    }

    /// Whether `data` is the texture of the picture `img`.
    pub open spec fn of(img: DynamicImage, data: TextureData) -> bool {
        &&& data.width == dimensions_of(img).0
        &&& data.height == dimensions_of(img).1
        &&& data.pixels matches Some(pixels)
        &&& pixels@ == rgba8_of(img)
        &&& pixels@.len() == 4 * data.width * data.height
    }

    /// Whether a picture can be made a texture of: its samples are whole
    /// numbers, and its pixels at four bytes each fit a vector.
    pub open spec fn fits(img: DynamicImage) -> bool {
        !has_float_samples(img) && rgba8_len(img) <= isize::MAX
    }

    /// The texture of one pixel that nothing is written to; it stands in
    /// where particles have no texture.
    pub fn blank() -> (data: Self)
        ensures
            data == Self::spec_blank(),
    {
        Self { width: 1, height: 1, pixels: None }
    }

    /// The texture of the file at `path`, of which `file` is what reading it
    /// gave: its bytes, or the error.  A file that could not be read is an
    /// error of opening.  Bytes that were read are decoded, and `from_decoded`
    /// says what becomes of what the decoder gives: a texture of four bytes
    /// for each pixel, or an error of loading.
    pub fn load(path: &str, file: Result<Vec<u8>, io::Error>) -> (r: BrumousResult<Self>)
        ensures
            file matches Err(e) ==> r matches Err(BrumousError::OpenTexture(p, x)) && p@ == path@
                && x == e,
            file is Ok ==> match r {
                Ok(data) => data.pixels matches Some(pixels) && pixels@.len() == 4 * data.width
                    * data.height,
                Err(BrumousError::LoadTexture(p, _)) => p@ == path@,
                Err(_) => false,
            },
    {
        match file {
            Ok(bytes) => Self::from_decoded(path, image::load_from_memory(bytes.as_slice())),
            Err(e) => Err(BrumousError::OpenTexture(path.to_owned(), e)),
        }
    }

    /// The texture of the picture that was decoded from the file at `path`,
    /// or the error of loading that says why there is none: the error of
    /// decoding, or that the picture has floating-point samples, or that it
    /// is too large.
    pub fn from_decoded(path: &str, picture: Result<DynamicImage, ImageError>) -> (r: BrumousResult<
        Self,
    >)
        ensures
            match r {
                Ok(data) => {
                    &&& picture matches Ok(img)
                    &&& Self::fits(img)
                    &&& Self::of(img, data)
                },
                Err(BrumousError::LoadTexture(p, e)) => {
                    &&& p@ == path@
                    &&& match picture {
                        Ok(img) => !Self::fits(img),
                        Err(decoding) => e == decoding,
                    }
                },
                Err(_) => false,
            },
    {
        match picture {
            Ok(img) => {
                let (width, height) = dimensions(&img);
                let row: u128 = 4 * (width as u128);
                assert(row * height <= 0x4_0000_0000 * 0x1_0000_0000) by (nonlinear_arith)
                    requires
                        row <= 0x4_0000_0000,
                        height <= 0x1_0000_0000,
                ;
                let bytes: u128 = row * (height as u128);
                assert(bytes == rgba8_len(img)) by (nonlinear_arith)
                    requires
                        bytes == row * height,
                        row == 4 * width,
                        rgba8_len(img) == 4 * dimensions_of(img).0 * dimensions_of(img).1,
                        width == dimensions_of(img).0,
                        height == dimensions_of(img).1,
                ;
                if bytes > (usize::MAX / 2) as u128 {
                    return Err(BrumousError::LoadTexture(path.to_owned(), insufficient_memory()));
                }
                match to_rgba8(&img) {
                    Some(pixels) => Ok(Self { width, height, pixels: Some(pixels) }),
                    None => Err(BrumousError::LoadTexture(path.to_owned(), unsupported_color(&img))),
                }
            },
            Err(e) => Err(BrumousError::LoadTexture(path.to_owned(), e)),
        }
    }

    /// The number of bytes in a row of pixels.
    pub fn bytes_per_row(&self) -> (bytes: u64)
        ensures
            bytes == 4 * self.width,
    {
        4 * (self.width as u64)
    }

    /// The number of rows of pixels.
    pub fn rows_per_image(&self) -> (rows: u32)
        ensures
            rows == self.height,
    {
        self.height
    }
}

} // verus!
