//! Rendering faded frames of images held by the `image` crate.
//!
//! The `image` crate decodes, converts and stores the pixels; what it does is
//! taken on trust here and stated in the contracts of a few small functions.
//! The arithmetic on the samples is the verified code of [`crate::raster`].

use vstd::prelude::*;
use image::{DynamicImage, GenericImageView, RgbaImage};
use crate::factor::{Factor, Ratio};
use crate::raster::{
    faded_samples, is_alpha, lemma_full_brightness_keeps_samples, lemma_zero_brightness_blackens,
    sample_count, Raster, RasterView,
};

verus! {

/// `image::DynamicImage`, an image of any of the pixel formats that the
/// `image` crate knows. Declared so that it can stand in signatures; what is
/// inside a value is known here only through the functions below.
#[verifier::external_type_specification]
#[verifier::external_body]
pub struct ExDynamicImage(image::DynamicImage);

/// The width and the height of an image, in pixels, as
/// `GenericImageView::dimensions` reports them.
pub uninterp spec fn image_dimensions(img: image::DynamicImage) -> (u32, u32);

/// The pixels of an image as `DynamicImage::to_rgba8` converts them to 8-bit
/// RGBA: row by row from the top, each row from the left, four samples (red,
/// green, blue, alpha) per pixel.
pub uninterp spec fn image_rgba8(img: image::DynamicImage) -> Seq<u8>;

/// An 8-bit RGBA copy of the image can be made on this machine: a `usize`
/// holds the number of samples of one row, and the samples of all rows fit
/// into one allocation, which holds at most `isize::MAX` bytes.
pub open spec fn fits_in_memory(img: image::DynamicImage) -> bool {
    &&& 4 * image_dimensions(img).0 <= usize::MAX
    &&& 4 * image_dimensions(img).0 * image_dimensions(img).1 <= isize::MAX
}

/// `GenericImageView::dimensions` of `image::DynamicImage`. Trusted: the pair
/// that it returns is what the contracts call the image's dimensions.
#[verifier::external_body]
fn dimensions(img: &DynamicImage) -> (size: (u32, u32))
    ensures
        size == image_dimensions(*img),
{
    img.dimensions()
}

/// `DynamicImage::to_rgba8`, read out through `ImageBuffer::pixels`. Trusted:
/// the conversion depends on the image alone, and yields four samples for
/// each pixel of an image of the same size. It panics where the samples of
/// one row cannot be counted in a `usize`, or where the samples of all rows
/// do not fit into one allocation; the precondition rules out both. Like any
/// allocation it can still fail where the machine has no memory left.
#[verifier::external_body]
fn rgba8_samples(img: &DynamicImage) -> (samples: Vec<u8>)
    requires
        fits_in_memory(*img),
    ensures
        samples@ == image_rgba8(*img),
        samples@.len() == 4 * image_dimensions(*img).0 * image_dimensions(*img).1,
{
    img.to_rgba8().pixels().flat_map(|p| p.0).collect()
}

/// `ImageBuffer::from_raw` for 8-bit RGBA, wrapped in
/// `DynamicImage::ImageRgba8`. Trusted: an image comes back exactly when the
/// samples of one row can be counted in a `usize` and the samples given
/// suffice for all rows; it has that size, and its RGBA pixels are the leading
/// samples, four per pixel.
#[verifier::external_body]
fn rgba8_image(width: u32, height: u32, samples: Vec<u8>) -> (img: Option<DynamicImage>)
    ensures
        img.is_some() <==> (4 * width <= usize::MAX && 4 * width * height <= samples@.len()),
        img matches Some(i) ==> {
            &&& image_dimensions(i) == (width, height)
            &&& image_rgba8(i) == samples@.subrange(0, 4 * width * height)
        },
{
    RgbaImage::from_raw(width, height, samples).map(DynamicImage::ImageRgba8)
}

/// Whether an 8-bit RGBA copy of the image can be made on this machine.
fn fits(img: &DynamicImage) -> (fits: bool)
    ensures
        fits == fits_in_memory(*img),
{
    let (width, height) = dimensions(img);
    match sample_count(width, height) {
        Some(count) => count <= isize::MAX as usize,
        None => false,
    }
}

impl Raster {
    /// Copies the pixels of an image, converted to 8-bit RGBA, into a raster
    /// of the same size. There is no raster where such a copy cannot be made
    /// on this machine.
    pub fn from_image(img: &DynamicImage) -> (raster: Option<Raster>)
        ensures
            raster.is_some() <==> fits_in_memory(*img),
            raster matches Some(r) ==> r@ == (RasterView {
                width: image_dimensions(*img).0 as nat,
                height: image_dimensions(*img).1 as nat,
                samples: image_rgba8(*img),
            }),
    {
        if !fits(img) {
            return None;
        }
        let (width, height) = dimensions(img);
        Raster::new(width, height, rgba8_samples(img))
    }

    /// Hands the raster to the `image` crate as an 8-bit RGBA image of the
    /// same size.
    pub fn into_image(self) -> (img: DynamicImage)
        ensures
            image_dimensions(img) == (self@.width as u32, self@.height as u32),
            image_rgba8(img) == self@.samples,
    {
        let width: u32 = self.width();
        let height: u32 = self.height();
        let samples: Vec<u8> = self.into_samples();
        match rgba8_image(width, height, samples) {
            Some(img) => img,
            None => vstd::pervasive::unreached(),
        }
    }
}

/// `frame` is `img` rendered at brightness `f`: an image of the same size
/// whose RGBA samples are those of `img`, faded.
pub open spec fn is_frame_of(frame: image::DynamicImage, img: image::DynamicImage, f: Ratio) -> bool {
    &&& image_dimensions(frame) == image_dimensions(img)
    &&& image_rgba8(frame) == faded_samples(image_rgba8(img), f)
}

/// Renders one frame: the image at the given brightness, as an 8-bit RGBA
/// image of the same size. Red, green and blue of every pixel are scaled,
/// alpha is kept. At full brightness the frame shows the pixels of the image
/// unchanged; at zero brightness every colour sample is black.
pub fn fade_image(img: &DynamicImage, factor: Factor) -> (faded: DynamicImage)
    requires
        fits_in_memory(*img),
    ensures
        is_frame_of(faded, *img, factor@),
        image_rgba8(faded).len() == image_rgba8(*img).len(),
        forall|i: int|
            0 <= i < image_rgba8(*img).len() && is_alpha(i) ==> #[trigger] image_rgba8(faded)[i]
                == image_rgba8(*img)[i],
        factor@.is_one() ==> image_rgba8(faded) == image_rgba8(*img),
        factor@.is_zero() ==> forall|i: int|
            0 <= i < image_rgba8(*img).len() && !is_alpha(i) ==> #[trigger] image_rgba8(faded)[i]
                == 0,
{
    proof {
        use_type_invariant(&factor);
        if factor@.is_one() {
            lemma_full_brightness_keeps_samples(image_rgba8(*img), factor@);
        }
        if factor@.is_zero() {
            lemma_zero_brightness_blackens(image_rgba8(*img), factor@);
        }
    }
    match Raster::from_image(img) {
        Some(raster) => raster.faded(factor).into_image(),
        None => vstd::pervasive::unreached(),
    }
}

/// Renders one frame as [`fade_image`] does, for any image: there is no frame
/// where an 8-bit RGBA copy of the image cannot be made on this machine.
pub fn try_fade_image(img: &DynamicImage, factor: Factor) -> (faded: Option<DynamicImage>)
    ensures
        faded.is_some() <==> fits_in_memory(*img),
        faded matches Some(frame) ==> is_frame_of(frame, *img, factor@),
{
    if fits(img) {
        Some(fade_image(img, factor))
    } else {
        None
    }
}

} // verus!
