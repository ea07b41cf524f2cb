//! This module contains helper functions for converting grids of pixel
//! colors into images.
use crate::color::Rgb8;
use vstd::prelude::*;

verus! {

/// A finished raster image: the image crate's 8-bit-per-channel RGB
/// buffer. The buffer type itself cannot be declared to the verifier, so
/// it lives behind this opaque struct; the field is public so that the
/// unverified rim of the program can write the image out.
#[verifier::external_body]
pub struct PixelImage {
    pub inner: image::RgbImage,
}

/// The dimensions (width, height) that an image holds.
pub uninterp spec fn image_size(img: PixelImage) -> (int, int);

/// What an image holds: the three channel values at each coordinate.
pub uninterp spec fn image_pixels(img: PixelImage) -> Map<(int, int), (u8, u8, u8)>;

/// Relies on image's ImageBuffer::new: it creates an image of the given
/// dimensions whose pixel buffer is zeroed, that is, all black. It panics
/// when the buffer length overflows usize, so the dimensions are bounded
/// here (three channel bytes per pixel).
#[verifier::external_body]
fn image_new(width: u32, height: u32) -> (img: PixelImage)
    requires
        3 * (width as int) * (height as int) <= usize::MAX,
    ensures
        image_size(img) == (width as int, height as int),
        image_pixels(img) == Map::new(
            |xy: (int, int)| 0 <= xy.0 < width && 0 <= xy.1 < height,
            |xy: (int, int)| (0u8, 0u8, 0u8),
        ),
{
    PixelImage { inner: image::RgbImage::new(width, height) }
}

/// Relies on image's ImageBuffer::put_pixel: it replaces the pixel at
/// (x, y) and changes nothing else. It panics outside the dimensions, so
/// the coordinates are bounded here.
#[verifier::external_body]
fn image_put_pixel(img: &mut PixelImage, x: u32, y: u32, pixel: Rgb8)
    requires
        (x as int) < image_size(*old(img)).0,
        (y as int) < image_size(*old(img)).1,
    ensures
        image_size(*final(img)) == image_size(*old(img)),
        image_pixels(*final(img)) == image_pixels(*old(img)).insert(
            (x as int, y as int),
            (pixel.r, pixel.g, pixel.b),
        ),
{
    img.inner.put_pixel(x, y, image::Rgb([pixel.r, pixel.g, pixel.b]));
}

/// A helper function for use in `extract` to turn a grid of pixel colors
/// into an RGB image: the image has the grid's dimensions and its pixel
/// at (x, y) is the buffer entry at row-major index y * width + x.
pub fn pixel_map_to_image(pixels: Vec<Rgb8>, width: usize, height: usize) -> (img: PixelImage)
    requires
        0 < width,
        0 < height,
        pixels@.len() == (width as int) * (height as int),
        width <= u32::MAX,
        height <= u32::MAX,
        3 * (width as int) * (height as int) <= usize::MAX,
    ensures
        image_size(img) == (width as int, height as int),
        forall|x: int, y: int|
            0 <= x < width && 0 <= y < height ==> image_pixels(img)[(x, y)] == (
                pixels@[y * width + x].r,
                pixels@[y * width + x].g,
                pixels@[y * width + x].b,
            ),
{
    let total = pixels.len();
    let mut image = image_new(width as u32, height as u32);
    let mut y: usize = 0;
    while y < height
        invariant
            0 < width <= u32::MAX,
            0 < height <= u32::MAX,
            pixels@.len() == (width as int) * (height as int),
            total == pixels@.len(),
            y <= height,
            image_size(image) == (width as int, height as int),
            forall|a: int, b: int|
                0 <= a < width && 0 <= b < y ==> image_pixels(image)[(a, b)] == (
                    pixels@[b * width + a].r,
                    pixels@[b * width + a].g,
                    pixels@[b * width + a].b,
                ),
        decreases height - y,
    {
        let mut x: usize = 0;
        while x < width
            invariant
                0 < width <= u32::MAX,
                0 < height <= u32::MAX,
                pixels@.len() == (width as int) * (height as int),
                total == pixels@.len(),
                y < height,
                x <= width,
                image_size(image) == (width as int, height as int),
                forall|a: int, b: int|
                    0 <= a < width && 0 <= b < y ==> image_pixels(image)[(a, b)] == (
                        pixels@[b * width + a].r,
                        pixels@[b * width + a].g,
                        pixels@[b * width + a].b,
                    ),
                forall|a: int|
                    0 <= a < x ==> image_pixels(image)[(a, y as int)] == (
                        pixels@[y * width + a].r,
                        pixels@[y * width + a].g,
                        pixels@[y * width + a].b,
                    ),
            decreases width - x,
        {
            proof {
                crate::grid::lemma_row_major_bounds(x as int, y as int, width as int, height as int);
            }
            let idx = y * width + x;
            image_put_pixel(&mut image, x as u32, y as u32, pixels[idx]);
            x += 1;
        }
        y += 1;
    }
    image
}

} // verus!
