//! The pixel buffer of the map.

use vstd::prelude::*;

verus! {

/// Red, green, blue and alpha.
pub type Pixel = (u8, u8, u8, u8);

/// An image of the `image` crate with four bytes per pixel.
#[verifier::external_body]
pub struct MapImage {
    img: image::RgbaImage,
}

/// The width and height of an image.
pub uninterp spec fn image_size(img: MapImage) -> (u32, u32);

/// The pixels of an image by column and row.
pub uninterp spec fn image_pixels(img: MapImage) -> Map<(int, int), Pixel>;

/// How many pixels an image can have, and how many stand in a row, so that
/// their bytes can be counted and held on every machine.
pub const MOST_PIXELS: u32 = 0x1fff_ffff;

/// Wraps `RgbaImage::new`: an image of zero bytes. It panics where the bytes
/// of a row, or of all rows, cannot be counted.
#[verifier::external_body]
fn new_image(width: u32, height: u32) -> (img: MapImage)
    requires
        width <= MOST_PIXELS,
        width * height <= MOST_PIXELS,
    ensures
        image_size(img) == (width, height),
        (forall|x: int, y: int|
            0 <= x < width && 0 <= y < height ==> #[trigger] image_pixels(img)[(x, y)] == (
            0u8,
            0u8,
            0u8,
            0u8,
        )),
{
    MapImage { img: image::RgbaImage::new(width, height) }
}

/// Wraps `ImageBuffer::dimensions`.
#[verifier::external_body]
fn dimensions(img: &MapImage) -> (size: (u32, u32))
    ensures
        size == image_size(*img),
{
    img.img.dimensions()
}

/// Wraps `ImageBuffer::get_pixel`, which panics outside the image.
#[verifier::external_body]
fn get_pixel(img: &MapImage, x: u32, y: u32) -> (pixel: Pixel)
    requires
        x < image_size(*img).0,
        y < image_size(*img).1,
    ensures
        pixel == image_pixels(*img)[(x as int, y as int)],
{
    let p = img.img.get_pixel(x, y).0;
    (p[0], p[1], p[2], p[3])
}

/// Wraps `ImageBuffer::put_pixel`, which panics outside the image.
#[verifier::external_body]
fn put_pixel(img: &mut MapImage, x: u32, y: u32, pixel: Pixel)
    requires
        x < image_size(*old(img)).0,
        y < image_size(*old(img)).1,
    ensures
        image_size(*final(img)) == image_size(*old(img)),
        image_pixels(*final(img)) == image_pixels(*old(img)).insert((x as int, y as int), pixel),
{
    img.img.put_pixel(x, y, image::Rgba([pixel.0, pixel.1, pixel.2, pixel.3]));
}

/// The pixel that the bytes of an image of the given width hold at a column
/// and a row: row by row, four bytes each.
pub open spec fn pixel_in(bytes: Seq<u8>, width: int, x: int, y: int) -> Pixel {
    let i = 4 * (y * width + x);
    (bytes[i], bytes[i + 1], bytes[i + 2], bytes[i + 3])
}

/// Wraps `ImageBuffer::as_raw`: the bytes of the pixels, row by row.
#[verifier::external_body]
fn raw_bytes(img: &MapImage) -> (bytes: Vec<u8>)
    ensures
        bytes@.len() >= 4 * image_size(*img).0 * image_size(*img).1,
        (forall|x: int, y: int|
            0 <= x < image_size(*img).0 && 0 <= y < image_size(*img).1
                ==> #[trigger] image_pixels(*img)[(x, y)] == pixel_in(
                bytes@,
                image_size(*img).0 as int,
                x,
                y,
            )),
{
    img.img.as_raw().clone()
}

/// Wraps `ImageBuffer::from_raw`: an image over the bytes, if there are enough
/// of them. Whether it makes an image of no bytes whose rows are too long to
/// be counted depends on the machine.
#[verifier::external_body]
fn image_from_raw(width: u32, height: u32, bytes: Vec<u8>) -> (made: Option<MapImage>)
    ensures
        made is Some ==> bytes@.len() >= 4 * width * height,
        made is None ==> bytes@.len() < 4 * width * height || width > MOST_PIXELS,
        made matches Some(img) ==> image_size(img) == (width, height),
        made matches Some(img) ==> (forall|x: int, y: int|
            0 <= x < width && 0 <= y < height ==> #[trigger] image_pixels(img)[(x, y)] == pixel_in(
                bytes@,
                width as int,
                x,
                y,
            )),
{
    Some(MapImage { img: image::RgbaImage::from_raw(width, height, bytes)? })
}

/// Wraps `ImageBuffer::clone`: an image with the same pixels.
#[verifier::external_body]
fn clone_image(img: &MapImage) -> (copy: MapImage)
    ensures
        image_size(copy) == image_size(*img),
        image_pixels(copy) == image_pixels(*img),
{
    MapImage { img: img.img.clone() }
}

impl MapImage {
    /// The width in pixels.
    pub open spec fn w(&self) -> int {
        image_size(*self).0 as int
    }

    /// The height in pixels.
    pub open spec fn h(&self) -> int {
        image_size(*self).1 as int
    }

    /// Whether a column and a row are inside the image.
    pub open spec fn has(&self, x: int, y: int) -> bool {
        0 <= x < self.w() && 0 <= y < self.h()
    }

    /// The pixel at a column and a row.
    pub open spec fn at(&self, x: int, y: int) -> Pixel {
        image_pixels(*self)[(x, y)]
    }

    /// An image with all bytes zero.
    pub fn new(width: u32, height: u32) -> (img: MapImage)
        requires
            width <= MOST_PIXELS,
            width * height <= MOST_PIXELS,
        ensures
            image_size(img) == (width, height),
            forall|x: int, y: int| img.has(x, y) ==> #[trigger] img.at(x, y) == (0u8, 0u8, 0u8, 0u8),
    {
        new_image(width, height)
    }

    /// The width in pixels.
    pub fn width(&self) -> (n: u32)
        ensures
            n == self.w(),
    {
        dimensions(self).0
    }

    /// The height in pixels.
    pub fn height(&self) -> (n: u32)
        ensures
            n == self.h(),
    {
        dimensions(self).1
    }

    /// Reads a pixel.
    pub fn pixel(&self, x: u32, y: u32) -> (p: Pixel)
        requires
            self.has(x as int, y as int),
        ensures
            p == self.at(x as int, y as int),
    {
        get_pixel(self, x, y)
    }

    /// Writes a pixel.
    pub fn set_pixel(&mut self, x: u32, y: u32, p: Pixel)
        requires
            old(self).has(x as int, y as int),
        ensures
            image_size(*final(self)) == image_size(*old(self)),
            final(self).at(x as int, y as int) == p,
            forall|i: int, j: int|
                (i != x || j != y) && old(self).has(i, j) ==> #[trigger] final(self).at(i, j)
                    == old(self).at(i, j),
    {
        put_pixel(self, x, y, p);
    }

    /// The bytes of the pixels, row by row.
    pub fn to_bytes(&self) -> (bytes: Vec<u8>)
        ensures
            bytes@.len() >= 4 * self.w() * self.h(),
            forall|x: int, y: int|
                self.has(x, y) ==> #[trigger] self.at(x, y) == pixel_in(bytes@, self.w(), x, y),
    {
        raw_bytes(self)
    }

    /// An image over the bytes of its pixels, if there are enough of them.
    pub fn from_bytes(width: u32, height: u32, bytes: Vec<u8>) -> (made: Option<MapImage>)
        ensures
            made is Some ==> bytes@.len() >= 4 * width * height,
            made is None ==> bytes@.len() < 4 * width * height || width > MOST_PIXELS,
            made matches Some(img) ==> image_size(img) == (width, height),
            made matches Some(img) ==> (forall|x: int, y: int|
                img.has(x, y) ==> #[trigger] img.at(x, y) == pixel_in(
                    bytes@,
                    width as int,
                    x,
                    y,
                )),
    {
        image_from_raw(width, height, bytes)
    }

    /// A second image with the same pixels.
    pub fn duplicate(&self) -> (copy: MapImage)
        ensures
            image_size(copy) == image_size(*self),
            forall|x: int, y: int|
                self.has(x, y) ==> #[trigger] copy.at(x, y) == self.at(x, y),
    {
        clone_image(self)
    }
}

/// An image has the columns from zero up to its width and the rows from zero up
/// to its height.
pub proof fn images_begin_at_zero(img: MapImage, x: int, y: int)
    ensures
        img.has(x, y) <==> 0 <= x && x < image_size(img).0 && 0 <= y && y < image_size(img).1,
{
}

/// The bytes of a pixel are red, green, blue and alpha. A pixel is followed by
/// its right neighbor, and the last one of a row by the first one of the next.
pub proof fn bytes_stand_row_by_row(bytes: Seq<u8>, width: int, x: int, y: int)
    ensures
        pixel_in(bytes, width, 0, 0) == (bytes[0], bytes[1], bytes[2], bytes[3]),
        pixel_in(bytes.skip(4), width, x, y) == pixel_in(bytes, width, x + 1, y) || y * width + x < 0
            || 4 * (y * width + x) + 8 > bytes.len(),
        pixel_in(bytes, width, width, y) == pixel_in(bytes, width, 0, y + 1),
{
    assert(0 * width == 0);
    assert((y + 1) * width == y * width + width) by (nonlinear_arith);
}

} // verus!
