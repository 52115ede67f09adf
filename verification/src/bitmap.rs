//! Rendered pages: rasters of RGBA pixels.

use crate::text::{thousandths_of, thousandths_text};
use ab_glyph::{FontVec, PxScale};
use image::{Rgba, RgbaImage};
use imageproc::drawing::draw_text_mut;
use vstd::prelude::*;

verus! {

/// A rendered page: an `image::RgbaImage`, rows of pixels of four bytes
/// each, red, green, blue and alpha.
#[verifier::external_body]
pub struct Bitmap {
    image: RgbaImage,
}

/// The width of a bitmap in pixels.
pub uninterp spec fn bitmap_width(bitmap: Bitmap) -> u32;

/// The height of a bitmap in pixels.
pub uninterp spec fn bitmap_height(bitmap: Bitmap) -> u32;

/// The bytes of a bitmap, row by row, four to a pixel.
pub uninterp spec fn bitmap_pixels(bitmap: Bitmap) -> Seq<u8>;

/// The bytes of a raster after `imageproc` has drawn one line of text on
/// it: `ink` is the colour, `(x, y)` the top left corner of the line and
/// `font_size` the size of the font in thousandths of a pixel.
pub uninterp spec fn text_drawn(
    width: u32,
    height: u32,
    pixels: Seq<u8>,
    ink: Seq<u8>,
    x: int,
    y: int,
    font_size: int,
    font: FontVec,
    text: Seq<char>,
) -> Seq<u8>;

/// Whether a raster of this size can be held in memory: a vector holds no
/// more than `isize::MAX` bytes.
pub open spec fn raster_fits(width: int, height: int) -> bool {
    4 * width * height <= isize::MAX
}

/// The bytes of a raster of one colour.
pub open spec fn plain_pixels(width: int, height: int, color: Seq<u8>) -> Seq<u8> {
    Seq::new((4 * width * height) as nat, |i: int| color[i % 4])
}

/// The longest line of text that is drawn, in characters.
pub const MAX_DRAWN_CHARS: usize = 4095;

/// The farthest from the origin that a line of text is drawn, in pixels.
pub const MAX_DRAWN_OFFSET: i32 = 0x100_0000;

/// Whether a line of text can be drawn: the font has a height and is no
/// larger in pixels than in its own units, and the line is short and near
/// enough for every pixel position that the drawing computes to be a 32-bit
/// number. `font_size` is in thousandths of a pixel.
pub open spec fn drawable(
    height_units: int,
    font_size: int,
    x: int,
    y: int,
    text: Seq<char>,
) -> bool {
    &&& 1 <= height_units
    &&& font_size <= 1000 * height_units
    &&& text.len() <= MAX_DRAWN_CHARS
    &&& -MAX_DRAWN_OFFSET <= x <= MAX_DRAWN_OFFSET
    &&& -MAX_DRAWN_OFFSET <= y <= MAX_DRAWN_OFFSET
}

/// Calls `RgbaImage::from_pixel`. Trusted: the raster has the size asked
/// for and every pixel has the colour given.
#[verifier::external_body]
fn image_from_pixel(width: u32, height: u32, color: [u8; 4]) -> (r: Bitmap)
    requires
        raster_fits(width as int, height as int),
    ensures
        bitmap_width(r) == width,
        bitmap_height(r) == height,
        bitmap_pixels(r) == plain_pixels(width as int, height as int, color@),
{
    Bitmap { image: RgbaImage::from_pixel(width, height, Rgba(color)) }
}

/// Calls `RgbaImage::from_raw`. Trusted: it takes the bytes as they are
/// when there are at least four for every pixel, and refuses them otherwise.
#[verifier::external_body]
fn image_from_raw(width: u32, height: u32, pixels: Vec<u8>) -> (r: Option<Bitmap>)
    ensures
        match r {
            Some(b) => 4 * width * height <= pixels.len() && bitmap_width(b) == width
                && bitmap_height(b) == height && bitmap_pixels(b) == pixels@,
            None => 4 * width * height > pixels.len(),
        },
{
    RgbaImage::from_raw(width, height, pixels).map(|image| Bitmap { image })
}

/// Calls `RgbaImage::width`. Trusted: it is the width that `bitmap_width`
/// names.
#[verifier::external_body]
fn image_width(bitmap: &Bitmap) -> (r: u32)
    ensures
        r == bitmap_width(*bitmap),
{
    bitmap.image.width()
}

/// Calls `RgbaImage::height`. Trusted: it is the height that
/// `bitmap_height` names.
#[verifier::external_body]
fn image_height(bitmap: &Bitmap) -> (r: u32)
    ensures
        r == bitmap_height(*bitmap),
{
    bitmap.image.height()
}

/// Calls `RgbaImage::into_raw`. Trusted: it hands out the bytes that
/// `bitmap_pixels` names.
#[verifier::external_body]
fn image_into_raw(bitmap: Bitmap) -> (r: Vec<u8>)
    ensures
        r@ == bitmap_pixels(bitmap),
{
    bitmap.image.into_raw()
}

/// The size of a font in thousandths of a pixel, with the same size
/// written in pixels as a decimal fraction. The drawing measures in
/// fractions of a pixel; the text says the size to it exactly.
pub struct FontSize {
    thousandths: u64,
    text: String,
}

impl FontSize {
    /// The size in thousandths of a pixel.
    pub closed spec fn thousandths(&self) -> u64 {
        self.thousandths
    }

    /// Whether the text says the size.
    pub closed spec fn well_formed(&self) -> bool {
        self.text@ == thousandths_text(self.thousandths as nat)
    }

    /// A size of so many thousandths of a pixel.
    pub fn new(thousandths: u64) -> (r: FontSize)
        ensures
            r.well_formed(),
            r.thousandths() == thousandths,
    {
        FontSize { thousandths, text: thousandths_of(thousandths) }
    }
}

/// Calls `imageproc::drawing::draw_text_mut`, with the size of the font
/// read from its decimal text by `str::parse`. Trusted: the raster keeps
/// its size, and its bytes become what `text_drawn` names. The call is made
/// only where `drawable` holds: there no pixel position that the drawing
/// adds up leaves the 32-bit numbers.
#[verifier::external_body]
pub(crate) fn draw_text(
    bitmap: &mut Bitmap,
    ink: [u8; 4],
    x: i32,
    y: i32,
    size: &FontSize,
    font: &FontVec,
    text: &str,
)
    requires
        size.well_formed(),
        drawable(
            crate::text_render::height_units(*font) as int,
            size.thousandths() as int,
            x as int,
            y as int,
            text@,
        ),
    ensures
        bitmap_width(*final(bitmap)) == bitmap_width(*old(bitmap)),
        bitmap_height(*final(bitmap)) == bitmap_height(*old(bitmap)),
        bitmap_pixels(*final(bitmap)) == text_drawn(
            bitmap_width(*old(bitmap)),
            bitmap_height(*old(bitmap)),
            bitmap_pixels(*old(bitmap)),
            ink@,
            x as int,
            y as int,
            size.thousandths() as int,
            *font,
            text@,
        ),
{
    let px = size.text.parse().unwrap_or_default();
    draw_text_mut(&mut bitmap.image, Rgba(ink), x, y, PxScale { x: px, y: px }, font, text)
}

impl Bitmap {
    /// A raster of one colour.
    pub fn filled(width: u32, height: u32, color: [u8; 4]) -> (r: Bitmap)
        requires
            raster_fits(width as int, height as int),
        ensures
            bitmap_width(r) == width,
            bitmap_height(r) == height,
            bitmap_pixels(r) == plain_pixels(width as int, height as int, color@),
    {
        image_from_pixel(width, height, color)
    }

    /// A raster made of its bytes; `None` when there are fewer than four
    /// for every pixel.
    pub fn from_raw(width: u32, height: u32, pixels: Vec<u8>) -> (r: Option<Bitmap>)
        ensures
            match r {
                Some(b) => 4 * width * height <= pixels.len() && bitmap_width(b) == width
                    && bitmap_height(b) == height && bitmap_pixels(b) == pixels@,
                None => 4 * width * height > pixels.len(),
            },
    {
        image_from_raw(width, height, pixels)
    }

    /// The width in pixels.
    pub fn width(&self) -> (r: u32)
        ensures
            r == bitmap_width(*self),
    {
        image_width(self)
    }

    /// The height in pixels.
    pub fn height(&self) -> (r: u32)
        ensures
            r == bitmap_height(*self),
    {
        image_height(self)
    }

    /// Gives up the bytes of the raster.
    pub fn into_raw(self) -> (r: Vec<u8>)
        ensures
            r@ == bitmap_pixels(self),
    {
        image_into_raw(self)
    }
}

} // verus!
