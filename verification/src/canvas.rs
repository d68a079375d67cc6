//! The atlas pixel surface: an RGBA image buffer of the `image` crate,
//! held behind a small trusted interface.
//!
//! The packer only needs to allocate a blank surface, write single pixels
//! inside its bounds, and read them back; nothing else of the `image` crate
//! is relied on. The surface is modeled by three uninterpreted names: its
//! width, its height, and the map of pixel values written so far.

use vstd::prelude::*;

verus! {

/// An RGBA pixel surface. Holds the `image` crate's buffer; all the
/// verifier knows of it is said by `canvas_width`, `canvas_height` and
/// `canvas_pixels`.
#[verifier::external_body]
pub struct Canvas {
    buf: image::ImageBuffer<image::Rgba<u8>, Vec<u8>>,
}

/// The surface's width in pixels, as it was allocated.
pub uninterp spec fn canvas_width(c: Canvas) -> u32;

/// The surface's height in pixels, as it was allocated.
pub uninterp spec fn canvas_height(c: Canvas) -> u32;

/// The pixel values of the surface: coordinate to (red, green, blue,
/// alpha).
pub uninterp spec fn canvas_pixels(c: Canvas) -> Map<(int, int), (u8, u8, u8, u8)>;

impl Canvas {
    /// Relies on `image::ImageBuffer::new`: the buffer has the given
    /// dimensions and every pixel value starts at zero. `new` panics when
    /// the byte length `4 * width * height` overflows `usize`, so that is
    /// required away.
    #[verifier::external_body]
    pub fn new(width: u32, height: u32) -> (r: Canvas)
        requires
            4 * (width as int) * (height as int) <= usize::MAX as int,
        ensures
            canvas_width(r) == width,
            canvas_height(r) == height,
            forall|x: int, y: int|
                0 <= x < width && 0 <= y < height ==> canvas_pixels(r).dom().contains((x, y))
                    && canvas_pixels(r)[(x, y)] == (0u8, 0u8, 0u8, 0u8),
    {
        Canvas { buf: image::ImageBuffer::new(width, height) }
    }

    /// Relies on `image::ImageBuffer::width`.
    #[verifier::external_body]
    pub fn width(&self) -> (r: u32)
        ensures
            r == canvas_width(*self),
    {
        self.buf.width()
    }

    /// Relies on `image::ImageBuffer::height`.
    #[verifier::external_body]
    pub fn height(&self) -> (r: u32)
        ensures
            r == canvas_height(*self),
    {
        self.buf.height()
    }

    /// Relies on `image::ImageBuffer::put_pixel`: stores the RGBA value at
    /// `(x, y)`. It panics out of bounds, so in-bounds coordinates are
    /// required.
    #[verifier::external_body]
    pub fn put(&mut self, x: u32, y: u32, r: u8, g: u8, b: u8, a: u8)
        requires
            x < canvas_width(*old(self)),
            y < canvas_height(*old(self)),
        ensures
            canvas_width(*final(self)) == canvas_width(*old(self)),
            canvas_height(*final(self)) == canvas_height(*old(self)),
            canvas_pixels(*final(self)) == canvas_pixels(*old(self)).insert(
                (x as int, y as int),
                (r, g, b, a),
            ),
    {
        self.buf.put_pixel(x, y, image::Rgba([r, g, b, a]));
    }

    /// Relies on `image::ImageBuffer::get_pixel`: reads the RGBA value at
    /// `(x, y)`. It panics out of bounds, so in-bounds coordinates are
    /// required.
    #[verifier::external_body]
    pub fn get(&self, x: u32, y: u32) -> (r: (u8, u8, u8, u8))
        requires
            x < canvas_width(*self),
            y < canvas_height(*self),
        ensures
            canvas_pixels(*self).dom().contains((x as int, y as int)) ==> r == canvas_pixels(
                *self,
            )[(x as int, y as int)],
    {
        let p = self.buf.get_pixel(x, y);
        (p.0[0], p.0[1], p.0[2], p.0[3])
    }
}

} // verus!
