//! The pixel buffer that a render pass paints into.

use vstd::prelude::*;

verus! {

/// A color as its red, green and blue channel.
pub type Rgb = (u8, u8, u8);

/// An image of three 8-bit channels per pixel, held in an `image::RgbImage`.
#[verifier::external_body]
pub struct Canvas {
    buffer: image::RgbImage,
}

/// The pixels of a canvas: the color at each `(x, y)` within its bounds.
pub uninterp spec fn canvas_pixels(canvas: Canvas) -> Map<(u32, u32), Rgb>;

/// The width and the height of a canvas.
pub uninterp spec fn canvas_size(canvas: Canvas) -> (u32, u32);

/// The pixels of a canvas of the given size in one color.
pub open spec fn blank(width: u32, height: u32, color: Rgb) -> Map<(u32, u32), Rgb> {
    Map::new(|p: (u32, u32)| p.0 < width && p.1 < height, |p: (u32, u32)| color)
}

impl Canvas {
    /// Whether the canvas holds exactly the pixels within its bounds.
    pub open spec fn well_formed(self) -> bool {
        forall|p: (u32, u32)|
            canvas_pixels(self).contains_key(p) <==> p.0 < canvas_size(self).0 && p.1
                < canvas_size(self).1
    }

    /// A canvas of the given size with every pixel in `color`, made with
    /// `ImageBuffer::from_pixel`. That call panics where the buffer's length
    /// overflows; `requires` leaves such sizes out.
    #[verifier::external_body]
    pub(crate) fn filled(width: u32, height: u32, color: Rgb) -> (canvas: Canvas)
        requires
            3 * width * height <= isize::MAX,
        ensures
            canvas_size(canvas) == (width, height),
            canvas_pixels(canvas) == blank(width, height, color),
    {
        Canvas {
            buffer: image::ImageBuffer::from_pixel(
                width,
                height,
                image::Rgb([color.0, color.1, color.2]),
            ),
        }
    }

    /// Sets one pixel with `ImageBuffer::put_pixel`, which leaves the size and
    /// all other pixels as they are and panics outside the bounds.
    #[verifier::external_body]
    pub(crate) fn put(&mut self, x: u32, y: u32, color: Rgb)
        requires
            x < canvas_size(*old(self)).0,
            y < canvas_size(*old(self)).1,
        ensures
            canvas_size(*final(self)) == canvas_size(*old(self)),
            canvas_pixels(*final(self)) == canvas_pixels(*old(self)).insert((x, y), color),
    {
        self.buffer.put_pixel(x, y, image::Rgb([color.0, color.1, color.2]));
    }

    /// Reads one pixel with `ImageBuffer::get_pixel`, which panics outside the
    /// bounds.
    #[verifier::external_body]
    pub(crate) fn get(&self, x: u32, y: u32) -> (color: Rgb)
        requires
            x < canvas_size(*self).0,
            y < canvas_size(*self).1,
        ensures
            color == canvas_pixels(*self)[(x, y)],
    {
        let pixel = self.buffer.get_pixel(x, y);
        (pixel.0[0], pixel.0[1], pixel.0[2])
    }

    /// The width and the height, with `ImageBuffer::dimensions`.
    #[verifier::external_body]
    pub(crate) fn dimensions(&self) -> (size: (u32, u32))
        ensures
            size == canvas_size(*self),
    {
        self.buffer.dimensions()
    }

    pub fn width(&self) -> (width: u32)
        ensures
            width == canvas_size(*self).0,
    {
        self.dimensions().0
    }

    pub fn height(&self) -> (height: u32)
        ensures
            height == canvas_size(*self).1,
    {
        self.dimensions().1
    }

    /// The color of the pixel at `(x, y)`; `None` outside the canvas.
    pub fn pixel(&self, x: u32, y: u32) -> (color: Option<Rgb>)
        ensures
            color == (if x < canvas_size(*self).0 && y < canvas_size(*self).1 {
                Some(canvas_pixels(*self)[(x, y)])
            } else {
                None
            }),
    {
        let (width, height) = self.dimensions();
        if x < width && y < height {
            Some(self.get(x, y))
        } else {
            None
        }
    }
}

} // verus!
