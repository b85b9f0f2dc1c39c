//! A decoded picture: an RGBA pixel buffer of the `image` crate.
//!
//! The buffer is kept as the `image` crate made it and is read and resampled
//! by that crate. What it holds is named by three specification functions; the
//! functions that touch the buffer say, over those names, what the crate's
//! source shows of the call they make. None of those statements is proved
//! here.

use vstd::prelude::*;
use crate::ratio::Ratio;
use crate::sizing::{fit, target_size, ScaleWhen, SizeError};

verus! {

/// An RGBA picture with eight bits per channel, held in an
/// `image::ImageBuffer<image::Rgba<u8>, Vec<u8>>`.
#[verifier::external_body]
pub struct Picture {
    buffer: image::ImageBuffer<image::Rgba<u8>, Vec<u8>>,
}

/// The number of pixels in a row of the picture.
pub uninterp spec fn picture_width(p: Picture) -> nat;

/// The number of rows of the picture.
pub uninterp spec fn picture_height(p: Picture) -> nat;

/// The samples of the picture's buffer: four for each pixel (red, green, blue,
/// alpha), pixel after pixel along a row, row after row from the top.
pub uninterp spec fn picture_samples(p: Picture) -> Seq<u8>;

/// The samples of the picture that `image::imageops::resize` makes, with the
/// nearest-neighbour filter, from a `width` x `height` picture with the given
/// samples and the new width and height.
pub uninterp spec fn resampled(
    samples: Seq<u8>,
    width: nat,
    height: nat,
    new_width: nat,
    new_height: nat,
) -> Seq<u8>;

/// Where the first sample of the pixel in column `x` of row `y` stands.
pub open spec fn sample_index(width: nat, x: int, y: int) -> int {
    4 * (y * width + x)
}

/// The four samples of the pixel in column `x` of row `y`.
pub open spec fn pixel_at(p: Picture, x: int, y: int) -> Seq<u8> {
    picture_samples(p).subrange(
        sample_index(picture_width(p), x, y),
        sample_index(picture_width(p), x, y) + 4,
    )
}

/// The bytes that a buffer of `width` x `height` RGBA pixels takes.
pub open spec fn buffer_bytes(width: nat, height: nat) -> nat {
    4 * width * height
}

/// The samples of one row of `width` RGBA pixels can be counted in `usize`.
/// The `image` crate counts a buffer's samples row first: four times the
/// width, then times the height, each product checked on its own, so a row
/// that cannot be counted fails even where the picture has no rows.
pub open spec fn row_fits(width: nat) -> bool {
    4 * width <= usize::MAX
}

/// `count` samples are enough for a picture of `width` x `height` pixels: a
/// row can be counted, and there are four samples for each pixel.
pub open spec fn samples_suffice(width: nat, height: nat, count: nat) -> bool {
    &&& row_fits(width)
    &&& buffer_bytes(width, height) <= count
}

/// A new buffer of `width` x `height` RGBA pixels can be made: a row can be
/// counted, and the whole takes no more bytes than an allocation can have.
pub open spec fn can_allocate(width: nat, height: nat) -> bool {
    &&& row_fits(width)
    &&& buffer_bytes(width, height) <= isize::MAX
}

/// Resampling a `width`-wide picture to `new_width` x `new_height` makes a
/// buffer of `width` x `new_height` pixels and one of `new_width` x
/// `new_height` pixels; both have to be possible.
pub open spec fn can_resample(width: nat, new_width: nat, new_height: nat) -> bool {
    &&& can_allocate(width, new_height)
    &&& can_allocate(new_width, new_height)
}

/// What fitting a picture to a canvas gives: the picture itself where it is
/// not scaled, the resampled picture where it is, or the reason why there is
/// none.
pub open spec fn fitted(
    p: Picture,
    r: Result<Picture, SizeError>,
    canvas_width: nat,
    canvas_height: nat,
    divisor: Ratio,
    when: ScaleWhen,
) -> bool {
    match target_size(
        picture_width(p),
        picture_height(p),
        canvas_width,
        canvas_height,
        divisor,
        when,
    ) {
        Err(e) => r == Err::<Picture, SizeError>(e),
        Ok(t) => if !t.resample {
            r == Ok::<Picture, SizeError>(p)
        } else if !can_resample(picture_width(p), t.width as nat, t.height as nat) {
            r == Err::<Picture, SizeError>(SizeError::TooLarge)
        } else {
            &&& r is Ok
            &&& picture_width(r->Ok_0) == t.width
            &&& picture_height(r->Ok_0) == t.height
            &&& picture_samples(r->Ok_0) == resampled(
                picture_samples(p),
                picture_width(p),
                picture_height(p),
                t.width as nat,
                t.height as nat,
            )
        },
    }
}

impl Picture {
    /// Calls `image::ImageBuffer::from_raw`. The source shows that it
    /// multiplies four by the width, and that product by the height, each in
    /// `usize` and each with an overflow check; that it returns `None` where
    /// either product overflows or the second exceeds the number of samples
    /// given; and that it otherwise keeps the width, the height and the
    /// samples as they are.
    #[verifier::external_body]
    fn buffer_from_raw(width: u32, height: u32, samples: Vec<u8>) -> (r: Option<Picture>)
        ensures
            r is Some <==> samples_suffice(width as nat, height as nat, samples@.len()),
            r matches Some(p) ==> picture_width(p) == width && picture_height(p) == height
                && picture_samples(p) == samples@,
    {
        match image::ImageBuffer::from_raw(width, height, samples) {
            Some(buffer) => Some(Picture { buffer }),
            None => None,
        }
    }

    /// Calls `image::ImageBuffer::width`, which returns the width that the
    /// buffer was made with.
    #[verifier::external_body]
    fn buffer_width(&self) -> (w: u32)
        ensures
            w == picture_width(*self),
    {
        self.buffer.width()
    }

    /// Calls `image::ImageBuffer::height`, which returns the height that the
    /// buffer was made with.
    #[verifier::external_body]
    fn buffer_height(&self) -> (h: u32)
        ensures
            h == picture_height(*self),
    {
        self.buffer.height()
    }

    /// Calls `image::ImageBuffer::get_pixel`. The source shows that it panics
    /// where `x` or `y` is out of bounds, and otherwise returns the four
    /// samples that start at `(y * width + x) * 4` in the buffer.
    #[verifier::external_body]
    fn buffer_pixel(&self, x: u32, y: u32) -> (c: [u8; 4])
        requires
            x < picture_width(*self),
            y < picture_height(*self),
        ensures
            c@ == pixel_at(*self, x as int, y as int),
    {
        self.buffer.get_pixel(x, y).0
    }

    /// Calls `image::imageops::resize` with `FilterType::Nearest`. The source
    /// shows that it makes a buffer of `width` x `new_height` pixels and one
    /// of `new_width` x `new_height` pixels, which it returns, and that it
    /// fills them from the picture's pixels and the four sizes alone. It
    /// panics where the samples of a row or of a whole buffer cannot be
    /// counted or allocated, and divides zero by zero where the picture has
    /// no pixels.
    #[verifier::external_body]
    fn buffer_resized(&self, new_width: u32, new_height: u32) -> (r: Picture)
        requires
            picture_width(*self) > 0,
            picture_height(*self) > 0,
            can_resample(picture_width(*self), new_width as nat, new_height as nat),
        ensures
            picture_width(r) == new_width,
            picture_height(r) == new_height,
            picture_samples(r) == resampled(
                picture_samples(*self),
                picture_width(*self),
                picture_height(*self),
                new_width as nat,
                new_height as nat,
            ),
    {
        Picture {
            buffer: image::imageops::resize(
                &self.buffer,
                new_width,
                new_height,
                image::imageops::FilterType::Nearest,
            ),
        }
    }

    /// A picture of `width` x `height` pixels from its samples, four for each
    /// pixel; `None` where the samples are too few, or where the samples of
    /// one row cannot be counted on this machine.
    pub fn new(width: u32, height: u32, samples: Vec<u8>) -> (r: Option<Picture>)
        ensures
            r is Some <==> samples_suffice(width as nat, height as nat, samples@.len()),
            r matches Some(p) ==> picture_width(p) == width && picture_height(p) == height
                && picture_samples(p) == samples@,
    {
        Picture::buffer_from_raw(width, height, samples)
    }

    /// The picture's width and height.
    pub fn dimensions(&self) -> (d: (u32, u32))
        ensures
            d.0 == picture_width(*self),
            d.1 == picture_height(*self),
    {
        (self.buffer_width(), self.buffer_height())
    }

    /// The red, green and blue of the pixel in column `x` of row `y`; `None`
    /// where the picture has no such pixel.
    pub fn color_at(&self, x: u32, y: u32) -> (c: Option<(u8, u8, u8)>)
        ensures
            c is Some <==> x < picture_width(*self) && y < picture_height(*self),
            c matches Some(rgb) ==> rgb.0 == pixel_at(*self, x as int, y as int)[0] && rgb.1
                == pixel_at(*self, x as int, y as int)[1] && rgb.2 == pixel_at(
                *self,
                x as int,
                y as int,
            )[2],
    {
        if x < self.buffer_width() && y < self.buffer_height() {
            let c = self.buffer_pixel(x, y);
            Some((c[0], c[1], c[2]))
        } else {
            None
        }
    }
}

/// Whether a new buffer of `width` x `height` RGBA pixels can be made.
fn allocatable(width: u32, height: u32) -> (ok: bool)
    ensures
        ok == can_allocate(width as nat, height as nat),
{
    assert(4 * width * height <= 0x4_0000_0000_0000_0000) by (nonlinear_arith)
        requires
            width < 0x1_0000_0000,
            height < 0x1_0000_0000,
    ;
    let row: u128 = 4 * (width as u128);
    let bytes: u128 = row * (height as u128);
    row <= usize::MAX as u128 && bytes <= isize::MAX as u128
}

/// Fits a picture to a canvas: the picture as it is where it is not to be
/// scaled, and otherwise resampled, nearest neighbour, to its scaled size.
pub fn fit_picture(
    picture: Picture,
    canvas_width: u32,
    canvas_height: u32,
    divisor: Ratio,
    when: ScaleWhen,
) -> (r: Result<Picture, SizeError>)
    ensures
        fitted(picture, r, canvas_width as nat, canvas_height as nat, divisor, when),
{
    let (width, height) = picture.dimensions();
    match fit(width, height, canvas_width, canvas_height, divisor, when) {
        Err(e) => Err(e),
        Ok(target) => {
            if !target.resample {
                Ok(picture)
            } else if !allocatable(width, target.height) || !allocatable(
                target.width,
                target.height,
            ) {
                Err(SizeError::TooLarge)
            } else {
                Ok(picture.buffer_resized(target.width, target.height))
            }
        },
    }
}

} // verus!
