//! What is sent to the canvas.
//!
//! The canvas is a surface that can be initialised, given one pixel at a time,
//! written out, rendered and shut down. This module decides which of these
//! operations are issued and in which order; performing them is the caller's
//! part.

use vstd::prelude::*;
use crate::picture::{picture_height, picture_width, pixel_at, Picture};
use crate::sizing::SizeError;

verus! {

/// One operation on the canvas.
#[derive(Clone, Copy, Debug, PartialEq, Eq, Structural)]
pub enum CanvasOp {
    /// Give the pixel in column `x` of row `y` a colour. The canvas counts
    /// columns and rows in `i32`.
    SetPixel { x: i32, y: i32, r: u8, g: u8, b: u8 },
    /// Write the pixels out to the canvas's buffer.
    WriteOut,
    /// Show the canvas.
    Render,
    /// Shut the canvas down.
    Deinit,
    /// Reset the terminal's colour.
    ResetColor,
}

/// The operation that colours the pixel in column `x` of row `y` as the
/// picture has it; the picture's alpha is not used.
pub open spec fn pixel_op(p: Picture, x: int, y: int) -> CanvasOp {
    CanvasOp::SetPixel {
        x: x as i32,
        y: y as i32,
        r: pixel_at(p, x, y)[0],
        g: pixel_at(p, x, y)[1],
        b: pixel_at(p, x, y)[2],
    }
}

/// Where the pixel in column `x` of row `y` stands among the operations that
/// draw a picture `height` rows high: columns come one after the other, and
/// within a column the rows from the top.
pub open spec fn op_index(height: nat, x: int, y: int) -> int {
    x * height + y
}

/// `ops` draws the picture: one pixel operation for each pixel, column by
/// column, then the write-out, then the render, and nothing else.
pub open spec fn draws(ops: Seq<CanvasOp>, p: Picture) -> bool {
    &&& ops.len() == picture_width(p) * picture_height(p) + 2
    &&& forall|x: int, y: int|
        0 <= x < picture_width(p) && 0 <= y < picture_height(p) ==> ops[op_index(
            picture_height(p),
            x,
            y,
        )] == #[trigger] pixel_op(p, x, y)
    &&& ops[op_index(picture_height(p), picture_width(p) as int, 0)] == CanvasOp::WriteOut
    &&& ops[op_index(picture_height(p), picture_width(p) as int, 1)] == CanvasOp::Render
}

/// The canvas can address every pixel of the picture: neither side is longer
/// than the canvas can count.
pub open spec fn addressable(p: Picture) -> bool {
    picture_width(p) <= i32::MAX && picture_height(p) <= i32::MAX
}

/// What drawing a picture gives: the operations that draw it, or the reason
/// why the canvas cannot take it.
pub open spec fn drawn(r: Result<Vec<CanvasOp>, SizeError>, p: Picture) -> bool {
    if addressable(p) {
        r is Ok && draws(r->Ok_0@, p)
    } else {
        r == Err::<Vec<CanvasOp>, SizeError>(SizeError::Unaddressable)
    }
}

/// The operations that shut the canvas down and leave the terminal as it was.
pub open spec fn cleanup_ops() -> Seq<CanvasOp> {
    seq![CanvasOp::Deinit, CanvasOp::ResetColor]
}

/// The operations that end a run: the cleanup where the canvas was opened,
/// and none where it never was.
pub open spec fn ending_ops(canvas_open: bool) -> Seq<CanvasOp> {
    if canvas_open {
        cleanup_ops()
    } else {
        Seq::empty()
    }
}

/// A cell of an earlier column stands before every cell of a later one.
proof fn lemma_earlier_column(height: nat, x0: int, y0: int, x: int)
    requires
        0 <= x0 < x,
        0 <= y0 < height,
    ensures
        0 <= op_index(height, x0, y0) < x * height,
{
    assert(x0 * height + height <= x * height) by (nonlinear_arith)
        requires
            x0 + 1 <= x,
            height >= 0,
    ;
    assert(0 <= x0 * height) by (nonlinear_arith)
        requires
            0 <= x0,
            height >= 0,
    ;
}

/// The operations that draw a picture on the canvas, or `Unaddressable` where
/// a side of the picture is longer than the canvas can address.
pub fn display_image(img: Picture) -> (r: Result<Vec<CanvasOp>, SizeError>)
    ensures
        drawn(r, img),
{
    let (width, height) = img.dimensions();
    if width > 0x7FFF_FFFF || height > 0x7FFF_FFFF {
        return Err(SizeError::Unaddressable);
    }
    let mut ops: Vec<CanvasOp> = Vec::new();
    let mut x: u32 = 0;
    while x < width
        invariant
            x <= width,
            width <= i32::MAX,
            height <= i32::MAX,
            width == picture_width(img),
            height == picture_height(img),
            ops@.len() == x * height,
            forall|x0: int, y0: int|
                0 <= x0 < x && 0 <= y0 < height ==> ops@[op_index(height as nat, x0, y0)]
                    == #[trigger] pixel_op(img, x0, y0),
        decreases width - x,
    {
        let mut y: u32 = 0;
        while y < height
            invariant
                x < width,
                y <= height,
                width <= i32::MAX,
                height <= i32::MAX,
                width == picture_width(img),
                height == picture_height(img),
                ops@.len() == x * height + y,
                forall|x0: int, y0: int|
                    0 <= x0 < x && 0 <= y0 < height ==> ops@[op_index(height as nat, x0, y0)]
                        == #[trigger] pixel_op(img, x0, y0),
                forall|y0: int|
                    0 <= y0 < y ==> ops@[op_index(height as nat, x as int, y0)]
                        == #[trigger] pixel_op(img, x as int, y0),
            decreases height - y,
        {
            let color = img.color_at(x, y);
            let ghost before = ops@;
            match color {
                Some((r, g, b)) => {
                    ops.push(CanvasOp::SetPixel { x: x as i32, y: y as i32, r, g, b });
                },
                None => {},
            }
            proof {
                assert(ops@ == before.push(pixel_op(img, x as int, y as int)));
                assert forall|x0: int, y0: int| 0 <= x0 < x && 0 <= y0 < height implies ops@[op_index(
                    height as nat,
                    x0,
                    y0,
                )] == #[trigger] pixel_op(img, x0, y0) by {
                    lemma_earlier_column(height as nat, x0, y0, x as int);
                    assert(ops@[op_index(height as nat, x0, y0)] == before[op_index(
                        height as nat,
                        x0,
                        y0,
                    )]);
                }
            }
            y += 1;
        }
        proof {
            assert(x * height + height == (x + 1) * height) by (nonlinear_arith);
        }
        x += 1;
    }
    let ghost pixels = ops@;
    ops.push(CanvasOp::WriteOut);
    ops.push(CanvasOp::Render);
    proof {
        assert forall|x0: int, y0: int| 0 <= x0 < width && 0 <= y0 < height implies ops@[op_index(
            height as nat,
            x0,
            y0,
        )] == #[trigger] pixel_op(img, x0, y0) by {
            lemma_earlier_column(height as nat, x0, y0, width as int);
            assert(ops@[op_index(height as nat, x0, y0)] == pixels[op_index(
                height as nat,
                x0,
                y0,
            )]);
        }
    }
    Ok(ops)
}

/// The operations that end a run whose canvas may or may not have been
/// opened.
pub fn ending(canvas_open: bool) -> (ops: Vec<CanvasOp>)
    ensures
        ops@ == ending_ops(canvas_open),
{
    if canvas_open {
        clean_exit()
    } else {
        Vec::new()
    }
}

/// The operations that clean up after a run: shut the canvas down, then reset
/// the terminal's colour.
pub fn clean_exit() -> (ops: Vec<CanvasOp>)
    ensures
        ops@ == cleanup_ops(),
{
    let mut ops: Vec<CanvasOp> = Vec::new();
    ops.push(CanvasOp::Deinit);
    ops.push(CanvasOp::ResetColor);
    ops
}

} // verus!
