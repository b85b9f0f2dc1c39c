//! The size at which a picture is drawn on a canvas.
//!
//! A picture that is to be scaled is first fitted to the canvas's width, by the
//! ratio of canvas width to picture width, and then made smaller by the
//! divisor. Both sides keep their proportion: each is multiplied by the same
//! ratio, divided by the same divisor, and rounded down.
//!
//! All of it is computed exactly, on integers: no rounding happens but the
//! final rounding down, and a result that cannot be represented is an error.

use vstd::prelude::*;
use vstd::arithmetic::div_mod::{
    lemma_basic_div, lemma_div_by_multiple, lemma_div_is_ordered, lemma_multiply_divide_lt,
};
use vstd::arithmetic::power2::{
    lemma2_to64, lemma2_to64_rest, lemma_pow2_adds, lemma_pow2_strictly_increases,
    lemma_pow2_unfold, pow2,
};
use crate::ratio::Ratio;

verus! {

/// When a picture is scaled.
#[derive(Clone, Copy, Debug, PartialEq, Eq, Structural)]
pub enum ScaleWhen {
    /// Only when it is wider or taller than the canvas.
    Oversized,
    /// Only when it is neither wider nor taller than the canvas.
    Contained,
}

/// Why no size could be given.
#[derive(Clone, Copy, Debug, PartialEq, Eq, Structural)]
pub enum SizeError {
    /// The picture has no width or no height.
    EmptyImage,
    /// The picture is to be scaled and the divisor is zero, negative, infinite
    /// or no number.
    BadDivisor,
    /// A side of the scaled picture, or the memory it takes, is beyond what
    /// can be represented.
    TooLarge,
    /// A side of the picture is longer than the canvas can address.
    Unaddressable,
}

/// The size to draw at, and whether the picture has to be resampled to it.
#[derive(Clone, Copy, Debug, PartialEq, Eq, Structural)]
pub struct Target {
    pub width: u32,
    pub height: u32,
    pub resample: bool,
}

/// Whether a `width` x `height` picture is scaled for a
/// `canvas_width` x `canvas_height` canvas.
pub open spec fn must_scale(
    when: ScaleWhen,
    width: nat,
    height: nat,
    canvas_width: nat,
    canvas_height: nat,
) -> bool {
    match when {
        ScaleWhen::Oversized => canvas_width < width || canvas_height < height,
        ScaleWhen::Contained => width <= canvas_width && height <= canvas_height,
    }
}

/// A side of length `len`, of a picture `image_width` wide, scaled for a canvas
/// `canvas_width` wide: `len * (canvas_width / image_width) / divisor`, rounded
/// down.
pub open spec fn scaled(len: nat, canvas_width: nat, image_width: nat, divisor: Ratio) -> nat {
    (len * canvas_width * divisor.denominator()) / (image_width * divisor.numerator())
}

/// The size at which a picture is drawn, or why there is none.
pub open spec fn target_size(
    width: nat,
    height: nat,
    canvas_width: nat,
    canvas_height: nat,
    divisor: Ratio,
    when: ScaleWhen,
) -> Result<Target, SizeError> {
    if width == 0 || height == 0 {
        Err(SizeError::EmptyImage)
    } else if !must_scale(when, width, height, canvas_width, canvas_height) {
        Ok(Target { width: width as u32, height: height as u32, resample: false })
    } else if !divisor.is_positive_finite() {
        Err(SizeError::BadDivisor)
    } else if scaled(width, canvas_width, width, divisor) > u32::MAX || scaled(
        height,
        canvas_width,
        width,
        divisor,
    ) > u32::MAX {
        Err(SizeError::TooLarge)
    } else {
        Ok(
            Target {
                width: scaled(width, canvas_width, width, divisor) as u32,
                height: scaled(height, canvas_width, width, divisor) as u32,
                resample: true,
            },
        )
    }
}

/// The length of a side of the canvas as the canvas reports it: a canvas that
/// reports a negative length has no room on that side.
pub open spec fn side_of(reported: int) -> nat {
    if reported < 0 {
        0
    } else {
        reported as nat
    }
}

/// The length of a side of the canvas, from what the canvas reports.
pub fn canvas_side(reported: i32) -> (side: u32)
    ensures
        side == side_of(reported as int),
{
    if reported < 0 {
        0
    } else {
        reported as u32
    }
}

/// `2^e` for `e < 64`.
fn power_of_two(e: u32) -> (p: u128)
    requires
        e < 64,
    ensures
        p == pow2(e as nat),
        1 <= p <= 0x8000_0000_0000_0000,
{
    let mut p: u128 = 1;
    let mut i: u32 = 0;
    proof {
        lemma2_to64();
        lemma2_to64_rest();
    }
    while i < e
        invariant
            i <= e,
            e < 64,
            p == pow2(i as nat),
            1 <= p <= 0x8000_0000_0000_0000,
            pow2(63) == 0x8000_0000_0000_0000,
        decreases e - i,
    {
        proof {
            lemma_pow2_unfold((i + 1) as nat);
            if i + 1 < 63 {
                lemma_pow2_strictly_increases((i + 1) as nat, 63);
            }
        }
        p = p * 2;
        i += 1;
    }
    p
}

/// `n >= k * b` puts the quotient `n / b` at `k` or above.
proof fn lemma_quotient_at_least(n: int, b: int, k: int)
    requires
        0 < b,
        0 <= k,
        k * b <= n,
    ensures
        k <= n / b,
{
    lemma_div_by_multiple(k, b);
    lemma_div_is_ordered(k * b, n, b);
}

/// `a / (b * 2^down)`, or `None` where that is beyond `u32`.
fn quotient_shifted_down(a: u128, b: u128, down: u32) -> (r: Option<u32>)
    requires
        a < 0x1_0000_0000_0000_0000,
        1 <= b < 0x100_0000_0000_0000,
    ensures
        r matches Some(q) ==> q == (a as int) / (b * pow2(down as nat)),
        r is None ==> (a as int) / (b * pow2(down as nat)) > u32::MAX,
{
    if down >= 64 {
        proof {
            lemma2_to64();
            let p = pow2(down as nat) as int;
            if down > 64 {
                lemma_pow2_strictly_increases(64, down as nat);
            }
            assert(b * p >= p) by (nonlinear_arith)
                requires
                    b >= 1,
                    p >= 0,
            ;
            lemma_basic_div(a as int, b * p);
        }
        Some(0)
    } else {
        let p: u128 = power_of_two(down);
        assert(b * p < 0x80_0000_0000_0000_0000_0000_0000_0000) by (nonlinear_arith)
            requires
                b < 0x100_0000_0000_0000,
                p <= 0x8000_0000_0000_0000,
        ;
        assert(b * p >= 1) by (nonlinear_arith)
            requires
                b >= 1,
                p >= 1,
        ;
        let d: u128 = b * p;
        let q: u128 = a / d;
        if q > 0xFFFF_FFFF {
            None
        } else {
            Some(q as u32)
        }
    }
}

/// `(a * 2^up) / b`, or `None` where that is beyond `u32`.
fn quotient_shifted_up(a: u128, b: u128, up: u32) -> (r: Option<u32>)
    requires
        a < 0x1_0000_0000_0000_0000,
        1 <= b < 0x100_0000_0000_0000,
    ensures
        r matches Some(q) ==> q == (a * pow2(up as nat)) / (b as int),
        r is None ==> (a * pow2(up as nat)) / (b as int) > u32::MAX,
{
    if a == 0 {
        proof {
            let p = pow2(up as nat) as int;
            assert(a * p == 0) by (nonlinear_arith)
                requires
                    a == 0,
            ;
            lemma_basic_div(0, b as int);
        }
        return Some(0);
    }
    if up >= 32 {
        let low: u32 = up - 32;
        proof {
            lemma2_to64();
            lemma_pow2_adds(low as nat, 32);
        }
        let ghost whole = pow2(up as nat) as int;
        let ghost part = pow2(low as nat) as int;
        assert(whole == part * 0x1_0000_0000);
        if low >= 56 {
            proof {
                lemma2_to64_rest();
                if low > 56 {
                    lemma_pow2_strictly_increases(56, low as nat);
                }
                assert(a * whole >= 0x1_0000_0000 * b) by (nonlinear_arith)
                    requires
                        a >= 1,
                        whole == part * 0x1_0000_0000,
                        part >= 0x100_0000_0000_0000,
                        b < 0x100_0000_0000_0000,
                ;
                lemma_quotient_at_least(a * whole, b as int, 0x1_0000_0000);
            }
            None
        } else {
            let p: u128 = power_of_two(low);
            assert(a * p < 0x8000_0000_0000_0000_0000_0000_0000_0000) by (nonlinear_arith)
                requires
                    a < 0x1_0000_0000_0000_0000,
                    p <= 0x8000_0000_0000_0000,
            ;
            let x: u128 = a * p;
            assert(a * whole == x * 0x1_0000_0000) by (nonlinear_arith)
                requires
                    whole == part * 0x1_0000_0000,
                    x == a * part,
            ;
            if x >= b {
                proof {
                    assert(0x1_0000_0000 * b <= x * 0x1_0000_0000) by (nonlinear_arith)
                        requires
                            b <= x,
                    ;
                    lemma_quotient_at_least(a * whole, b as int, 0x1_0000_0000);
                }
                None
            } else {
                let n: u128 = x * 0x1_0000_0000;
                let q: u128 = n / b;
                proof {
                    assert((n as int) < b * 0x1_0000_0000) by (nonlinear_arith)
                        requires
                            n == x * 0x1_0000_0000,
                            x < b,
                    ;
                    lemma_multiply_divide_lt(n as int, b as int, 0x1_0000_0000);
                }
                Some(q as u32)
            }
        }
    } else {
        let p: u128 = power_of_two(up);
        assert(a * p < 0x8000_0000_0000_0000_0000_0000_0000_0000) by (nonlinear_arith)
            requires
                a < 0x1_0000_0000_0000_0000,
                p <= 0x8000_0000_0000_0000,
        ;
        let n: u128 = a * p;
        let q: u128 = n / b;
        if q > 0xFFFF_FFFF {
            None
        } else {
            Some(q as u32)
        }
    }
}

/// One side of the scaled picture, or `None` where it is beyond `u32`.
pub fn scale_length(len: u32, canvas_width: u32, image_width: u32, divisor: Ratio) -> (r: Option<
    u32,
>)
    requires
        image_width > 0,
        divisor.is_positive_finite(),
    ensures
        r matches Some(q) ==> q == scaled(
            len as nat,
            canvas_width as nat,
            image_width as nat,
            divisor,
        ),
        r is None ==> scaled(len as nat, canvas_width as nat, image_width as nat, divisor)
            > u32::MAX,
{
    let (mantissa, exponent) = divisor.parts();
    assert(len * canvas_width < 0x1_0000_0000_0000_0000) by (nonlinear_arith)
        requires
            len < 0x1_0000_0000,
            canvas_width < 0x1_0000_0000,
    ;
    assert(1 <= image_width * mantissa < 0x100_0000_0000_0000) by (nonlinear_arith)
        requires
            1 <= image_width < 0x1_0000_0000,
            1 <= mantissa < 0x100_0000,
    ;
    let a: u128 = (len as u128) * (canvas_width as u128);
    let b: u128 = (image_width as u128) * (mantissa as u128);
    if exponent >= 0 {
        let down: u32 = exponent as u32;
        proof {
            let p = pow2(down as nat) as int;
            assert(len * canvas_width * 1 == a);
            assert(image_width * (mantissa * p) == b * p) by (nonlinear_arith)
                requires
                    b == image_width * mantissa,
            ;
        }
        quotient_shifted_down(a, b, down)
    } else {
        let up: u32 = (-exponent) as u32;
        proof {
            assert(divisor.numerator() == mantissa);
            assert(divisor.denominator() == pow2(up as nat));
        }
        quotient_shifted_up(a, b, up)
    }
}

/// The size at which a `width` x `height` picture is drawn on a
/// `canvas_width` x `canvas_height` canvas.
pub fn fit(
    width: u32,
    height: u32,
    canvas_width: u32,
    canvas_height: u32,
    divisor: Ratio,
    when: ScaleWhen,
) -> (r: Result<Target, SizeError>)
    ensures
        r == target_size(
            width as nat,
            height as nat,
            canvas_width as nat,
            canvas_height as nat,
            divisor,
            when,
        ),
{
    if width == 0 || height == 0 {
        return Err(SizeError::EmptyImage);
    }
    let scale = match when {
        ScaleWhen::Oversized => canvas_width < width || canvas_height < height,
        ScaleWhen::Contained => width <= canvas_width && height <= canvas_height,
    };
    if !scale {
        return Ok(Target { width, height, resample: false });
    }
    if !divisor.can_divide() {
        return Err(SizeError::BadDivisor);
    }
    match scale_length(width, canvas_width, width, divisor) {
        None => Err(SizeError::TooLarge),
        Some(w) => match scale_length(height, canvas_width, width, divisor) {
            None => Err(SizeError::TooLarge),
            Some(h) => Ok(Target { width: w, height: h, resample: true }),
        },
    }
}

} // verus!
