//! What the scaled size amounts to.

use vstd::prelude::*;
use vstd::arithmetic::div_mod::lemma_div_multiples_vanish_quotient;
use vstd::arithmetic::power2::lemma_pow2_pos;
use crate::ratio::{
    config_fallback, initial_ratio, lemma_one_and_a_half_is_three_halves, lemma_two_is_two, Ratio,
};
use crate::sizing::{must_scale, scaled, target_size, ScaleWhen, SizeError, Target};

verus! {

/// A divisor that can divide has a positive numerator and a positive
/// denominator.
pub proof fn lemma_fraction_is_positive(divisor: Ratio)
    requires
        divisor.is_positive_finite(),
    ensures
        divisor.numerator() > 0,
        divisor.denominator() > 0,
{
    if divisor.exponent() >= 0 {
        lemma_pow2_pos(divisor.exponent() as nat);
        let m = divisor.mantissa() as int;
        let p = vstd::arithmetic::power2::pow2(divisor.exponent() as nat) as int;
        assert(m * p > 0) by (nonlinear_arith)
            requires
                m > 0,
                p > 0,
        ;
    } else {
        lemma_pow2_pos((-divisor.exponent()) as nat);
    }
}

/// The scaled width is the canvas's width over the divisor, rounded down,
/// whatever the picture's width is.
pub proof fn lemma_width_fills_canvas(width: nat, canvas_width: nat, divisor: Ratio)
    requires
        width > 0,
        divisor.is_positive_finite(),
    ensures
        scaled(width, canvas_width, width, divisor) == (canvas_width * divisor.denominator())
            / divisor.numerator(),
{
    lemma_fraction_is_positive(divisor);
    let a = (canvas_width * divisor.denominator()) as int;
    let d = divisor.numerator() as int;
    let w = width as int;
    lemma_div_multiples_vanish_quotient(w, a, d);
    assert(width * canvas_width * divisor.denominator() == w * a) by (nonlinear_arith)
        requires
            a == canvas_width * divisor.denominator(),
            w == width,
    ;
}

/// With the divisor 2 a side of length `len` becomes
/// `len * canvas_width / (2 * image_width)`, rounded down.
pub proof fn lemma_scaled_by_two(len: nat, canvas_width: nat, image_width: nat)
    requires
        image_width > 0,
    ensures
        scaled(len, canvas_width, image_width, initial_ratio()) == (len * canvas_width) / (2
            * image_width),
{
    lemma_two_is_two();
    let c = initial_ratio().denominator() as int;
    let a = (len * canvas_width) as int;
    let d = (2 * image_width) as int;
    lemma_div_multiples_vanish_quotient(c, a, d);
    assert(len * canvas_width * c == c * a) by (nonlinear_arith)
        requires
            a == len * canvas_width,
    ;
    assert(image_width * (2 * c) == c * d) by (nonlinear_arith)
        requires
            d == 2 * image_width,
    ;
}

/// With the divisor 1.5 a side of length `len` becomes
/// `2 * len * canvas_width / (3 * image_width)`, rounded down.
pub proof fn lemma_scaled_by_one_and_a_half(len: nat, canvas_width: nat, image_width: nat)
    requires
        image_width > 0,
    ensures
        scaled(len, canvas_width, image_width, config_fallback()) == (2 * len * canvas_width) / (3
            * image_width),
{
    lemma_one_and_a_half_is_three_halves();
    let den = config_fallback().denominator() as int;
    let num = config_fallback().numerator() as int;
    // den == 2 * h and num == 3 * h for h == den / 2
    let h: int = 0x40_0000;
    assert(den == 2 * h);
    assert(num == 3 * h);
    let a = (2 * len * canvas_width) as int;
    let d = (3 * image_width) as int;
    lemma_div_multiples_vanish_quotient(h, a, d);
    assert(len * canvas_width * den == h * a) by (nonlinear_arith)
        requires
            a == 2 * len * canvas_width,
            den == 2 * h,
    ;
    assert(image_width * num == h * d) by (nonlinear_arith)
        requires
            d == 3 * image_width,
            num == 3 * h,
    ;
}

/// A picture that is scaled under one policy is left alone under the other,
/// and the other way round: the two policies part exactly where the picture
/// fits the canvas.
pub proof fn lemma_policies_are_opposite(
    width: nat,
    height: nat,
    canvas_width: nat,
    canvas_height: nat,
)
    ensures
        must_scale(ScaleWhen::Oversized, width, height, canvas_width, canvas_height) != must_scale(
            ScaleWhen::Contained,
            width,
            height,
            canvas_width,
            canvas_height,
        ),
{
}

/// A picture without pixels has no size to be drawn at, whatever the canvas,
/// the divisor and the policy; and a divisor that cannot divide is an error
/// exactly where it would have to.
pub proof fn lemma_degenerate_inputs_fail(
    width: nat,
    height: nat,
    canvas_width: nat,
    canvas_height: nat,
    divisor: Ratio,
    when: ScaleWhen,
)
    ensures
        width == 0 || height == 0 ==> target_size(
            width,
            height,
            canvas_width,
            canvas_height,
            divisor,
            when,
        ) == Err::<Target, SizeError>(SizeError::EmptyImage),
        width > 0 && height > 0 && !divisor.is_positive_finite() && must_scale(
            when,
            width,
            height,
            canvas_width,
            canvas_height,
        ) ==> target_size(width, height, canvas_width, canvas_height, divisor, when) == Err::<
            Target,
            SizeError,
        >(SizeError::BadDivisor),
{
}

} // verus!
