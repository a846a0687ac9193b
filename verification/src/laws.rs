use vstd::prelude::*;
use crate::clamp::clamped;
use crate::frame::{
    gradient_frame, lemma_map_pixel, luminance_frame, push_color_frame, push_gradient_frame,
    Frame,
};
use crate::image_kernel::effective_strength;
use crate::kernel::{
    floor_sqrt, gradient_alpha, gradient_pixel, push_color_pixel, push_gradient_pixel,
    sobel_x, sobel_y, Neighbourhood,
};
use crate::pixel::{alpha_avg, brightness, lemma_blend_between, Rgba};

verus! {

/// The brightness of a grey (equal red, green and blue) is its level.
pub proof fn brightness_of_grey(v: u8)
    ensures
        brightness(v, v, v) == v,
{
}

/// Blending with strength 0 leaves the centre colour as it is.
pub proof fn alpha_avg_with_no_strength(cc: Rgba, a: Rgba, b: Rgba, c: Rgba)
    ensures
        alpha_avg(cc, a, b, c, 0) == cc,
{
    assert(alpha_avg(cc, a, b, c, 0).0 =~= cc.0);
}

/// Blending with strength 255 gives the mean of the three other colours.
pub proof fn alpha_avg_with_full_strength(cc: Rgba, a: Rgba, b: Rgba, c: Rgba, ch: int)
    requires
        0 <= ch < 4,
    ensures
        alpha_avg(cc, a, b, c, 255).channel(ch) == (a.channel(ch) + b.channel(ch) + c.channel(
            ch,
        )) / 3,
{
    lemma_blend_between(cc.0@[ch], a.0@[ch], b.0@[ch], c.0@[ch], 255);
}

/// Every channel of a blend lies between the centre's channel and the mean of
/// the other three colours' channels.
pub proof fn alpha_avg_between(cc: Rgba, a: Rgba, b: Rgba, c: Rgba, strength: u16, ch: int)
    requires
        strength <= 255,
        0 <= ch < 4,
    ensures
        ({
            let m = (a.channel(ch) + b.channel(ch) + c.channel(ch)) / 3;
            let v = alpha_avg(cc, a, b, c, strength).channel(ch);
            &&& cc.channel(ch) <= m ==> cc.channel(ch) <= v <= m
            &&& m <= cc.channel(ch) ==> m <= v <= cc.channel(ch)
        }),
{
    lemma_blend_between(cc.0@[ch], a.0@[ch], b.0@[ch], c.0@[ch], strength);
}

/// `clamp(val, min, max)` on `u16` lies in the range whenever the range is
/// not empty.
pub proof fn clamp_in_range(val: u16, min: u16, max: u16)
    requires
        min <= max,
    ensures
        min <= clamped(val, min, max) <= max,
        min <= val <= max ==> clamped(val, min, max) == val,
{
}

/// The pushes clamp their strength into 0 to 255: a larger one acts as 255.
pub proof fn strength_is_clamped(strength: u16)
    ensures
        effective_strength(strength) == clamped(strength, 0u16, 255u16),
        effective_strength(strength) <= 255,
        strength <= 255 ==> effective_strength(strength) == strength,
{
}

/// The luminance pass keeps the colour of every pixel and sets its alpha to
/// the brightness of that colour.
pub proof fn luminance_pixel(src: Frame, x: int, y: int)
    requires
        src.wf(),
        src.contains(x, y),
    ensures
        ({
            let p = src.pixel(x, y);
            let q = luminance_frame(src).pixel(x, y);
            &&& q.channel(0) == p.channel(0)
            &&& q.channel(1) == p.channel(1)
            &&& q.channel(2) == p.channel(2)
            &&& q.alpha() == brightness(p.channel(0), p.channel(1), p.channel(2))
            &&& luminance_frame(src).width == src.width
            &&& luminance_frame(src).height == src.height
        }),
{
    crate::rows::lemma_pixel_position(src.width, src.height, x, y, 3);
    assert(src.offset(x, y) % 4 == 0);
}

/// Running the luminance pass twice gives what running it once gives.
pub proof fn luminance_is_idempotent(src: Frame)
    ensures
        luminance_frame(luminance_frame(src)) == luminance_frame(src),
{
    let once = luminance_frame(src);
    let twice = luminance_frame(once);
    assert(twice.samples =~= once.samples);
}

/// The gradient keeps the colour of every pixel.
pub proof fn gradient_keeps_colour(src: Frame, x: int, y: int)
    requires
        src.contains(x, y),
    ensures
        gradient_frame(src).pixel(x, y).channel(0) == src.pixel(x, y).channel(0),
        gradient_frame(src).pixel(x, y).channel(1) == src.pixel(x, y).channel(1),
        gradient_frame(src).pixel(x, y).channel(2) == src.pixel(x, y).channel(2),
{
    lemma_map_pixel(src, |n: Neighbourhood| gradient_pixel(n), x, y);
}

/// Where the alpha of a whole image is one value, the gradient makes every
/// pixel fully opaque.
pub proof fn gradient_of_flat_alpha(src: Frame, a: u8, x: int, y: int)
    requires
        src.contains(x, y),
        forall|u: int, v: int| #[trigger] src.contains(u, v) ==> src.pixel(u, v).alpha() == a,
    ensures
        gradient_frame(src).pixel(x, y).alpha() == 255,
{
    lemma_map_pixel(src, |n: Neighbourhood| gradient_pixel(n), x, y);
    let n = src.neighbourhood(x, y);
    let l = if x == 0 { x } else { x - 1 };
    let r = if x == src.width - 1 { x } else { x + 1 };
    let t = if y == 0 { y } else { y - 1 };
    let b = if y == src.height - 1 { y } else { y + 1 };
    assert(src.contains(l, t) && src.contains(x, t) && src.contains(r, t));
    assert(src.contains(l, y) && src.contains(r, y));
    assert(src.contains(l, b) && src.contains(x, b) && src.contains(r, b));
    let sx = sobel_x(n);
    let sy = sobel_y(n);
    assert(sx == 0 && sy == 0);
    assert(sx * sx + sy * sy == 0) by (nonlinear_arith)
        requires
            sx == 0,
            sy == 0,
    ;
    assert(floor_sqrt(0) == 0);
    assert(gradient_alpha(n) == 255);
}

/// The colour push never makes a pixel less opaque.
pub proof fn push_color_keeps_opacity(src: Frame, strength: u16, x: int, y: int)
    requires
        src.contains(x, y),
    ensures
        push_color_frame(src, strength).pixel(x, y).alpha() >= src.pixel(x, y).alpha(),
{
    lemma_map_pixel(src, |n: Neighbourhood| push_color_pixel(n, strength), x, y);
}

/// A colour push of strength 0 leaves every pixel as it is.
pub proof fn push_color_with_no_strength(src: Frame, x: int, y: int)
    requires
        src.contains(x, y),
    ensures
        push_color_frame(src, 0).pixel(x, y) == src.pixel(x, y),
{
    lemma_map_pixel(src, |n: Neighbourhood| push_color_pixel(n, 0), x, y);
    let n = src.neighbourhood(x, y);
    alpha_avg_with_no_strength(n.mc, n.tl, n.tc, n.tr);
    alpha_avg_with_no_strength(n.mc, n.br, n.bc, n.bl);
    alpha_avg_with_no_strength(n.mc, n.mr, n.tc, n.tr);
    alpha_avg_with_no_strength(n.mc, n.bl, n.ml, n.bc);
    alpha_avg_with_no_strength(n.mc, n.mr, n.br, n.tr);
    alpha_avg_with_no_strength(n.mc, n.ml, n.tl, n.bl);
    alpha_avg_with_no_strength(n.mc, n.mr, n.br, n.bc);
    alpha_avg_with_no_strength(n.mc, n.tc, n.ml, n.tl);
}

/// The gradient push makes every pixel fully opaque.
pub proof fn push_gradient_is_opaque(src: Frame, strength: u16, x: int, y: int)
    requires
        src.contains(x, y),
    ensures
        push_gradient_frame(src, strength).pixel(x, y).alpha() == 255,
{
    lemma_map_pixel(src, |n: Neighbourhood| push_gradient_pixel(n, strength), x, y);
}

/// A gradient push of strength 0 keeps the colour of every pixel, made opaque.
pub proof fn push_gradient_with_no_strength(src: Frame, x: int, y: int)
    requires
        src.contains(x, y),
    ensures
        push_gradient_frame(src, 0).pixel(x, y) == crate::kernel::opaque(src.pixel(x, y)),
{
    lemma_map_pixel(src, |n: Neighbourhood| push_gradient_pixel(n, 0), x, y);
    let n = src.neighbourhood(x, y);
    alpha_avg_with_no_strength(n.mc, n.tl, n.tc, n.tr);
    alpha_avg_with_no_strength(n.mc, n.br, n.bc, n.bl);
    alpha_avg_with_no_strength(n.mc, n.mr, n.tc, n.tr);
    alpha_avg_with_no_strength(n.mc, n.bl, n.ml, n.bc);
    alpha_avg_with_no_strength(n.mc, n.mr, n.br, n.tr);
    alpha_avg_with_no_strength(n.mc, n.ml, n.tl, n.bl);
    alpha_avg_with_no_strength(n.mc, n.mr, n.br, n.bc);
    alpha_avg_with_no_strength(n.mc, n.tc, n.ml, n.tl);
}

/// Two images of one size that agree on the pixels around `(x, y)` (those
/// at most one step away in each direction) give `(x, y)` the same
/// neighbourhood.
pub proof fn same_neighbourhood(src1: Frame, src2: Frame, x: int, y: int)
    requires
        src1.width == src2.width,
        src1.height == src2.height,
        src1.contains(x, y),
        forall|u: int, v: int|
            #![trigger src1.pixel(u, v)]
            #![trigger src2.pixel(u, v)]
            src1.contains(u, v) && x - 1 <= u <= x + 1 && y - 1 <= v <= y + 1 ==> src1.pixel(u, v)
                == src2.pixel(u, v),
    ensures
        src1.neighbourhood(x, y) == src2.neighbourhood(x, y),
{
    let l = if x == 0 { x } else { x - 1 };
    let r = if x == src1.width - 1 { x } else { x + 1 };
    let t = if y == 0 { y } else { y - 1 };
    let b = if y == src1.height - 1 { y } else { y + 1 };
    assert(src1.pixel(l, t) == src2.pixel(l, t));
    assert(src1.pixel(x, t) == src2.pixel(x, t));
    assert(src1.pixel(r, t) == src2.pixel(r, t));
    assert(src1.pixel(l, y) == src2.pixel(l, y));
    assert(src1.pixel(x, y) == src2.pixel(x, y));
    assert(src1.pixel(r, y) == src2.pixel(r, y));
    assert(src1.pixel(l, b) == src2.pixel(l, b));
    assert(src1.pixel(x, b) == src2.pixel(x, b));
    assert(src1.pixel(r, b) == src2.pixel(r, b));
}

/// Each pixel of a colour push depends only on the old pixels around it:
/// two images of one size that agree there get the same new pixel.
pub proof fn push_color_is_local(src1: Frame, src2: Frame, strength: u16, x: int, y: int)
    requires
        src1.width == src2.width,
        src1.height == src2.height,
        src1.contains(x, y),
        forall|u: int, v: int|
            #![trigger src1.pixel(u, v)]
            #![trigger src2.pixel(u, v)]
            src1.contains(u, v) && x - 1 <= u <= x + 1 && y - 1 <= v <= y + 1 ==> src1.pixel(u, v)
                == src2.pixel(u, v),
    ensures
        push_color_frame(src1, strength).pixel(x, y) == push_color_frame(src2, strength).pixel(
            x,
            y,
        ),
{
    same_neighbourhood(src1, src2, x, y);
    lemma_map_pixel(src1, |n: Neighbourhood| push_color_pixel(n, strength), x, y);
    lemma_map_pixel(src2, |n: Neighbourhood| push_color_pixel(n, strength), x, y);
}

/// Each pixel of a gradient push depends only on the old pixels around it.
pub proof fn push_gradient_is_local(src1: Frame, src2: Frame, strength: u16, x: int, y: int)
    requires
        src1.width == src2.width,
        src1.height == src2.height,
        src1.contains(x, y),
        forall|u: int, v: int|
            #![trigger src1.pixel(u, v)]
            #![trigger src2.pixel(u, v)]
            src1.contains(u, v) && x - 1 <= u <= x + 1 && y - 1 <= v <= y + 1 ==> src1.pixel(u, v)
                == src2.pixel(u, v),
    ensures
        push_gradient_frame(src1, strength).pixel(x, y) == push_gradient_frame(
            src2,
            strength,
        ).pixel(x, y),
{
    same_neighbourhood(src1, src2, x, y);
    lemma_map_pixel(src1, |n: Neighbourhood| push_gradient_pixel(n, strength), x, y);
    lemma_map_pixel(src2, |n: Neighbourhood| push_gradient_pixel(n, strength), x, y);
}

/// The gradient alpha at `(x, y)` of two images of one size whose alphas
/// differ everywhere by the same amount `c` (`c == 0`: whose alphas agree,
/// whatever their colours).
proof fn gradient_alpha_of_offset(src1: Frame, src2: Frame, c: int, x: int, y: int)
    requires
        src1.width == src2.width,
        src1.height == src2.height,
        src1.contains(x, y),
        forall|u: int, v: int|
            #![trigger src1.pixel(u, v)]
            #![trigger src2.pixel(u, v)]
            src1.contains(u, v) ==> src2.pixel(u, v).alpha() == src1.pixel(u, v).alpha() + c,
    ensures
        gradient_frame(src1).pixel(x, y).alpha() == gradient_frame(src2).pixel(x, y).alpha(),
{
    lemma_map_pixel(src1, |n: Neighbourhood| gradient_pixel(n), x, y);
    lemma_map_pixel(src2, |n: Neighbourhood| gradient_pixel(n), x, y);
    let n1 = src1.neighbourhood(x, y);
    let n2 = src2.neighbourhood(x, y);
    let l = if x == 0 { x } else { x - 1 };
    let r = if x == src1.width - 1 { x } else { x + 1 };
    let t = if y == 0 { y } else { y - 1 };
    let b = if y == src1.height - 1 { y } else { y + 1 };
    assert(src1.contains(l, t) && src1.contains(x, t) && src1.contains(r, t));
    assert(src1.contains(l, y) && src1.contains(r, y));
    assert(src1.contains(l, b) && src1.contains(x, b) && src1.contains(r, b));
    assert(src2.pixel(l, t).alpha() == src1.pixel(l, t).alpha() + c);
    assert(src2.pixel(x, t).alpha() == src1.pixel(x, t).alpha() + c);
    assert(src2.pixel(r, t).alpha() == src1.pixel(r, t).alpha() + c);
    assert(src2.pixel(l, y).alpha() == src1.pixel(l, y).alpha() + c);
    assert(src2.pixel(r, y).alpha() == src1.pixel(r, y).alpha() + c);
    assert(src2.pixel(l, b).alpha() == src1.pixel(l, b).alpha() + c);
    assert(src2.pixel(x, b).alpha() == src1.pixel(x, b).alpha() + c);
    assert(src2.pixel(r, b).alpha() == src1.pixel(r, b).alpha() + c);
    assert(sobel_x(n1) == sobel_x(n2));
    assert(sobel_y(n1) == sobel_y(n2));
}

/// The gradient's alpha reads the alpha channel alone: two images of one size
/// whose alphas agree get the same alphas, whatever their colours, and each
/// keeps its own colours.
pub proof fn gradient_alpha_ignores_colour(src1: Frame, src2: Frame, x: int, y: int)
    requires
        src1.width == src2.width,
        src1.height == src2.height,
        src1.contains(x, y),
        forall|u: int, v: int|
            #![trigger src1.pixel(u, v)]
            #![trigger src2.pixel(u, v)]
            src1.contains(u, v) ==> src2.pixel(u, v).alpha() == src1.pixel(u, v).alpha(),
    ensures
        gradient_frame(src1).pixel(x, y).alpha() == gradient_frame(src2).pixel(x, y).alpha(),
        gradient_frame(src2).pixel(x, y).channel(0) == src2.pixel(x, y).channel(0),
        gradient_frame(src2).pixel(x, y).channel(1) == src2.pixel(x, y).channel(1),
        gradient_frame(src2).pixel(x, y).channel(2) == src2.pixel(x, y).channel(2),
{
    gradient_alpha_of_offset(src1, src2, 0, x, y);
    gradient_keeps_colour(src2, x, y);
}

/// Adding one constant to the alpha of every pixel leaves the gradient's
/// alphas as they were.
pub proof fn gradient_ignores_alpha_offset(src1: Frame, src2: Frame, c: int, x: int, y: int)
    requires
        src1.width == src2.width,
        src1.height == src2.height,
        src1.contains(x, y),
        forall|u: int, v: int|
            #![trigger src1.pixel(u, v)]
            #![trigger src2.pixel(u, v)]
            src1.contains(u, v) ==> src2.pixel(u, v).alpha() == src1.pixel(u, v).alpha() + c,
    ensures
        gradient_frame(src1).pixel(x, y).alpha() == gradient_frame(src2).pixel(x, y).alpha(),
{
    gradient_alpha_of_offset(src1, src2, c, x, y);
}

/// The gradient of a left-right mirror image is the mirror image of the
/// gradient.
pub proof fn gradient_commutes_with_mirror(src: Frame, mirrored: Frame, x: int, y: int)
    requires
        mirrored.width == src.width,
        mirrored.height == src.height,
        src.contains(x, y),
        forall|u: int, v: int|
            #![trigger mirrored.pixel(u, v)]
            mirrored.contains(u, v) ==> mirrored.pixel(u, v) == src.pixel(src.width - 1 - u, v),
    ensures
        gradient_frame(mirrored).pixel(x, y) == gradient_frame(src).pixel(src.width - 1 - x, y),
{
    let xm = src.width - 1 - x;
    lemma_map_pixel(mirrored, |n: Neighbourhood| gradient_pixel(n), x, y);
    lemma_map_pixel(src, |n: Neighbourhood| gradient_pixel(n), xm, y);
    let n = mirrored.neighbourhood(x, y);
    let m = src.neighbourhood(xm, y);
    let l = if x == 0 { x } else { x - 1 };
    let r = if x == src.width - 1 { x } else { x + 1 };
    let t = if y == 0 { y } else { y - 1 };
    let b = if y == src.height - 1 { y } else { y + 1 };
    assert(mirrored.contains(l, t) && mirrored.contains(x, t) && mirrored.contains(r, t));
    assert(mirrored.contains(l, y) && mirrored.contains(x, y) && mirrored.contains(r, y));
    assert(mirrored.contains(l, b) && mirrored.contains(x, b) && mirrored.contains(r, b));
    assert(n.tl == mirrored.pixel(l, t) && n.tc == mirrored.pixel(x, t) && n.tr == mirrored.pixel(r, t));
    assert(n.ml == mirrored.pixel(l, y) && n.mc == mirrored.pixel(x, y) && n.mr == mirrored.pixel(r, y));
    assert(n.bl == mirrored.pixel(l, b) && n.bc == mirrored.pixel(x, b) && n.br == mirrored.pixel(r, b));
    assert(n.tl == m.tr && n.tc == m.tc && n.tr == m.tl);
    assert(n.ml == m.mr && n.mc == m.mc && n.mr == m.ml);
    assert(n.bl == m.br && n.bc == m.bc && n.br == m.bl);
    assert(sobel_x(n) == -sobel_x(m));
    assert(sobel_y(n) == sobel_y(m));
    assert(sobel_x(n) * sobel_x(n) == sobel_x(m) * sobel_x(m)) by (nonlinear_arith)
        requires
            sobel_x(n) == -sobel_x(m),
    ;
    assert(gradient_pixel(n).0 =~= gradient_pixel(m).0);
}

} // verus!
