use vstd::prelude::*;
use crate::pixel::{alpha_avg, get_alpha_avg, get_largest_alpha_avg, largest_alpha_avg, Rgba};

verus! {

/// The 3x3 block of pixels around a centre pixel `mc`: rows top (t), middle
/// (m) and bottom (b), columns left (l), centre (c) and right (r).
#[derive(Clone, Copy)]
pub struct Neighbourhood {
    pub tl: Rgba,
    pub tc: Rgba,
    pub tr: Rgba,
    pub ml: Rgba,
    pub mc: Rgba,
    pub mr: Rgba,
    pub bl: Rgba,
    pub bc: Rgba,
    pub br: Rgba,
}

/// Three pixels of a neighbourhood that a pattern of the kernel groups together.
pub type Triple = (Rgba, Rgba, Rgba);

pub open spec fn min3(a: u8, b: u8, c: u8) -> u8 {
    if a <= b && a <= c {
        a
    } else if b <= c {
        b
    } else {
        c
    }
}

pub open spec fn max3(a: u8, b: u8, c: u8) -> u8 {
    if a >= b && a >= c {
        a
    } else if b >= c {
        b
    } else {
        c
    }
}

/// A pattern matches when the least opaque pixel of its light side is more
/// opaque than the centre and than every pixel of its dark side.
pub open spec fn pattern_matches(centre: Rgba, light: Triple, dark: Triple) -> bool {
    let min_light = min3(light.0.alpha(), light.1.alpha(), light.2.alpha());
    &&& min_light > centre.alpha()
    &&& min_light > max3(dark.0.alpha(), dark.1.alpha(), dark.2.alpha())
}

/// One stage of the colour push: a pattern and, when it does not match, its
/// mirror image are tried; the first that matches pulls the centre towards its
/// light side, and the more opaque of that blend and `lightest` is kept.
pub open spec fn color_stage(
    n: Neighbourhood,
    lightest: Rgba,
    light: Triple,
    dark: Triple,
    mirrored_light: Triple,
    mirrored_dark: Triple,
    strength: u16,
) -> Rgba {
    if pattern_matches(n.mc, light, dark) {
        largest_alpha_avg(n.mc, lightest, light.0, light.1, light.2, strength)
    } else if pattern_matches(n.mc, mirrored_light, mirrored_dark) {
        largest_alpha_avg(
            n.mc,
            lightest,
            mirrored_light.0,
            mirrored_light.1,
            mirrored_light.2,
            strength,
        )
    } else {
        lightest
    }
}

/// One stage of the gradient push: like `color_stage`, but the blend replaces
/// the running colour whatever its alpha.
pub open spec fn gradient_stage(
    n: Neighbourhood,
    current: Rgba,
    light: Triple,
    dark: Triple,
    mirrored_light: Triple,
    mirrored_dark: Triple,
    strength: u16,
) -> Rgba {
    if pattern_matches(n.mc, light, dark) {
        alpha_avg(n.mc, light.0, light.1, light.2, strength)
    } else if pattern_matches(n.mc, mirrored_light, mirrored_dark) {
        alpha_avg(n.mc, mirrored_light.0, mirrored_light.1, mirrored_light.2, strength)
    } else {
        current
    }
}

/// The new colour of the centre pixel under the colour push: four stages, for
/// the vertical, the two diagonal-corner and the horizontal pairs of patterns.
pub open spec fn push_color_pixel(n: Neighbourhood, strength: u16) -> Rgba {
    let c0 = color_stage(
        n,
        n.mc,
        (n.tl, n.tc, n.tr),
        (n.bl, n.bc, n.br),
        (n.br, n.bc, n.bl),
        (n.tl, n.tc, n.tr),
        strength,
    );
    let c1 = color_stage(
        n,
        c0,
        (n.mr, n.tc, n.tr),
        (n.mc, n.ml, n.bc),
        (n.bl, n.ml, n.bc),
        (n.mc, n.mr, n.tc),
        strength,
    );
    let c2 = color_stage(
        n,
        c1,
        (n.mr, n.br, n.tr),
        (n.ml, n.tl, n.bl),
        (n.ml, n.tl, n.bl),
        (n.mr, n.tr, n.br),
        strength,
    );
    color_stage(
        n,
        c2,
        (n.mr, n.br, n.bc),
        (n.mc, n.ml, n.tc),
        (n.tc, n.ml, n.tl),
        (n.mc, n.mr, n.bc),
        strength,
    )
}

/// The colour `p` with its alpha made fully opaque.
pub open spec fn opaque(p: Rgba) -> Rgba {
    Rgba([p.0@[0], p.0@[1], p.0@[2], 255])
}

/// The new colour of the centre pixel under the gradient push: the same four
/// stages as the colour push, each blend replacing the running colour, and the
/// result made fully opaque.
pub open spec fn push_gradient_pixel(n: Neighbourhood, strength: u16) -> Rgba {
    let c0 = gradient_stage(
        n,
        n.mc,
        (n.tl, n.tc, n.tr),
        (n.bl, n.bc, n.br),
        (n.br, n.bc, n.bl),
        (n.tl, n.tc, n.tr),
        strength,
    );
    let c1 = gradient_stage(
        n,
        c0,
        (n.mr, n.tc, n.tr),
        (n.mc, n.ml, n.bc),
        (n.bl, n.ml, n.bc),
        (n.mc, n.mr, n.tc),
        strength,
    );
    let c2 = gradient_stage(
        n,
        c1,
        (n.mr, n.br, n.tr),
        (n.ml, n.tl, n.bl),
        (n.ml, n.tl, n.bl),
        (n.mr, n.tr, n.br),
        strength,
    );
    opaque(
        gradient_stage(
            n,
            c2,
            (n.mr, n.br, n.bc),
            (n.mc, n.ml, n.tc),
            (n.tc, n.ml, n.tl),
            (n.mc, n.mr, n.bc),
            strength,
        ),
    )
}

/// Horizontal Sobel response of the alpha channel.
pub open spec fn sobel_x(n: Neighbourhood) -> int {
    (n.tr.alpha() + 2 * n.mr.alpha() + n.br.alpha()) - (n.tl.alpha() + 2 * n.ml.alpha()
        + n.bl.alpha())
}

/// Vertical Sobel response of the alpha channel.
pub open spec fn sobel_y(n: Neighbourhood) -> int {
    (n.bl.alpha() + 2 * n.bc.alpha() + n.br.alpha()) - (n.tl.alpha() + 2 * n.tc.alpha()
        + n.tr.alpha())
}

/// The integer square root: the largest `r` with `r * r <= k`.
pub open spec fn floor_sqrt(k: nat) -> nat
    decreases k,
{
    if k == 0 {
        0
    } else {
        let r = floor_sqrt((k - 1) as nat);
        if (r + 1) * (r + 1) <= k {
            r + 1
        } else {
            r
        }
    }
}

/// The alpha that the gradient gives a pixel: 255 minus the length of the
/// Sobel gradient (rounded down), or 0 where that length exceeds 255.
pub open spec fn gradient_alpha(n: Neighbourhood) -> u8 {
    let squared = sobel_x(n) * sobel_x(n) + sobel_y(n) * sobel_y(n);
    if squared > 255 * 255 {
        0
    } else {
        (255 - floor_sqrt(squared as nat)) as u8
    }
}

/// The new colour of the centre pixel under the gradient: its colour, with
/// the gradient alpha.
pub open spec fn gradient_pixel(n: Neighbourhood) -> Rgba {
    Rgba([n.mc.0@[0], n.mc.0@[1], n.mc.0@[2], gradient_alpha(n)])
}

/// `floor_sqrt(k)` is the root rounded down.
pub proof fn lemma_floor_sqrt(k: nat)
    ensures
        floor_sqrt(k) * floor_sqrt(k) <= k < (floor_sqrt(k) + 1) * (floor_sqrt(k) + 1),
    decreases k,
{
    if k > 0 {
        lemma_floor_sqrt((k - 1) as nat);
        let r = floor_sqrt((k - 1) as nat);
        let q = floor_sqrt(k);
        if (r + 1) * (r + 1) <= k {
            assert(q == r + 1);
            assert(q * q <= k < (q + 1) * (q + 1)) by (nonlinear_arith)
                requires
                    q == r + 1,
                    (r + 1) * (r + 1) <= k,
                    k - 1 < (r + 1) * (r + 1),
            ;
        } else {
            assert(q == r);
            assert(q * q <= k < (q + 1) * (q + 1));
        }
    } else {
        let q = floor_sqrt(k);
        assert(q == 0);
        assert(q * q <= k < (q + 1) * (q + 1)) by (nonlinear_arith)
            requires
                q == 0,
                k == 0,
        ;
    }
}

/// Only the rounded-down root lies between its square and the next square.
pub proof fn lemma_floor_sqrt_unique(k: nat, r: nat)
    requires
        r * r <= k < (r + 1) * (r + 1),
    ensures
        r == floor_sqrt(k),
{
    lemma_floor_sqrt(k);
    let q = floor_sqrt(k);
    if r < q {
        assert((r + 1) * (r + 1) <= q * q) by (nonlinear_arith)
            requires
                r + 1 <= q,
        ;
    } else if q < r {
        assert((q + 1) * (q + 1) <= r * r) by (nonlinear_arith)
            requires
                q + 1 <= r,
        ;
    }
}

/// The integer square root of a value up to 255 * 255, by bisection.
fn floor_sqrt_u32(k: u32) -> (r: u32)
    requires
        k <= 255 * 255,
    ensures
        r == floor_sqrt(k as nat),
        r <= 255,
{
    let mut lo: u32 = 0;
    let mut hi: u32 = 256;
    while hi - lo > 1
        invariant
            lo < hi <= 256,
            lo * lo <= k < hi * hi,
        decreases hi - lo,
    {
        let mid: u32 = lo + (hi - lo) / 2;
        assert(mid * mid <= 65536) by (nonlinear_arith)
            requires
                mid <= 256,
        ;
        if mid * mid <= k {
            lo = mid;
        } else {
            hi = mid;
        }
    }
    proof {
        lemma_floor_sqrt_unique(k as nat, lo as nat);
    }
    lo
}

fn max_u8(a: u8, b: u8) -> (r: u8)
    ensures
        r == if a >= b { a } else { b },
{
    if a >= b {
        a
    } else {
        b
    }
}

fn min_u8(a: u8, b: u8) -> (r: u8)
    ensures
        r == if a <= b { a } else { b },
{
    if a <= b {
        a
    } else {
        b
    }
}

/// Tests a pattern of the kernel on the alpha channel.
fn pattern_holds(centre: Rgba, light: Triple, dark: Triple) -> (r: bool)
    ensures
        r == pattern_matches(centre, light, dark),
{
    let max_dark = max_u8(dark.0.0[3], max_u8(dark.1.0[3], dark.2.0[3]));
    let min_light = min_u8(light.0.0[3], min_u8(light.1.0[3], light.2.0[3]));
    min_light > centre.0[3] && min_light > max_dark
}

fn color_stage_exec(
    n: &Neighbourhood,
    lightest: Rgba,
    light: Triple,
    dark: Triple,
    mirrored_light: Triple,
    mirrored_dark: Triple,
    strength: u16,
) -> (r: Rgba)
    requires
        strength <= 255,
    ensures
        r == color_stage(*n, lightest, light, dark, mirrored_light, mirrored_dark, strength),
{
    if pattern_holds(n.mc, light, dark) {
        get_largest_alpha_avg(n.mc, lightest, light.0, light.1, light.2, strength)
    } else if pattern_holds(n.mc, mirrored_light, mirrored_dark) {
        get_largest_alpha_avg(
            n.mc,
            lightest,
            mirrored_light.0,
            mirrored_light.1,
            mirrored_light.2,
            strength,
        )
    } else {
        lightest
    }
}

fn gradient_stage_exec(
    n: &Neighbourhood,
    current: Rgba,
    light: Triple,
    dark: Triple,
    mirrored_light: Triple,
    mirrored_dark: Triple,
    strength: u16,
) -> (r: Rgba)
    requires
        strength <= 255,
    ensures
        r == gradient_stage(*n, current, light, dark, mirrored_light, mirrored_dark, strength),
{
    if pattern_holds(n.mc, light, dark) {
        get_alpha_avg(n.mc, light.0, light.1, light.2, strength)
    } else if pattern_holds(n.mc, mirrored_light, mirrored_dark) {
        get_alpha_avg(n.mc, mirrored_light.0, mirrored_light.1, mirrored_light.2, strength)
    } else {
        current
    }
}

/// The colour push of one pixel, given its neighbourhood.
pub(crate) fn push_color_at(n: &Neighbourhood, strength: u16) -> (r: Rgba)
    requires
        strength <= 255,
    ensures
        r == push_color_pixel(*n, strength),
{
    let lightest_color = n.mc;
    // Kernel 0 and 4
    let lightest_color = color_stage_exec(
        n,
        lightest_color,
        (n.tl, n.tc, n.tr),
        (n.bl, n.bc, n.br),
        (n.br, n.bc, n.bl),
        (n.tl, n.tc, n.tr),
        strength,
    );
    // Kernel 1 and 5
    let lightest_color = color_stage_exec(
        n,
        lightest_color,
        (n.mr, n.tc, n.tr),
        (n.mc, n.ml, n.bc),
        (n.bl, n.ml, n.bc),
        (n.mc, n.mr, n.tc),
        strength,
    );
    // Kernel 2 and 6
    let lightest_color = color_stage_exec(
        n,
        lightest_color,
        (n.mr, n.br, n.tr),
        (n.ml, n.tl, n.bl),
        (n.ml, n.tl, n.bl),
        (n.mr, n.tr, n.br),
        strength,
    );
    // Kernel 3 and 7
    color_stage_exec(
        n,
        lightest_color,
        (n.mr, n.br, n.bc),
        (n.mc, n.ml, n.tc),
        (n.tc, n.ml, n.tl),
        (n.mc, n.mr, n.bc),
        strength,
    )
}

/// The gradient push of one pixel, given its neighbourhood.
pub(crate) fn push_gradient_at(n: &Neighbourhood, strength: u16) -> (r: Rgba)
    requires
        strength <= 255,
    ensures
        r == push_gradient_pixel(*n, strength),
{
    let color = n.mc;
    // Kernel 0 and 4
    let color = gradient_stage_exec(
        n,
        color,
        (n.tl, n.tc, n.tr),
        (n.bl, n.bc, n.br),
        (n.br, n.bc, n.bl),
        (n.tl, n.tc, n.tr),
        strength,
    );
    // Kernel 1 and 5
    let color = gradient_stage_exec(
        n,
        color,
        (n.mr, n.tc, n.tr),
        (n.mc, n.ml, n.bc),
        (n.bl, n.ml, n.bc),
        (n.mc, n.mr, n.tc),
        strength,
    );
    // Kernel 2 and 6
    let color = gradient_stage_exec(
        n,
        color,
        (n.mr, n.br, n.tr),
        (n.ml, n.tl, n.bl),
        (n.ml, n.tl, n.bl),
        (n.mr, n.tr, n.br),
        strength,
    );
    // Kernel 3 and 7
    let color = gradient_stage_exec(
        n,
        color,
        (n.mr, n.br, n.bc),
        (n.mc, n.ml, n.tc),
        (n.tc, n.ml, n.tl),
        (n.mc, n.mr, n.bc),
        strength,
    );
    let r = Rgba([color.0[0], color.0[1], color.0[2], 255]);
    assert(r.0@ =~= push_gradient_pixel(*n, strength).0@);
    r
}

/// The gradient of one pixel, given its neighbourhood.
pub(crate) fn gradient_at(n: &Neighbourhood) -> (r: Rgba)
    ensures
        r == gradient_pixel(*n),
{
    let dx: i32 = (n.tr.0[3] as i32 + 2 * n.mr.0[3] as i32 + n.br.0[3] as i32) - (n.tl.0[3] as i32
        + 2 * n.ml.0[3] as i32 + n.bl.0[3] as i32);
    let dy: i32 = (n.bl.0[3] as i32 + 2 * n.bc.0[3] as i32 + n.br.0[3] as i32) - (n.tl.0[3] as i32
        + 2 * n.tc.0[3] as i32 + n.tr.0[3] as i32);
    assert(dx * dx <= 1020 * 1020 && dy * dy <= 1020 * 1020 && 0 <= dx * dx && 0 <= dy * dy)
        by (nonlinear_arith)
        requires
            -1020 <= dx <= 1020,
            -1020 <= dy <= 1020,
    ;
    let squared: u32 = (dx * dx + dy * dy) as u32;
    let alpha: u8 = if squared > 255 * 255 {
        0
    } else {
        (0xFF - floor_sqrt_u32(squared)) as u8
    };
    let r = Rgba([n.mc.0[0], n.mc.0[1], n.mc.0[2], alpha]);
    assert(r.0@ =~= gradient_pixel(*n).0@);
    r
}

} // verus!
