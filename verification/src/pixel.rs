use vstd::prelude::*;

verus! {

/// An RGBA colour with one byte per channel: red, green, blue and alpha, in
/// this order.
#[derive(Clone, Copy, Debug, PartialEq, Eq)]
pub struct Rgba(pub [u8; 4]);

impl Rgba {
    /// Channel `c` (0 red, 1 green, 2 blue, 3 alpha).
    pub open spec fn channel(self, c: int) -> u8 {
        self.0@[c]
    }

    pub open spec fn alpha(self) -> u8 {
        self.0@[3]
    }
}

/// Perceived brightness of a colour, weighting red, green and blue 2 : 3 : 1.
pub open spec fn brightness(r: u8, g: u8, b: u8) -> int {
    (2 * r + 3 * g + b) / 6
}

/// Computes the weighted brightness `(2r + 3g + b) / 6` of a colour; being an
/// average of bytes, it never exceeds 255.
pub fn get_brightness(r: u8, g: u8, b: u8) -> (v: u32)
    ensures
        v == brightness(r, g, b),
        v <= 255,
{
    (r as u32 + r as u32 + g as u32 + g as u32 + g as u32 + b as u32) / 6
}

/// One channel of the blend of a centre value `c` towards the mean of `a`,
/// `b` and `d`, where `s` (at most 255) is the weight of the mean.
pub open spec fn blend(c: u8, a: u8, b: u8, d: u8, s: u16) -> int {
    (c * (255 - s) + ((a + b + d) / 3) * s) / 255
}

/// Every channel of `cc` blended towards the mean of the same channel of
/// `a`, `b` and `c`, with weight `strength` out of 255.
pub open spec fn alpha_avg(cc: Rgba, a: Rgba, b: Rgba, c: Rgba, strength: u16) -> Rgba {
    Rgba(
        [
            blend(cc.0@[0], a.0@[0], b.0@[0], c.0@[0], strength) as u8,
            blend(cc.0@[1], a.0@[1], b.0@[1], c.0@[1], strength) as u8,
            blend(cc.0@[2], a.0@[2], b.0@[2], c.0@[2], strength) as u8,
            blend(cc.0@[3], a.0@[3], b.0@[3], c.0@[3], strength) as u8,
        ],
    )
}

/// `alpha_avg` of the arguments when its alpha exceeds that of `lightest`,
/// else `lightest`.
pub open spec fn largest_alpha_avg(
    cc: Rgba,
    lightest: Rgba,
    a: Rgba,
    b: Rgba,
    c: Rgba,
    strength: u16,
) -> Rgba {
    let new_color = alpha_avg(cc, a, b, c, strength);
    if new_color.alpha() > lightest.alpha() {
        new_color
    } else {
        lightest
    }
}

/// A blend lies between the centre value and the mean of the other three.
pub proof fn lemma_blend_between(c: u8, a: u8, b: u8, d: u8, s: u16)
    requires
        s <= 255,
    ensures
        0 <= blend(c, a, b, d, s) <= 255,
        c <= (a + b + d) / 3 ==> c <= blend(c, a, b, d, s) <= (a + b + d) / 3,
        (a + b + d) / 3 <= c ==> (a + b + d) / 3 <= blend(c, a, b, d, s) <= c,
{
    let m: int = (a + b + d) / 3;
    let ci: int = c as int;
    let si: int = s as int;
    assert(0 <= m <= 255);
    let num: int = ci * (255 - si) + m * si;
    assert(num == ci * (255 - si) + m * si);
    if ci <= m {
        assert(ci * 255 <= num <= m * 255) by (nonlinear_arith)
            requires
                0 <= si <= 255,
                0 <= ci <= m,
                num == ci * (255 - si) + m * si,
        ;
    } else {
        assert(m * 255 <= num <= ci * 255) by (nonlinear_arith)
            requires
                0 <= si <= 255,
                0 <= m <= ci,
                num == ci * (255 - si) + m * si,
        ;
    }
    assert(blend(c, a, b, d, s) == num / 255);
}

/// Blends one channel; `strength` is the weight (out of 255) of the mean of
/// `a`, `b` and `d` against `c`.
fn blend_channel(c: u8, a: u8, b: u8, d: u8, strength: u16) -> (r: u8)
    requires
        strength <= 255,
    ensures
        r == blend(c, a, b, d, strength),
{
    let m: u32 = (a as u32 + b as u32 + d as u32) / 3;
    let w: u32 = (0xFF - strength) as u32;
    let s: u32 = strength as u32;
    assert(c as u32 * w <= 65025) by (nonlinear_arith)
        requires
            c <= 255,
            w <= 255,
    ;
    assert(m * s <= 65025) by (nonlinear_arith)
        requires
            m <= 255,
            s <= 255,
    ;
    let v: u32 = (c as u32 * w + m * s) / 0xFF;
    proof {
        lemma_blend_between(c, a, b, d, strength);
    }
    v as u8
}

/// Blends every channel of `cc` towards the mean of the same channel of `a`,
/// `b` and `c`: the result is `(cc * (255 - strength) + mean * strength) / 255`.
pub fn get_alpha_avg(cc: Rgba, a: Rgba, b: Rgba, c: Rgba, strength: u16) -> (r: Rgba)
    requires
        strength <= 255,
    ensures
        r == alpha_avg(cc, a, b, c, strength),
{
    let new_color_r = blend_channel(cc.0[0], a.0[0], b.0[0], c.0[0], strength);
    let new_color_g = blend_channel(cc.0[1], a.0[1], b.0[1], c.0[1], strength);
    let new_color_b = blend_channel(cc.0[2], a.0[2], b.0[2], c.0[2], strength);
    let new_color_a = blend_channel(cc.0[3], a.0[3], b.0[3], c.0[3], strength);
    let r = Rgba([new_color_r, new_color_g, new_color_b, new_color_a]);
    assert(r.0@ =~= alpha_avg(cc, a, b, c, strength).0@);
    r
}

/// Blends `cc` towards `a`, `b` and `c` as `get_alpha_avg` does, and keeps the
/// result only when it is more opaque than `lightest_color`.
pub fn get_largest_alpha_avg(
    cc: Rgba,
    lightest_color: Rgba,
    a: Rgba,
    b: Rgba,
    c: Rgba,
    strength: u16,
) -> (r: Rgba)
    requires
        strength <= 255,
    ensures
        r == largest_alpha_avg(cc, lightest_color, a, b, c, strength),
        r.alpha() >= lightest_color.alpha(),
{
    let new_color = get_alpha_avg(cc, a, b, c, strength);
    if new_color.0[3] > lightest_color.0[3] {
        new_color
    } else {
        lightest_color
    }
}

} // verus!
