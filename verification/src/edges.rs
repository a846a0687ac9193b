use vstd::prelude::*;
use crate::frame::{lemma_map_pixel, push_color_frame, push_gradient_frame, Frame};
use crate::kernel::{
    color_stage, gradient_stage, opaque, pattern_matches, push_color_pixel, push_gradient_pixel,
    Neighbourhood, Triple,
};
use crate::pixel::{alpha_avg, Rgba};

verus! {

// The pushes look for edges around a pixel in eight directions: the four
// sides of its 3x3 neighbourhood and the four corners. Here each direction is
// described once, for the top side and the top-right corner, and the others are
// reached by turning the neighbourhood a quarter at a time.

/// The neighbourhood turned a quarter clockwise: the left column becomes the
/// top row.
pub open spec fn quarter_turn(n: Neighbourhood) -> Neighbourhood {
    Neighbourhood {
        tl: n.bl,
        tc: n.ml,
        tr: n.tl,
        ml: n.bc,
        mc: n.mc,
        mr: n.tc,
        bl: n.br,
        bc: n.mr,
        br: n.tr,
    }
}

/// The neighbourhood turned `k` quarters clockwise, `k` from 0 to 3.
pub open spec fn turned(n: Neighbourhood, k: int) -> Neighbourhood {
    if k == 1 {
        quarter_turn(n)
    } else if k == 2 {
        quarter_turn(quarter_turn(n))
    } else if k == 3 {
        quarter_turn(quarter_turn(quarter_turn(n)))
    } else {
        n
    }
}

/// `a` is more opaque than `b`.
pub open spec fn opaquer(a: Rgba, b: Rgba) -> bool {
    a.alpha() > b.alpha()
}

/// An edge above the centre: every pixel of the top row is more opaque than
/// the centre and than every pixel of the bottom row.
pub open spec fn edge_above(n: Neighbourhood) -> bool {
    &&& opaquer(n.tl, n.mc) && opaquer(n.tc, n.mc) && opaquer(n.tr, n.mc)
    &&& opaquer(n.tl, n.bl) && opaquer(n.tl, n.bc) && opaquer(n.tl, n.br)
    &&& opaquer(n.tc, n.bl) && opaquer(n.tc, n.bc) && opaquer(n.tc, n.br)
    &&& opaquer(n.tr, n.bl) && opaquer(n.tr, n.bc) && opaquer(n.tr, n.br)
}

/// An edge in the top-right corner: the top-centre, top-right and
/// middle-right pixels are each more opaque than the centre, the
/// middle-left and the bottom-centre pixels.
pub open spec fn edge_top_right(n: Neighbourhood) -> bool {
    &&& opaquer(n.tc, n.mc) && opaquer(n.tr, n.mc) && opaquer(n.mr, n.mc)
    &&& opaquer(n.tc, n.ml) && opaquer(n.tr, n.ml) && opaquer(n.mr, n.ml)
    &&& opaquer(n.tc, n.bc) && opaquer(n.tr, n.bc) && opaquer(n.mr, n.bc)
}

/// Direction `d` (0 to 7): 0 to 3 are the sides top, left, bottom, right;
/// 4 to 7 the corners top-right, top-left, bottom-left, bottom-right. It is
/// the top side, or the top-right corner, of the neighbourhood turned
/// `d % 4` quarters.
pub open spec fn edge_at(n: Neighbourhood, d: int) -> bool {
    if d < 4 {
        edge_above(turned(n, d))
    } else {
        edge_top_right(turned(n, d - 4))
    }
}

/// The centre pulled towards the light side of direction `d`: the mean of
/// the three pixels that make that side or corner, with weight `strength`.
pub open spec fn pushed_towards(n: Neighbourhood, d: int, strength: u16) -> Rgba {
    if d < 4 {
        let t = turned(n, d);
        alpha_avg(n.mc, t.tl, t.tc, t.tr, strength)
    } else {
        let t = turned(n, d - 4);
        alpha_avg(n.mc, t.tc, t.tr, t.mr, strength)
    }
}

/// The order in which the gradient push takes directions into account; a
/// later one overrides an earlier one: top and bottom, then the top-right
/// and bottom-left corners, then left and right, then the top-left and
/// bottom-right corners.
pub open spec fn precedence(d: int) -> int {
    if d == 0 || d == 2 {
        0
    } else if d == 4 || d == 6 {
        1
    } else if d == 1 || d == 3 {
        2
    } else {
        3
    }
}

pub open spec fn is_direction(d: int) -> bool {
    0 <= d < 8
}

/// The blend `alpha_avg` does not depend on the order of the three pixels it
/// pulls towards.
proof fn lemma_alpha_avg_order(cc: Rgba, a: Rgba, b: Rgba, c: Rgba, s: u16)
    ensures
        alpha_avg(cc, a, b, c, s) == alpha_avg(cc, c, b, a, s),
        alpha_avg(cc, a, b, c, s) == alpha_avg(cc, b, c, a, s),
        alpha_avg(cc, a, b, c, s) == alpha_avg(cc, a, c, b, s),
{
    assert(alpha_avg(cc, a, b, c, s).0 =~= alpha_avg(cc, c, b, a, s).0);
    assert(alpha_avg(cc, a, b, c, s).0 =~= alpha_avg(cc, b, c, a, s).0);
    assert(alpha_avg(cc, a, b, c, s).0 =~= alpha_avg(cc, a, c, b, s).0);
}

/// The pattern that a stage of the pushes tests, and the blend it makes, are
/// those of direction `d`.
pub open spec fn stage_is_direction(
    n: Neighbourhood,
    light: Triple,
    dark: Triple,
    d: int,
    strength: u16,
) -> bool {
    &&& pattern_matches(n.mc, light, dark) == edge_at(n, d)
    &&& alpha_avg(n.mc, light.0, light.1, light.2, strength) == pushed_towards(n, d, strength)
}

proof fn lemma_stage_direction_0(n: Neighbourhood, s: u16)
    ensures
        stage_is_direction(n, (n.tl, n.tc, n.tr), (n.bl, n.bc, n.br), 0, s),
{

}

proof fn lemma_stage_direction_2(n: Neighbourhood, s: u16)
    ensures
        stage_is_direction(n, (n.br, n.bc, n.bl), (n.tl, n.tc, n.tr), 2, s),
{
    lemma_alpha_avg_order(n.mc, n.bl, n.bc, n.br, s);
}

proof fn lemma_stage_direction_4(n: Neighbourhood, s: u16)
    ensures
        stage_is_direction(n, (n.mr, n.tc, n.tr), (n.mc, n.ml, n.bc), 4, s),
{
    lemma_alpha_avg_order(n.mc, n.tc, n.tr, n.mr, s);
}

proof fn lemma_stage_direction_6(n: Neighbourhood, s: u16)
    ensures
        stage_is_direction(n, (n.bl, n.ml, n.bc), (n.mc, n.mr, n.tc), 6, s),
{
    lemma_alpha_avg_order(n.mc, n.bc, n.bl, n.ml, s);
}

proof fn lemma_stage_direction_3(n: Neighbourhood, s: u16)
    ensures
        stage_is_direction(n, (n.mr, n.br, n.tr), (n.ml, n.tl, n.bl), 3, s),
{
    lemma_alpha_avg_order(n.mc, n.tr, n.mr, n.br, s);
}

proof fn lemma_stage_direction_1(n: Neighbourhood, s: u16)
    ensures
        stage_is_direction(n, (n.ml, n.tl, n.bl), (n.mr, n.tr, n.br), 1, s),
{
    lemma_alpha_avg_order(n.mc, n.bl, n.ml, n.tl, s);
}

proof fn lemma_stage_direction_7(n: Neighbourhood, s: u16)
    ensures
        stage_is_direction(n, (n.mr, n.br, n.bc), (n.mc, n.ml, n.tc), 7, s),
{
    lemma_alpha_avg_order(n.mc, n.mr, n.br, n.bc, s);
}

proof fn lemma_stage_direction_5(n: Neighbourhood, s: u16)
    ensures
        stage_is_direction(n, (n.tc, n.ml, n.tl), (n.mc, n.mr, n.bc), 5, s),
{
    lemma_alpha_avg_order(n.mc, n.ml, n.tl, n.tc, s);
}

/// The eight patterns of the pushes are the eight directions, and the two
/// tested in one stage never hold together.
proof fn lemma_stages_are_directions(n: Neighbourhood, s: u16)
    ensures
        stage_is_direction(n, (n.tl, n.tc, n.tr), (n.bl, n.bc, n.br), 0, s),
        stage_is_direction(n, (n.br, n.bc, n.bl), (n.tl, n.tc, n.tr), 2, s),
        stage_is_direction(n, (n.mr, n.tc, n.tr), (n.mc, n.ml, n.bc), 4, s),
        stage_is_direction(n, (n.bl, n.ml, n.bc), (n.mc, n.mr, n.tc), 6, s),
        stage_is_direction(n, (n.mr, n.br, n.tr), (n.ml, n.tl, n.bl), 3, s),
        stage_is_direction(n, (n.ml, n.tl, n.bl), (n.mr, n.tr, n.br), 1, s),
        stage_is_direction(n, (n.mr, n.br, n.bc), (n.mc, n.ml, n.tc), 7, s),
        stage_is_direction(n, (n.tc, n.ml, n.tl), (n.mc, n.mr, n.bc), 5, s),
        !(edge_at(n, 0) && edge_at(n, 2)),
        !(edge_at(n, 4) && edge_at(n, 6)),
        !(edge_at(n, 1) && edge_at(n, 3)),
        !(edge_at(n, 5) && edge_at(n, 7)),
{
    lemma_stage_direction_0(n, s);
    lemma_stage_direction_2(n, s);
    lemma_stage_direction_4(n, s);
    lemma_stage_direction_6(n, s);
    lemma_stage_direction_3(n, s);
    lemma_stage_direction_1(n, s);
    lemma_stage_direction_7(n, s);
    lemma_stage_direction_5(n, s);
}

/// What one stage of the colour push does, in terms of its two directions.
proof fn lemma_color_stage(
    n: Neighbourhood,
    lightest: Rgba,
    light: Triple,
    dark: Triple,
    light2: Triple,
    dark2: Triple,
    d: int,
    d2: int,
    s: u16,
)
    requires
        stage_is_direction(n, light, dark, d, s),
        stage_is_direction(n, light2, dark2, d2, s),
        !(edge_at(n, d) && edge_at(n, d2)),
    ensures
        ({
            let r = color_stage(n, lightest, light, dark, light2, dark2, s);
            &&& r.alpha() >= lightest.alpha()
            &&& edge_at(n, d) ==> r.alpha() >= pushed_towards(n, d, s).alpha()
            &&& edge_at(n, d2) ==> r.alpha() >= pushed_towards(n, d2, s).alpha()
            &&& r == lightest || (edge_at(n, d) && r == pushed_towards(n, d, s)) || (edge_at(n, d2)
                && r == pushed_towards(n, d2, s))
        }),
{
}

/// The colour push of one pixel keeps, of the centre and the blends towards
/// every direction in which there is an edge, the most opaque: its result is
/// one of them, and no less opaque than any.
pub proof fn push_color_takes_the_most_opaque_blend(n: Neighbourhood, strength: u16)
    ensures
        push_color_pixel(n, strength).alpha() >= n.mc.alpha(),
        forall|d: int|
            is_direction(d) && edge_at(n, d) ==> push_color_pixel(n, strength).alpha()
                >= #[trigger] pushed_towards(n, d, strength).alpha(),
        push_color_pixel(n, strength) == n.mc || exists|d: int|
            is_direction(d) && edge_at(n, d) && push_color_pixel(n, strength) == #[trigger] pushed_towards(
                n,
                d,
                strength,
            ),
{
    let s = strength;
    lemma_stages_are_directions(n, s);
    let c0 = color_stage(
        n,
        n.mc,
        (n.tl, n.tc, n.tr),
        (n.bl, n.bc, n.br),
        (n.br, n.bc, n.bl),
        (n.tl, n.tc, n.tr),
        s,
    );
    lemma_color_stage(
        n,
        n.mc,
        (n.tl, n.tc, n.tr),
        (n.bl, n.bc, n.br),
        (n.br, n.bc, n.bl),
        (n.tl, n.tc, n.tr),
        0,
        2,
        s,
    );
    let c1 = color_stage(
        n,
        c0,
        (n.mr, n.tc, n.tr),
        (n.mc, n.ml, n.bc),
        (n.bl, n.ml, n.bc),
        (n.mc, n.mr, n.tc),
        s,
    );
    lemma_color_stage(
        n,
        c0,
        (n.mr, n.tc, n.tr),
        (n.mc, n.ml, n.bc),
        (n.bl, n.ml, n.bc),
        (n.mc, n.mr, n.tc),
        4,
        6,
        s,
    );
    let c2 = color_stage(
        n,
        c1,
        (n.mr, n.br, n.tr),
        (n.ml, n.tl, n.bl),
        (n.ml, n.tl, n.bl),
        (n.mr, n.tr, n.br),
        s,
    );
    lemma_color_stage(
        n,
        c1,
        (n.mr, n.br, n.tr),
        (n.ml, n.tl, n.bl),
        (n.ml, n.tl, n.bl),
        (n.mr, n.tr, n.br),
        3,
        1,
        s,
    );
    lemma_color_stage(
        n,
        c2,
        (n.mr, n.br, n.bc),
        (n.mc, n.ml, n.tc),
        (n.tc, n.ml, n.tl),
        (n.mc, n.mr, n.bc),
        7,
        5,
        s,
    );
    let r = push_color_pixel(n, s);
    assert(r == color_stage(
        n,
        c2,
        (n.mr, n.br, n.bc),
        (n.mc, n.ml, n.tc),
        (n.tc, n.ml, n.tl),
        (n.mc, n.mr, n.bc),
        s,
    ));
    assert forall|d: int| is_direction(d) && edge_at(n, d) implies r.alpha()
        >= #[trigger] pushed_towards(n, d, s).alpha() by {
        assert(d == 0 || d == 1 || d == 2 || d == 3 || d == 4 || d == 5 || d == 6 || d == 7);
    }
    if r != n.mc {
        if r == pushed_towards(n, 7, s) && edge_at(n, 7) {
            assert(is_direction(7));
        } else if r == pushed_towards(n, 5, s) && edge_at(n, 5) {
            assert(is_direction(5));
        } else if r == pushed_towards(n, 3, s) && edge_at(n, 3) {
            assert(is_direction(3));
        } else if r == pushed_towards(n, 1, s) && edge_at(n, 1) {
            assert(is_direction(1));
        } else if r == pushed_towards(n, 4, s) && edge_at(n, 4) {
            assert(is_direction(4));
        } else if r == pushed_towards(n, 6, s) && edge_at(n, 6) {
            assert(is_direction(6));
        } else if r == pushed_towards(n, 0, s) && edge_at(n, 0) {
            assert(is_direction(0));
        } else {
            assert(r == pushed_towards(n, 2, s) && edge_at(n, 2));
            assert(is_direction(2));
        }
    }
}

/// What one stage of the gradient push does, in terms of its two directions.
proof fn lemma_gradient_stage(
    n: Neighbourhood,
    current: Rgba,
    light: Triple,
    dark: Triple,
    light2: Triple,
    dark2: Triple,
    d: int,
    d2: int,
    s: u16,
)
    requires
        stage_is_direction(n, light, dark, d, s),
        stage_is_direction(n, light2, dark2, d2, s),
        !(edge_at(n, d) && edge_at(n, d2)),
    ensures
        ({
            let r = gradient_stage(n, current, light, dark, light2, dark2, s);
            &&& edge_at(n, d) ==> r == pushed_towards(n, d, s)
            &&& edge_at(n, d2) ==> r == pushed_towards(n, d2, s)
            &&& !edge_at(n, d) && !edge_at(n, d2) ==> r == current
        }),
{
}

/// The gradient push of one pixel is the blend towards the edge that comes
/// last in `precedence` (the one edge, where there is only one), made opaque;
/// without an edge, it is the centre made opaque.
pub proof fn push_gradient_follows_the_last_edge(n: Neighbourhood, strength: u16)
    ensures
        (forall|d: int| is_direction(d) ==> !#[trigger] edge_at(n, d)) ==> push_gradient_pixel(
            n,
            strength,
        ) == opaque(n.mc),
        forall|d: int|
            #![trigger edge_at(n, d)]
            is_direction(d) && edge_at(n, d) && (forall|e: int|
                is_direction(e) && #[trigger] edge_at(n, e) ==> precedence(e) <= precedence(d))
                ==> push_gradient_pixel(n, strength) == opaque(pushed_towards(n, d, strength)),
{
    let s = strength;
    lemma_stages_are_directions(n, s);
    let c0 = gradient_stage(
        n,
        n.mc,
        (n.tl, n.tc, n.tr),
        (n.bl, n.bc, n.br),
        (n.br, n.bc, n.bl),
        (n.tl, n.tc, n.tr),
        s,
    );
    lemma_gradient_stage(
        n,
        n.mc,
        (n.tl, n.tc, n.tr),
        (n.bl, n.bc, n.br),
        (n.br, n.bc, n.bl),
        (n.tl, n.tc, n.tr),
        0,
        2,
        s,
    );
    let c1 = gradient_stage(
        n,
        c0,
        (n.mr, n.tc, n.tr),
        (n.mc, n.ml, n.bc),
        (n.bl, n.ml, n.bc),
        (n.mc, n.mr, n.tc),
        s,
    );
    lemma_gradient_stage(
        n,
        c0,
        (n.mr, n.tc, n.tr),
        (n.mc, n.ml, n.bc),
        (n.bl, n.ml, n.bc),
        (n.mc, n.mr, n.tc),
        4,
        6,
        s,
    );
    let c2 = gradient_stage(
        n,
        c1,
        (n.mr, n.br, n.tr),
        (n.ml, n.tl, n.bl),
        (n.ml, n.tl, n.bl),
        (n.mr, n.tr, n.br),
        s,
    );
    lemma_gradient_stage(
        n,
        c1,
        (n.mr, n.br, n.tr),
        (n.ml, n.tl, n.bl),
        (n.ml, n.tl, n.bl),
        (n.mr, n.tr, n.br),
        3,
        1,
        s,
    );
    let c3 = gradient_stage(
        n,
        c2,
        (n.mr, n.br, n.bc),
        (n.mc, n.ml, n.tc),
        (n.tc, n.ml, n.tl),
        (n.mc, n.mr, n.bc),
        s,
    );
    lemma_gradient_stage(
        n,
        c2,
        (n.mr, n.br, n.bc),
        (n.mc, n.ml, n.tc),
        (n.tc, n.ml, n.tl),
        (n.mc, n.mr, n.bc),
        7,
        5,
        s,
    );
    assert(push_gradient_pixel(n, s) == opaque(c3));
    if forall|d: int| is_direction(d) ==> !#[trigger] edge_at(n, d) {
        assert(!edge_at(n, 0) && !edge_at(n, 1) && !edge_at(n, 2) && !edge_at(n, 3));
        assert(!edge_at(n, 4) && !edge_at(n, 5) && !edge_at(n, 6) && !edge_at(n, 7));
    }
    assert forall|d: int|
        #![trigger edge_at(n, d)]
        is_direction(d) && edge_at(n, d) && (forall|e: int|
            is_direction(e) && #[trigger] edge_at(n, e) ==> precedence(e) <= precedence(d))
            implies push_gradient_pixel(n, s) == opaque(pushed_towards(n, d, s)) by {
        assert(is_direction(0) && is_direction(1) && is_direction(2) && is_direction(3));
        assert(is_direction(4) && is_direction(5) && is_direction(6) && is_direction(7));
        if edge_at(n, 0) {
        }
        if edge_at(n, 1) {
        }
        if edge_at(n, 2) {
        }
        if edge_at(n, 3) {
        }
        if edge_at(n, 4) {
        }
        if edge_at(n, 5) {
        }
        if edge_at(n, 6) {
        }
        if edge_at(n, 7) {
        }
    }
}

/// The colour push of an image: each pixel becomes, of itself and the blends
/// towards every direction in which its neighbourhood has an edge, the most
/// opaque.
pub proof fn push_color_pulls_across_edges(src: Frame, strength: u16, x: int, y: int)
    requires
        src.contains(x, y),
    ensures
        ({
            let n = src.neighbourhood(x, y);
            let p = push_color_frame(src, strength).pixel(x, y);
            &&& p.alpha() >= n.mc.alpha()
            &&& forall|d: int|
                is_direction(d) && edge_at(n, d) ==> p.alpha() >= #[trigger] pushed_towards(
                    n,
                    d,
                    strength,
                ).alpha()
            &&& p == n.mc || exists|d: int|
                is_direction(d) && edge_at(n, d) && p == #[trigger] pushed_towards(n, d, strength)
        }),
{
    lemma_map_pixel(src, |n: Neighbourhood| push_color_pixel(n, strength), x, y);
    push_color_takes_the_most_opaque_blend(src.neighbourhood(x, y), strength);
}

/// The gradient push of an image: each pixel becomes the blend towards the
/// edge of its neighbourhood that comes last in `precedence`, made opaque, or
/// itself made opaque where there is no edge.
pub proof fn push_gradient_pulls_across_edges(src: Frame, strength: u16, x: int, y: int)
    requires
        src.contains(x, y),
    ensures
        ({
            let n = src.neighbourhood(x, y);
            let p = push_gradient_frame(src, strength).pixel(x, y);
            &&& (forall|d: int| is_direction(d) ==> !#[trigger] edge_at(n, d)) ==> p == opaque(n.mc)
            &&& forall|d: int|
                #![trigger edge_at(n, d)]
                is_direction(d) && edge_at(n, d) && (forall|e: int|
                    is_direction(e) && #[trigger] edge_at(n, e) ==> precedence(e) <= precedence(d))
                    ==> p == opaque(pushed_towards(n, d, strength))
        }),
{
    lemma_map_pixel(src, |n: Neighbourhood| push_gradient_pixel(n, strength), x, y);
    push_gradient_follows_the_last_edge(src.neighbourhood(x, y), strength);
}

} // verus!
