use crate::gpu::{depth_after, ZBuffer};
use crate::shaders::pixel_shader::PixelShader;
use crate::types::{
    clamp_limit, clamp_to_limit, floor_div_wide, in_limit, lemma_mul_le, Fragment, Triangle,
    TriangleVertex, Vec4, CHANNELS, LIMIT, ONE,
};
use vstd::prelude::*;

verus! {

/// Half a pixel in fixed point: pixels are sampled at their centers.
pub const HALF: i64 = 32768;

/// Largest screen side whose pixel centers stay in the fixed-point range.
pub const MAX_SCREEN: usize = 16384;

/// Fixed-point coordinate of the center of pixel row or column `p`.
pub open spec fn center(p: int) -> int {
    p * ONE + HALF
}

/// `n / d` rounded up, for a positive `d`.
pub open spec fn ceil_div(n: int, d: int) -> int {
    (n + d - 1) / d
}

/// The first row (or column) whose center lies at or past coordinate `c`.
pub open spec fn first_line(c: int) -> int {
    ceil_div(c - HALF, ONE as int)
}

/// On row `py`, the first column whose center lies at or right of the line
/// through `a` and `b` (a line that is not horizontal).
pub open spec fn edge_start(a: Vec4, b: Vec4, py: int) -> int {
    let dy = b.y - a.y;
    if dy <= 0 {
        0
    } else {
        ceil_div((a.x - HALF) * dy + (b.x - a.x) * (center(py) - a.y), ONE * dy)
    }
}

/// The pixels between two edges, `a0 -> a1` and `b0 -> b1`, on the rows whose
/// centers lie in `[y_top, y_bottom)`: on each row the columns whose centers
/// lie at or right of one edge and left of the other.
pub open spec fn in_span(
    a0: Vec4,
    a1: Vec4,
    b0: Vec4,
    b1: Vec4,
    y_top: int,
    y_bottom: int,
    px: int,
    py: int,
) -> bool {
    let l = edge_start(a0, a1, py);
    let r = edge_start(b0, b1, py);
    first_line(y_top) <= py < first_line(y_bottom) && ((l <= px < r) || (r <= px < l))
}

/// The vertices ordered by ascending screen `y`, keeping the given order among
/// equal ones.
pub open spec fn sort_by_y(v: [TriangleVertex; 3]) -> [TriangleVertex; 3] {
    let a = v[0];
    let b = v[1];
    let c = v[2];
    if a.position.y <= b.position.y {
        if b.position.y <= c.position.y {
            [a, b, c]
        } else if a.position.y <= c.position.y {
            [a, c, b]
        } else {
            [c, a, b]
        }
    } else {
        if a.position.y <= c.position.y {
            [b, a, c]
        } else if b.position.y <= c.position.y {
            [b, c, a]
        } else {
            [c, b, a]
        }
    }
}

/// The pixels a scanline fill of the whole triangle covers: each row whose
/// center lies from the top vertex to before the bottom one, between the
/// long edge (top to bottom) and the short edge on that side of the middle
/// vertex.
pub open spec fn covers(t: Triangle, px: int, py: int) -> bool {
    let s = sort_by_y(t.vertices);
    let p0 = s[0].position;
    let p1 = s[1].position;
    let p2 = s[2].position;
    let long = edge_start(p0, p2, py);
    let short = if py < first_line(p1.y as int) {
        edge_start(p0, p1, py)
    } else {
        edge_start(p1, p2, py)
    };
    first_line(p0.y as int) <= py < first_line(p2.y as int) && ((long <= px < short) || (short
        <= px < long))
}

/// The part above the middle vertex, filled as a flat-bottom triangle.
pub open spec fn upper_covers(t: Triangle, px: int, py: int) -> bool {
    let s = sort_by_y(t.vertices);
    let p0 = s[0].position;
    let p1 = s[1].position;
    let p2 = s[2].position;
    in_span(p0, p1, p0, p2, p0.y as int, p1.y as int, px, py)
}

/// The part from the middle vertex down, filled as a flat-top triangle.
pub open spec fn lower_covers(t: Triangle, px: int, py: int) -> bool {
    let s = sort_by_y(t.vertices);
    let p0 = s[0].position;
    let p1 = s[1].position;
    let p2 = s[2].position;
    in_span(p1, p2, p0, p2, p1.y as int, p2.y as int, px, py)
}

/// Twice the signed area of `a, b` and the center of pixel `(px, py)`.
pub open spec fn edge_fn(a: Vec4, b: Vec4, px: int, py: int) -> int {
    (b.x - a.x) * (center(py) - a.y) - (b.y - a.y) * (center(px) - a.x)
}

/// The average of `q0, q1, q2` under weights `e0, e1, e2`, rounded down and
/// saturated; zero when the weights cancel out.
pub open spec fn weighted(q0: int, q1: int, q2: int, e0: int, e1: int, e2: int) -> int {
    let area = e0 + e1 + e2;
    let n = q0 * e0 + q1 * e1 + q2 * e2;
    if area > 0 {
        clamp_limit(n / area)
    } else if area < 0 {
        clamp_limit((-n) / (-area))
    } else {
        0
    }
}

/// The value at the center of pixel `(px, py)` of the plane through the three
/// vertices carrying `q0, q1, q2`: barycentric interpolation.
pub open spec fn blend(s: [TriangleVertex; 3], q0: int, q1: int, q2: int, px: int, py: int) -> int {
    weighted(
        q0,
        q1,
        q2,
        edge_fn(s[1].position, s[2].position, px, py),
        edge_fn(s[2].position, s[0].position, px, py),
        edge_fn(s[0].position, s[1].position, px, py),
    )
}

/// Depth at a pixel, interpolated linearly in screen space.
pub open spec fn pixel_depth(s: [TriangleVertex; 3], px: int, py: int) -> i64 {
    blend(s, s[0].position.z as int, s[1].position.z as int, s[2].position.z as int, px, py) as i64
}

/// `1 / w` at a pixel, interpolated linearly in screen space.
pub open spec fn pixel_w_inv(s: [TriangleVertex; 3], px: int, py: int) -> i64 {
    blend(s, s[0].position.w as int, s[1].position.w as int, s[2].position.w as int, px, py) as i64
}

/// An attribute recovered from its value divided by `w` and from `1 / w`.
pub open spec fn recover(a_over_w: i64, w_inv: i64) -> i64 {
    if w_inv > 0 {
        clamp_limit((a_over_w * ONE) / (w_inv as int)) as i64
    } else {
        0
    }
}

/// Channel `i` at a pixel, perspective-correct: the channel divided by `w` is
/// interpolated linearly and divided by the interpolated `1 / w`.
pub open spec fn pixel_channel(s: [TriangleVertex; 3], i: int, px: int, py: int) -> i64 {
    recover(
        blend(
            s,
            s[0].parameters[i] as int,
            s[1].parameters[i] as int,
            s[2].parameters[i] as int,
            px,
            py,
        ) as i64,
        pixel_w_inv(s, px, py),
    )
}

pub open spec fn pixel_params(s: [TriangleVertex; 3], px: int, py: int) -> [i64; CHANNELS] {
    [
        pixel_channel(s, 0, px, py),
        pixel_channel(s, 1, px, py),
        pixel_channel(s, 2, px, py),
        pixel_channel(s, 3, px, py),
    ]
}

pub open spec fn tri_wf(s: [TriangleVertex; 3]) -> bool {
    s[0].wf() && s[1].wf() && s[2].wf()
}

/// Some fragment from index `from` on lies at pixel `(x, y)`.
pub open spec fn has_fragment(o: Seq<Fragment>, from: int, x: int, y: int) -> bool {
    exists|k: int| from <= k < o.len() && #[trigger] o[k].x == x && o[k].y == y
}

/// A fragment that a fill of `region` may emit: on screen, inside the region,
/// nearer than the depth stored before the fill, and shaded from the
/// perspective-correct channels there.
pub open spec fn fragment_ok<PS: PixelShader>(
    f: Fragment,
    zb: ZBuffer,
    region: spec_fn(int, int) -> bool,
    s: [TriangleVertex; 3],
    shader: PS,
) -> bool {
    &&& 0 <= f.x < zb.width()
    &&& 0 <= f.y < zb.height()
    &&& region(f.x as int, f.y as int)
    &&& pixel_depth(s, f.x as int, f.y as int) < zb.depth_at(f.x as int, f.y as int)
    &&& f.color == shader.shade(pixel_params(s, f.x as int, f.y as int))
}

/// What filling `region` does: every pixel of it on screen is depth-tested
/// once; the depth buffer keeps the nearer depth; exactly the pixels that
/// pass get one fragment each, appended after what `o0` held.
pub open spec fn fill_effect<PS: PixelShader>(
    zb0: ZBuffer,
    zb1: ZBuffer,
    o0: Seq<Fragment>,
    o1: Seq<Fragment>,
    region: spec_fn(int, int) -> bool,
    s: [TriangleVertex; 3],
    shader: PS,
) -> bool {
    &&& zb1.wf()
    &&& zb1.width() == zb0.width()
    &&& zb1.height() == zb0.height()
    &&& forall|x: int, y: int|
        0 <= x < zb0.width() && 0 <= y < zb0.height() ==> #[trigger] zb1.depth_at(x, y) == if region(
            x,
            y,
        ) {
            depth_after(zb0.depth_at(x, y), pixel_depth(s, x, y))
        } else {
            zb0.depth_at(x, y)
        }
    &&& o1.len() >= o0.len()
    &&& forall|k: int| 0 <= k < o0.len() ==> #[trigger] o1[k] == o0[k]
    &&& forall|k: int| o0.len() <= k < o1.len() ==> fragment_ok(#[trigger] o1[k], zb0, region, s, shader)
    &&& forall|x: int, y: int|
        0 <= x < zb0.width() && 0 <= y < zb0.height() && region(x, y) && pixel_depth(s, x, y)
            < zb0.depth_at(x, y) ==> #[trigger] has_fragment(o1, o0.len() as int, x, y)
    &&& forall|k1: int, k2: int|
        o0.len() <= k1 < k2 < o1.len() ==> !(#[trigger] o1[k1].x == #[trigger] o1[k2].x && o1[k1].y
            == o1[k2].y)
}

/// Pixel `(x, y)` comes before pixel `(px, py)` in scan order.
pub open spec fn done(x: int, y: int, px: int, py: int) -> bool {
    y < py || (y == py && x < px)
}

/// A fill of `region` that has visited, in scan order, every pixel before
/// `(px, py)`.
pub open spec fn fill_progress<PS: PixelShader>(
    zb0: ZBuffer,
    zb: ZBuffer,
    o0: Seq<Fragment>,
    o: Seq<Fragment>,
    region: spec_fn(int, int) -> bool,
    s: [TriangleVertex; 3],
    shader: PS,
    px: int,
    py: int,
) -> bool {
    &&& zb.wf()
    &&& zb.width() == zb0.width()
    &&& zb.height() == zb0.height()
    &&& forall|x: int, y: int|
        0 <= x < zb0.width() && 0 <= y < zb0.height() ==> #[trigger] zb.depth_at(x, y) == if region(
            x,
            y,
        ) && done(x, y, px, py) {
            depth_after(zb0.depth_at(x, y), pixel_depth(s, x, y))
        } else {
            zb0.depth_at(x, y)
        }
    &&& o.len() >= o0.len()
    &&& forall|k: int| 0 <= k < o0.len() ==> #[trigger] o[k] == o0[k]
    &&& forall|k: int|
        o0.len() <= k < o.len() ==> fragment_ok(#[trigger] o[k], zb0, region, s, shader) && done(
            o[k].x as int,
            o[k].y as int,
            px,
            py,
        )
    &&& forall|x: int, y: int|
        0 <= x < zb0.width() && 0 <= y < zb0.height() && region(x, y) && done(x, y, px, py)
            && pixel_depth(s, x, y) < zb0.depth_at(x, y) ==> #[trigger] has_fragment(
            o,
            o0.len() as int,
            x,
            y,
        )
    &&& forall|k1: int, k2: int|
        o0.len() <= k1 < k2 < o.len() ==> !(#[trigger] o[k1].x == #[trigger] o[k2].x && o[k1].y
            == o[k2].y)
}

/// Bound on a coordinate difference: positions lie within `LIMIT`, pixel
/// centers within twice that.
pub const SPAN: i128 = 0x1_0000_0000;

/// The first row whose center lies at or past `c`.
fn first_line_exec(c: i64) -> (r: i128)
    requires
        in_limit(c as int),
    ensures
        r == first_line(c as int),
{
    floor_div_wide(c as i128 - HALF as i128 + ONE as i128 - 1, ONE as i128)
}

fn edge_start_exec(a: &Vec4, b: &Vec4, py: i128) -> (r: i128)
    requires
        a.wf(),
        b.wf(),
        0 <= py < MAX_SCREEN,
    ensures
        r == edge_start(*a, *b, py as int),
{
    let dy = b.y as i128 - a.y as i128;
    if dy <= 0 {
        return 0;
    }
    assert(0 <= py * ONE <= MAX_SCREEN * ONE) by (nonlinear_arith)
        requires
            0 <= py < MAX_SCREEN,
    ;
    let cy = py * (ONE as i128) + HALF as i128;
    proof {
        lemma_mul_le(a.x - HALF, dy as int, SPAN as int, SPAN as int);
        lemma_mul_le(b.x - a.x, cy - a.y, SPAN as int, SPAN as int);
    }
    let n = (a.x as i128 - HALF as i128) * dy + (b.x as i128 - a.x as i128) * (cy - a.y as i128);
    let d = (ONE as i128) * dy;
    floor_div_wide(n + d - 1, d)
}

/// `edge_fn` at a pixel center given in fixed point.
fn edge_value(a: &Vec4, b: &Vec4, cx: i128, cy: i128) -> (r: i128)
    requires
        a.wf(),
        b.wf(),
        0 <= cx <= LIMIT + ONE,
        0 <= cy <= LIMIT + ONE,
    ensures
        r == (b.x - a.x) * (cy - a.y) - (b.y - a.y) * (cx - a.x),
        -2 * SPAN * SPAN <= r <= 2 * SPAN * SPAN,
{
    proof {
        lemma_mul_le(b.x - a.x, cy - a.y, SPAN as int, SPAN as int);
        lemma_mul_le(b.y - a.y, cx - a.x, SPAN as int, SPAN as int);
    }
    (b.x as i128 - a.x as i128) * (cy - a.y as i128) - (b.y as i128 - a.y as i128) * (cx
        - a.x as i128)
}

fn weighted_exec(q0: i64, q1: i64, q2: i64, e0: i128, e1: i128, e2: i128) -> (r: i64)
    requires
        in_limit(q0 as int),
        in_limit(q1 as int),
        in_limit(q2 as int),
        -2 * SPAN * SPAN <= e0 <= 2 * SPAN * SPAN,
        -2 * SPAN * SPAN <= e1 <= 2 * SPAN * SPAN,
        -2 * SPAN * SPAN <= e2 <= 2 * SPAN * SPAN,
    ensures
        r == weighted(q0 as int, q1 as int, q2 as int, e0 as int, e1 as int, e2 as int),
        in_limit(r as int),
{
    proof {
        lemma_mul_le(q0 as int, e0 as int, LIMIT as int, 2 * SPAN * SPAN);
        lemma_mul_le(q1 as int, e1 as int, LIMIT as int, 2 * SPAN * SPAN);
        lemma_mul_le(q2 as int, e2 as int, LIMIT as int, 2 * SPAN * SPAN);
    }
    let area = e0 + e1 + e2;
    let n = (q0 as i128) * e0 + (q1 as i128) * e1 + (q2 as i128) * e2;
    if area > 0 {
        clamp_to_limit(floor_div_wide(n, area))
    } else if area < 0 {
        clamp_to_limit(floor_div_wide(-n, -area))
    } else {
        0
    }
}

/// An attribute recovered from its value divided by `w` and from `1 / w`.
pub fn perspective_recover(a_over_w: i64, w_inv: i64) -> (r: i64)
    requires
        in_limit(a_over_w as int),
    ensures
        r == recover(a_over_w, w_inv),
{
    if w_inv > 0 {
        proof {
            lemma_mul_le(a_over_w as int, ONE as int, LIMIT as int, ONE as int);
        }
        clamp_to_limit(floor_div_wide((a_over_w as i128) * (ONE as i128), w_inv as i128))
    } else {
        0
    }
}

/// Depth and perspective-correct channels at pixel `(px, py)`.
fn pixel_values(s: &[TriangleVertex; 3], px: usize, py: usize) -> (r: (i64, [i64; CHANNELS]))
    requires
        tri_wf(*s),
        px < MAX_SCREEN,
        py < MAX_SCREEN,
    ensures
        r.0 == pixel_depth(*s, px as int, py as int),
        r.1 == pixel_params(*s, px as int, py as int),
{
    let cx = (px as i128) * (ONE as i128) + HALF as i128;
    let cy = (py as i128) * (ONE as i128) + HALF as i128;
    let v0 = &s[0];
    let v1 = &s[1];
    let v2 = &s[2];
    let e0 = edge_value(&v1.position, &v2.position, cx, cy);
    let e1 = edge_value(&v2.position, &v0.position, cx, cy);
    let e2 = edge_value(&v0.position, &v1.position, cx, cy);
    let depth = weighted_exec(v0.position.z, v1.position.z, v2.position.z, e0, e1, e2);
    let w_inv = weighted_exec(v0.position.w, v1.position.w, v2.position.w, e0, e1, e2);
    let mut params: [i64; CHANNELS] = [0, 0, 0, 0];
    let mut i: usize = 0;
    while i < CHANNELS
        invariant
            tri_wf(*s),
            *v0 == s[0],
            *v1 == s[1],
            *v2 == s[2],
            e0 == edge_fn(s[1].position, s[2].position, px as int, py as int),
            e1 == edge_fn(s[2].position, s[0].position, px as int, py as int),
            e2 == edge_fn(s[0].position, s[1].position, px as int, py as int),
            -2 * SPAN * SPAN <= e0 <= 2 * SPAN * SPAN,
            -2 * SPAN * SPAN <= e1 <= 2 * SPAN * SPAN,
            -2 * SPAN * SPAN <= e2 <= 2 * SPAN * SPAN,
            w_inv == pixel_w_inv(*s, px as int, py as int),
            i <= CHANNELS,
            forall|k: int| 0 <= k < i ==> params[k] == #[trigger] pixel_channel(*s, k, px as int, py as int),
        decreases CHANNELS - i,
    {
        assert(in_limit(v0.parameters[i as int] as int));
        assert(in_limit(v1.parameters[i as int] as int));
        assert(in_limit(v2.parameters[i as int] as int));
        let a = weighted_exec(v0.parameters[i], v1.parameters[i], v2.parameters[i], e0, e1, e2);
        params[i] = perspective_recover(a, w_inv);
        i = i + 1;
    }
    assert(params == pixel_params(*s, px as int, py as int));
    (depth, params)
}

/// The pixels between two edges on a band of rows, as a region.
pub open spec fn span_region(
    a0: Vec4,
    a1: Vec4,
    b0: Vec4,
    b1: Vec4,
    y_top: int,
    y_bottom: int,
) -> spec_fn(int, int) -> bool {
    |x: int, y: int| in_span(a0, a1, b0, b1, y_top, y_bottom, x, y)
}

proof fn lemma_progress_shift<PS: PixelShader>(
    zb0: ZBuffer,
    zb: ZBuffer,
    o0: Seq<Fragment>,
    o: Seq<Fragment>,
    region: spec_fn(int, int) -> bool,
    s: [TriangleVertex; 3],
    shader: PS,
    px1: int,
    py1: int,
    px2: int,
    py2: int,
)
    requires
        fill_progress(zb0, zb, o0, o, region, s, shader, px1, py1),
        forall|x: int, y: int|
            0 <= x < zb0.width() && 0 <= y < zb0.height() && #[trigger] region(x, y) ==> (done(
                x,
                y,
                px1,
                py1,
            ) <==> done(x, y, px2, py2)),
    ensures
        fill_progress(zb0, zb, o0, o, region, s, shader, px2, py2),
{
    assert forall|k: int| o0.len() <= k < o.len() implies fragment_ok(
        #[trigger] o[k],
        zb0,
        region,
        s,
        shader,
    ) && done(o[k].x as int, o[k].y as int, px2, py2) by {
        assert(region(o[k].x as int, o[k].y as int));
    }
}

proof fn lemma_progress_complete<PS: PixelShader>(
    zb0: ZBuffer,
    zb: ZBuffer,
    o0: Seq<Fragment>,
    o: Seq<Fragment>,
    region: spec_fn(int, int) -> bool,
    s: [TriangleVertex; 3],
    shader: PS,
    px: int,
    py: int,
)
    requires
        fill_progress(zb0, zb, o0, o, region, s, shader, px, py),
        forall|x: int, y: int|
            0 <= x < zb0.width() && 0 <= y < zb0.height() && #[trigger] region(x, y) ==> done(
                x,
                y,
                px,
                py,
            ),
    ensures
        fill_effect(zb0, zb, o0, o, region, s, shader),
{
    assert forall|x: int, y: int|
        0 <= x < zb0.width() && 0 <= y < zb0.height() && region(x, y) && pixel_depth(s, x, y)
            < zb0.depth_at(x, y) implies #[trigger] has_fragment(o, o0.len() as int, x, y) by {
        assert(done(x, y, px, py));
    }
}

/// Clamps a row or column into `0 ..= n`.
fn clamp_line(v: i128, n: usize) -> (r: usize)
    ensures
        r == if v < 0 {
            0
        } else if v > n {
            n as int
        } else {
            v as int
        },
{
    if v < 0 {
        0
    } else if v > n as i128 {
        n
    } else {
        v as usize
    }
}

/// Fills the pixels between edges `a0 -> a1` and `b0 -> b1` on the rows whose
/// centers lie in `[y_top, y_bottom)`, in scan order: each pixel on screen is
/// depth-tested with the triangle's interpolated depth and, when it passes,
/// shaded and appended to `out`.
fn draw_flat_triangle<PS: PixelShader>(
    s: &[TriangleVertex; 3],
    a0: &Vec4,
    a1: &Vec4,
    b0: &Vec4,
    b1: &Vec4,
    y_top: i64,
    y_bottom: i64,
    z_buffer: &mut ZBuffer,
    shader: &PS,
    out: &mut Vec<Fragment>,
)
    requires
        old(z_buffer).wf(),
        old(z_buffer).width() <= MAX_SCREEN,
        old(z_buffer).height() <= MAX_SCREEN,
        tri_wf(*s),
        a0.wf(),
        a1.wf(),
        b0.wf(),
        b1.wf(),
        in_limit(y_top as int),
        in_limit(y_bottom as int),
        shader.wf(),
    ensures
        fill_effect(
            *old(z_buffer),
            *final(z_buffer),
            old(out)@,
            final(out)@,
            span_region(*a0, *a1, *b0, *b1, y_top as int, y_bottom as int),
            *s,
            *shader,
        ),
{
    let ghost zb0 = *z_buffer;
    let ghost o0 = out@;
    let ghost region = span_region(*a0, *a1, *b0, *b1, y_top as int, y_bottom as int);
    let width = z_buffer.screen_width();
    let height = z_buffer.screen_height();
    let y_from = clamp_line(first_line_exec(y_top), height);
    let y_to = clamp_line(first_line_exec(y_bottom), height);
    assert(forall|x: int, y: int|
        0 <= x < width && 0 <= y < height && #[trigger] region(x, y) ==> y_from <= y < y_to);
    let mut py = y_from;
    assert(fill_progress(zb0, *z_buffer, o0, out@, region, *s, *shader, 0, py as int));
    while py < y_to
        invariant
            zb0.wf(),
            width == zb0.width(),
            height == zb0.height(),
            width <= MAX_SCREEN,
            height <= MAX_SCREEN,
            y_to <= height,
            y_from <= py,
            y_from == if first_line(y_top as int) < 0 {
                0
            } else if first_line(y_top as int) > height {
                height as int
            } else {
                first_line(y_top as int)
            },
            y_to == if first_line(y_bottom as int) < 0 {
                0
            } else if first_line(y_bottom as int) > height {
                height as int
            } else {
                first_line(y_bottom as int)
            },
            tri_wf(*s),
            a0.wf(),
            a1.wf(),
            b0.wf(),
            b1.wf(),
            shader.wf(),
            region == span_region(*a0, *a1, *b0, *b1, y_top as int, y_bottom as int),
            forall|x: int, y: int|
                0 <= x < width && 0 <= y < height && #[trigger] region(x, y) ==> y_from <= y < y_to,
            fill_progress(zb0, *z_buffer, o0, out@, region, *s, *shader, 0, py as int),
        decreases y_to - py,
    {
        let l = edge_start_exec(a0, a1, py as i128);
        let r = edge_start_exec(b0, b1, py as i128);
        let lo_raw = if l <= r {
            l
        } else {
            r
        };
        let hi_raw = if l <= r {
            r
        } else {
            l
        };
        let lo = clamp_line(lo_raw, width);
        let hi = clamp_line(hi_raw, width);
        assert(forall|x: int| 0 <= x < width ==> (#[trigger] region(x, py as int) <==> lo <= x < hi));
        proof {
            lemma_progress_shift(
                zb0,
                *z_buffer,
                o0,
                out@,
                region,
                *s,
                *shader,
                0,
                py as int,
                lo as int,
                py as int,
            );
        }
        let mut px = lo;
        while px < hi
            invariant
                zb0.wf(),
                width == zb0.width(),
                height == zb0.height(),
                width <= MAX_SCREEN,
                height <= MAX_SCREEN,
                py < height,
                lo <= px <= hi,
                hi <= width,
                tri_wf(*s),
                shader.wf(),
                forall|x: int| 0 <= x < width ==> (#[trigger] region(x, py as int) <==> lo <= x < hi),
                fill_progress(zb0, *z_buffer, o0, out@, region, *s, *shader, px as int, py as int),
            decreases hi - px,
        {
            let ghost zb_before = *z_buffer;
            let ghost o_before = out@;
            let (depth, params) = pixel_values(s, px, py);
            assert(region(px as int, py as int));
            let passed = z_buffer.test_and_set(px, py, depth);
            if passed {
                let color = shader.run(params);
                let f = Fragment { x: px as i32, y: py as i32, color };
                out.push(f);
                assert(out@[out@.len() - 1] == f);
                assert forall|x: int, y: int|
                    0 <= x < zb0.width() && 0 <= y < zb0.height() && region(x, y) && done(
                        x,
                        y,
                        px + 1,
                        py as int,
                    ) && pixel_depth(*s, x, y) < zb0.depth_at(x, y) implies #[trigger] has_fragment(
                    out@,
                    o0.len() as int,
                    x,
                    y,
                ) by {
                    if x == px && y == py {
                        assert(out@[out@.len() - 1].x == x && out@[out@.len() - 1].y == y);
                    } else {
                        assert(has_fragment(o_before, o0.len() as int, x, y));
                        let k = choose|k: int|
                            o0.len() <= k < o_before.len() && #[trigger] o_before[k].x == x
                                && o_before[k].y == y;
                        assert(out@[k] == o_before[k]);
                    }
                }
            }
            assert(fill_progress(zb0, *z_buffer, o0, out@, region, *s, *shader, px + 1, py as int));
            px = px + 1;
        }
        proof {
            lemma_progress_shift(
                zb0,
                *z_buffer,
                o0,
                out@,
                region,
                *s,
                *shader,
                hi as int,
                py as int,
                0,
                py + 1,
            );
        }
        py = py + 1;
    }
    proof {
        lemma_progress_complete(zb0, *z_buffer, o0, out@, region, *s, *shader, 0, py as int);
    }
}

/// The pixels a scanline fill of `t` covers, as a region.
pub open spec fn triangle_region(t: Triangle) -> spec_fn(int, int) -> bool {
    |x: int, y: int| covers(t, x, y)
}

proof fn lemma_first_line_monotone(a: int, b: int)
    requires
        a <= b,
    ensures
        first_line(a) <= first_line(b),
{
    vstd::arithmetic::div_mod::lemma_div_is_ordered(
        a - HALF + ONE - 1,
        b - HALF + ONE - 1,
        ONE as int,
    );
}

/// A fill effect depends on its region only on screen.
proof fn lemma_region_equiv<PS: PixelShader>(
    zb0: ZBuffer,
    zb1: ZBuffer,
    o0: Seq<Fragment>,
    o1: Seq<Fragment>,
    r1: spec_fn(int, int) -> bool,
    r2: spec_fn(int, int) -> bool,
    s: [TriangleVertex; 3],
    shader: PS,
)
    requires
        fill_effect(zb0, zb1, o0, o1, r1, s, shader),
        forall|x: int, y: int|
            0 <= x < zb0.width() && 0 <= y < zb0.height() ==> (#[trigger] r1(x, y) <==> r2(x, y)),
    ensures
        fill_effect(zb0, zb1, o0, o1, r2, s, shader),
{
    assert forall|k: int| o0.len() <= k < o1.len() implies fragment_ok(
        #[trigger] o1[k],
        zb0,
        r2,
        s,
        shader,
    ) by {
        assert(fragment_ok(o1[k], zb0, r1, s, shader));
        assert(r1(o1[k].x as int, o1[k].y as int));
    }
    assert forall|x: int, y: int|
        0 <= x < zb0.width() && 0 <= y < zb0.height() && r2(x, y) && pixel_depth(s, x, y)
            < zb0.depth_at(x, y) implies #[trigger] has_fragment(o1, o0.len() as int, x, y) by {
        assert(r1(x, y));
    }
}

/// Two fills of disjoint regions in turn act as one fill of their union.
proof fn lemma_combine<PS: PixelShader>(
    zb0: ZBuffer,
    zb1: ZBuffer,
    zb2: ZBuffer,
    o0: Seq<Fragment>,
    o1: Seq<Fragment>,
    o2: Seq<Fragment>,
    r1: spec_fn(int, int) -> bool,
    r2: spec_fn(int, int) -> bool,
    r: spec_fn(int, int) -> bool,
    s: [TriangleVertex; 3],
    shader: PS,
)
    requires
        fill_effect(zb0, zb1, o0, o1, r1, s, shader),
        fill_effect(zb1, zb2, o1, o2, r2, s, shader),
        forall|x: int, y: int|
            0 <= x < zb0.width() && 0 <= y < zb0.height() ==> !(#[trigger] r1(x, y) && r2(x, y)),
        forall|x: int, y: int|
            0 <= x < zb0.width() && 0 <= y < zb0.height() ==> (#[trigger] r(x, y) <==> (r1(x, y)
                || r2(x, y))),
    ensures
        fill_effect(zb0, zb2, o0, o2, r, s, shader),
{
    assert forall|x: int, y: int|
        0 <= x < zb0.width() && 0 <= y < zb0.height() implies #[trigger] zb2.depth_at(x, y)
        == if r(x, y) {
        depth_after(zb0.depth_at(x, y), pixel_depth(s, x, y))
    } else {
        zb0.depth_at(x, y)
    } by {
        assert(zb1.depth_at(x, y) == if r1(x, y) {
            depth_after(zb0.depth_at(x, y), pixel_depth(s, x, y))
        } else {
            zb0.depth_at(x, y)
        });
        assert(zb2.depth_at(x, y) == if r2(x, y) {
            depth_after(zb1.depth_at(x, y), pixel_depth(s, x, y))
        } else {
            zb1.depth_at(x, y)
        });
    }
    assert forall|k: int| o0.len() <= k < o2.len() implies fragment_ok(
        #[trigger] o2[k],
        zb0,
        r,
        s,
        shader,
    ) by {
        if k < o1.len() {
            assert(o2[k] == o1[k]);
            assert(fragment_ok(o1[k], zb0, r1, s, shader));
        } else {
            let f = o2[k];
            assert(fragment_ok(f, zb1, r2, s, shader));
            assert(r2(f.x as int, f.y as int));
            assert(!r1(f.x as int, f.y as int));
            assert(zb1.depth_at(f.x as int, f.y as int) == zb0.depth_at(f.x as int, f.y as int));
        }
    }
    assert forall|x: int, y: int|
        0 <= x < zb0.width() && 0 <= y < zb0.height() && r(x, y) && pixel_depth(s, x, y)
            < zb0.depth_at(x, y) implies #[trigger] has_fragment(o2, o0.len() as int, x, y) by {
        if r1(x, y) {
            assert(has_fragment(o1, o0.len() as int, x, y));
            let k = choose|k: int|
                o0.len() <= k < o1.len() && #[trigger] o1[k].x == x && o1[k].y == y;
            assert(o2[k] == o1[k]);
        } else {
            assert(zb1.depth_at(x, y) == zb0.depth_at(x, y));
            assert(has_fragment(o2, o1.len() as int, x, y));
            let k = choose|k: int|
                o1.len() <= k < o2.len() && #[trigger] o2[k].x == x && o2[k].y == y;
        }
    }
    assert forall|k1: int, k2: int| o0.len() <= k1 < k2 < o2.len() implies !(
    #[trigger] o2[k1].x == #[trigger] o2[k2].x && o2[k1].y == o2[k2].y) by {
        if k2 < o1.len() {
            assert(o2[k1] == o1[k1] && o2[k2] == o1[k2]);
        } else if k1 >= o1.len() {
        } else {
            assert(o2[k1] == o1[k1]);
            assert(fragment_ok(o1[k1], zb0, r1, s, shader));
            assert(fragment_ok(o2[k2], zb1, r2, s, shader));
            assert(r1(o2[k1].x as int, o2[k1].y as int));
            assert(r2(o2[k2].x as int, o2[k2].y as int));
        }
    }
}

/// A triangle split at its middle vertex: the part above it and the part from
/// it down never share a pixel, and together they cover exactly the pixels of
/// a scanline fill of the whole triangle.
pub proof fn lemma_split_covers_exactly(t: Triangle, px: int, py: int)
    ensures
        !(upper_covers(t, px, py) && lower_covers(t, px, py)),
        covers(t, px, py) <==> (upper_covers(t, px, py) || lower_covers(t, px, py)),
{
    let s = sort_by_y(t.vertices);
    lemma_first_line_monotone(s[0].position.y as int, s[1].position.y as int);
    lemma_first_line_monotone(s[1].position.y as int, s[2].position.y as int);
}

fn sort_vertices(v: &[TriangleVertex; 3]) -> (r: [TriangleVertex; 3])
    ensures
        r == sort_by_y(*v),
{
    let a = v[0];
    let b = v[1];
    let c = v[2];
    if a.position.y <= b.position.y {
        if b.position.y <= c.position.y {
            [a, b, c]
        } else if a.position.y <= c.position.y {
            [a, c, b]
        } else {
            [c, a, b]
        }
    } else {
        if a.position.y <= c.position.y {
            [b, a, c]
        } else if b.position.y <= c.position.y {
            [b, c, a]
        } else {
            [c, b, a]
        }
    }
}

/// Fills a triangle with a horizontal bottom edge: the edges from `top` to
/// `left` and to `right`, on the rows from `top` to before `y_bottom`.
fn draw_flat_bottom_triangle<PS: PixelShader>(
    s: &[TriangleVertex; 3],
    top: &Vec4,
    left: &Vec4,
    right: &Vec4,
    y_bottom: i64,
    z_buffer: &mut ZBuffer,
    shader: &PS,
    out: &mut Vec<Fragment>,
)
    requires
        old(z_buffer).wf(),
        old(z_buffer).width() <= MAX_SCREEN,
        old(z_buffer).height() <= MAX_SCREEN,
        tri_wf(*s),
        top.wf(),
        left.wf(),
        right.wf(),
        in_limit(y_bottom as int),
        shader.wf(),
    ensures
        fill_effect(
            *old(z_buffer),
            *final(z_buffer),
            old(out)@,
            final(out)@,
            span_region(*top, *left, *top, *right, top.y as int, y_bottom as int),
            *s,
            *shader,
        ),
{
    draw_flat_triangle(s, top, left, top, right, top.y, y_bottom, z_buffer, shader, out);
}

/// Fills a triangle with a horizontal top edge: the edges from `left` and
/// from `right` to `bottom`, on the rows from `y_top` to before `bottom`.
fn draw_flat_top_triangle<PS: PixelShader>(
    s: &[TriangleVertex; 3],
    left: &Vec4,
    right: &Vec4,
    bottom: &Vec4,
    y_top: i64,
    z_buffer: &mut ZBuffer,
    shader: &PS,
    out: &mut Vec<Fragment>,
)
    requires
        old(z_buffer).wf(),
        old(z_buffer).width() <= MAX_SCREEN,
        old(z_buffer).height() <= MAX_SCREEN,
        tri_wf(*s),
        left.wf(),
        right.wf(),
        bottom.wf(),
        in_limit(y_top as int),
        shader.wf(),
    ensures
        fill_effect(
            *old(z_buffer),
            *final(z_buffer),
            old(out)@,
            final(out)@,
            span_region(*left, *bottom, *right, *bottom, y_top as int, bottom.y as int),
            *s,
            *shader,
        ),
{
    draw_flat_triangle(s, left, bottom, right, bottom, y_top, bottom.y, z_buffer, shader, out);
}

/// Rasterizes a screen-space triangle: every pixel of its scanline fill that
/// lies on screen is depth-tested once with the interpolated depth, and each
/// pixel that passes is shaded from its perspective-correct channels and
/// appended to `out`.
pub fn draw_triangle<PS: PixelShader>(
    triangle: Triangle,
    z_buffer: &mut ZBuffer,
    shader: &PS,
    out: &mut Vec<Fragment>,
)
    requires
        old(z_buffer).wf(),
        old(z_buffer).width() <= MAX_SCREEN,
        old(z_buffer).height() <= MAX_SCREEN,
        triangle.wf(),
        shader.wf(),
    ensures
        fill_effect(
            *old(z_buffer),
            *final(z_buffer),
            old(out)@,
            final(out)@,
            triangle_region(triangle),
            sort_by_y(triangle.vertices),
            *shader,
        ),
{
    let ghost zb0 = *z_buffer;
    let ghost o0 = out@;
    let ghost region = triangle_region(triangle);
    assert(triangle.vertices[0].wf() && triangle.vertices[1].wf() && triangle.vertices[2].wf());
    let s = sort_vertices(&triangle.vertices);
    let p0 = s[0].position;
    let p1 = s[1].position;
    let p2 = s[2].position;
    proof {
        lemma_first_line_monotone(p0.y as int, p1.y as int);
        lemma_first_line_monotone(p1.y as int, p2.y as int);
    }
    if p0.y == p1.y {
        // Flat top: walk the top edge from left to right.
        let (l, r) = if p0.x > p1.x {
            (p1, p0)
        } else {
            (p0, p1)
        };
        draw_flat_top_triangle(&s, &l, &r, &p2, p0.y, z_buffer, shader, out);
        proof {
            lemma_region_equiv(
                zb0,
                *z_buffer,
                o0,
                out@,
                span_region(l, p2, r, p2, p0.y as int, p2.y as int),
                region,
                s,
                *shader,
            );
        }
    } else if p1.y == p2.y {
        // Flat bottom: walk the bottom edge from left to right.
        let (l, r) = if p1.x > p2.x {
            (p2, p1)
        } else {
            (p1, p2)
        };
        draw_flat_bottom_triangle(&s, &p0, &l, &r, p2.y, z_buffer, shader, out);
        proof {
            lemma_region_equiv(
                zb0,
                *z_buffer,
                o0,
                out@,
                span_region(p0, l, p0, r, p0.y as int, p2.y as int),
                region,
                s,
                *shader,
            );
        }
    } else {
        // The long edge passes the middle vertex's row on its right exactly
        // when this is positive.
        proof {
            lemma_mul_le(p0.x - p1.x, p2.y - p0.y, SPAN as int, SPAN as int);
            lemma_mul_le(p2.x - p0.x, p1.y - p0.y, SPAN as int, SPAN as int);
        }
        let side = (p0.x as i128 - p1.x as i128) * (p2.y as i128 - p0.y as i128) + (p2.x as i128
            - p0.x as i128) * (p1.y as i128 - p0.y as i128);
        let ghost zb_mid;
        let ghost o_mid;
        let ghost upper;
        let ghost lower;
        if side > 0 {
            draw_flat_bottom_triangle(&s, &p0, &p1, &p2, p1.y, z_buffer, shader, out);
            proof {
                zb_mid = *z_buffer;
                o_mid = out@;
                upper = span_region(p0, p1, p0, p2, p0.y as int, p1.y as int);
            }
            draw_flat_top_triangle(&s, &p1, &p0, &p2, p1.y, z_buffer, shader, out);
            proof {
                lower = span_region(p1, p2, p0, p2, p1.y as int, p2.y as int);
            }
        } else {
            draw_flat_bottom_triangle(&s, &p0, &p2, &p1, p1.y, z_buffer, shader, out);
            proof {
                zb_mid = *z_buffer;
                o_mid = out@;
                upper = span_region(p0, p2, p0, p1, p0.y as int, p1.y as int);
            }
            draw_flat_top_triangle(&s, &p0, &p1, &p2, p1.y, z_buffer, shader, out);
            proof {
                lower = span_region(p0, p2, p1, p2, p1.y as int, p2.y as int);
            }
        }
        proof {
            assert forall|x: int, y: int| 0 <= x < zb0.width() && 0 <= y < zb0.height() implies !(
            #[trigger] upper(x, y) && lower(x, y)) && (region(x, y) <==> (upper(x, y) || lower(
                x,
                y,
            ))) by {
                lemma_split_covers_exactly(triangle, x, y);
            }
            lemma_combine(
                zb0,
                zb_mid,
                *z_buffer,
                o0,
                o_mid,
                out@,
                upper,
                lower,
                region,
                s,
                *shader,
            );
        }
    }
}

/// Two vertices on the same spot of the screen.
pub open spec fn same_spot(a: TriangleVertex, b: TriangleVertex) -> bool {
    a.position.x == b.position.x && a.position.y == b.position.y
}

/// A triangle with two or three coincident vertices covers no pixel, so
/// drawing it leaves the depth buffer and the output as they were.
pub proof fn lemma_degenerate_covers_nothing(t: Triangle, px: int, py: int)
    requires
        same_spot(t.vertices[0], t.vertices[1]) || same_spot(t.vertices[0], t.vertices[2])
            || same_spot(t.vertices[1], t.vertices[2]),
    ensures
        !covers(t, px, py),
{
    let s = sort_by_y(t.vertices);
    lemma_first_line_monotone(s[0].position.y as int, s[1].position.y as int);
    lemma_first_line_monotone(s[1].position.y as int, s[2].position.y as int);
}

/// Rasterizing a triangle with two or three coincident vertices emits no
/// fragment and leaves every depth as it was.
pub proof fn lemma_degenerate_draws_nothing<PS: PixelShader>(
    zb0: ZBuffer,
    zb1: ZBuffer,
    o0: Seq<Fragment>,
    o1: Seq<Fragment>,
    t: Triangle,
    shader: PS,
)
    requires
        same_spot(t.vertices[0], t.vertices[1]) || same_spot(t.vertices[0], t.vertices[2])
            || same_spot(t.vertices[1], t.vertices[2]),
        fill_effect(zb0, zb1, o0, o1, triangle_region(t), sort_by_y(t.vertices), shader),
    ensures
        o1 == o0,
        forall|x: int, y: int|
            0 <= x < zb0.width() && 0 <= y < zb0.height() ==> #[trigger] zb1.depth_at(x, y)
                == zb0.depth_at(x, y),
{
    if o1.len() > o0.len() {
        let f = o1[o0.len() as int];
        assert(fragment_ok(f, zb0, triangle_region(t), sort_by_y(t.vertices), shader));
        lemma_degenerate_covers_nothing(t, f.x as int, f.y as int);
    }
    assert(o1 =~= o0);
    assert forall|x: int, y: int|
        0 <= x < zb0.width() && 0 <= y < zb0.height() implies #[trigger] zb1.depth_at(x, y)
        == zb0.depth_at(x, y) by {
        lemma_degenerate_covers_nothing(t, x, y);
    }
}

/// At the screen-space midpoint of an edge (equal weights on its two ends,
/// none on the third vertex), a channel that is 0 at one end and 1.0 at the
/// other, with `1 / w` of `q0` and `q1` there, comes out as the
/// `1 / w`-weighted value `q1 / (q0 + q1)`, not as 1/2: below 1/2 when the
/// second end is farther, above it when it is nearer by a margin that 16
/// fractional bits can show. The ends' `1 / w` are even so that the midpoint
/// averages are exact.
pub proof fn lemma_perspective_midpoint(q0: i64, q1: i64, q2: i64, a2: i64, e: int)
    requires
        0 < q0 <= LIMIT,
        0 < q1 <= LIMIT,
        q0 % 2 == 0,
        q1 % 2 == 0,
        in_limit(q2 as int),
        in_limit(a2 as int),
        e > 0,
    ensures
        ({
            let value = recover(
                weighted(0, q1 as int, a2 as int, e, e, 0) as i64,
                weighted(q0 as int, q1 as int, q2 as int, e, e, 0) as i64,
            );
            &&& value == (ONE * q1) / ((q0 + q1) as int)
            &&& q1 < q0 ==> value < ONE / 2
            &&& (ONE / 2) * (q1 - q0) >= q0 + q1 ==> value > ONE / 2
        }),
{
    let h0 = q0 / 2;
    let h1 = q1 / 2;
    assert(q0 * e + q1 * e == (h0 + h1) * (2 * e)) by (nonlinear_arith)
        requires
            q0 == 2 * h0,
            q1 == 2 * h1,
    ;
    assert(0 * e + q1 * e + a2 * 0 == h1 * (2 * e)) by (nonlinear_arith)
        requires
            q1 == 2 * h1,
    ;
    assert(q0 * e + q1 * e + q2 * 0 == q0 * e + q1 * e) by (nonlinear_arith);
    vstd::arithmetic::div_mod::lemma_div_by_multiple(h0 + h1, 2 * e);
    vstd::arithmetic::div_mod::lemma_div_by_multiple(h1, 2 * e);
    let w_mid = weighted(q0 as int, q1 as int, q2 as int, e, e, 0);
    let a_mid = weighted(0, q1 as int, a2 as int, e, e, 0);
    assert(w_mid == h0 + h1);
    assert(a_mid == h1);
    vstd::arithmetic::div_mod::lemma_div_multiples_vanish_quotient(2, h1 * ONE, h0 + h1);
    assert((ONE * q1) == 2 * (h1 * ONE)) by (nonlinear_arith)
        requires
            q1 == 2 * h1,
    ;
    let v = (ONE * q1) / ((q0 + q1) as int);
    assert(0 <= v <= ONE) by (nonlinear_arith)
        requires
            v == (ONE * q1) / ((q0 + q1) as int),
            0 < q0,
            0 < q1,
    ;
    if q1 < q0 {
        assert(v < ONE / 2) by (nonlinear_arith)
            requires
                v == (ONE * q1) / ((q0 + q1) as int),
                0 < q1 < q0,
        ;
    }
    if (ONE / 2) * (q1 - q0) >= q0 + q1 {
        assert(v > ONE / 2) by (nonlinear_arith)
            requires
                v == (ONE * q1) / ((q0 + q1) as int),
                0 < q0,
                0 < q1,
                (ONE / 2) * (q1 - q0) >= q0 + q1,
        ;
    }
}

} // verus!
