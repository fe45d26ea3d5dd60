use gamercade_rs::api::graphics_parameters::GraphicsParameters;
use vstd::prelude::*;

verus! {

/// The console's bit-packed drawing parameters: a palette index in bits 0..8
/// and a color index in bits 24..30.
#[verifier::external_type_specification]
pub struct ExGraphicsParameters(GraphicsParameters);

/// Relies on gamercade_rs's `GraphicsParameters::new`: all bits clear.
pub assume_specification[ GraphicsParameters::new ]() -> (r: GraphicsParameters)
    ensures
        r.0 == 0,
;

/// Relies on gamercade_rs's `GraphicsParameters::palette_index`: the low byte
/// is replaced by the index.
pub assume_specification[ GraphicsParameters::palette_index ](
    s: GraphicsParameters,
    palette_index: u8,
) -> (r: GraphicsParameters)
    ensures
        r.0 == (s.0 & !255i32) | (palette_index as i32),
;

/// Relies on gamercade_rs's `GraphicsParameters::color_index`: bits 24..30
/// are replaced by the low six bits of the index.
pub assume_specification[ GraphicsParameters::color_index ](
    s: GraphicsParameters,
    color_index: u8,
) -> (r: GraphicsParameters)
    ensures
        r.0 == (s.0 & !(63i32 << 24i32)) | (((color_index as i32) & 63i32) << 24i32),
;

/// An edge between two vertices, by index.
pub struct TriangleEdge(pub usize, pub usize);

/// A triangle given by three indices into a vertex array.
#[derive(Clone, Copy, Debug, PartialEq, Eq, Structural)]
pub struct IndexedTriangle(pub usize, pub usize, pub usize);

/// An 8-bit RGB color.
#[derive(Clone, Copy, Debug, PartialEq, Eq, Structural)]
pub struct Color {
    pub r: u8,
    pub g: u8,
    pub b: u8,
}

/// Palette of a color on the console: 32 levels of red pick a block of eight
/// palettes, the top three bits of green pick one in the block.
pub open spec fn palette_of(c: Color) -> int {
    (c.r as int / 8) * 8 + c.g as int / 32
}

/// Entry in the palette: the next two bits of green and the top four bits of
/// blue.
pub open spec fn color_entry_of(c: Color) -> int {
    ((c.g as int / 8) % 4) * 16 + c.b as int / 16
}

impl Color {
    pub fn new(r: u8, g: u8, b: u8) -> (c: Color)
        ensures
            c == (Color { r, g, b }),
    {
        Color { r, g, b }
    }

    /// The palette this color is drawn from.
    pub fn palette_index(self) -> (r: u8)
        ensures
            r == palette_of(self),
    {
        (self.r / 8) * 8 + self.g / 32
    }

    /// The entry of `palette_index` this color is drawn with.
    pub fn color_index(self) -> (r: u8)
        ensures
            r == color_entry_of(self),
            r < 64,
    {
        ((self.g / 8) % 4) * 16 + self.b / 16
    }

    /// The console's drawing parameters for this color.
    pub fn to_graphics_params(self) -> (r: GraphicsParameters)
        ensures
            r.0 == palette_of(self) + color_entry_of(self) * 0x1000000,
    {
        let p = self.palette_index();
        let c = self.color_index();
        let r = GraphicsParameters::new().palette_index(p).color_index(c);
        assert(((0i32 & !255i32) | (p as i32)) == p as i32) by (bit_vector)
            requires
                p < 256,
        ;
        let ghost pi = p as i32;
        let ghost ci = c as i32;
        assert(((pi & !(63i32 << 24i32)) | ((ci & 63i32) << 24i32)) == pi + ci * 0x1000000)
            by (bit_vector)
            requires
                0 <= pi < 256,
                0 <= ci < 64,
        ;
        r
    }
}


/// Fixed-point unit: every coordinate, depth and attribute is a 16.16 number,
/// `ONE` standing for 1.0.
pub const ONE: i64 = 65536;

/// Largest magnitude a fixed-point value of the pipeline may take (16384.0).
pub const LIMIT: i64 = 1073741824;

/// Number of attribute channels carried by every vertex; a shader reads the
/// first ones and the rest travel along.
pub const CHANNELS: usize = 4;

pub open spec fn in_limit(x: int) -> bool {
    -LIMIT <= x <= LIMIT
}

/// A value saturated into the pipeline's range.
pub open spec fn clamp_limit(x: int) -> int {
    if x > LIMIT {
        LIMIT as int
    } else if x < -LIMIT {
        -LIMIT as int
    } else {
        x
    }
}

/// Bounds a product by the bounds of its factors.
pub proof fn lemma_mul_le(a: int, b: int, bound_a: int, bound_b: int)
    requires
        -bound_a <= a <= bound_a,
        -bound_b <= b <= bound_b,
    ensures
        -(bound_a * bound_b) <= a * b <= bound_a * bound_b,
{
    assert(-(bound_a * bound_b) <= a * b <= bound_a * bound_b) by (nonlinear_arith)
        requires
            -bound_a <= a <= bound_a,
            -bound_b <= b <= bound_b,
    ;
}

/// Rounds `a / b` down, for a positive `b`.
pub fn floor_div(a: i64, b: i64) -> (r: i64)
    requires
        b > 0,
    ensures
        r == a as int / b as int,
{
    assert(i64::MIN <= a as int / b as int <= i64::MAX) by (nonlinear_arith)
        requires
            b > 0,
            i64::MIN <= a <= i64::MAX,
    ;
    match a.checked_div_euclid(b) {
        Some(q) => q,
        None => 0,
    }
}

/// Rounds `a / b` down, for a positive `b`, on wide intermediates.
pub fn floor_div_wide(a: i128, b: i128) -> (r: i128)
    requires
        b > 0,
    ensures
        r == a as int / b as int,
{
    assert(i128::MIN <= a as int / b as int <= i128::MAX) by (nonlinear_arith)
        requires
            b > 0,
            i128::MIN <= a <= i128::MAX,
    ;
    match a.checked_div_euclid(b) {
        Some(q) => q,
        None => 0,
    }
}

/// Saturates a wide value into the pipeline's range.
pub fn clamp_to_limit(x: i128) -> (r: i64)
    ensures
        r == clamp_limit(x as int),
{
    if x > LIMIT as i128 {
        LIMIT
    } else if x < -(LIMIT as i128) {
        -LIMIT
    } else {
        x as i64
    }
}

/// A point or direction in three dimensions.
#[derive(Clone, Copy, Debug)]
pub struct Vec3 {
    pub x: i64,
    pub y: i64,
    pub z: i64,
}

/// A homogeneous position.
#[derive(Clone, Copy, Debug)]
pub struct Vec4 {
    pub x: i64,
    pub y: i64,
    pub z: i64,
    pub w: i64,
}

impl Vec3 {
    pub open spec fn wf(self) -> bool {
        in_limit(self.x as int) && in_limit(self.y as int) && in_limit(self.z as int)
    }
}

impl Vec4 {
    pub open spec fn wf(self) -> bool {
        in_limit(self.x as int) && in_limit(self.y as int) && in_limit(self.z as int)
            && in_limit(self.w as int)
    }

    /// The first three coordinates.
    pub fn xyz(&self) -> (r: Vec3)
        ensures
            r == (Vec3 { x: self.x, y: self.y, z: self.z }),
    {
        Vec3 { x: self.x, y: self.y, z: self.z }
    }
}

/// A 4x4 fixed-point matrix, row by row.
#[derive(Clone, Copy, Debug)]
pub struct Mat4 {
    pub m: [i64; 16],
}

/// Row `i` of `m` times `v`, before the fixed-point scaling.
pub open spec fn row_dot(m: Mat4, i: int, v: Vec4) -> int {
    m.m[4 * i] * v.x + m.m[4 * i + 1] * v.y + m.m[4 * i + 2] * v.z + m.m[4 * i + 3] * v.w
}

/// `m * v` in fixed point: each row's dot product scaled down, rounded down,
/// and saturated.
pub open spec fn transform(m: Mat4, v: Vec4) -> Vec4 {
    Vec4 {
        x: clamp_limit(row_dot(m, 0, v) / (ONE as int)) as i64,
        y: clamp_limit(row_dot(m, 1, v) / (ONE as int)) as i64,
        z: clamp_limit(row_dot(m, 2, v) / (ONE as int)) as i64,
        w: clamp_limit(row_dot(m, 3, v) / (ONE as int)) as i64,
    }
}

impl Mat4 {
    pub open spec fn wf(self) -> bool {
        forall|i: int| 0 <= i < 16 ==> #[trigger] in_limit(self.m[i] as int)
    }

    pub open spec fn identity_spec() -> Mat4 {
        Mat4 { m: [ONE, 0, 0, 0, 0, ONE, 0, 0, 0, 0, ONE, 0, 0, 0, 0, ONE] }
    }

    /// The identity transform.
    pub fn identity() -> (r: Mat4)
        ensures
            r.wf(),
            r == Mat4::identity_spec(),
    {
        let r = Mat4 { m: [ONE, 0, 0, 0, 0, ONE, 0, 0, 0, 0, ONE, 0, 0, 0, 0, ONE] };
        assert(r.wf());
        r
    }

    /// Builds a matrix from its rows; entries beyond the range saturate.
    pub fn from_rows(m: [i64; 16]) -> (r: Mat4)
        ensures
            r.wf(),
            forall|i: int| 0 <= i < 16 ==> r.m[i] == clamp_limit(#[trigger] m[i] as int),
    {
        let mut out = m;
        let mut i: usize = 0;
        while i < 16
            invariant
                i <= 16,
                forall|k: int| 0 <= k < i ==> out[k] == clamp_limit(#[trigger] m[k] as int),
                forall|k: int| i <= k < 16 ==> out[k] == #[trigger] m[k],
            decreases 16 - i,
        {
            let v = clamp_to_limit(m[i] as i128);
            out[i] = v;
            i = i + 1;
        }
        let r = Mat4 { m: out };
        assert forall|k: int| 0 <= k < 16 implies #[trigger] in_limit(r.m[k] as int) by {
            assert(out[k] == clamp_limit(m[k] as int));
        }
        r
    }

    fn row(&self, i: usize, v: &Vec4) -> (r: i64)
        requires
            self.wf(),
            v.wf(),
            i < 4,
        ensures
            r == clamp_limit(row_dot(*self, i as int, *v) / (ONE as int)),
    {
        let a = self.m[4 * i];
        let b = self.m[4 * i + 1];
        let c = self.m[4 * i + 2];
        let d = self.m[4 * i + 3];
        assert(in_limit(a as int) && in_limit(b as int) && in_limit(c as int) && in_limit(d as int));
        proof {
            lemma_mul_le(a as int, v.x as int, LIMIT as int, LIMIT as int);
            lemma_mul_le(b as int, v.y as int, LIMIT as int, LIMIT as int);
            lemma_mul_le(c as int, v.z as int, LIMIT as int, LIMIT as int);
            lemma_mul_le(d as int, v.w as int, LIMIT as int, LIMIT as int);
        }
        let s = (a as i128) * (v.x as i128) + (b as i128) * (v.y as i128) + (c as i128) * (
        v.z as i128) + (d as i128) * (v.w as i128);
        clamp_to_limit(floor_div_wide(s, ONE as i128))
    }

    /// Applies the matrix to a homogeneous position.
    pub fn mul_vec(&self, v: &Vec4) -> (r: Vec4)
        requires
            self.wf(),
            v.wf(),
        ensures
            r == transform(*self, *v),
            r.wf(),
    {
        Vec4 { x: self.row(0, v), y: self.row(1, v), z: self.row(2, v), w: self.row(3, v) }
    }
}

/// A model-space vertex as the scene supplies it.
#[derive(Clone, Copy, Debug)]
pub struct RawPoint {
    pub position: Vec3,
    pub parameters: [i64; CHANNELS],
}

/// A vertex on its way through the pipeline: a homogeneous position and its
/// attribute channels.
#[derive(Clone, Copy, Debug)]
pub struct TriangleVertex {
    pub position: Vec4,
    pub parameters: [i64; CHANNELS],
}

/// Three vertices; their order matters only for the winding.
#[derive(Clone, Copy, Debug)]
pub struct Triangle {
    pub vertices: [TriangleVertex; 3],
}

pub open spec fn params_wf(p: [i64; CHANNELS]) -> bool {
    forall|i: int| 0 <= i < CHANNELS ==> #[trigger] in_limit(p[i] as int)
}

impl RawPoint {
    pub open spec fn wf(self) -> bool {
        self.position.wf() && params_wf(self.parameters)
    }
}

impl TriangleVertex {
    pub open spec fn wf(self) -> bool {
        self.position.wf() && params_wf(self.parameters)
    }
}

impl Triangle {
    pub open spec fn wf(self) -> bool {
        forall|i: int| 0 <= i < 3 ==> #[trigger] self.vertices[i].wf()
    }
}

/// One pixel handed to the drawing surface.
#[derive(Clone, Copy, Debug, PartialEq, Eq, Structural)]
pub struct Fragment {
    pub x: i32,
    pub y: i32,
    pub color: Color,
}

/// `v * f` in fixed point, rounded down and saturated.
pub open spec fn scale_by(v: i64, f: i64) -> i64 {
    clamp_limit((v * f) / (ONE as int)) as i64
}

/// `v / d` in fixed point, rounded down and saturated.
pub open spec fn divide_by(v: i64, d: i64) -> i64 {
    clamp_limit((v * ONE) / (d as int)) as i64
}

/// Fixed-point product, rounded down and saturated.
pub fn fixed_mul(v: i64, f: i64) -> (r: i64)
    requires
        in_limit(v as int),
        in_limit(f as int),
    ensures
        r == scale_by(v, f),
        in_limit(r as int),
{
    proof {
        lemma_mul_le(v as int, f as int, LIMIT as int, LIMIT as int);
    }
    clamp_to_limit(floor_div_wide((v as i128) * (f as i128), ONE as i128))
}

/// Fixed-point quotient, rounded down and saturated, for a positive divisor.
pub fn fixed_div(v: i64, d: i64) -> (r: i64)
    requires
        in_limit(v as int),
        d > 0,
    ensures
        r == divide_by(v, d),
        in_limit(r as int),
{
    proof {
        lemma_mul_le(v as int, ONE as int, LIMIT as int, ONE as int);
    }
    clamp_to_limit(floor_div_wide((v as i128) * (ONE as i128), d as i128))
}

/// Each channel of a vertex mapped by `f`, position and attributes alike.
pub open spec fn map_vertex(v: TriangleVertex, f: spec_fn(i64) -> i64) -> TriangleVertex {
    TriangleVertex {
        position: Vec4 {
            x: f(v.position.x),
            y: f(v.position.y),
            z: f(v.position.z),
            w: f(v.position.w),
        },
        parameters: [f(v.parameters[0]), f(v.parameters[1]), f(v.parameters[2]), f(v.parameters[3])],
    }
}

/// Each channel of two vertices combined by `f`.
pub open spec fn zip_vertex(
    a: TriangleVertex,
    b: TriangleVertex,
    f: spec_fn(i64, i64) -> i64,
) -> TriangleVertex {
    TriangleVertex {
        position: Vec4 {
            x: f(a.position.x, b.position.x),
            y: f(a.position.y, b.position.y),
            z: f(a.position.z, b.position.z),
            w: f(a.position.w, b.position.w),
        },
        parameters: [
            f(a.parameters[0], b.parameters[0]),
            f(a.parameters[1], b.parameters[1]),
            f(a.parameters[2], b.parameters[2]),
            f(a.parameters[3], b.parameters[3]),
        ],
    }
}

impl TriangleVertex {
    /// Channel by channel difference, saturated.
    pub fn sub(self, rhs: TriangleVertex) -> (r: TriangleVertex)
        requires
            self.wf(),
            rhs.wf(),
        ensures
            r == zip_vertex(self, rhs, |a: i64, b: i64| clamp_limit(a - b) as i64),
            r.wf(),
    {
        assert(in_limit(self.parameters[0] as int) && in_limit(self.parameters[1] as int)
            && in_limit(self.parameters[2] as int) && in_limit(self.parameters[3] as int));
        assert(in_limit(rhs.parameters[0] as int) && in_limit(rhs.parameters[1] as int)
            && in_limit(rhs.parameters[2] as int) && in_limit(rhs.parameters[3] as int));
        let parameters = [
            clamp_to_limit(self.parameters[0] as i128 - rhs.parameters[0] as i128),
            clamp_to_limit(self.parameters[1] as i128 - rhs.parameters[1] as i128),
            clamp_to_limit(self.parameters[2] as i128 - rhs.parameters[2] as i128),
            clamp_to_limit(self.parameters[3] as i128 - rhs.parameters[3] as i128),
        ];
        TriangleVertex {
            position: Vec4 {
                x: clamp_to_limit(self.position.x as i128 - rhs.position.x as i128),
                y: clamp_to_limit(self.position.y as i128 - rhs.position.y as i128),
                z: clamp_to_limit(self.position.z as i128 - rhs.position.z as i128),
                w: clamp_to_limit(self.position.w as i128 - rhs.position.w as i128),
            },
            parameters,
        }
    }

    /// Every channel multiplied by `f`.
    pub fn mul(self, f: i64) -> (r: TriangleVertex)
        requires
            self.wf(),
            in_limit(f as int),
        ensures
            r == map_vertex(self, |v: i64| scale_by(v, f)),
            r.wf(),
    {
        assert(in_limit(self.parameters[0] as int) && in_limit(self.parameters[1] as int)
            && in_limit(self.parameters[2] as int) && in_limit(self.parameters[3] as int));
        let parameters = [
            fixed_mul(self.parameters[0], f),
            fixed_mul(self.parameters[1], f),
            fixed_mul(self.parameters[2], f),
            fixed_mul(self.parameters[3], f),
        ];
        TriangleVertex {
            position: Vec4 {
                x: fixed_mul(self.position.x, f),
                y: fixed_mul(self.position.y, f),
                z: fixed_mul(self.position.z, f),
                w: fixed_mul(self.position.w, f),
            },
            parameters,
        }
    }

    /// Every channel divided by a positive `d`.
    pub fn div(self, d: i64) -> (r: TriangleVertex)
        requires
            self.wf(),
            d > 0,
        ensures
            r == map_vertex(self, |v: i64| divide_by(v, d)),
            r.wf(),
    {
        assert(in_limit(self.parameters[0] as int) && in_limit(self.parameters[1] as int)
            && in_limit(self.parameters[2] as int) && in_limit(self.parameters[3] as int));
        let parameters = [
            fixed_div(self.parameters[0], d),
            fixed_div(self.parameters[1], d),
            fixed_div(self.parameters[2], d),
            fixed_div(self.parameters[3], d),
        ];
        TriangleVertex {
            position: Vec4 {
                x: fixed_div(self.position.x, d),
                y: fixed_div(self.position.y, d),
                z: fixed_div(self.position.z, d),
                w: fixed_div(self.position.w, d),
            },
            parameters,
        }
    }

    /// Multiplies every channel by `f` in place.
    pub fn mul_assign(&mut self, f: i64)
        requires
            old(self).wf(),
            in_limit(f as int),
        ensures
            *final(self) == map_vertex(*old(self), |v: i64| scale_by(v, f)),
            final(self).wf(),
    {
        *self = self.mul(f);
    }

    /// Adds `rhs` channel by channel in place, saturated.
    pub fn add_assign(&mut self, rhs: TriangleVertex)
        requires
            old(self).wf(),
            rhs.wf(),
        ensures
            *final(self) == zip_vertex(*old(self), rhs, |a: i64, b: i64| clamp_limit(a + b) as i64),
            final(self).wf(),
    {
        assert(in_limit(self.parameters[0] as int) && in_limit(self.parameters[1] as int)
            && in_limit(self.parameters[2] as int) && in_limit(self.parameters[3] as int));
        assert(in_limit(rhs.parameters[0] as int) && in_limit(rhs.parameters[1] as int)
            && in_limit(rhs.parameters[2] as int) && in_limit(rhs.parameters[3] as int));
        self.parameters = [
            clamp_to_limit(self.parameters[0] as i128 + rhs.parameters[0] as i128),
            clamp_to_limit(self.parameters[1] as i128 + rhs.parameters[1] as i128),
            clamp_to_limit(self.parameters[2] as i128 + rhs.parameters[2] as i128),
            clamp_to_limit(self.parameters[3] as i128 + rhs.parameters[3] as i128),
        ];
        self.position = Vec4 {
            x: clamp_to_limit(self.position.x as i128 + rhs.position.x as i128),
            y: clamp_to_limit(self.position.y as i128 + rhs.position.y as i128),
            z: clamp_to_limit(self.position.z as i128 + rhs.position.z as i128),
            w: clamp_to_limit(self.position.w as i128 + rhs.position.w as i128),
        };
    }
}

} // verus!
