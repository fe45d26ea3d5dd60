use crate::shaders::geometry_shader::GeometryShader;
use crate::types::{lemma_mul_le, IndexedTriangle, Triangle, TriangleVertex, Vec3, Vec4};
use vstd::prelude::*;

verus! {

/// `((b - a) x (c - a)) . (a - eye)` over the first three coordinates: the
/// triangle's normal against the direction from the eye to its first vertex.
pub open spec fn facing_value(a: Vec4, b: Vec4, c: Vec4, eye: Vec3) -> int {
    let ux = b.x - a.x;
    let uy = b.y - a.y;
    let uz = b.z - a.z;
    let vx = c.x - a.x;
    let vy = c.y - a.y;
    let vz = c.z - a.z;
    (uy * vz - uz * vy) * (a.x - eye.x) + (uz * vx - ux * vz) * (a.y - eye.y) + (ux * vy - uy
        * vx) * (a.z - eye.z)
}

/// The culling convention: a triangle faces away from the eye, and is not
/// drawn, when `facing_value` is zero or positive. With `x` to the right and
/// `y` up, the triangles kept are those whose vertices wind clockwise as seen
/// from the eye, which is counter-clockwise on the screen once `y` points down.
pub open spec fn back_facing(t: Triangle, eye: Vec3) -> bool {
    facing_value(t.vertices[0].position, t.vertices[1].position, t.vertices[2].position, eye)
        >= 0
}

/// Reversing a triangle's winding negates its facing value, so of a triangle
/// that is not seen edge-on exactly one winding survives culling.
pub proof fn lemma_winding(a: Vec4, b: Vec4, c: Vec4, eye: Vec3)
    ensures
        facing_value(a, c, b, eye) == -facing_value(a, b, c, eye),
        facing_value(a, b, c, eye) != 0 ==> ((facing_value(a, b, c, eye) >= 0) != (facing_value(
            a,
            c,
            b,
            eye,
        ) >= 0)),
{
    assert(facing_value(a, c, b, eye) == -facing_value(a, b, c, eye)) by (nonlinear_arith);
}

/// Bound on a coordinate difference.
const DIFF: i128 = 0x8000_0000;

fn cross_term(a: i128, b: i128, c: i128, d: i128) -> (r: i128)
    requires
        -DIFF <= a <= DIFF,
        -DIFF <= b <= DIFF,
        -DIFF <= c <= DIFF,
        -DIFF <= d <= DIFF,
    ensures
        r == a * b - c * d,
        -2 * DIFF * DIFF <= r <= 2 * DIFF * DIFF,
{
    proof {
        lemma_mul_le(a as int, b as int, DIFF as int, DIFF as int);
        lemma_mul_le(c as int, d as int, DIFF as int, DIFF as int);
    }
    a * b - c * d
}

/// Whether the triangle faces away from `eye` and is to be culled.
pub fn is_back_facing(triangle: &Triangle, eye: &Vec3) -> (r: bool)
    requires
        triangle.wf(),
        eye.wf(),
    ensures
        r == back_facing(*triangle, *eye),
{
    assert(triangle.vertices[0].wf() && triangle.vertices[1].wf() && triangle.vertices[2].wf());
    let a = triangle.vertices[0].position;
    let b = triangle.vertices[1].position;
    let c = triangle.vertices[2].position;
    let ux = b.x as i128 - a.x as i128;
    let uy = b.y as i128 - a.y as i128;
    let uz = b.z as i128 - a.z as i128;
    let vx = c.x as i128 - a.x as i128;
    let vy = c.y as i128 - a.y as i128;
    let vz = c.z as i128 - a.z as i128;
    let nx = cross_term(uy, vz, uz, vy);
    let ny = cross_term(uz, vx, ux, vz);
    let nz = cross_term(ux, vy, uy, vx);
    let dx = a.x as i128 - eye.x as i128;
    let dy = a.y as i128 - eye.y as i128;
    let dz = a.z as i128 - eye.z as i128;
    proof {
        lemma_mul_le(nx as int, dx as int, 2 * DIFF * DIFF, DIFF as int);
        lemma_mul_le(ny as int, dy as int, 2 * DIFF * DIFF, DIFF as int);
        lemma_mul_le(nz as int, dz as int, 2 * DIFF * DIFF, DIFF as int);
    }
    nx * dx + ny * dy + nz * dz >= 0
}

/// The triangle that an index triple picks out of a vertex array.
pub open spec fn assemble(vertices: Seq<TriangleVertex>, it: IndexedTriangle) -> Triangle {
    Triangle { vertices: [vertices[it.0 as int], vertices[it.1 as int], vertices[it.2 as int]] }
}

/// Every index triple points into an array of `n` vertices.
pub open spec fn indices_valid(indices: Seq<IndexedTriangle>, n: int) -> bool {
    forall|i: int|
        0 <= i < indices.len() ==> #[trigger] indices[i].0 < n && indices[i].1 < n && indices[i].2
            < n
}

/// The triangles assembled from `indices` in order, each passed through the
/// geometry shader, keeping those that face the eye.
pub open spec fn visible_triangles<GS: GeometryShader>(
    gs: GS,
    vertices: Seq<TriangleVertex>,
    indices: Seq<IndexedTriangle>,
    eye: Vec3,
) -> Seq<Triangle>
    decreases indices.len(),
{
    if indices.len() == 0 {
        Seq::empty()
    } else {
        let before = visible_triangles(gs, vertices, indices.drop_last(), eye);
        let t = gs.apply(assemble(vertices, indices.last()));
        if back_facing(t, eye) {
            before
        } else {
            before.push(t)
        }
    }
}

/// Assembles, reshapes and culls the triangles of a frame.
pub struct DefaultMeshShader;

impl DefaultMeshShader {
    /// Appends to `output` the triangles of `indices` over `vertices`, through
    /// `gs`, that face `eye`, in the order of `indices`.
    pub fn run<GS: GeometryShader>(
        &self,
        gs: &GS,
        vertices: &Vec<TriangleVertex>,
        indices: &Vec<IndexedTriangle>,
        eye: &Vec3,
        output: &mut Vec<Triangle>,
    )
        requires
            indices_valid(indices@, vertices@.len() as int),
            forall|i: int| 0 <= i < vertices@.len() ==> #[trigger] vertices@[i].wf(),
            eye.wf(),
        ensures
            final(output)@ == old(output)@ + visible_triangles(*gs, vertices@, indices@, *eye),
            forall|k: int|
                old(output)@.len() <= k < final(output)@.len() ==> #[trigger] final(output)@[k].wf(),
    {
        let mut i: usize = 0;
        while i < indices.len()
            invariant
                i <= indices@.len(),
                indices_valid(indices@, vertices@.len() as int),
                forall|j: int| 0 <= j < vertices@.len() ==> #[trigger] vertices@[j].wf(),
                eye.wf(),
                output@ == old(output)@ + visible_triangles(
                    *gs,
                    vertices@,
                    indices@.take(i as int),
                    *eye,
                ),
                forall|k: int| old(output)@.len() <= k < output@.len() ==> #[trigger] output@[k].wf(),
            decreases indices@.len() - i,
        {
            let it = indices[i];
            assert(indices@[i as int].0 < vertices@.len());
            let t = Triangle { vertices: [vertices[it.0], vertices[it.1], vertices[it.2]] };
            assert(t == assemble(vertices@, it));
            assert(t.vertices[0].wf() && t.vertices[1].wf() && t.vertices[2].wf());
            let shaped = gs.run(t);
            assert(indices@.take(i + 1).drop_last() =~= indices@.take(i as int));
            assert(indices@.take(i + 1).last() == it);
            if !is_back_facing(&shaped, eye) {
                output.push(shaped);
            }
            assert(output@ =~= old(output)@ + visible_triangles(
                *gs,
                vertices@,
                indices@.take(i + 1),
                *eye,
            ));
            i = i + 1;
        }
        assert(indices@.take(indices@.len() as int) =~= indices@);
    }
}

} // verus!
