use crate::gpu::ZBuffer;
use crate::graphics::{draw_triangle, fill_effect, sort_by_y, triangle_region, MAX_SCREEN};
use crate::shaders::geometry_shader::GeometryShader;
use crate::shaders::mesh_shader::{indices_valid, visible_triangles, DefaultMeshShader};
use crate::shaders::pixel_shader::PixelShader;
use crate::shaders::vertex_shader::{Transforms, VertexShader};
use crate::types::{
    clamp_limit, clamp_to_limit, floor_div_wide, in_limit, scale_by, transform, Fragment,
    IndexedTriangle, Mat4, RawPoint, Triangle, TriangleVertex, Vec3, Vec4, LIMIT, ONE,
};
use vstd::prelude::*;

verus! {

/// `1 / w` in fixed point, rounded down and saturated, for a positive `w`.
pub open spec fn w_inverse(w: i64) -> i64 {
    clamp_limit((ONE * ONE) / (w as int)) as i64
}

/// A clip-space vertex after the perspective divide, in screen space: `x`
/// and `y` in fixed-point pixels (`y` pointing down), depth and channels
/// divided by `w`, and `1 / w` kept in place of `w` so that it can be
/// interpolated across the screen.
pub open spec fn ndc_vertex(v: TriangleVertex, width: nat, height: nat) -> TriangleVertex {
    let q = w_inverse(v.position.w);
    let x = scale_by(v.position.x, q);
    let y = scale_by(v.position.y, q);
    TriangleVertex {
        position: Vec4 {
            x: clamp_limit(((x + ONE) * width) / 2) as i64,
            y: clamp_limit(((ONE - y) * height) / 2) as i64,
            z: scale_by(v.position.z, q),
            w: q,
        },
        parameters: [
            scale_by(v.parameters[0], q),
            scale_by(v.parameters[1], q),
            scale_by(v.parameters[2], q),
            scale_by(v.parameters[3], q),
        ],
    }
}

/// All three vertices lie in front of the eye (`w > 0`); a triangle reaching
/// behind it is not drawn.
pub open spec fn in_front(t: Triangle) -> bool {
    t.vertices[0].position.w > 0 && t.vertices[1].position.w > 0 && t.vertices[2].position.w > 0
}

pub open spec fn to_screen(t: Triangle, width: nat, height: nat) -> Triangle {
    Triangle {
        vertices: [
            ndc_vertex(t.vertices[0], width, height),
            ndc_vertex(t.vertices[1], width, height),
            ndc_vertex(t.vertices[2], width, height),
        ],
    }
}

/// The triangles in front of the eye, in order, carried to screen space.
pub open spec fn screen_triangles(tris: Seq<Triangle>, width: nat, height: nat) -> Seq<Triangle>
    decreases tris.len(),
{
    if tris.len() == 0 {
        Seq::empty()
    } else {
        let before = screen_triangles(tris.drop_last(), width, height);
        if in_front(tris.last()) {
            before.push(to_screen(tris.last(), width, height))
        } else {
            before
        }
    }
}

/// The states of the depth buffer and of the output before and after each
/// triangle of `tris` is rasterized in turn.
pub open spec fn draw_steps<PS: PixelShader>(
    zbs: Seq<ZBuffer>,
    os: Seq<Seq<Fragment>>,
    tris: Seq<Triangle>,
    shader: PS,
) -> bool {
    &&& zbs.len() == tris.len() + 1
    &&& os.len() == tris.len() + 1
    &&& forall|k: int|
        0 <= k < tris.len() ==> #[trigger] fill_effect(
            zbs[k],
            zbs[k + 1],
            os[k],
            os[k + 1],
            triangle_region(tris[k]),
            sort_by_y(tris[k].vertices),
            shader,
        )
}

/// Rasterizing `tris` one after the other takes the depth buffer from `zb0`
/// to `zb1` and the output from `o0` to `o1`.
pub open spec fn draws<PS: PixelShader>(
    zb0: ZBuffer,
    zb1: ZBuffer,
    o0: Seq<Fragment>,
    o1: Seq<Fragment>,
    tris: Seq<Triangle>,
    shader: PS,
) -> bool {
    exists|zbs: Seq<ZBuffer>, os: Seq<Seq<Fragment>>|
        #[trigger] draw_steps(zbs, os, tris, shader) && zbs[0] == zb0 && os[0] == o0 && zbs.last()
            == zb1 && os.last() == o1
}

/// The perspective divide and viewport mapping of one vertex.
fn to_ndc(vertex: &mut TriangleVertex, screen_width: usize, screen_height: usize)
    requires
        old(vertex).wf(),
        old(vertex).position.w > 0,
        screen_width <= MAX_SCREEN,
        screen_height <= MAX_SCREEN,
    ensures
        *final(vertex) == ndc_vertex(*old(vertex), screen_width as nat, screen_height as nat),
        final(vertex).wf(),
        final(vertex).position.w > 0,
{
    let w = vertex.position.w;
    let w_inv = clamp_to_limit(floor_div_wide((ONE as i128) * (ONE as i128), w as i128));
    assert(w_inv > 0) by (nonlinear_arith)
        requires
            0 < w <= LIMIT,
            w_inv == clamp_limit((ONE * ONE) / (w as int)),
    ;
    vertex.mul_assign(w_inv);
    let x = vertex.position.x;
    let y = vertex.position.y;
    assert(0 <= screen_width * (LIMIT + ONE) <= MAX_SCREEN * (LIMIT + ONE)) by (nonlinear_arith)
        requires
            screen_width <= MAX_SCREEN,
    ;
    assert(-(MAX_SCREEN * (LIMIT + ONE)) <= (x + ONE) * screen_width <= MAX_SCREEN * (LIMIT
        + ONE)) by (nonlinear_arith)
        requires
            screen_width <= MAX_SCREEN,
            in_limit(x as int),
    ;
    assert(-(MAX_SCREEN * (LIMIT + ONE)) <= (ONE - y) * screen_height <= MAX_SCREEN * (LIMIT
        + ONE)) by (nonlinear_arith)
        requires
            screen_height <= MAX_SCREEN,
            in_limit(y as int),
    ;
    vertex.position.x = clamp_to_limit(
        floor_div_wide(((x as i128) + (ONE as i128)) * (screen_width as i128), 2),
    );
    vertex.position.y = clamp_to_limit(
        floor_div_wide(((ONE as i128) - (y as i128)) * (screen_height as i128), 2),
    );
    vertex.position.w = w_inv;
}

/// The eye as the projection sees it: the origin carried through the
/// projection.
pub open spec fn eye_of(t: Transforms) -> Vec3 {
    let e = transform(t.projection, Vec4 { x: 0, y: 0, z: 0, w: ONE });
    Vec3 { x: e.x, y: e.y, z: e.z }
}

/// The vertex shader applied to every raw vertex, index for index.
pub open spec fn shaded_vertices<VS: VertexShader>(
    vs: VS,
    t: Transforms,
    raw: Seq<RawPoint>,
) -> Seq<TriangleVertex> {
    Seq::new(raw.len(), |i: int| vs.shade(t, raw[i]))
}

/// The screen-space triangles a frame draws, in order.
pub open spec fn frame_triangles<VS: VertexShader, GS: GeometryShader>(
    vs: VS,
    gs: GS,
    t: Transforms,
    raw: Seq<RawPoint>,
    indices: Seq<IndexedTriangle>,
    width: nat,
    height: nat,
) -> Seq<Triangle> {
    screen_triangles(
        visible_triangles(gs, shaded_vertices(vs, t, raw), indices, eye_of(t)),
        width,
        height,
    )
}

/// Drives a frame: vertex shading, triangle assembly, geometry shading,
/// culling, the perspective divide and rasterization.
pub struct Pipeline {
    vs_output: Vec<TriangleVertex>,
    ms_output: Vec<Triangle>,
    transforms: Transforms,
    screen_width: usize,
    screen_height: usize,
}

impl Pipeline {
    pub closed spec fn width(&self) -> nat {
        self.screen_width as nat
    }

    pub closed spec fn height(&self) -> nat {
        self.screen_height as nat
    }

    /// The transforms bound for the next frame.
    pub closed spec fn transforms(&self) -> Transforms {
        self.transforms
    }

    pub open spec fn wf(&self) -> bool {
        self.transforms().wf() && self.width() <= MAX_SCREEN && self.height() <= MAX_SCREEN
    }

    /// A pipeline for a `screen_width` by `screen_height` target, with every
    /// transform the identity.
    pub fn new(screen_width: usize, screen_height: usize) -> (r: Pipeline)
        requires
            screen_width <= MAX_SCREEN,
            screen_height <= MAX_SCREEN,
        ensures
            r.wf(),
            r.width() == screen_width,
            r.height() == screen_height,
            r.transforms().model == Mat4::identity_spec(),
            r.transforms().view == Mat4::identity_spec(),
            r.transforms().projection == Mat4::identity_spec(),
    {
        let id = Mat4::identity();
        Pipeline {
            vs_output: Vec::new(),
            ms_output: Vec::new(),
            transforms: Transforms { model: id, view: id, projection: id },
            screen_width,
            screen_height,
        }
    }

    pub fn get_model_matrix(&self) -> (r: Mat4)
        ensures
            r == self.transforms().model,
    {
        self.transforms.model
    }

    pub fn get_view_matrix(&self) -> (r: Mat4)
        ensures
            r == self.transforms().view,
    {
        self.transforms.view
    }

    pub fn get_projection_matrix(&self) -> (r: Mat4)
        ensures
            r == self.transforms().projection,
    {
        self.transforms.projection
    }

    /// Binds the model transform for the next frames.
    pub fn bind_model_matrix(&mut self, model: Mat4)
        requires
            model.wf(),
            old(self).wf(),
        ensures
            final(self).wf(),
            final(self).transforms() == (Transforms { model, ..old(self).transforms() }),
            final(self).width() == old(self).width(),
            final(self).height() == old(self).height(),
    {
        self.transforms.model = model;
    }

    /// Binds the view transform for the next frames.
    pub fn bind_view_matrix(&mut self, view: Mat4)
        requires
            view.wf(),
            old(self).wf(),
        ensures
            final(self).wf(),
            final(self).transforms() == (Transforms { view, ..old(self).transforms() }),
            final(self).width() == old(self).width(),
            final(self).height() == old(self).height(),
    {
        self.transforms.view = view;
    }

    /// Binds the projection for the next frames.
    pub fn bind_projection_matrix(&mut self, projection: Mat4)
        requires
            projection.wf(),
            old(self).wf(),
        ensures
            final(self).wf(),
            final(self).transforms() == (Transforms { projection, ..old(self).transforms() }),
            final(self).width() == old(self).width(),
            final(self).height() == old(self).height(),
    {
        self.transforms.projection = projection;
    }

    /// Renders one frame of `raw_vertices` and `raw_indices`: every vertex is
    /// shaded, index for index; every index triple is assembled, reshaped by
    /// `gs` and culled; the triangles left in front of the eye are carried to
    /// screen space and rasterized in order into `depth_buffer` and `out`.
    pub fn render_scene<VS: VertexShader, GS: GeometryShader, PS: PixelShader>(
        &mut self,
        vs: &VS,
        gs: &GS,
        ps: &PS,
        raw_vertices: &Vec<RawPoint>,
        raw_indices: &Vec<IndexedTriangle>,
        depth_buffer: &mut ZBuffer,
        out: &mut Vec<Fragment>,
    )
        requires
            old(self).wf(),
            indices_valid(raw_indices@, raw_vertices@.len() as int),
            forall|i: int| 0 <= i < raw_vertices@.len() ==> #[trigger] raw_vertices@[i].wf(),
            old(depth_buffer).wf(),
            old(depth_buffer).width() == old(self).width(),
            old(depth_buffer).height() == old(self).height(),
            ps.wf(),
        ensures
            final(self).wf(),
            final(self).transforms() == old(self).transforms(),
            final(self).width() == old(self).width(),
            final(self).height() == old(self).height(),
            final(depth_buffer).wf(),
            final(depth_buffer).width() == old(depth_buffer).width(),
            final(depth_buffer).height() == old(depth_buffer).height(),
            draws(
                *old(depth_buffer),
                *final(depth_buffer),
                old(out)@,
                final(out)@,
                frame_triangles(
                    *vs,
                    *gs,
                    old(self).transforms(),
                    raw_vertices@,
                    raw_indices@,
                    old(self).width(),
                    old(self).height(),
                ),
                *ps,
            ),
    {
        let ghost zb0 = *depth_buffer;
        let ghost o0 = out@;
        let ghost t = self.transforms;
        self.vs_output.clear();
        self.ms_output.clear();
        let mut i: usize = 0;
        while i < raw_vertices.len()
            invariant
                i <= raw_vertices@.len(),
                self.transforms == t,
                self.ms_output@.len() == 0,
                self.screen_width == old(self).screen_width,
                self.screen_height == old(self).screen_height,
                t.wf(),
                forall|k: int| 0 <= k < raw_vertices@.len() ==> #[trigger] raw_vertices@[k].wf(),
                self.vs_output@.len() == i,
                forall|k: int|
                    0 <= k < i ==> #[trigger] self.vs_output@[k] == vs.shade(t, raw_vertices@[k])
                        && self.vs_output@[k].wf(),
            decreases raw_vertices@.len() - i,
        {
            let v = vs.run(&self.transforms, &raw_vertices[i]);
            self.vs_output.push(v);
            i = i + 1;
        }
        assert(self.vs_output@ =~= shaded_vertices(*vs, t, raw_vertices@));
        let eye = self.transforms.projection.mul_vec(&Vec4 { x: 0, y: 0, z: 0, w: ONE }).xyz();
        let mesh = DefaultMeshShader;
        mesh.run(gs, &self.vs_output, raw_indices, &eye, &mut self.ms_output);
        let ghost tris = self.ms_output@;
        assert(tris =~= visible_triangles(*gs, shaded_vertices(*vs, t, raw_vertices@), raw_indices@, eye_of(t)));
        let width = self.screen_width;
        let height = self.screen_height;
        let mut j: usize = 0;
        let ghost mut zbs = seq![zb0];
        let ghost mut os = seq![o0];
        assert(tris.take(0) =~= Seq::<Triangle>::empty());
        while j < self.ms_output.len()
            invariant
                j <= tris.len(),
                self.ms_output@ == tris,
                self.transforms == t,
                t.wf(),
                width == self.screen_width,
                height == self.screen_height,
                width <= MAX_SCREEN,
                height <= MAX_SCREEN,
                forall|k: int| 0 <= k < tris.len() ==> #[trigger] tris[k].wf(),
                ps.wf(),
                depth_buffer.wf(),
                depth_buffer.width() == width,
                depth_buffer.height() == height,
                draw_steps(
                    zbs,
                    os,
                    screen_triangles(tris.take(j as int), width as nat, height as nat),
                    *ps,
                ),
                zbs[0] == zb0,
                os[0] == o0,
                zbs.last() == *depth_buffer,
                os.last() == out@,
            decreases tris.len() - j,
        {
            let tri = self.ms_output[j];
            assert(tris.take(j + 1).drop_last() =~= tris.take(j as int));
            assert(tris.take(j + 1).last() == tri);
            assert(tris[j as int].wf());
            assert(tri.vertices[0].wf() && tri.vertices[1].wf() && tri.vertices[2].wf());
            if tri.vertices[0].position.w > 0 && tri.vertices[1].position.w > 0
                && tri.vertices[2].position.w > 0 {
                let mut v0 = tri.vertices[0];
                let mut v1 = tri.vertices[1];
                let mut v2 = tri.vertices[2];
                to_ndc(&mut v0, width, height);
                to_ndc(&mut v1, width, height);
                to_ndc(&mut v2, width, height);
                let screen = Triangle { vertices: [v0, v1, v2] };
                assert(screen == to_screen(tri, width as nat, height as nat));
                assert(screen.vertices[0].wf() && screen.vertices[1].wf() && screen.vertices[2].wf());
                let ghost prev = screen_triangles(tris.take(j as int), width as nat, height as nat);
                draw_triangle(screen, depth_buffer, ps, out);
                let ghost next = screen_triangles(tris.take(j + 1), width as nat, height as nat);
                assert(next == prev.push(screen));
                proof {
                    let zbs2 = zbs.push(*depth_buffer);
                    let os2 = os.push(out@);
                    assert forall|k: int| 0 <= k < next.len() implies #[trigger] fill_effect(
                        zbs2[k],
                        zbs2[k + 1],
                        os2[k],
                        os2[k + 1],
                        triangle_region(next[k]),
                        sort_by_y(next[k].vertices),
                        *ps,
                    ) by {
                        if k < prev.len() {
                            assert(next[k] == prev[k]);
                            assert(zbs2[k] == zbs[k] && zbs2[k + 1] == zbs[k + 1]);
                            assert(os2[k] == os[k] && os2[k + 1] == os[k + 1]);
                        } else {
                            assert(next[k] == screen);
                        }
                    }
                    zbs = zbs2;
                    os = os2;
                }
            } else {
                assert(screen_triangles(tris.take(j + 1), width as nat, height as nat)
                    == screen_triangles(tris.take(j as int), width as nat, height as nat));
            }
            j = j + 1;
        }
        assert(tris.take(tris.len() as int) =~= tris);
        assert(draw_steps(zbs, os, screen_triangles(tris, width as nat, height as nat), *ps));
    }
}

} // verus!
