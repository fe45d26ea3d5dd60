use soft_raster::gpu::FAR;
use soft_raster::pipeline::Pipeline;
use soft_raster::types::{floor_div, Mat4, LIMIT, ONE};
use soft_raster::{
    cube, plane, ColorBlend, Color, DefaultGeometryShader, DefaultVertexShader, Gpu,
    IndexedTriangle, PixelShader, RawPoint, Texture, TriangleVertex, Vec3, Vec4, ZBuffer,
};

fn fx(v: f64) -> i64 {
    (v * ONE as f64).round() as i64
}

#[test]
fn color_new_keeps_channels() {
    let c = Color::new(1, 2, 3);
    assert_eq!((c.r, c.g, c.b), (1, 2, 3));
}

#[test]
fn color_quantizes_to_palette_and_entry() {
    let c = Color::new(200, 100, 50);
    // red 200 / 8 = 25 -> palette block 200; green 100 / 32 = 3
    assert_eq!(c.palette_index(), 203);
    // green (100 / 8) % 4 = 0 -> 0; blue 50 / 16 = 3
    assert_eq!(c.color_index(), 3);
    assert_eq!(Color::new(255, 255, 255).palette_index(), 255);
    assert_eq!(Color::new(255, 255, 255).color_index(), 63);
}

#[test]
fn graphics_params_pack_palette_and_color() {
    let p = Color::new(200, 100, 50).to_graphics_params();
    assert_eq!(p.0, 203 | (3 << 24));
    let white = Color::new(255, 255, 255).to_graphics_params();
    assert_eq!(white.0, 255 | (63 << 24));
    assert_eq!(Color::new(0, 0, 0).to_graphics_params().0, 0);
}

#[test]
fn zbuffer_starts_clear_and_keeps_nearest() {
    let mut zb = ZBuffer::new(3, 2);
    assert_eq!(zb.screen_width(), 3);
    assert_eq!(zb.screen_height(), 2);
    assert_eq!(zb.get(2, 1), FAR);
    assert!(zb.test_and_set(2, 1, 5));
    assert!(!zb.test_and_set(2, 1, 5));
    assert!(!zb.test_and_set(2, 1, 7));
    assert!(zb.test_and_set(2, 1, -1));
    assert_eq!(zb.get(2, 1), -1);
    assert_eq!(zb.get(1, 1), FAR);
    assert_eq!(zb.get(2, 0), FAR);
    zb.clear();
    assert_eq!(zb.get(2, 1), FAR);
}

#[test]
fn gpu_buffer_is_width_by_height() {
    let mut gpu = Gpu::new(4, 2);
    assert_eq!(gpu.z_buffer.screen_width(), 4);
    assert_eq!(gpu.z_buffer.screen_height(), 2);
    assert!(gpu.z_buffer.test_and_set(3, 1, 0));
    gpu.clear_z_buffer();
    assert_eq!(gpu.z_buffer.get(3, 1), FAR);
}

#[test]
fn color_blend_clamps_and_scales() {
    assert_eq!(ColorBlend.run([ONE, 0, ONE / 2, 0]), Color::new(255, 0, 127));
    assert_eq!(ColorBlend.run([2 * ONE, -ONE, ONE / 4, 9]), Color::new(255, 0, 63));
}

#[test]
fn texture_rejects_mismatched_sizes() {
    assert!(Texture::from_pixels(2, 2, vec![Color::new(0, 0, 0); 3]).is_none());
    assert!(Texture::from_pixels(0, 2, Vec::new()).is_none());
    let t = Texture::from_pixels(2, 1, vec![Color::new(1, 0, 0), Color::new(2, 0, 0)]).unwrap();
    assert_eq!(t.get_pixel(1, 0), Color::new(2, 0, 0));
    assert_eq!((t.texture_width(), t.texture_height()), (2, 1));
}

#[test]
fn matrix_applies_in_fixed_point() {
    let v = Vec4 { x: fx(1.5), y: fx(-2.0), z: fx(0.25), w: ONE };
    let id = Mat4::identity().mul_vec(&v);
    assert_eq!((id.x, id.y, id.z, id.w), (v.x, v.y, v.z, v.w));
    let mut rows = [0i64; 16];
    rows[0] = 2 * ONE;
    rows[3] = ONE;
    rows[5] = ONE / 2;
    rows[10] = ONE;
    rows[15] = ONE;
    let m = Mat4::from_rows(rows);
    let r = m.mul_vec(&v);
    assert_eq!(r.x, fx(4.0));
    assert_eq!(r.y, fx(-1.0));
    assert_eq!(r.z, fx(0.25));
    assert_eq!(r.w, ONE);
    let big = Mat4::from_rows([i64::MAX; 16]);
    assert_eq!(big.m[7], LIMIT);
}

#[test]
fn floor_division_rounds_down() {
    assert_eq!(floor_div(7, 2), 3);
    assert_eq!(floor_div(-7, 2), -4);
}

#[test]
fn vertex_arithmetic_is_channelwise() {
    let a = TriangleVertex {
        position: Vec4 { x: fx(3.0), y: fx(1.0), z: 0, w: ONE },
        parameters: [fx(0.5), 0, 0, 0],
    };
    let b = TriangleVertex {
        position: Vec4 { x: fx(1.0), y: fx(2.0), z: 0, w: ONE },
        parameters: [fx(0.25), 0, 0, 0],
    };
    let d = a.sub(b);
    assert_eq!((d.position.x, d.position.y, d.position.w), (fx(2.0), fx(-1.0), 0));
    assert_eq!(d.parameters[0], fx(0.25));
    let h = a.div(2 * ONE);
    assert_eq!((h.position.x, h.parameters[0]), (fx(1.5), fx(0.25)));
    let m = a.mul(ONE / 2);
    assert_eq!((m.position.x, m.parameters[0]), (fx(1.5), fx(0.25)));
    let mut acc = a;
    acc.mul_assign(2 * ONE);
    assert_eq!(acc.position.x, fx(6.0));
    acc.add_assign(b);
    assert_eq!((acc.position.x, acc.position.y), (fx(7.0), fx(4.0)));
}

#[test]
fn shapes_are_centered() {
    let c = cube(fx(1.0));
    assert_eq!((c[0].x, c[0].y, c[0].z), (-fx(0.5), -fx(0.5), -fx(0.5)));
    assert_eq!((c[7].x, c[7].y, c[7].z), (fx(0.5), fx(0.5), fx(0.5)));
    assert_eq!((c[5].x, c[5].y, c[5].z), (fx(0.5), -fx(0.5), fx(0.5)));
    let p = plane(fx(1.0));
    assert_eq!((p[0].x, p[0].y, p[0].z), (-fx(1.0), fx(1.0), 0));
    assert_eq!((p[2].x, p[2].y), (fx(1.0), -fx(1.0)));
}

fn point(x: f64, y: f64, z: f64, r: f64, g: f64, b: f64) -> RawPoint {
    RawPoint { position: Vec3 { x: fx(x), y: fx(y), z: fx(z) }, parameters: [fx(r), fx(g), fx(b), 0] }
}

#[test]
fn render_scene_draws_front_faces_only() {
    let mut pipeline = Pipeline::new(16, 16);
    let mut zb = ZBuffer::new(16, 16);
    let vertices = vec![
        point(-0.5, -0.5, 0.5, 1.0, 0.0, 0.0),
        point(0.5, -0.5, 0.5, 1.0, 0.0, 0.0),
        point(-0.5, 0.5, 0.5, 1.0, 0.0, 0.0),
    ];
    // Seen from the origin this order faces away; the reverse faces the eye.
    let mut out = Vec::new();
    pipeline.render_scene(
        &DefaultVertexShader,
        &DefaultGeometryShader,
        &ColorBlend,
        &vertices,
        &vec![IndexedTriangle(0, 1, 2)],
        &mut zb,
        &mut out,
    );
    assert!(out.is_empty());
    pipeline.render_scene(
        &DefaultVertexShader,
        &DefaultGeometryShader,
        &ColorBlend,
        &vertices,
        &vec![IndexedTriangle(0, 2, 1)],
        &mut zb,
        &mut out,
    );
    assert!(!out.is_empty());
    for f in &out {
        assert!(4 <= f.x && f.x < 12 && 4 <= f.y && f.y < 12);
        assert_eq!(f.color, Color::new(255, 0, 0));
    }
    // The corner at x = -0.5, y = -0.5 maps to screen (4, 12): the lower left.
    assert!(out.iter().any(|f| f.x == 4 && f.y == 11));
    assert!(!out.iter().any(|f| f.x == 11 && f.y == 11));
    assert_eq!(zb.get(4, 11), fx(0.5));
}

#[test]
fn pipeline_binds_transforms() {
    let mut pipeline = Pipeline::new(8, 8);
    let mut rows = [0i64; 16];
    rows[0] = ONE;
    rows[5] = ONE;
    rows[10] = ONE;
    rows[15] = ONE;
    rows[3] = fx(2.0);
    let m = Mat4::from_rows(rows);
    pipeline.bind_model_matrix(m);
    pipeline.bind_view_matrix(Mat4::identity());
    pipeline.bind_projection_matrix(Mat4::identity());
    assert_eq!(pipeline.get_model_matrix().m[3], fx(2.0));
    assert_eq!(pipeline.get_view_matrix().m[3], 0);
    assert_eq!(pipeline.get_projection_matrix().m[0], ONE);
}

#[test]
fn triangle_behind_the_eye_is_skipped() {
    let mut pipeline = Pipeline::new(16, 16);
    let mut rows = [0i64; 16];
    rows[0] = ONE;
    rows[5] = ONE;
    rows[10] = ONE;
    rows[14] = ONE;
    // w takes z: points at negative z lie behind the eye.
    pipeline.bind_projection_matrix(Mat4::from_rows(rows));
    let vertices = vec![
        point(-0.5, -0.5, -1.0, 1.0, 1.0, 1.0),
        point(-0.5, 0.5, -1.0, 1.0, 1.0, 1.0),
        point(0.5, -0.5, -1.0, 1.0, 1.0, 1.0),
        point(0.5, 0.5, -1.0, 1.0, 1.0, 1.0),
    ];
    let mut zb = ZBuffer::new(16, 16);
    let mut out = Vec::new();
    pipeline.render_scene(
        &DefaultVertexShader,
        &DefaultGeometryShader,
        &ColorBlend,
        &vertices,
        &vec![IndexedTriangle(0, 1, 2), IndexedTriangle(0, 2, 1), IndexedTriangle(1, 3, 2)],
        &mut zb,
        &mut out,
    );
    assert!(out.is_empty());
}
