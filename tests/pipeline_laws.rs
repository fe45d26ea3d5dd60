use soft_raster::gpu::FAR;
use soft_raster::graphics::perspective_recover;
use soft_raster::shaders::mesh_shader::is_back_facing;
use soft_raster::shaders::pixel_shader::sample_index;
use soft_raster::types::ONE;
use soft_raster::{
    draw_triangle, ColorBlend, Color, Fragment, PixelShader, Texture, Textured, Triangle,
    TriangleVertex, Vec3, Vec4, ZBuffer,
};

fn fx(v: f64) -> i64 {
    (v * ONE as f64).round() as i64
}

fn vertex(x: f64, y: f64, z: f64, w_inv: f64, params: [f64; 4]) -> TriangleVertex {
    TriangleVertex {
        position: Vec4 { x: fx(x), y: fx(y), z: fx(z), w: fx(w_inv) },
        parameters: [fx(params[0]), fx(params[1]), fx(params[2]), fx(params[3])],
    }
}

fn flat(x: f64, y: f64, z: f64, rgb: [f64; 3]) -> TriangleVertex {
    vertex(x, y, z, 1.0, [rgb[0], rgb[1], rgb[2], 0.0])
}

fn tri(a: TriangleVertex, b: TriangleVertex, c: TriangleVertex) -> Triangle {
    Triangle { vertices: [a, b, c] }
}

/// The pixels whose centers a half-open scanline rule puts inside the
/// triangle, computed independently in floating point.
fn reference_pixels(t: &Triangle, w: usize, h: usize) -> Vec<(i32, i32)> {
    let mut v: Vec<(f64, f64)> = t
        .vertices
        .iter()
        .map(|p| (p.position.x as f64 / ONE as f64, p.position.y as f64 / ONE as f64))
        .collect();
    v.sort_by(|a, b| a.1.partial_cmp(&b.1).unwrap());
    let at = |a: (f64, f64), b: (f64, f64), y: f64| a.0 + (b.0 - a.0) * (y - a.1) / (b.1 - a.1);
    let mut out = Vec::new();
    for py in 0..h {
        let cy = py as f64 + 0.5;
        if !(v[0].1 <= cy && cy < v[2].1) {
            continue;
        }
        let long = at(v[0], v[2], cy);
        let short = if cy < v[1].1 { at(v[0], v[1], cy) } else { at(v[1], v[2], cy) };
        let (l, r) = if long < short { (long, short) } else { (short, long) };
        for px in 0..w {
            let cx = px as f64 + 0.5;
            if l <= cx && cx < r {
                out.push((px as i32, py as i32));
            }
        }
    }
    out
}

fn pixels(frags: &[Fragment]) -> Vec<(i32, i32)> {
    let mut p: Vec<(i32, i32)> = frags.iter().map(|f| (f.x, f.y)).collect();
    p.sort();
    p
}

fn shown_at(frags: &[Fragment], x: i32, y: i32) -> Option<Color> {
    frags.iter().rev().find(|f| f.x == x && f.y == y).map(|f| f.color)
}

#[test]
fn winding_exactly_one_order_survives_culling() {
    let a = vertex(0.0, 0.0, 5.0, 1.0, [0.0; 4]);
    let b = vertex(1.0, 0.0, 5.0, 1.0, [0.0; 4]);
    let c = vertex(0.0, 1.0, 5.0, 1.0, [0.0; 4]);
    let eye = Vec3 { x: 0, y: 0, z: 0 };
    let forward = is_back_facing(&tri(a, b, c), &eye);
    let reversed = is_back_facing(&tri(a, c, b), &eye);
    assert!(forward);
    assert!(!reversed);
}

#[test]
fn nearer_triangle_wins_in_either_order() {
    let far_red = tri(
        flat(0.0, 0.0, 2.0, [1.0, 0.0, 0.0]),
        flat(8.0, 0.0, 2.0, [1.0, 0.0, 0.0]),
        flat(0.0, 8.0, 2.0, [1.0, 0.0, 0.0]),
    );
    let near_green = tri(
        flat(0.0, 0.0, 1.0, [0.0, 1.0, 0.0]),
        flat(8.0, 0.0, 1.0, [0.0, 1.0, 0.0]),
        flat(0.0, 8.0, 1.0, [0.0, 1.0, 0.0]),
    );
    let green = Color::new(0, 255, 0);

    let mut zb = ZBuffer::new(8, 8);
    let mut out = Vec::new();
    draw_triangle(far_red, &mut zb, &ColorBlend, &mut out);
    draw_triangle(near_green, &mut zb, &ColorBlend, &mut out);
    assert_eq!(shown_at(&out, 1, 1), Some(green));
    assert_eq!(zb.get(1, 1), fx(1.0));

    let mut zb = ZBuffer::new(8, 8);
    let mut out = Vec::new();
    draw_triangle(near_green, &mut zb, &ColorBlend, &mut out);
    let first = out.len();
    draw_triangle(far_red, &mut zb, &ColorBlend, &mut out);
    assert_eq!(out.len(), first);
    assert_eq!(shown_at(&out, 1, 1), Some(green));
    assert_eq!(zb.get(1, 1), fx(1.0));
}

#[test]
fn perspective_correct_midpoint_is_not_one_half() {
    // 1/w is 1 at the left end and 1/4 at the right end of the top edge; the
    // channel is 0 there and 1 here, stored divided by w.
    let left = vertex(0.0, 0.5, 0.0, 1.0, [0.0; 4]);
    let right = vertex(15.0, 0.5, 0.0, 0.25, [0.25, 0.0, 0.0, 0.0]);
    let below = vertex(0.0, 15.5, 0.0, 1.0, [0.0; 4]);
    let mut zb = ZBuffer::new(16, 16);
    let mut out = Vec::new();
    draw_triangle(tri(left, right, below), &mut zb, &ColorBlend, &mut out);
    // Pixel 7 of row 0 sits halfway along the edge: the value is
    // (1/4) / (1 + 1/4) = 1/5, not 1/2. In 16.16 that is 13107, which the
    // color blend scales to 13107 * 255 / 65536 = 50.99, rounded down.
    let c = shown_at(&out, 7, 0).expect("the midpoint is drawn");
    assert_eq!(c.r, 50);
    assert_ne!(c.r, 127);
    assert_eq!(perspective_recover(ONE / 8, 5 * ONE / 8), ONE / 5);
}

#[test]
fn degenerate_triangles_draw_nothing() {
    let a = flat(2.0, 2.0, 0.0, [1.0; 3]);
    let b = flat(10.0, 6.0, 0.0, [1.0; 3]);
    let c = flat(4.0, 12.0, 0.0, [1.0; 3]);
    for t in [tri(a, a, b), tri(a, b, b), tri(c, b, c), tri(a, a, a)] {
        let mut zb = ZBuffer::new(16, 16);
        let mut out = Vec::new();
        draw_triangle(t, &mut zb, &ColorBlend, &mut out);
        assert!(out.is_empty());
        for y in 0..16 {
            for x in 0..16 {
                assert_eq!(zb.get(x, y), FAR);
            }
        }
    }
}

#[test]
fn split_fill_matches_reference_fill() {
    let shapes = [
        tri(flat(1.3, 0.7, 0.0, [1.0; 3]), flat(14.2, 6.1, 0.0, [1.0; 3]), flat(4.6, 15.2, 0.0, [1.0; 3])),
        tri(flat(12.0, 1.0, 0.0, [1.0; 3]), flat(2.5, 7.5, 0.0, [1.0; 3]), flat(9.0, 14.0, 0.0, [1.0; 3])),
        tri(flat(1.0, 2.0, 0.0, [1.0; 3]), flat(13.0, 2.0, 0.0, [1.0; 3]), flat(7.0, 13.0, 0.0, [1.0; 3])),
        tri(flat(7.0, 1.0, 0.0, [1.0; 3]), flat(1.0, 12.0, 0.0, [1.0; 3]), flat(14.0, 12.0, 0.0, [1.0; 3])),
    ];
    for t in shapes {
        let mut zb = ZBuffer::new(16, 16);
        let mut out = Vec::new();
        draw_triangle(t, &mut zb, &ColorBlend, &mut out);
        let got = pixels(&out);
        let mut dedup = got.clone();
        dedup.dedup();
        assert_eq!(dedup.len(), got.len(), "a pixel was drawn twice");
        let mut want = reference_pixels(&t, 16, 16);
        want.sort();
        assert!(!want.is_empty());
        assert_eq!(got, want);
    }
}

#[test]
fn texture_sampling_stays_in_bounds() {
    let mut texels = Vec::new();
    for y in 0..3u8 {
        for x in 0..4u8 {
            texels.push(Color::new(x, y, 0));
        }
    }
    let shader = Textured { texture: Texture::from_pixels(4, 3, texels).unwrap() };
    assert_eq!(shader.sample_2d(ONE, ONE), Color::new(3, 2, 0));
    assert_eq!(shader.sample_2d(-ONE / 10, -ONE / 10), Color::new(0, 0, 0));
    assert_eq!(shader.sample_2d(2 * ONE, -5 * ONE), Color::new(3, 0, 0));
    assert_eq!(shader.run([ONE / 2, ONE / 2, 0, 0]), Color::new(2, 1, 0));
    assert_eq!(sample_index(ONE, 4), 3);
    assert_eq!(sample_index(-ONE / 10, 4), 0);
}
