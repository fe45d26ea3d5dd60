use crate::types::{Color, CHANNELS, ONE};
use vstd::prelude::*;

verus! {

/// Turns the attribute channels interpolated at a pixel into its color.
pub trait PixelShader {
    spec fn wf(&self) -> bool;

    /// The color for the given channels.
    spec fn shade(&self, params: [i64; CHANNELS]) -> Color;

    fn run(&self, params: [i64; CHANNELS]) -> (c: Color)
        requires
            self.wf(),
        ensures
            c == self.shade(params),
    ;
}

/// A channel in [0, 1] as a byte: clamped, scaled to 255, rounded down.
pub open spec fn unit_to_byte(v: i64) -> u8 {
    if v <= 0 {
        0
    } else if v >= ONE {
        255
    } else {
        (v * 255 / (ONE as int)) as u8
    }
}

fn channel_to_byte(v: i64) -> (r: u8)
    ensures
        r == unit_to_byte(v),
{
    if v <= 0 {
        0
    } else if v >= ONE {
        255
    } else {
        assert(0 <= v * 255 / (ONE as int) <= 255) by (nonlinear_arith)
            requires
                0 < v < ONE,
        ;
        (v * 255 / ONE) as u8
    }
}

/// Reads the first three channels as red, green and blue in [0, 1].
pub struct ColorBlend;

impl PixelShader for ColorBlend {
    open spec fn wf(&self) -> bool {
        true
    }

    open spec fn shade(&self, params: [i64; CHANNELS]) -> Color {
        Color {
            r: unit_to_byte(params[0]),
            g: unit_to_byte(params[1]),
            b: unit_to_byte(params[2]),
        }
    }

    fn run(&self, params: [i64; CHANNELS]) -> (c: Color) {
        Color {
            r: channel_to_byte(params[0]),
            g: channel_to_byte(params[1]),
            b: channel_to_byte(params[2]),
        }
    }
}

/// A `width` by `height` image, row by row.
pub struct Texture {
    width: usize,
    height: usize,
    pixels: Vec<Color>,
}

impl Texture {
    pub closed spec fn width(&self) -> nat {
        self.width as nat
    }

    pub closed spec fn height(&self) -> nat {
        self.height as nat
    }

    /// The texel at column `x` of row `y`.
    pub closed spec fn texel(&self, x: int, y: int) -> Color {
        self.pixels@[x + y * self.width]
    }

    pub closed spec fn wf(&self) -> bool {
        self.width >= 1 && self.height >= 1 && self.pixels@.len() == self.width * self.height
            && self.width * self.height <= usize::MAX
    }

    /// An image from its pixels, row by row; none when the sizes disagree or
    /// the image is empty.
    pub fn from_pixels(width: usize, height: usize, pixels: Vec<Color>) -> (r: Option<Texture>)
        ensures
            r.is_some() <==> (width >= 1 && height >= 1 && pixels@.len() == width * height),
            r matches Some(t) ==> t.wf() && t.width() == width && t.height() == height && (forall|
                x: int,
                y: int,
            |
                0 <= x < width && 0 <= y < height ==> #[trigger] t.texel(x, y) == pixels@[x + y
                    * width]),
    {
        if width == 0 || height == 0 {
            return None;
        }
        match width.checked_mul(height) {
            Some(n) => {
                if pixels.len() == n {
                    Some(Texture { width, height, pixels })
                } else {
                    None
                }
            },
            None => {
                let len = pixels.len();
                assert(len < width * height);
                None
            },
        }
    }

    /// The texel at column `x` of row `y`.
    pub fn get_pixel(&self, x: usize, y: usize) -> (r: Color)
        requires
            self.wf(),
            x < self.width(),
            y < self.height(),
        ensures
            r == self.texel(x as int, y as int),
    {
        assert(0 <= y * self.width <= x + y * self.width < self.width * self.height)
            by (nonlinear_arith)
            requires
                x < self.width,
                y < self.height,
        ;
        self.pixels[x + y * self.width]
    }

    pub fn texture_width(&self) -> (r: usize)
        ensures
            r == self.width(),
    {
        self.width
    }

    pub fn texture_height(&self) -> (r: usize)
        ensures
            r == self.height(),
    {
        self.height
    }
}

/// The texel a coordinate picks on an axis of `n` texels: `round(u * (n - 1))`
/// clamped to `0 ..= n - 1`.
pub open spec fn texel_index(u: i64, n: nat) -> int {
    let t = (u * (n - 1) + ONE / 2) / (ONE as int);
    if t < 0 {
        0
    } else if t > n - 1 {
        n - 1
    } else {
        t
    }
}

/// `texel_index` on an axis of `n` texels.
pub fn sample_index(u: i64, n: usize) -> (r: usize)
    requires
        n >= 1,
    ensures
        r == texel_index(u, n as nat),
        r < n,
{
    if u <= 0 {
        assert((u * (n - 1) + ONE / 2) / (ONE as int) <= 0) by (nonlinear_arith)
            requires
                u <= 0,
                n >= 1,
        ;
        return 0;
    }
    if u >= ONE {
        assert((u * (n - 1) + ONE / 2) / (ONE as int) >= n - 1) by (nonlinear_arith)
            requires
                u >= ONE,
                n >= 1,
        ;
        return n - 1;
    }
    assert(0 <= (u as int) * ((n - 1) as int) <= 0x1_0000_0000_0000_0000_0000) by (nonlinear_arith)
        requires
            0 < u < ONE,
            0 <= n - 1 <= usize::MAX,
    ;
    let scaled = (u as i128) * ((n - 1) as i128) + (ONE / 2) as i128;
    let t = crate::types::floor_div_wide(scaled, ONE as i128);
    if t < 0 {
        0
    } else if t > (n - 1) as i128 {
        n - 1
    } else {
        t as usize
    }
}

/// Unit square coordinates 1.0 reach the last texel and any coordinate at or
/// below 0 the first, so sampling never leaves the image.
pub proof fn lemma_texel_index_bounds(n: nat, u: i64)
    requires
        n >= 1,
    ensures
        0 <= texel_index(u, n) < n,
        texel_index(ONE, n) == n - 1,
        u <= 0 ==> texel_index(u, n) == 0,
{
    assert((ONE * (n - 1) + ONE / 2) / (ONE as int) == n - 1) by (nonlinear_arith)
        requires
            n >= 1,
    ;
    if u <= 0 {
        assert((u * (n - 1) + ONE / 2) / (ONE as int) <= 0) by (nonlinear_arith)
            requires
                u <= 0,
                n >= 1,
        ;
    }
}

/// Reads the first two channels as texture coordinates (u, v) and returns the
/// nearest texel.
pub struct Textured {
    pub texture: Texture,
}

impl Textured {
    /// The texel nearest to `(u, v)`, clamped into the image.
    pub fn sample_2d(&self, u: i64, v: i64) -> (r: Color)
        requires
            self.texture.wf(),
        ensures
            r == self.texture.texel(
                texel_index(u, self.texture.width()),
                texel_index(v, self.texture.height()),
            ),
    {
        let x = sample_index(u, self.texture.texture_width());
        let y = sample_index(v, self.texture.texture_height());
        self.texture.get_pixel(x, y)
    }
}

impl PixelShader for Textured {
    open spec fn wf(&self) -> bool {
        self.texture.wf()
    }

    open spec fn shade(&self, params: [i64; CHANNELS]) -> Color {
        self.texture.texel(
            texel_index(params[0], self.texture.width()),
            texel_index(params[1], self.texture.height()),
        )
    }

    fn run(&self, params: [i64; CHANNELS]) -> (c: Color) {
        self.sample_2d(params[0], params[1])
    }
}

} // verus!
