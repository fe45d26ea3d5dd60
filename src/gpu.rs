use vstd::prelude::*;

verus! {

/// Depth of an empty pixel: farther than anything that can be drawn.
pub const FAR: i64 = 0x7fff_ffff_ffff_ffff;

/// The stored depth after a fragment of depth `value` is tested against
/// `stored`: the nearer of the two.
pub open spec fn depth_after(stored: i64, value: i64) -> i64 {
    if value < stored {
        value
    } else {
        stored
    }
}

/// What a pixel shows after two fragments were tested on it in turn, the
/// first of depth `first` and then one of depth `second`: the last fragment
/// that passed its test, named by its depth, or nothing.
pub open spec fn shown_of_two(stored: i64, first: i64, second: i64) -> Option<i64> {
    if second < depth_after(stored, first) {
        Some(second)
    } else if first < stored {
        Some(first)
    } else {
        None
    }
}

/// Two fragments of different depths submitted to one pixel leave the same
/// stored depth and the same fragment on screen in either order: the nearer
/// one, when it is nearer than what was stored.
pub proof fn lemma_depth_order_independent(stored: i64, a: i64, b: i64)
    requires
        a != b,
    ensures
        depth_after(depth_after(stored, a), b) == depth_after(depth_after(stored, b), a),
        shown_of_two(stored, a, b) == shown_of_two(stored, b, a),
        shown_of_two(stored, a, b) == if a < b && a < stored {
            Some(a)
        } else if b < a && b < stored {
            Some(b)
        } else {
            None::<i64>
        },
{
}

/// A grid of the nearest depth drawn so far at each pixel.
pub struct ZBuffer {
    buffer: Vec<i64>,
    screen_width: usize,
    screen_height: usize,
}

proof fn lemma_index_unique(w: int, x1: int, y1: int, x2: int, y2: int)
    requires
        0 <= x1 < w,
        0 <= x2 < w,
        0 <= y1,
        0 <= y2,
        x1 + y1 * w == x2 + y2 * w,
    ensures
        x1 == x2 && y1 == y2,
{
    assert(y1 == y2) by (nonlinear_arith)
        requires
            0 <= x1 < w,
            0 <= x2 < w,
            0 <= y1,
            0 <= y2,
            x1 + y1 * w == x2 + y2 * w,
    ;
}

proof fn lemma_index_in_bounds(w: int, h: int, x: int, y: int)
    requires
        0 <= x < w,
        0 <= y < h,
    ensures
        0 <= y * w <= x + y * w < w * h,
{
    assert(0 <= y * w <= x + y * w < w * h) by (nonlinear_arith)
        requires
            0 <= x < w,
            0 <= y < h,
    ;
}

impl ZBuffer {
    pub closed spec fn width(&self) -> nat {
        self.screen_width as nat
    }

    pub closed spec fn height(&self) -> nat {
        self.screen_height as nat
    }

    /// The stored depth at pixel `(x, y)`.
    pub closed spec fn depth_at(&self, x: int, y: int) -> i64 {
        self.buffer@[x + y * self.screen_width]
    }

    pub closed spec fn wf(&self) -> bool {
        self.buffer@.len() == self.screen_width * self.screen_height && self.screen_width
            * self.screen_height <= usize::MAX
    }

    /// Every pixel holds `FAR`.
    pub open spec fn is_clear(&self) -> bool {
        forall|x: int, y: int|
            0 <= x < self.width() && 0 <= y < self.height() ==> #[trigger] self.depth_at(x, y)
                == FAR
    }

    /// A buffer of `screen_width` by `screen_height` pixels, all clear.
    pub fn new(screen_width: usize, screen_height: usize) -> (r: ZBuffer)
        requires
            screen_width * screen_height <= usize::MAX,
        ensures
            r.wf(),
            r.width() == screen_width,
            r.height() == screen_height,
            r.is_clear(),
    {
        let n = screen_width * screen_height;
        let mut buffer: Vec<i64> = Vec::with_capacity(n);
        let mut i: usize = 0;
        while i < n
            invariant
                i <= n,
                buffer@.len() == i,
                forall|k: int| 0 <= k < i ==> buffer@[k] == FAR,
            decreases n - i,
        {
            buffer.push(FAR);
            i = i + 1;
        }
        let r = ZBuffer { buffer, screen_width, screen_height };
        assert forall|x: int, y: int|
            0 <= x < r.width() && 0 <= y < r.height() implies #[trigger] r.depth_at(x, y) == FAR by {
            lemma_index_in_bounds(screen_width as int, screen_height as int, x, y);
        }
        r
    }

    pub fn screen_width(&self) -> (r: usize)
        ensures
            r == self.width(),
    {
        self.screen_width
    }

    pub fn screen_height(&self) -> (r: usize)
        ensures
            r == self.height(),
    {
        self.screen_height
    }

    /// Resets every pixel to `FAR`.
    pub fn clear(&mut self)
        requires
            old(self).wf(),
        ensures
            final(self).wf(),
            final(self).width() == old(self).width(),
            final(self).height() == old(self).height(),
            final(self).is_clear(),
    {
        let n = self.buffer.len();
        let mut i: usize = 0;
        while i < n
            invariant
                i <= n,
                n == self.buffer@.len(),
                self.wf(),
                self.screen_width == old(self).screen_width,
                self.screen_height == old(self).screen_height,
                forall|k: int| 0 <= k < i ==> self.buffer@[k] == FAR,
            decreases n - i,
        {
            self.buffer.set(i, FAR);
            i = i + 1;
        }
        assert forall|x: int, y: int|
            0 <= x < self.width() && 0 <= y < self.height() implies #[trigger] self.depth_at(x, y)
            == FAR by {
            lemma_index_in_bounds(self.screen_width as int, self.screen_height as int, x, y);
        }
    }

    /// The stored depth at pixel `(x, y)`.
    pub fn get(&self, x: usize, y: usize) -> (r: i64)
        requires
            self.wf(),
            x < self.width(),
            y < self.height(),
        ensures
            r == self.depth_at(x as int, y as int),
    {
        proof {
            lemma_index_in_bounds(self.screen_width as int, self.screen_height as int, x as int, y as int);
        }
        self.buffer[x + y * self.screen_width]
    }

    /// Tests a fragment of depth `value` at pixel `(x, y)`: it passes when it
    /// is nearer than the stored depth, which it then replaces.
    pub fn test_and_set(&mut self, x: usize, y: usize, value: i64) -> (r: bool)
        requires
            old(self).wf(),
            x < old(self).width(),
            y < old(self).height(),
        ensures
            final(self).wf(),
            final(self).width() == old(self).width(),
            final(self).height() == old(self).height(),
            r == (value < old(self).depth_at(x as int, y as int)),
            final(self).depth_at(x as int, y as int) == depth_after(
                old(self).depth_at(x as int, y as int),
                value,
            ),
            forall|x2: int, y2: int|
                0 <= x2 < old(self).width() && 0 <= y2 < old(self).height() && (x2 != x || y2
                    != y) ==> #[trigger] final(self).depth_at(x2, y2) == old(self).depth_at(x2, y2),
    {
        proof {
            lemma_index_in_bounds(self.screen_width as int, self.screen_height as int, x as int, y as int);
        }
        let i = x + y * self.screen_width;
        if value < self.buffer[i] {
            self.buffer.set(i, value);
            assert forall|x2: int, y2: int|
                0 <= x2 < old(self).width() && 0 <= y2 < old(self).height() && (x2 != x || y2
                    != y) implies #[trigger] self.depth_at(x2, y2) == old(self).depth_at(x2, y2) by {
                lemma_index_in_bounds(self.screen_width as int, self.screen_height as int, x2, y2);
                if x2 + y2 * self.screen_width == i {
                    lemma_index_unique(self.screen_width as int, x2, y2, x as int, y as int);
                }
            }
            true
        } else {
            false
        }
    }
}

/// The drawing target's state that the pipeline owns: its depth buffer.
pub struct Gpu {
    pub z_buffer: ZBuffer,
}

impl Gpu {
    pub fn new(screen_width: usize, screen_height: usize) -> (r: Gpu)
        requires
            screen_width * screen_height <= usize::MAX,
        ensures
            r.z_buffer.wf(),
            r.z_buffer.width() == screen_width,
            r.z_buffer.height() == screen_height,
            r.z_buffer.is_clear(),
    {
        Gpu { z_buffer: ZBuffer::new(screen_width, screen_height) }
    }

    pub fn clear_z_buffer(&mut self)
        requires
            old(self).z_buffer.wf(),
        ensures
            final(self).z_buffer.wf(),
            final(self).z_buffer.width() == old(self).z_buffer.width(),
            final(self).z_buffer.height() == old(self).z_buffer.height(),
            final(self).z_buffer.is_clear(),
    {
        self.z_buffer.clear()
    }
}

} // verus!
