use vstd::prelude::*;
use vstd::arithmetic::div_mod::lemma_fundamental_div_mod;

verus! {

/// Whether `(i, j)` lies in the axis-aligned rectangle with corner `(x, y)`,
/// width `w` and height `h`.
pub open spec fn in_rect(i: int, j: int, x: int, y: int, w: int, h: int) -> bool {
    x <= i < x + w && y <= j < y + h
}

/// Whether `(i, j)` lies on the one-pixel outline that `rect_border` draws for
/// the rectangle `(x, y, w, h)`. A zero height still draws the top edge and a
/// zero width still draws the left edge.
pub open spec fn on_border(i: int, j: int, x: int, y: int, w: int, h: int) -> bool {
    let bottom = if h > 0 { y + h - 1 } else { y };
    let right = if w > 0 { x + w - 1 } else { x };
    ||| (x <= i < x + w && (j == y || j == bottom))
    ||| (y <= j < y + h && (i == x || i == right))
}

/// Position of pixel `(i, j)` in a row-major buffer with rows of `width` pixels.
pub open spec fn pixel_index(width: int, i: int, j: int) -> int {
    j * width + i
}

/// A row-major buffer of `width * height` packed RGB pixels, with a
/// background color used by `clear`.
pub struct Framebuffer {
    pub width: usize,
    pub height: usize,
    pub buffer: Vec<u32>,
    pub background_color: u32,
}

pub proof fn lemma_pixel_index_bounds(width: int, height: int, i: int, j: int)
    requires
        0 <= i < width,
        0 <= j < height,
    ensures
        0 <= pixel_index(width, i, j) < width * height,
        pixel_index(width, i, j) + 1 <= width * height,
{
    assert(0 <= j * width) by (nonlinear_arith)
        requires
            0 <= j,
            0 <= width,
    ;
    assert(j * width + width <= width * height) by (nonlinear_arith)
        requires
            0 <= j < height,
            0 <= width,
    ;
}

pub proof fn lemma_pixel_index_injective(width: int, i1: int, j1: int, i2: int, j2: int)
    requires
        0 <= i1 < width,
        0 <= i2 < width,
        0 <= j1,
        0 <= j2,
        pixel_index(width, i1, j1) == pixel_index(width, i2, j2),
    ensures
        i1 == i2,
        j1 == j2,
{
    if j1 < j2 {
        assert(j1 * width + width <= j2 * width) by (nonlinear_arith)
            requires
                j1 < j2,
                0 <= width,
        ;
    } else if j2 < j1 {
        assert(j2 * width + width <= j1 * width) by (nonlinear_arith)
            requires
                j2 < j1,
                0 <= width,
        ;
    }
}

/// `after` is `before` with pixel `(x, y)` set to `color`, if that pixel is in
/// the frame, and nothing else changed.
pub open spec fn pointed(after: Framebuffer, before: Framebuffer, x: int, y: int, color: u32) -> bool {
    &&& after.wf()
    &&& after.same_frame(&before)
    &&& forall|i: int, j: int|
        after.in_bounds(i, j) ==> #[trigger] after.pixel(i, j) == if i == x && j == y {
            color
        } else {
            before.pixel(i, j)
        }
}

/// `after` is `before` with the part of rectangle `(x, y, w, h)` inside the
/// frame painted `color`, and nothing else changed.
pub open spec fn filled(
    after: Framebuffer,
    before: Framebuffer,
    x: int,
    y: int,
    w: int,
    h: int,
    color: u32,
) -> bool {
    &&& after.wf()
    &&& after.same_frame(&before)
    &&& forall|i: int, j: int|
        after.in_bounds(i, j) ==> #[trigger] after.pixel(i, j) == if in_rect(i, j, x, y, w, h) {
            color
        } else {
            before.pixel(i, j)
        }
}

/// `after` is `before` with the part of the outline of rectangle
/// `(x, y, w, h)` inside the frame painted `color`, and nothing else changed.
pub open spec fn outlined(
    after: Framebuffer,
    before: Framebuffer,
    x: int,
    y: int,
    w: int,
    h: int,
    color: u32,
) -> bool {
    &&& after.wf()
    &&& after.same_frame(&before)
    &&& forall|i: int, j: int|
        after.in_bounds(i, j) ==> #[trigger] after.pixel(i, j) == if on_border(i, j, x, y, w, h) {
            color
        } else {
            before.pixel(i, j)
        }
}

/// `after` is `before` with every entry of the buffer set to the background.
pub open spec fn cleared(after: Framebuffer, before: Framebuffer) -> bool {
    &&& after.same_frame(&before)
    &&& after.buffer@.len() == before.buffer@.len()
    &&& forall|k: int| 0 <= k < after.buffer@.len() ==> #[trigger] after.buffer@[k] == before.background()
}

/// `after` is `before` with the background color changed to `color`.
pub open spec fn background_set(after: Framebuffer, before: Framebuffer, color: u32) -> bool {
    &&& after.width == before.width
    &&& after.height == before.height
    &&& after.buffer@ == before.buffer@
    &&& after.background() == color
}

/// Two frames of one size whose pixels all agree hold the same buffer.
pub proof fn lemma_same_pixels_same_buffer(a: Framebuffer, b: Framebuffer)
    requires
        a.wf(),
        b.wf(),
        a.width == b.width,
        a.height == b.height,
        forall|i: int, j: int| a.in_bounds(i, j) ==> #[trigger] a.pixel(i, j) == b.pixel(i, j),
    ensures
        a.buffer@ == b.buffer@,
{
    let w = a.width as int;
    let h = a.height as int;
    assert forall|k: int| 0 <= k < a.buffer@.len() implies a.buffer@[k] == b.buffer@[k] by {
        assert(w > 0) by (nonlinear_arith)
            requires
                0 <= k < w * h,
                0 <= h,
                0 <= w,
        ;
        lemma_fundamental_div_mod(k, w);
        let i = k % w;
        let j = k / w;
        assert(j < h) by (nonlinear_arith)
            requires
                k == w * j + i,
                0 <= i,
                k < w * h,
                w > 0,
        ;
        assert(0 <= j) by (nonlinear_arith)
            requires
                k == w * j + i,
                0 <= k,
                i < w,
                w > 0,
        ;
        assert(a.in_bounds(i, j));
        assert(pixel_index(w, i, j) == k) by (nonlinear_arith)
            requires
                k == w * j + i,
        ;
        assert(a.pixel(i, j) == b.pixel(i, j));
    }
    assert(a.buffer@ =~= b.buffer@);
}

/// Drawing a point outside the frame changes nothing.
pub proof fn lemma_offscreen_point_is_ignored(
    after: Framebuffer,
    before: Framebuffer,
    x: int,
    y: int,
    color: u32,
)
    requires
        before.wf(),
        pointed(after, before, x, y, color),
        !before.in_bounds(x, y),
    ensures
        after.buffer@ == before.buffer@,
{
    lemma_same_pixels_same_buffer(after, before);
}

/// Filling a rectangle twice with one color leaves the frame as filling it once.
pub proof fn lemma_fill_is_idempotent(
    f0: Framebuffer,
    f1: Framebuffer,
    f2: Framebuffer,
    x: int,
    y: int,
    w: int,
    h: int,
    color: u32,
)
    requires
        filled(f1, f0, x, y, w, h, color),
        filled(f2, f1, x, y, w, h, color),
    ensures
        f2.buffer@ == f1.buffer@,
{
    lemma_same_pixels_same_buffer(f2, f1);
}

/// Drawing an outline leaves the pixels strictly inside it as they were.
pub proof fn lemma_outline_spares_inside(
    after: Framebuffer,
    before: Framebuffer,
    x: int,
    y: int,
    w: int,
    h: int,
    color: u32,
)
    requires
        outlined(after, before, x, y, w, h, color),
    ensures
        forall|i: int, j: int|
            after.in_bounds(i, j) && x < i < x + w - 1 && y < j < y + h - 1 ==> #[trigger] after.pixel(
                i,
                j,
            ) == before.pixel(i, j),
{
}

/// Setting the background color and then clearing paints every pixel with
/// that color.
pub proof fn lemma_clear_paints_background(
    f0: Framebuffer,
    f1: Framebuffer,
    f2: Framebuffer,
    color: u32,
)
    requires
        f0.wf(),
        background_set(f1, f0, color),
        cleared(f2, f1),
    ensures
        f2.wf(),
        forall|i: int, j: int| f2.in_bounds(i, j) ==> #[trigger] f2.pixel(i, j) == color,
{
    assert forall|i: int, j: int| f2.in_bounds(i, j) implies #[trigger] f2.pixel(i, j) == color by {
        lemma_pixel_index_bounds(f2.width as int, f2.height as int, i, j);
    }
}

/// A non-empty rectangle `(x, y, w, h)` holds its corners `(x, y)` and
/// `(x + w - 1, y + h - 1)` but no point just outside them; its outline holds
/// all four corners, and holds only points of the rectangle.
pub proof fn lemma_rect_shape(x: int, y: int, w: int, h: int, i: int, j: int)
    requires
        w > 0,
        h > 0,
    ensures
        in_rect(x, y, x, y, w, h),
        in_rect(x + w - 1, y + h - 1, x, y, w, h),
        !in_rect(x + w, y, x, y, w, h),
        !in_rect(x, y + h, x, y, w, h),
        !in_rect(x - 1, y, x, y, w, h),
        !in_rect(x, y - 1, x, y, w, h),
        on_border(x, y, x, y, w, h),
        on_border(x + w - 1, y, x, y, w, h),
        on_border(x, y + h - 1, x, y, w, h),
        on_border(x + w - 1, y + h - 1, x, y, w, h),
        on_border(i, j, x, y, w, h) ==> in_rect(i, j, x, y, w, h),
        x < i < x + w - 1 && y < j < y + h - 1 ==> !on_border(i, j, x, y, w, h),
        (i == x || i == x + w - 1) && y <= j < y + h ==> on_border(i, j, x, y, w, h),
        (j == y || j == y + h - 1) && x <= i < x + w ==> on_border(i, j, x, y, w, h),
{
}

impl Framebuffer {
    /// The buffer holds exactly one entry per pixel.
    pub open spec fn wf(&self) -> bool {
        self.buffer@.len() == self.width * self.height
    }

    /// The color that `clear` paints.
    pub open spec fn background(&self) -> u32 {
        self.background_color
    }

    pub open spec fn in_bounds(&self, i: int, j: int) -> bool {
        0 <= i < self.width && 0 <= j < self.height
    }

    /// The color of pixel `(i, j)`.
    pub open spec fn pixel(&self, i: int, j: int) -> u32 {
        self.buffer@[pixel_index(self.width as int, i, j)]
    }

    /// Same dimensions and background as `other`.
    pub open spec fn same_frame(&self, other: &Framebuffer) -> bool {
        &&& self.width == other.width
        &&& self.height == other.height
        &&& self.background() == other.background()
    }

    /// A `width` by `height` framebuffer, all pixels black, black background.
    pub fn new(width: usize, height: usize) -> (fb: Self)
        requires
            width * height <= usize::MAX,
        ensures
            fb.wf(),
            fb.width == width,
            fb.height == height,
            fb.background() == 0,
            forall|k: int| 0 <= k < fb.buffer@.len() ==> fb.buffer@[k] == 0,
    {
        let buffer = vec![0u32; width * height];
        Framebuffer { width, height, buffer, background_color: 0 }
    }

    /// Paints every entry of the buffer with the background color.
    pub fn clear(&mut self)
        ensures
            cleared(*final(self), *old(self)),
    {
        let n = self.buffer.len();
        let mut k: usize = 0;
        while k < n
            invariant
                n == self.buffer@.len(),
                k <= n,
                self.same_frame(&*old(self)),
                forall|m: int| 0 <= m < k ==> #[trigger] self.buffer@[m] == old(self).background(),
            decreases n - k,
        {
            let c = self.background_color;
            self.buffer[k] = c;
            k = k + 1;
        }
    }

    /// Sets pixel `(x, y)` to `color`; a point outside the frame is ignored.
    pub fn point_color(&mut self, x: usize, y: usize, color: u32)
        requires
            old(self).wf(),
        ensures
            pointed(*final(self), *old(self), x as int, y as int, color),
    {
        if x < self.width && y < self.height {
            proof {
                lemma_pixel_index_bounds(self.width as int, self.height as int, x as int, y as int);
                assert(self.buffer.len() == self.buffer@.len());
            }
            let idx = y * self.width + x;
            self.buffer[idx] = color;
            proof {
                assert forall|i: int, j: int| self.in_bounds(i, j) implies #[trigger] self.pixel(i, j)
                    == if i == x && j == y {
                    color
                } else {
                    old(self).pixel(i, j)
                } by {
                    lemma_pixel_index_bounds(self.width as int, self.height as int, i, j);
                    if pixel_index(self.width as int, i, j) == pixel_index(
                        self.width as int,
                        x as int,
                        y as int,
                    ) {
                        lemma_pixel_index_injective(self.width as int, i, j, x as int, y as int);
                    }
                }
            }
        }
    }

    /// Paints the rectangle `(x, y, w, h)` with `color`, clipped to the frame.
    pub fn fill_rect(&mut self, x: usize, y: usize, w: usize, h: usize, color: u32)
        requires
            old(self).wf(),
            x + w <= usize::MAX,
            y + h <= usize::MAX,
        ensures
            filled(*final(self), *old(self), x as int, y as int, w as int, h as int, color),
    {
        let y_end = y + h;
        let x_end = x + w;
        let mut j = y;
        while j < y_end
            invariant
                y <= j <= y_end,
                y_end == y + h,
                x_end == x + w,
                self.wf(),
                self.same_frame(&*old(self)),
                forall|p: int, q: int|
                    self.in_bounds(p, q) ==> #[trigger] self.pixel(p, q) == if in_rect(
                        p,
                        q,
                        x as int,
                        y as int,
                        w as int,
                        j - y,
                    ) {
                        color
                    } else {
                        old(self).pixel(p, q)
                    },
            decreases y_end - j,
        {
            let mut i = x;
            while i < x_end
                invariant
                    x <= i <= x_end,
                    y <= j < y_end,
                    y_end == y + h,
                    x_end == x + w,
                    self.wf(),
                    self.same_frame(&*old(self)),
                    forall|p: int, q: int|
                        self.in_bounds(p, q) ==> #[trigger] self.pixel(p, q) == if in_rect(
                            p,
                            q,
                            x as int,
                            y as int,
                            w as int,
                            j - y,
                        ) || (q == j && x <= p < i) {
                            color
                        } else {
                            old(self).pixel(p, q)
                        },
                decreases x_end - i,
            {
                self.point_color(i, j, color);
                i = i + 1;
            }
            j = j + 1;
        }
    }

    /// Draws the one-pixel outline of the rectangle `(x, y, w, h)` with `color`,
    /// clipped to the frame.
    pub fn rect_border(&mut self, x: usize, y: usize, w: usize, h: usize, color: u32)
        requires
            old(self).wf(),
            x + w <= usize::MAX,
            y + h <= usize::MAX,
        ensures
            outlined(*final(self), *old(self), x as int, y as int, w as int, h as int, color),
    {
        let bottom = y + h.saturating_sub(1);
        let right = x + w.saturating_sub(1);
        let x_end = x + w;
        let y_end = y + h;
        let mut i = x;
        while i < x_end
            invariant
                x <= i <= x_end,
                x_end == x + w,
                y_end == y + h,
                bottom == (if h > 0 { y + h - 1 } else { y as int }),
                right == (if w > 0 { x + w - 1 } else { x as int }),
                self.wf(),
                self.same_frame(&*old(self)),
                forall|p: int, q: int|
                    self.in_bounds(p, q) ==> #[trigger] self.pixel(p, q) == if x <= p < i && (q
                        == y || q == bottom) {
                        color
                    } else {
                        old(self).pixel(p, q)
                    },
            decreases x_end - i,
        {
            self.point_color(i, y, color);
            self.point_color(i, bottom, color);
            i = i + 1;
        }
        let mut j = y;
        while j < y_end
            invariant
                y <= j <= y_end,
                x_end == x + w,
                y_end == y + h,
                bottom == (if h > 0 { y + h - 1 } else { y as int }),
                right == (if w > 0 { x + w - 1 } else { x as int }),
                self.wf(),
                self.same_frame(&*old(self)),
                forall|p: int, q: int|
                    self.in_bounds(p, q) ==> #[trigger] self.pixel(p, q) == if (x <= p < x_end && (q
                        == y || q == bottom)) || (y <= q < j && (p == x || p == right)) {
                        color
                    } else {
                        old(self).pixel(p, q)
                    },
            decreases y_end - j,
        {
            self.point_color(x, j, color);
            self.point_color(right, j, color);
            j = j + 1;
        }
    }

    /// Paints whole rows: row `first + k` gets `colors[k]`, for every `k`;
    /// rows below the frame are ignored.
    pub fn paint_rows(&mut self, first: usize, colors: &Vec<u32>)
        requires
            old(self).wf(),
            first + colors@.len() <= usize::MAX,
        ensures
            final(self).wf(),
            final(self).same_frame(&*old(self)),
            forall|i: int, j: int|
                final(self).in_bounds(i, j) ==> #[trigger] final(self).pixel(i, j) == if first <= j
                    < first + colors@.len() {
                    colors@[j - first]
                } else {
                    old(self).pixel(i, j)
                },
    {
        let n = colors.len();
        let mut k: usize = 0;
        while k < n
            invariant
                n == colors@.len(),
                first + n <= usize::MAX,
                k <= n,
                self.wf(),
                self.same_frame(&*old(self)),
                forall|p: int, q: int|
                    self.in_bounds(p, q) ==> #[trigger] self.pixel(p, q) == if first <= q < first
                        + k {
                        colors@[q - first]
                    } else {
                        old(self).pixel(p, q)
                    },
            decreases n - k,
        {
            let color = colors[k];
            let row = first + k;
            let width = self.width;
            let mut i: usize = 0;
            while i < width
                invariant
                    n == colors@.len(),
                    first + n <= usize::MAX,
                    k < n,
                    row == first + k,
                    color == colors@[k as int],
                    width == self.width,
                    i <= width,
                    self.wf(),
                    self.same_frame(&*old(self)),
                    forall|p: int, q: int|
                        self.in_bounds(p, q) ==> #[trigger] self.pixel(p, q) == if (first <= q
                            < first + k) || (q == row && p < i) {
                            colors@[q - first]
                        } else {
                            old(self).pixel(p, q)
                        },
                decreases width - i,
            {
                self.point_color(i, row, color);
                i = i + 1;
            }
            k = k + 1;
        }
    }

    /// Paints a vertical strip `width` pixels wide: row `top + k` of columns
    /// `x .. x + width` gets `colors[k]`, for every `k`; the parts outside the
    /// frame are ignored.
    pub fn paint_strip(&mut self, x: usize, width: usize, top: usize, colors: &Vec<u32>)
        requires
            old(self).wf(),
            x + width <= usize::MAX,
            top + colors@.len() <= usize::MAX,
        ensures
            final(self).wf(),
            final(self).same_frame(&*old(self)),
            forall|i: int, j: int|
                final(self).in_bounds(i, j) ==> #[trigger] final(self).pixel(i, j) == if x <= i < x
                    + width && top <= j < top + colors@.len() {
                    colors@[j - top]
                } else {
                    old(self).pixel(i, j)
                },
    {
        let n = colors.len();
        let mut k: usize = 0;
        while k < n
            invariant
                n == colors@.len(),
                top + n <= usize::MAX,
                x + width <= usize::MAX,
                k <= n,
                self.wf(),
                self.same_frame(&*old(self)),
                forall|p: int, q: int|
                    self.in_bounds(p, q) ==> #[trigger] self.pixel(p, q) == if x <= p < x + width
                        && top <= q < top + k {
                        colors@[q - top]
                    } else {
                        old(self).pixel(p, q)
                    },
            decreases n - k,
        {
            let color = colors[k];
            let row = top + k;
            let mut offset: usize = 0;
            while offset < width
                invariant
                    n == colors@.len(),
                    top + n <= usize::MAX,
                    x + width <= usize::MAX,
                    k < n,
                    row == top + k,
                    color == colors@[k as int],
                    offset <= width,
                    self.wf(),
                    self.same_frame(&*old(self)),
                    forall|p: int, q: int|
                        self.in_bounds(p, q) ==> #[trigger] self.pixel(p, q) == if (x <= p < x
                            + width && top <= q < top + k) || (q == row && x <= p < x + offset) {
                            colors@[q - top]
                        } else {
                            old(self).pixel(p, q)
                        },
                decreases width - offset,
            {
                self.point_color(x + offset, row, color);
                offset = offset + 1;
            }
            k = k + 1;
        }
    }

    /// Sets the color that `clear` paints; the pixels are untouched.
    pub fn set_background_color(&mut self, color: u32)
        ensures
            background_set(*final(self), *old(self), color),
    {
        self.background_color = color;
    }
}

} // verus!
