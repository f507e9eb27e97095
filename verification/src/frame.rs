//! The frame renderer's work partition: a packed RGBA8 pixel buffer, the
//! division of the image into contiguous horizontal strips (one worker
//! each), and the reassembly of rendered strips into the frame.
//!
//! The partition is what makes the parallel renderer deterministic: strips
//! are disjoint, cover every row, and their reassembly does not depend on
//! the order workers finish in.

use vstd::prelude::*;

verus! {

use vstd::arithmetic::div_mod::{
    lemma_fundamental_div_mod,
    lemma_fundamental_div_mod_converse,
    lemma_mod_bound,
};

/// A packed RGBA8 pixel buffer: `width * height` pixels, row-major, top
/// row first, four bytes per pixel.
pub struct PixelBuf {
    pub width: usize,
    pub height: usize,
    pub data: Vec<u8>,
}

impl PixelBuf {
    /// The byte array covers every pixel exactly once.
    pub open spec fn wf(self) -> bool {
        &&& self.width * self.height * 4 <= usize::MAX
        &&& self.data@.len() == self.width * self.height * 4
    }

    /// The four bytes of pixel `(x, y)`: red, green, blue, alpha.
    pub open spec fn spec_pixel(self, x: int, y: int) -> (u8, u8, u8, u8) {
        let base = 4 * (y * self.width + x);
        (self.data@[base], self.data@[base + 1], self.data@[base + 2], self.data@[base + 3])
    }

    /// A black, fully transparent buffer of the given size.
    pub fn new_buf(width: usize, height: usize) -> (b: PixelBuf)
        requires
            width * height * 4 <= usize::MAX,
        ensures
            b.wf(),
            b.width == width,
            b.height == height,
            forall|x: int, y: int|
                0 <= x < width && 0 <= y < height ==> #[trigger] b.spec_pixel(x, y) == (
                0u8,
                0u8,
                0u8,
                0u8,
                ),
    {
        let total: usize = width * height * 4;
        let mut data: Vec<u8> = Vec::new();
        while data.len() < total
            invariant
                data@.len() <= total,
                forall|j: int| 0 <= j < data@.len() ==> data@[j] == 0u8,
            decreases total - data@.len(),
        {
            data.push(0u8);
        }
        let b = PixelBuf { width, height, data };
        proof {
            assert forall|x: int, y: int|
                0 <= x < width && 0 <= y < height implies #[trigger] b.spec_pixel(x, y) == (
            0u8,
            0u8,
            0u8,
            0u8,
            ) by {
                lemma_pixel_base_bounds(width as int, height as int, x, y);
            }
        }
        b
    }

    /// Writes pixel `(x, y)`; every other pixel keeps its bytes.
    pub fn set_pixel(&mut self, x: usize, y: usize, rgba: (u8, u8, u8, u8))
        requires
            old(self).wf(),
            x < old(self).width,
            y < old(self).height,
        ensures
            final(self).wf(),
            final(self).width == old(self).width,
            final(self).height == old(self).height,
            final(self).spec_pixel(x as int, y as int) == rgba,
            forall|xx: int, yy: int|
                0 <= xx < old(self).width && 0 <= yy < old(self).height && !(xx == x as int && yy
                    == y as int) ==> #[trigger] final(self).spec_pixel(xx, yy) == old(
                    self,
                ).spec_pixel(xx, yy),
    {
        proof {
            lemma_pixel_base_bounds(self.width as int, self.height as int, x as int, y as int);
        }
        let base: usize = 4 * (y * self.width + x);
        let (r, g, b, a) = rgba;
        self.data.set(base, r);
        self.data.set(base + 1, g);
        self.data.set(base + 2, b);
        self.data.set(base + 3, a);
        proof {
            assert forall|xx: int, yy: int|
                0 <= xx < self.width && 0 <= yy < self.height && !(xx == x as int && yy
                    == y as int) implies #[trigger] self.spec_pixel(xx, yy) == old(
                self,
            ).spec_pixel(xx, yy) by {
                lemma_pixel_base_bounds(self.width as int, self.height as int, xx, yy);
                lemma_pixel_base_injective(
                    self.width as int,
                    self.height as int,
                    xx,
                    yy,
                    x as int,
                    y as int,
                );
            }
        }
    }

    /// Reads pixel `(x, y)`.
    pub fn get_pixel(&self, x: usize, y: usize) -> (rgba: (u8, u8, u8, u8))
        requires
            self.wf(),
            x < self.width,
            y < self.height,
        ensures
            rgba == self.spec_pixel(x as int, y as int),
    {
        proof {
            lemma_pixel_base_bounds(self.width as int, self.height as int, x as int, y as int);
        }
        let base: usize = 4 * (y * self.width + x);
        (self.data[base], self.data[base + 1], self.data[base + 2], self.data[base + 3])
    }
}

/// An in-bounds pixel's four bytes lie within the buffer.
proof fn lemma_pixel_base_bounds(w: int, h: int, x: int, y: int)
    requires
        0 <= x < w,
        0 <= y < h,
    ensures
        0 <= 4 * (y * w + x),
        4 * (y * w + x) + 3 < w * h * 4,
        4 * (y * w + x) <= 4 * ((h - 1) * w + (w - 1)),
{
    assert(0 <= 4 * (y * w + x) && 4 * (y * w + x) + 3 < w * h * 4 && 4 * (y * w + x) <= 4 * ((h
        - 1) * w + (w - 1))) by (nonlinear_arith)
        requires
            0 <= x < w,
            0 <= y < h,
    ;
}

/// Distinct pixels own disjoint byte ranges.
proof fn lemma_pixel_base_injective(w: int, h: int, x1: int, y1: int, x2: int, y2: int)
    requires
        0 <= x1 < w,
        0 <= y1 < h,
        0 <= x2 < w,
        0 <= y2 < h,
        !(x1 == x2 && y1 == y2),
    ensures
        4 * (y1 * w + x1) + 4 <= 4 * (y2 * w + x2) || 4 * (y2 * w + x2) + 4 <= 4 * (y1 * w + x1),
{
    assert(4 * (y1 * w + x1) + 4 <= 4 * (y2 * w + x2) || 4 * (y2 * w + x2) + 4 <= 4 * (y1 * w
        + x1)) by (nonlinear_arith)
        requires
            0 <= x1 < w,
            0 <= y1 < h,
            0 <= x2 < w,
            0 <= y2 < h,
            !(x1 == x2 && y1 == y2),
    ;
}

/// The number of workers a frame uses: the machine's parallelism, but
/// never more than one worker per row.
pub fn worker_count(parallelism: usize, height: usize) -> (n: usize)
    requires
        parallelism >= 1,
        height >= 1,
    ensures
        n == if parallelism <= height {
            parallelism as int
        } else {
            height as int
        },
        1 <= n <= height,
{
    if parallelism <= height {
        parallelism
    } else {
        height
    }
}

/// Rows per strip: the image height divided by the worker count, rounded
/// up.
pub open spec fn spec_rows_per(height: int, workers: int) -> int {
    (height + workers - 1) / workers
}

/// The first row of strip `t`: `t` full strips down, but never past the
/// bottom of the image. Trailing strips of a partition may be empty.
pub open spec fn spec_strip_start(t: int, rows_per: int, height: int) -> int {
    if t * rows_per < height {
        t * rows_per
    } else {
        height
    }
}

/// The row one past the last of strip `t`.
pub open spec fn spec_strip_end(t: int, rows_per: int, height: int) -> int {
    spec_strip_start(t + 1, rows_per, height)
}

/// Rows per strip for `workers` workers on `height` rows.
pub fn rows_per_strip(height: usize, workers: usize) -> (r: usize)
    requires
        1 <= workers <= height,
        height + workers <= usize::MAX,
    ensures
        r == spec_rows_per(height as int, workers as int),
        r >= 1,
        r * workers >= height,
{
    let r = (height + workers - 1) / workers;
    proof {
        let x = height as int + workers - 1;
        let n = workers as int;
        lemma_fundamental_div_mod(x, n);
        lemma_mod_bound(x, n);
        assert(x / n >= 1 && (x / n) * n >= height) by (nonlinear_arith)
            requires
                x == n * (x / n) + x % n,
                0 <= x % n < n,
                n >= 1,
                x == height + n - 1,
                height >= n,
        ;
    }
    r
}

/// The rows of strip `t`, as a half-open range.
pub fn strip_bounds(t: usize, rows_per: usize, height: usize) -> (se: (usize, usize))
    requires
        rows_per >= 1,
        t <= height,  // more strips than rows are never asked for
        t * rows_per + rows_per <= usize::MAX,
    ensures
        se.0 == spec_strip_start(t as int, rows_per as int, height as int),
        se.1 == spec_strip_end(t as int, rows_per as int, height as int),
        se.0 <= se.1 <= height,
{
    let lo = t * rows_per;
    let start = if lo < height {
        lo
    } else {
        height
    };
    let hi = lo + rows_per;
    proof {
        assert((t as int + 1) * rows_per == t as int * rows_per + rows_per) by (nonlinear_arith);
        assert(t as int * rows_per <= (t as int + 1) * rows_per) by (nonlinear_arith)
            requires
                rows_per >= 1,
                t >= 0,
        ;
    }
    let end = if hi < height {
        hi
    } else {
        height
    };
    (start, end)
}

/// The strip partition is exact: strips are contiguous (each begins where
/// the one before ends), the first begins at the top row, the last ends at
/// the bottom row, and every row lies in exactly the strip its index
/// selects.
pub proof fn lemma_strip_partition(height: int, workers: int)
    requires
        1 <= workers <= height,
    ensures
        spec_strip_start(0, spec_rows_per(height, workers), height) == 0,
        spec_strip_start(workers, spec_rows_per(height, workers), height) == height,
        forall|t: int|
            #[trigger] spec_strip_end(t, spec_rows_per(height, workers), height)
                == spec_strip_start(t + 1, spec_rows_per(height, workers), height),
        forall|y: int|
            #![trigger y / spec_rows_per(height, workers)]
            0 <= y < height ==> {
                let r = spec_rows_per(height, workers);
                let t = y / r;
                &&& 0 <= t < workers
                &&& spec_strip_start(t, r, height) <= y < spec_strip_end(t, r, height)
            },
{
    let r = spec_rows_per(height, workers);
    let x = height + workers - 1;
    lemma_fundamental_div_mod(x, workers);
    lemma_mod_bound(x, workers);
    assert(r >= 1 && r * workers >= height) by (nonlinear_arith)
        requires
            x == workers * r + x % workers,
            0 <= x % workers < workers,
            workers >= 1,
            x == height + workers - 1,
            height >= workers,
    ;
    assert(spec_strip_start(workers, r, height) == height) by {
        assert(workers * r >= height) by (nonlinear_arith)
            requires
                r * workers >= height,
        ;
    }
    assert forall|y: int|
        #![trigger y / spec_rows_per(height, workers)]
        0 <= y < height implies {
        let t = y / r;
        &&& 0 <= t < workers
        &&& spec_strip_start(t, r, height) <= y < spec_strip_end(t, r, height)
    } by {
        let t = y / r;
        lemma_fundamental_div_mod(y, r);
        lemma_mod_bound(y, r);
        assert(t * r <= y < t * r + r) by (nonlinear_arith)
            requires
                y == r * t + y % r,
                0 <= y % r < r,
        ;
        assert(t >= 0) by (nonlinear_arith)
            requires
                y < t * r + r,
                0 <= y,
                r >= 1,
        ;
        assert(t < workers) by (nonlinear_arith)
            requires
                t * r <= y,
                y < height,
                r * workers >= height,
                r >= 1,
        ;
        assert((t + 1) * r == t * r + r) by (nonlinear_arith);
        assert(spec_strip_start(t, r, height) == t * r);
        assert(y < spec_strip_end(t, r, height));
    }
}

/// Reassembles rendered strips into the frame: strip `t` supplies the rows
/// from its start to its end, in order. The strips are disjoint, so the
/// frame does not depend on the order they were rendered in.
#[verifier::rlimit(60)]
pub fn assemble_strips(width: usize, height: usize, rows_per: usize, strips: &Vec<PixelBuf>) -> (img:
    PixelBuf)
    requires
        width * height * 4 <= usize::MAX,
        rows_per >= 1,
        spec_strip_start(strips@.len() as int, rows_per as int, height as int) == height,
        forall|t: int|
            0 <= t < strips@.len() ==> (#[trigger] strips@[t]).wf() && strips@[t].width == width
                && strips@[t].height == spec_strip_end(t, rows_per as int, height as int)
                - spec_strip_start(t, rows_per as int, height as int),
    ensures
        img.wf(),
        img.width == width,
        img.height == height,
        forall|x: int, y: int|
            0 <= x < width && 0 <= y < height ==> #[trigger] img.spec_pixel(x, y)
                == strips@[y / (rows_per as int)].spec_pixel(
                x,
                y - spec_strip_start(y / (rows_per as int), rows_per as int, height as int),
            ),
{
    let ghost r = rows_per as int;
    let mut img = PixelBuf::new_buf(width, height);
    let mut t: usize = 0;
    let mut y0: usize = 0;
    while t < strips.len()
        invariant
            t <= strips@.len(),
            r == rows_per as int,
            rows_per >= 1,
            img.wf(),
            img.width == width,
            img.height == height,
            y0 == spec_strip_start(t as int, r, height as int),
            y0 <= height,
            spec_strip_start(strips@.len() as int, r, height as int) == height,
            forall|tt: int|
                0 <= tt < strips@.len() ==> (#[trigger] strips@[tt]).wf() && strips@[tt].width
                    == width && strips@[tt].height == spec_strip_end(tt, r, height as int)
                    - spec_strip_start(tt, r, height as int),
            forall|x: int, y: int|
                0 <= x < width && 0 <= y < y0 ==> #[trigger] img.spec_pixel(x, y) == strips@[y
                    / r].spec_pixel(x, y - spec_strip_start(y / r, r, height as int)),
        decreases strips@.len() - t,
    {
        let sh = strips[t].height;
        proof {
            lemma_strip_monotonic(t as int, r, height as int);
        }
        let mut yy: usize = 0;
        while yy < sh
            invariant
                yy <= sh,
                t < strips@.len(),
                r == rows_per as int,
                rows_per >= 1,
                img.wf(),
                img.width == width,
                img.height == height,
                y0 == spec_strip_start(t as int, r, height as int),
                sh == strips@[t as int].height,
                y0 + sh == spec_strip_end(t as int, r, height as int),
                y0 + sh <= height,
                strips@[t as int].wf(),
                strips@[t as int].width == width,
                forall|x: int, y: int|
                    0 <= x < width && 0 <= y < y0 + yy ==> #[trigger] img.spec_pixel(x, y)
                        == strips@[y / r].spec_pixel(
                        x,
                        y - spec_strip_start(y / r, r, height as int),
                    ),
            decreases sh - yy,
        {
            let y = y0 + yy;
            proof {
                lemma_row_in_strip(t as int, r, height as int, y as int);
            }
            let mut x: usize = 0;
            while x < width
                invariant
                    x <= width,
                    yy < sh,
                    t < strips@.len(),
                    r == rows_per as int,
                    rows_per >= 1,
                    img.wf(),
                    img.width == width,
                    img.height == height,
                    y == y0 + yy,
                    y < height,
                    y0 == spec_strip_start(t as int, r, height as int),
                    sh == strips@[t as int].height,
                    y0 + sh == spec_strip_end(t as int, r, height as int),
                    y0 + sh <= height,
                    strips@[t as int].wf(),
                    strips@[t as int].width == width,
                    y as int / r == t as int,
                    forall|xx: int, yyy: int|
                        0 <= xx < width && 0 <= yyy < y ==> #[trigger] img.spec_pixel(xx, yyy)
                            == strips@[yyy / r].spec_pixel(
                            xx,
                            yyy - spec_strip_start(yyy / r, r, height as int),
                        ),
                    forall|xx: int|
                        0 <= xx < x ==> #[trigger] img.spec_pixel(xx, y as int)
                            == strips@[t as int].spec_pixel(xx, yy as int),
                decreases width - x,
            {
                let p = strips[t].get_pixel(x, yy);
                img.set_pixel(x, y, p);
                x = x + 1;
            }
            yy = yy + 1;
            proof {
                assert forall|x: int, y2: int|
                    0 <= x < width && 0 <= y2 < y0 + yy implies #[trigger] img.spec_pixel(x, y2)
                    == strips@[y2 / r].spec_pixel(
                    x,
                    y2 - spec_strip_start(y2 / r, r, height as int),
                ) by {
                    if y2 == y as int {
                        assert(y2 / r == t as int);
                    }
                }
            }
        }
        t = t + 1;
        y0 = y0 + sh;
    }
    proof {
        assert(y0 == height);
    }
    img
}

/// Strip bounds never move backward.
proof fn lemma_strip_monotonic(t: int, r: int, height: int)
    requires
        r >= 1,
        t >= 0,
    ensures
        spec_strip_start(t, r, height) <= spec_strip_end(t, r, height) <= height,
{
    assert(t * r <= (t + 1) * r) by (nonlinear_arith)
        requires
            r >= 1,
            t >= 0,
    ;
}

/// A row inside strip `t`'s range belongs to strip `t`.
proof fn lemma_row_in_strip(t: int, r: int, height: int, y: int)
    requires
        r >= 1,
        t >= 0,
        spec_strip_start(t, r, height) <= y < spec_strip_end(t, r, height),
    ensures
        y / r == t,
        y < height,
{
    assert(spec_strip_start(t, r, height) == t * r);
    assert(y < (t + 1) * r);
    assert((t + 1) * r == t * r + r) by (nonlinear_arith);
    lemma_fundamental_div_mod_converse(y, r, t, y - t * r);
}

/// Reassembly reproduces the single-pass frame: when every strip holds
/// exactly its rows of one whole image, the assembled frame has that
/// image's pixels everywhere. The parallel renderer therefore returns the
/// same pixels as the sequential one, whatever the worker count.
pub proof fn lemma_assembly_reproduces_frame(
    assembled: PixelBuf,
    full: PixelBuf,
    strips: Seq<PixelBuf>,
    width: int,
    height: int,
    r: int,
)
    requires
        r >= 1,
        spec_strip_start(strips.len() as int, r, height) == height,
        forall|x: int, y: int|
            0 <= x < width && 0 <= y < height ==> #[trigger] assembled.spec_pixel(x, y)
                == strips[y / r].spec_pixel(x, y - spec_strip_start(y / r, r, height)),
        forall|t: int, x: int, yy: int|
            0 <= t < strips.len() && 0 <= x < width && 0 <= yy < spec_strip_end(t, r, height)
                - spec_strip_start(t, r, height) ==> #[trigger] strips[t].spec_pixel(x, yy)
                == full.spec_pixel(x, spec_strip_start(t, r, height) + yy),
    ensures
        forall|x: int, y: int|
            0 <= x < width && 0 <= y < height ==> #[trigger] assembled.spec_pixel(x, y)
                == full.spec_pixel(x, y),
{
    assert forall|x: int, y: int|
        0 <= x < width && 0 <= y < height implies #[trigger] assembled.spec_pixel(x, y)
        == full.spec_pixel(x, y) by {
        let t = y / r;
        lemma_fundamental_div_mod(y, r);
        lemma_mod_bound(y, r);
        assert(t * r <= y < t * r + r) by (nonlinear_arith)
            requires
                y == r * t + y % r,
                0 <= y % r < r,
        ;
        assert(t >= 0) by (nonlinear_arith)
            requires
                y < t * r + r,
                0 <= y,
                r >= 1,
        ;
        lemma_strips_cover(strips.len() as int, t, r, height);
        assert(t < strips.len());
        assert(spec_strip_start(t, r, height) == t * r);
        assert(y < spec_strip_end(t, r, height)) by {
            assert((t + 1) * r == t * r + r) by (nonlinear_arith);
        }
        assert(strips[t].spec_pixel(x, y - t * r) == full.spec_pixel(x, t * r + (y - t * r)));
    }
}

/// A strip index whose strip begins before the bottom row lies below the
/// strip count.
proof fn lemma_strips_cover(n: int, t: int, r: int, height: int)
    requires
        r >= 1,
        t >= 0,
        spec_strip_start(n, r, height) == height,
        spec_strip_start(t, r, height) < height,
    ensures
        t < n,
{
    if t >= n {
        assert(n * r <= t * r) by (nonlinear_arith)
            requires
                r >= 1,
                n <= t,
        ;
    }
}

/// Two well-formed buffers of one size with the same pixels are
/// byte-identical.
pub proof fn lemma_equal_pixels_equal_bytes(a: PixelBuf, b: PixelBuf)
    requires
        a.wf(),
        b.wf(),
        a.width == b.width,
        a.height == b.height,
        forall|x: int, y: int|
            0 <= x < a.width && 0 <= y < a.height ==> #[trigger] a.spec_pixel(x, y)
                == b.spec_pixel(x, y),
    ensures
        a.data@ == b.data@,
{
    let w = a.width as int;
    let h = a.height as int;
    assert forall|i: int| 0 <= i < a.data@.len() implies a.data@[i] == b.data@[i] by {
        let p = i / 4;
        let c = i % 4;
        lemma_fundamental_div_mod(i, 4);
        lemma_mod_bound(i, 4);
        let y = p / w;
        let x = p % w;
        assert(w * h * 4 > 0);
        assert(w >= 1 && h >= 1) by (nonlinear_arith)
            requires
                w * h * 4 > 0,
                w >= 0,
                h >= 0,
        ;
        lemma_fundamental_div_mod(p, w);
        lemma_mod_bound(p, w);
        assert(p < w * h) by (nonlinear_arith)
            requires
                i == 4 * p + c,
                0 <= c < 4,
                i < w * h * 4,
        ;
        assert(0 <= y < h && 0 <= x < w) by (nonlinear_arith)
            requires
                p == w * y + x,
                0 <= x < w,
                0 <= p < w * h,
                w >= 1,
        ;
        assert(a.spec_pixel(x, y) == b.spec_pixel(x, y));
        assert(i == 4 * (y * w + x) + c) by (nonlinear_arith)
            requires
                i == 4 * p + c,
                p == w * y + x,
        ;
        if c == 0 {
            assert(a.data@[4 * (y * w + x)] == b.data@[4 * (y * w + x)]);
        } else if c == 1 {
            assert(a.data@[4 * (y * w + x) + 1] == b.data@[4 * (y * w + x) + 1]);
        } else if c == 2 {
            assert(a.data@[4 * (y * w + x) + 2] == b.data@[4 * (y * w + x) + 2]);
        } else {
            assert(a.data@[4 * (y * w + x) + 3] == b.data@[4 * (y * w + x) + 3]);
        }
    }
    assert(a.data@ =~= b.data@);
}

} // verus!
