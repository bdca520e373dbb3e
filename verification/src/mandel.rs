//! The escape-time fractal renderer.
//!
//! A pixel maps to a point `c` of the complex plane through the view
//! transform, and the iteration `z <- z^2 + c` from `z = 0` runs until
//! `|z|^2` exceeds 4 or the iteration budget is spent. The iteration
//! count picks the pixel's color; the interior is black. All plane
//! arithmetic is fixed point (`fixed::SCALE` ticks per unit), with
//! every product truncated toward zero.

use vstd::prelude::*;
use crate::fixed::{SCALE, tdiv, spec_fmul, fmul, div_trunc, lemma_mul_magnitude,
    lemma_tdiv_magnitude, lemma_fmul_magnitude};
use crate::color::{Rgba, mandelbrot_color, green_of, blue_of};

verus! {

/// Largest magnitude of a plane coordinate the iteration accepts.
pub const COORD_BOUND: i64 = 40_000_000_000;

/// Largest center magnitude the renderer accepts.
pub const CENTER_BOUND: i64 = 4_000_000_000;

/// Largest zoom the renderer accepts, in fixed point.
pub const ZOOM_BOUND: i64 = 4_000_000_000;

/// Largest display aspect ratio the renderer accepts, in fixed point.
pub const ASPECT_BOUND: i64 = 8_000_000_000;

/// The rectangular view of the plane that one frame shows: its center,
/// its zoom (half-height of the view in plane units) and the display
/// aspect ratio, all in fixed point.
#[derive(Clone, Copy, PartialEq, Eq, Structural, Debug)]
pub struct Viewport {
    pub center_x: i64,
    pub center_y: i64,
    pub zoom: i64,
    pub aspect: i64,
}

impl Viewport {
    /// Bounds under which every pixel of the view maps inside
    /// `COORD_BOUND` and no intermediate value overflows.
    pub open spec fn wf(self) -> bool {
        &&& -CENTER_BOUND <= self.center_x <= CENTER_BOUND
        &&& -CENTER_BOUND <= self.center_y <= CENTER_BOUND
        &&& 0 < self.zoom <= ZOOM_BOUND
        &&& 0 < self.aspect <= ASPECT_BOUND
    }
}

/// Squared magnitude of `z` in fixed point.
pub open spec fn norm2(zx: int, zy: int) -> int {
    spec_fmul(zx, zx) + spec_fmul(zy, zy)
}

/// The escape test: `|z|^2 > 4`.
pub open spec fn escaped(zx: int, zy: int) -> bool {
    norm2(zx, zy) > 4 * (SCALE as int)
}

/// Real part of `z^2 + c`.
pub open spec fn step_re(zx: int, zy: int, cx: int) -> int {
    spec_fmul(zx, zx) - spec_fmul(zy, zy) + cx
}

/// Imaginary part of `z^2 + c`.
pub open spec fn step_im(zx: int, zy: int, cy: int) -> int {
    2 * spec_fmul(zx, zy) + cy
}

/// Number of iteration steps from `z` that stay within the escape
/// bound, counting at most `fuel` steps: the step that escapes is not
/// counted, and a point that never escapes spends all its fuel.
pub open spec fn esc_count(zx: int, zy: int, cx: int, cy: int, fuel: nat) -> nat
    decreases fuel,
{
    if fuel == 0 {
        0
    } else {
        let nx = step_re(zx, zy, cx);
        let ny = step_im(zx, zy, cy);
        if escaped(nx, ny) {
            0
        } else {
            1 + esc_count(nx, ny, cx, cy, (fuel - 1) as nat)
        }
    }
}

/// The escape time of plane point `c` under budget `max_iter`.
pub open spec fn escape_time(cx: int, cy: int, max_iter: nat) -> nat {
    esc_count(0, 0, cx, cy, max_iter)
}

/// A fixed-point square is non-negative.
proof fn lemma_fsquare_nonneg(z: int)
    ensures
        0 <= spec_fmul(z, z),
{
    assert(0 <= z * z) by (nonlinear_arith);
    vstd::arithmetic::div_mod::lemma_div_pos_is_pos(z * z, SCALE as int);
}

/// A value whose fixed-point square is at most 4 lies within 2 units.
proof fn lemma_unescaped_bound(z: int)
    requires
        spec_fmul(z, z) <= 4 * (SCALE as int),
    ensures
        -2 * (SCALE as int) <= z <= 2 * (SCALE as int),
{
    lemma_fsquare_nonneg(z);
    vstd::arithmetic::div_mod::lemma_fundamental_div_mod(z * z, SCALE as int);
    vstd::arithmetic::div_mod::lemma_mod_division_less_than_divisor(z * z, SCALE as int);
    assert(z * z <= 4 * (SCALE as int) * (SCALE as int) + SCALE - 1);
    assert(-2 * (SCALE as int) <= z <= 2 * (SCALE as int)) by (nonlinear_arith)
        requires
            z * z <= 4 * (SCALE as int) * (SCALE as int) + SCALE - 1,
    ;
}

/// Run the escape-time iteration for one plane point, and return how
/// many steps stayed within the escape bound, capped at `max_iter`.
pub fn escape_iters(cx: i64, cy: i64, max_iter: u32) -> (it: u32)
    requires
        -COORD_BOUND <= cx <= COORD_BOUND,
        -COORD_BOUND <= cy <= COORD_BOUND,
    ensures
        it as nat == escape_time(cx as int, cy as int, max_iter as nat),
        it <= max_iter,
{
    let mut zx: i64 = 0;
    let mut zy: i64 = 0;
    let mut it: u32 = 0;
    proof {
        vstd::arithmetic::div_mod::lemma_div_of0(SCALE as int);
    }
    while it < max_iter
        invariant
            it <= max_iter,
            -COORD_BOUND <= cx <= COORD_BOUND,
            -COORD_BOUND <= cy <= COORD_BOUND,
            norm2(zx as int, zy as int) <= 4 * (SCALE as int),
            -2 * (SCALE as int) <= zx as int <= 2 * (SCALE as int),
            -2 * (SCALE as int) <= zy as int <= 2 * (SCALE as int),
            escape_time(cx as int, cy as int, max_iter as nat) == it
                + esc_count(zx as int, zy as int, cx as int, cy as int, (max_iter - it) as nat),
        decreases max_iter - it,
    {
        let zx2: i64 = fmul(zx, zx);
        let zy2: i64 = fmul(zy, zy);
        let zxy: i64 = fmul(zx, zy);
        proof {
            lemma_fsquare_nonneg(zx as int);
            lemma_fsquare_nonneg(zy as int);
            assert(2 * (SCALE as int) * (2 * (SCALE as int)) == 4_000_000_000_000_000_000)
                by (nonlinear_arith);
            lemma_fmul_magnitude(zx as int, zy as int, 2 * (SCALE as int), 2 * (SCALE as int));
            assert(tdiv(4_000_000_000_000_000_000, SCALE as int) == 4 * (SCALE as int));
        }
        let nx: i64 = zx2 - zy2 + cx;
        let ny: i64 = 2 * zxy + cy;
        proof {
            assert(48 * (SCALE as int) * (48 * (SCALE as int)) == 2_304_000_000_000_000_000_000)
                by (nonlinear_arith);
            lemma_fmul_magnitude(nx as int, nx as int, 48 * (SCALE as int), 48 * (SCALE as int));
            lemma_fmul_magnitude(ny as int, ny as int, 48 * (SCALE as int), 48 * (SCALE as int));
            assert(tdiv(2_304_000_000_000_000_000_000, SCALE as int) == 2_304_000_000_000);
        }
        let nx2: i64 = fmul(nx, nx);
        let ny2: i64 = fmul(ny, ny);
        proof {
            assert(step_re(zx as int, zy as int, cx as int) == nx as int);
            assert(step_im(zx as int, zy as int, cy as int) == ny as int);
        }
        if nx2 + ny2 > 4 * SCALE {
            proof {
                assert(escaped(nx as int, ny as int));
                assert(esc_count(zx as int, zy as int, cx as int, cy as int,
                    (max_iter - it) as nat) == 0);
            }
            return it;
        }
        proof {
            lemma_fsquare_nonneg(nx as int);
            lemma_fsquare_nonneg(ny as int);
            lemma_unescaped_bound(nx as int);
            lemma_unescaped_bound(ny as int);
        }
        zx = nx;
        zy = ny;
        it = it + 1;
    }
    proof {
        assert(esc_count(zx as int, zy as int, cx as int, cy as int, 0nat) == 0);
    }
    it
}

/// Horizontal plane-local offset of pixel column `x` before the view
/// transform: `(2x + 1 - w) / w` scaled by the aspect ratio.
pub open spec fn local_x(x: int, w: int, aspect: int) -> int {
    tdiv((2 * x + 1 - w) * aspect, w)
}

/// Vertical plane-local offset of pixel row `y`: `(2y + 1 - h) / h` in
/// fixed point.
pub open spec fn local_y(y: int, h: int) -> int {
    tdiv((2 * y + 1 - h) * (SCALE as int), h)
}

/// The plane point sampled at the center of pixel `(x, y)`.
pub open spec fn pixel_cx(v: Viewport, x: int, w: int) -> int {
    v.center_x as int + spec_fmul(v.zoom as int, local_x(x, w, v.aspect as int))
}

/// The plane point sampled at the center of pixel `(x, y)`.
pub open spec fn pixel_cy(v: Viewport, y: int, h: int) -> int {
    v.center_y as int + spec_fmul(v.zoom as int, local_y(y, h))
}

/// Escape time of the plane point that pixel `(x, y)` samples.
pub open spec fn pixel_iters(v: Viewport, x: int, y: int, w: int, h: int, max_iter: nat) -> nat {
    escape_time(pixel_cx(v, x, w), pixel_cy(v, y, h), max_iter)
}

/// The four bytes of pixel `(x, y)` in `bytes` hold its color: red 0,
/// the palette's green and blue for its escape time, alpha 255, and
/// black for the interior.
pub open spec fn pixel_ok(bytes: Seq<u8>, v: Viewport, x: int, y: int, w: int, h: int,
    max_iter: nat) -> bool {
    let n = pixel_iters(v, x, y, w, h, max_iter);
    let base = 4 * (y * w + x);
    &&& bytes[base] == 0
    &&& bytes[base + 1] as int == (if n == max_iter {
        0int
    } else {
        green_of(n as int, max_iter as int)
    })
    &&& bytes[base + 2] as int == (if n == max_iter {
        0int
    } else {
        blue_of(n as int, max_iter as int)
    })
    &&& bytes[base + 3] == 255
}

/// `pixel_ok` at a flat row-major pixel index.
pub open spec fn pixel_ok_at(bytes: Seq<u8>, v: Viewport, q: int, w: int, h: int,
    max_iter: nat) -> bool {
    pixel_ok(bytes, v, q % w, q / w, w, h, max_iter)
}

/// Number of interior pixels among the first `k` pixels in row-major
/// order.
pub open spec fn interior_count(v: Viewport, w: int, h: int, max_iter: nat, k: int) -> int
    decreases k,
{
    if k <= 0 {
        0
    } else {
        interior_count(v, w, h, max_iter, k - 1)
            + (if pixel_iters(v, (k - 1) % w, (k - 1) / w, w, h, max_iter) == max_iter {
            1int
        } else {
            0int
        })
    }
}

/// The plane point of every pixel of a well-formed view is in bounds
/// for the iteration.
proof fn lemma_pixel_in_bounds(v: Viewport, x: int, y: int, w: int, h: int)
    requires
        v.wf(),
        0 < w,
        0 < h,
        0 <= x < w,
        0 <= y < h,
    ensures
        -COORD_BOUND <= pixel_cx(v, x, w) <= COORD_BOUND,
        -COORD_BOUND <= pixel_cy(v, y, h) <= COORD_BOUND,
        -ASPECT_BOUND as int <= local_x(x, w, v.aspect as int) <= ASPECT_BOUND as int,
        -(SCALE as int) <= local_y(y, h) <= SCALE as int,
{
    assert(-(ASPECT_BOUND as int * w) <= (2 * x + 1 - w) * (v.aspect as int) <= ASPECT_BOUND as int * w)
        by (nonlinear_arith)
        requires
            0 <= x < w,
            0 < v.aspect as int <= ASPECT_BOUND as int,
    ;
    lemma_tdiv_magnitude((2 * x + 1 - w) * (v.aspect as int), w, ASPECT_BOUND as int);
    assert(-((SCALE as int) * h) <= (2 * y + 1 - h) * (SCALE as int) <= (SCALE as int) * h)
        by (nonlinear_arith)
        requires
            0 <= y < h,
    ;
    lemma_tdiv_magnitude((2 * y + 1 - h) * (SCALE as int), h, SCALE as int);
    assert(ZOOM_BOUND as int * (ASPECT_BOUND as int) == 32_000_000_000_000_000_000)
        by (nonlinear_arith);
    lemma_fmul_magnitude(v.zoom as int, local_x(x, w, v.aspect as int), ZOOM_BOUND as int, ASPECT_BOUND as int);
    assert(tdiv(32_000_000_000_000_000_000, SCALE as int) == 32_000_000_000);
    assert(ZOOM_BOUND as int * (SCALE as int) == 4_000_000_000_000_000_000) by (nonlinear_arith);
    lemma_fmul_magnitude(v.zoom as int, local_y(y, h), ZOOM_BOUND as int, SCALE as int);
    assert(tdiv(4_000_000_000_000_000_000, SCALE as int) == 4_000_000_000);
}

/// Fill `buf` with one RGBA8 frame of the view and return how many of
/// its pixels are interior. The buffer holds `width * height` pixels in
/// row-major order, four bytes each, and every byte is rewritten.
pub fn render_frame(buf: &mut Vec<u8>, width: usize, height: usize, view: Viewport, max_iter: u32)
    -> (interior: u64)
    requires
        old(buf).len() == width * height * 4,
        1 <= width <= 32768,
        1 <= height <= 16384,
        view.wf(),
        1 <= max_iter,
    ensures
        final(buf).len() == old(buf).len(),
        interior as int == interior_count(view, width as int, height as int, max_iter as nat,
            width as int * height as int),
        interior as int <= width as int * height as int,
        forall|x: int, y: int|
            0 <= x < width && 0 <= y < height ==> pixel_ok(final(buf)@, view, x, y, width as int,
                height as int, max_iter as nat),
{
    let n: usize = width * height;
    let mut p: usize = 0;
    let mut interior: u64 = 0;
    while p < n
        invariant
            n == width * height,
            buf.len() == width * height * 4,
            1 <= width <= 32768,
            1 <= height <= 16384,
            view.wf(),
            1 <= max_iter,
            p <= n,
            interior as int == interior_count(view, width as int, height as int, max_iter as nat,
                p as int),
            interior as int <= p as int,
            forall|q: int|
                0 <= q < p ==> #[trigger] pixel_ok_at(buf@, view, q, width as int,
                    height as int, max_iter as nat),
        decreases n - p,
    {
        let x: usize = p % width;
        let y: usize = p / width;
        proof {
            vstd::arithmetic::div_mod::lemma_mod_division_less_than_divisor(p as int,
                width as int);
            vstd::arithmetic::div_mod::lemma_multiply_divide_lt(p as int, width as int,
                height as int);
            lemma_pixel_in_bounds(view, x as int, y as int, width as int, height as int);
            lemma_mul_magnitude(2 * (x as int) + 1 - width as int, view.aspect as int,
                65536, ASPECT_BOUND as int);
        }
        let num_x: i64 = 2 * (x as i64) + 1 - (width as i64);
        let lx: i64 = div_trunc(num_x * view.aspect, width as i64);
        let num_y: i64 = 2 * (y as i64) + 1 - (height as i64);
        let ly: i64 = div_trunc(num_y * SCALE, height as i64);
        let cx: i64 = view.center_x + fmul(view.zoom, lx);
        let cy: i64 = view.center_y + fmul(view.zoom, ly);
        let it: u32 = escape_iters(cx, cy, max_iter);
        let c: Rgba = mandelbrot_color(it, max_iter);
        proof {
            if it < max_iter {
                crate::color::lemma_color_range(it as int, max_iter as int);
            }
        }
        let base: usize = 4 * p;
        let ghost buf0 = buf@;
        buf[base] = c.r;
        buf[base + 1] = c.g;
        buf[base + 2] = c.b;
        buf[base + 3] = c.a;
        if it >= max_iter {
            interior = interior + 1;
        }
        proof {
            assert(p as int % (width as int) == x as int);
            assert(p as int / (width as int) == y as int);
            assert(cx as int == pixel_cx(view, x as int, width as int));
            assert(cy as int == pixel_cy(view, y as int, height as int));
            assert(pixel_iters(view, x as int, y as int, width as int, height as int,
                max_iter as nat) == it as nat);
            assert(interior_count(view, width as int, height as int, max_iter as nat,
                p as int + 1) == interior as int);
            assert(buf@ =~= buf0.update(4 * p as int, c.r).update(4 * p as int + 1,
                c.g).update(4 * p as int + 2, c.b).update(4 * p as int + 3, c.a));
            assert forall|q: int| 0 <= q < p as int + 1 implies #[trigger] pixel_ok_at(buf@,
                view, q, width as int, height as int, max_iter as nat) by {
                vstd::arithmetic::div_mod::lemma_fundamental_div_mod(q, width as int);
                assert(4 * (q / (width as int) * (width as int) + q % (width as int)) == 4 * q);
                if q < p as int {
                    assert(pixel_ok_at(buf0, view, q, width as int, height as int,
                        max_iter as nat));
                    assert(buf@[4 * q] == buf0[4 * q]);
                    assert(buf@[4 * q + 1] == buf0[4 * q + 1]);
                    assert(buf@[4 * q + 2] == buf0[4 * q + 2]);
                    assert(buf@[4 * q + 3] == buf0[4 * q + 3]);
                } else {
                    assert(q == p as int);
                    assert(buf@[4 * q] == c.r);
                    assert(buf@[4 * q + 1] == c.g);
                    assert(buf@[4 * q + 2] == c.b);
                    assert(buf@[4 * q + 3] == c.a);
                }
            }
        }
        p = p + 1;
    }
    proof {
        assert forall|x: int, y: int| 0 <= x < width && 0 <= y < height implies pixel_ok(buf@,
            view, x, y, width as int, height as int, max_iter as nat) by {
            let q = y * (width as int) + x;
            assert(0 <= y * (width as int) + x < (width as int) * (height as int))
                by (nonlinear_arith)
                requires
                    0 <= x < width as int,
                    0 <= y < height as int,
                    0 < width as int,
            ;
            assert(q % (width as int) == x && q / (width as int) == y) by {
                vstd::arithmetic::div_mod::lemma_fundamental_div_mod_converse(q, width as int,
                    y, x);
            }
            assert(pixel_ok_at(buf@, view, q, width as int, height as int, max_iter as nat));
        }
    }
    interior
}

/// Clamp a fixed-point value into a symmetric range.
pub open spec fn spec_clamp(v: int, lo: int, hi: int) -> int {
    if v < lo {
        lo
    } else if v > hi {
        hi
    } else {
        v
    }
}

/// Build the viewport of one frame: the view centers on the curated
/// point displaced by the orbit offset, at the given linear zoom and
/// display aspect ratio. Each component is clamped into the range the
/// renderer accepts, so the result is always well formed.
pub fn compose_viewport(base_x: i64, base_y: i64, orbit_dx: i64, orbit_dy: i64, zoom: i64,
    aspect: i64) -> (v: Viewport)
    requires
        -CENTER_BOUND <= base_x <= CENTER_BOUND,
        -CENTER_BOUND <= base_y <= CENTER_BOUND,
        -CENTER_BOUND <= orbit_dx <= CENTER_BOUND,
        -CENTER_BOUND <= orbit_dy <= CENTER_BOUND,
    ensures
        v.wf(),
        v.center_x as int == spec_clamp(base_x as int + orbit_dx as int, -CENTER_BOUND as int,
            CENTER_BOUND as int),
        v.center_y as int == spec_clamp(base_y as int + orbit_dy as int, -CENTER_BOUND as int,
            CENTER_BOUND as int),
        v.zoom as int == spec_clamp(zoom as int, 1, ZOOM_BOUND as int),
        v.aspect as int == spec_clamp(aspect as int, 1, ASPECT_BOUND as int),
{
    let cx: i64 = base_x + orbit_dx;
    let cy: i64 = base_y + orbit_dy;
    Viewport {
        center_x: clamp_i64(cx, -CENTER_BOUND, CENTER_BOUND),
        center_y: clamp_i64(cy, -CENTER_BOUND, CENTER_BOUND),
        zoom: clamp_i64(zoom, 1, ZOOM_BOUND),
        aspect: clamp_i64(aspect, 1, ASPECT_BOUND),
    }
}

/// Clamp a value into a closed range.
fn clamp_i64(v: i64, lo: i64, hi: i64) -> (r: i64)
    requires
        lo <= hi,
    ensures
        r as int == spec_clamp(v as int, lo as int, hi as int),
{
    if v < lo {
        lo
    } else if v > hi {
        hi
    } else {
        v
    }
}

} // verus!
