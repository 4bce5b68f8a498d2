use vstd::prelude::*;
use vstd::arithmetic::div_mod::{lemma_fundamental_div_mod, lemma_fundamental_div_mod_converse};

use crate::color::Color;
use crate::framebuffer::composite;

verus! {

/// Rows in each band when `h` rows are shared among `t` workers: `ceil(h / t)`.
pub open spec fn rows_per_band(h: int, t: int) -> int {
    (h + t - 1) / t
}

/// Number of non-empty bands: `ceil(h / rows_per_band(h, t))`, none for an
/// empty image.
pub open spec fn band_count(h: int, t: int) -> int {
    if h <= 0 {
        0
    } else {
        let rp = rows_per_band(h, t);
        (h + rp - 1) / rp
    }
}

/// The row bands `[y_start, y_end)` of `h` rows shared among `t` workers:
/// band `j` starts at `j * rp` and ends at `min((j + 1) * rp, h)`.
pub open spec fn band_layout(h: int, t: int) -> Seq<(usize, usize)> {
    let rp = rows_per_band(h, t);
    Seq::new(
        band_count(h, t) as nat,
        |j: int| ((j * rp) as usize, (if (j + 1) * rp < h { (j + 1) * rp } else { h }) as usize),
    )
}

/// For `h >= 1` rows and `t >= 1` workers: each band holds at least one row,
/// there are at most `t` bands, and band `j` exists exactly when its first row
/// `j * rp` lies in the image.
pub proof fn lemma_band_count(h: int, t: int, j: int)
    requires
        h >= 1,
        t >= 1,
        j >= 0,
    ensures
        rows_per_band(h, t) >= 1,
        band_count(h, t) <= t,
        j < band_count(h, t) <==> j * rows_per_band(h, t) < h,
{
    let rp = rows_per_band(h, t);
    lemma_fundamental_div_mod(h + t - 1, t);
    let m = (h + t - 1) % t;
    assert(t * rp >= h);
    assert(rp >= 1) by (nonlinear_arith)
        requires
            t * rp >= h,
            h >= 1,
            t >= 1,
    ;
    let c = (h + rp - 1) / rp;
    lemma_fundamental_div_mod(h + rp - 1, rp);
    let m2 = (h + rp - 1) % rp;
    assert(h + rp - 1 == rp * c + m2);
    assert(forall|q: int| q >= 0 && q < c ==> #[trigger] (q * rp) < h) by {
        assert forall|q: int| q >= 0 && q < c implies #[trigger] (q * rp) < h by {
            assert(q * rp <= (c - 1) * rp) by (nonlinear_arith)
                requires
                    q <= c - 1,
                    rp >= 1,
            ;
            assert((c - 1) * rp == rp * c - rp) by (nonlinear_arith);
        }
    }
    assert(forall|q: int| q >= c ==> #[trigger] (q * rp) >= h) by {
        assert forall|q: int| q >= c implies #[trigger] (q * rp) >= h by {
            assert(q * rp >= c * rp) by (nonlinear_arith)
                requires
                    q >= c,
                    rp >= 1,
            ;
            assert(c * rp == rp * c) by (nonlinear_arith);
        }
    }
    assert(t * rp == rp * t) by (nonlinear_arith);
    if t < c {
        assert(t * rp < h);
    }
    if j < c {
        assert(j * rp < h);
    } else {
        assert(j * rp >= h);
    }
}

/// The row bands `(y_start, y_end)` that `threads` workers render: consecutive
/// bands of `ceil(height / threads)` rows (the last one shorter), covering
/// `0 .. height` in order.
pub fn row_bands(height: usize, threads: usize) -> (r: Vec<(usize, usize)>)
    requires
        threads >= 1,
        height + threads <= usize::MAX,
    ensures
        r@ == band_layout(height as int, threads as int),
{
    let rows_per = (height + threads - 1) / threads;
    let mut bands: Vec<(usize, usize)> = Vec::new();
    if height == 0 {
        assert(bands@ =~= band_layout(height as int, threads as int));
        return bands;
    }
    proof {
        lemma_band_count(height as int, threads as int, 0);
    }
    let ghost c = band_count(height as int, threads as int);
    let mut t: usize = 0;
    let mut y_start: usize = 0;
    while t < threads && y_start < height
        invariant
            height >= 1,
            threads >= 1,
            rows_per == rows_per_band(height as int, threads as int),
            rows_per >= 1,
            c == band_count(height as int, threads as int),
            t <= threads,
            t <= c,
            y_start == if t * rows_per < height { t * rows_per } else { height as int },
            bands@ =~= band_layout(height as int, threads as int).take(t as int),
        decreases threads - t,
    {
        proof {
            lemma_band_count(height as int, threads as int, t as int);
            assert(t * rows_per < height);
            assert((t + 1) * rows_per == t * rows_per + rows_per) by (nonlinear_arith);
        }
        let y_end = if rows_per >= height - y_start { height } else { y_start + rows_per };
        bands.push((y_start, y_end));
        y_start = y_end;
        t = t + 1;
        proof {
            lemma_band_count(height as int, threads as int, t as int);
        }
    }
    proof {
        lemma_band_count(height as int, threads as int, t as int);
        lemma_band_count(height as int, threads as int, threads as int);
    }
    bands
}

/// Renders the rows `y_start .. y_end` of an image `width` pixels wide into a
/// band buffer: pixel `i` of the buffer is `shade(i % width, y_start + i / width)`.
pub fn render_band<F: Fn(usize, usize) -> Color>(
    width: usize,
    y_start: usize,
    y_end: usize,
    shade: &F,
) -> (r: Vec<Color>)
    requires
        width >= 1,
        y_start <= y_end,
        (y_end - y_start) * width <= usize::MAX,
        forall|x: usize, y: usize| x < width && y_start <= y < y_end ==> shade.requires((x, y)),
    ensures
        r@.len() == (y_end - y_start) * width,
        forall|i: int|
            0 <= i < r@.len() ==> shade.ensures(
                ((i % width as int) as usize, (y_start + i / width as int) as usize),
                #[trigger] r@[i],
            ),
{
    let mut out: Vec<Color> = Vec::new();
    let mut y = y_start;
    while y < y_end
        invariant
            width >= 1,
            y_start <= y <= y_end,
            (y_end - y_start) * width <= usize::MAX,
            out@.len() == (y - y_start) * width,
            forall|x: usize, yy: usize| x < width && y_start <= yy < y_end ==> shade.requires((x, yy)),
            forall|i: int|
                0 <= i < out@.len() ==> shade.ensures(
                    ((i % width as int) as usize, (y_start + i / width as int) as usize),
                    #[trigger] out@[i],
                ),
        decreases y_end - y,
    {
        let mut x: usize = 0;
        while x < width
            invariant
                width >= 1,
                y_start <= y < y_end,
                x <= width,
                (y_end - y_start) * width <= usize::MAX,
                out@.len() == (y - y_start) * width + x,
                forall|xx: usize, yy: usize| xx < width && y_start <= yy < y_end ==> shade.requires((xx, yy)),
                forall|i: int|
                    0 <= i < out@.len() ==> shade.ensures(
                        ((i % width as int) as usize, (y_start + i / width as int) as usize),
                        #[trigger] out@[i],
                    ),
            decreases width - x,
        {
            let c = shade(x, y);
            proof {
                let i = (y - y_start) * width + x;
                lemma_fundamental_div_mod_converse(i, width as int, (y - y_start) as int, x as int);
            }
            out.push(c);
            x = x + 1;
        }
        proof {
            assert((y + 1 - y_start) * width == (y - y_start) * width + width) by (nonlinear_arith);
        }
        y = y + 1;
    }
    out
}

/// What a deterministic per-pixel shader `pix` gives for the rows
/// `y_start .. y_end` of an image `w` pixels wide.
pub open spec fn band_image(pix: spec_fn(int, int) -> Color, w: int, y_start: int, y_end: int) -> Seq<
    Color,
> {
    Seq::new(((y_end - y_start) * w) as nat, |i: int| pix(i % w, y_start + i / w))
}

/// The whole `w` by `h` image of `pix`, row-major.
pub open spec fn full_image(pix: spec_fn(int, int) -> Color, w: int, h: int) -> Seq<Color> {
    Seq::new((w * h) as nat, |i: int| pix(i % w, i / w))
}

/// The band buffers that the workers of a layout return, with their first rows.
pub open spec fn rendered_bands(pix: spec_fn(int, int) -> Color, w: int, layout: Seq<(usize, usize)>) -> Seq<
    (int, Seq<Color>),
> {
    layout.map_values(|b: (usize, usize)| (b.0 as int, band_image(pix, w, b.0 as int, b.1 as int)))
}

/// A band buffer made by `render_band` with a shader whose every result at
/// `(x, y)` is `pix(x, y)` is the band of the image of `pix`.
pub proof fn lemma_deterministic_band<F: Fn(usize, usize) -> Color>(
    shade: F,
    pix: spec_fn(int, int) -> Color,
    w: int,
    y_start: int,
    y_end: int,
    buf: Seq<Color>,
)
    requires
        1 <= w <= usize::MAX,
        0 <= y_start <= y_end <= usize::MAX,
        forall|x: usize, y: usize, c: Color| shade.ensures((x, y), c) ==> c == pix(x as int, y as int),
        buf.len() == (y_end - y_start) * w,
        forall|i: int|
            0 <= i < buf.len() ==> shade.ensures(
                ((i % w) as usize, (y_start + i / w) as usize),
                #[trigger] buf[i],
            ),
    ensures
        buf == band_image(pix, w, y_start, y_end),
{
    assert forall|i: int| 0 <= i < buf.len() implies #[trigger] buf[i] == pix(i % w, y_start + i / w) by {
        lemma_fundamental_div_mod(i, w);
        let q = i / w;
        let r = i % w;
        assert(q < y_end - y_start) by (nonlinear_arith)
            requires
                i == w * q + r,
                0 <= r,
                i < (y_end - y_start) * w,
                w >= 1,
        ;
        assert(q >= 0) by (nonlinear_arith)
            requires
                i == w * q + r,
                r < w,
                i >= 0,
                w >= 1,
        ;
        assert(shade.ensures((r as usize, (y_start + q) as usize), buf[i]));
    }
    assert(buf =~= band_image(pix, w, y_start, y_end));
}

/// `init` with its first `rows` rows replaced by the image of `pix`.
pub open spec fn partial_image(pix: spec_fn(int, int) -> Color, w: int, init: Seq<Color>, rows: int) -> Seq<
    Color,
> {
    Seq::new(init.len(), |i: int| if i < rows * w { pix(i % w, i / w) } else { init[i] })
}

/// Composing the first `k` bands of `t` workers writes the first
/// `min(k * rp, h)` rows of the image.
proof fn lemma_bands_prefix(
    pix: spec_fn(int, int) -> Color,
    w: int,
    h: int,
    t: int,
    init: Seq<Color>,
    k: int,
)
    requires
        w >= 1,
        1 <= h <= usize::MAX,
        t >= 1,
        init.len() == w * h,
        0 <= k <= band_count(h, t),
    ensures
        composite(init, w, rendered_bands(pix, w, band_layout(h, t)).take(k)) == partial_image(
            pix,
            w,
            init,
            if k * rows_per_band(h, t) < h { k * rows_per_band(h, t) } else { h },
        ),
    decreases k,
{
    let rp = rows_per_band(h, t);
    let all = rendered_bands(pix, w, band_layout(h, t));
    lemma_band_count(h, t, 0);
    if k == 0 {
        assert(all.take(0) =~= Seq::<(int, Seq<Color>)>::empty());
        assert(composite(init, w, all.take(0)) == init);
        assert(0 * w == 0);
        assert(init =~= partial_image(pix, w, init, 0));
        return;
    }
    let j = k - 1;
    lemma_bands_prefix(pix, w, h, t, init, j);
    lemma_band_count(h, t, j);
    let y0 = j * rp;
    let y1 = if (j + 1) * rp < h { (j + 1) * rp } else { h };
    assert((j + 1) * rp == j * rp + rp) by (nonlinear_arith);
    assert(0 <= y0 < y1 <= h) by (nonlinear_arith)
        requires
            y0 == j * rp,
            j >= 0,
            rp >= 1,
            y0 < h,
            y1 == if (j + 1) * rp < h { (j + 1) * rp } else { h },
            (j + 1) * rp == j * rp + rp,
    ;
    assert(all.take(k).drop_last() =~= all.take(j));
    assert(all.take(k).last() == (y0, band_image(pix, w, y0, y1)));
    let prev = composite(init, w, all.take(j));
    assert(prev == partial_image(pix, w, init, y0));
    let buf = band_image(pix, w, y0, y1);
    assert(0 <= (y1 - y0) * w) by (nonlinear_arith)
        requires
            y0 < y1,
            w >= 1,
    ;
    lemma_fundamental_div_mod_converse((y1 - y0) * w, w, y1 - y0, 0);
    assert((buf.len() as int) / w == y1 - y0);
    let next = partial_image(pix, w, init, y1);
    assert(y0 * w + (y1 - y0) * w == y1 * w) by (nonlinear_arith);
    assert(y1 * w <= h * w) by (nonlinear_arith)
        requires
            y1 <= h,
            w >= 1,
    ;
    assert forall|i: int| 0 <= i < init.len() implies #[trigger] composite(init, w, all.take(k))[i]
        == next[i] by {
        if y0 * w <= i < y1 * w {
            lemma_fundamental_div_mod(i, w);
            let q = i / w;
            let r = i % w;
            assert(i - y0 * w == (q - y0) * w + r) by (nonlinear_arith)
                requires
                    i == w * q + r,
            ;
            lemma_fundamental_div_mod_converse(i - y0 * w, w, q - y0, r);
            assert(buf[i - y0 * w] == pix(r, y0 + (q - y0)));
        } else if i < y0 * w {
            assert(i < y1 * w);
        }
    }
    assert(composite(init, w, all.take(k)) =~= next);
}

/// Composing the bands of `t` workers over any starting buffer of the right
/// size gives the whole image of the shader.
pub proof fn lemma_bands_compose_image(
    pix: spec_fn(int, int) -> Color,
    w: int,
    h: int,
    t: int,
    init: Seq<Color>,
)
    requires
        w >= 1,
        0 <= h <= usize::MAX,
        t >= 1,
        init.len() == w * h,
    ensures
        composite(init, w, rendered_bands(pix, w, band_layout(h, t))) == full_image(pix, w, h),
{
    let all = rendered_bands(pix, w, band_layout(h, t));
    if h == 0 {
        assert(all =~= Seq::<(int, Seq<Color>)>::empty());
        assert(composite(init, w, all) =~= full_image(pix, w, h));
        return;
    }
    lemma_band_count(h, t, 0);
    let c = band_count(h, t);
    lemma_bands_prefix(pix, w, h, t, init, c);
    lemma_band_count(h, t, c);
    assert(all.take(c) =~= all);
    assert(w * h == h * w) by (nonlinear_arith);
    assert(composite(init, w, all) =~= full_image(pix, w, h));
}

/// Rendering with `t` workers gives the same image as rendering with one:
/// whatever the number of row bands, composing the band buffers of a
/// deterministic per-pixel shader yields the same framebuffer contents.
pub proof fn lemma_parallel_equivalence(
    pix: spec_fn(int, int) -> Color,
    w: int,
    h: int,
    t: int,
    init: Seq<Color>,
)
    requires
        w >= 1,
        0 <= h <= usize::MAX,
        t >= 1,
        init.len() == w * h,
    ensures
        composite(init, w, rendered_bands(pix, w, band_layout(h, t))) == composite(
            init,
            w,
            rendered_bands(pix, w, band_layout(h, 1)),
        ),
{
    lemma_bands_compose_image(pix, w, h, t, init);
    lemma_bands_compose_image(pix, w, h, 1, init);
}

} // verus!
