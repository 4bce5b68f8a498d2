use vstd::prelude::*;
use vstd::arithmetic::div_mod::lemma_fundamental_div_mod;

use crate::color::Color;

verus! {

/// `pixels` with the rows of `local` written from row `y_start` on, in an
/// image `w` pixels wide. Only the whole rows that `local` holds are written.
pub open spec fn blit(pixels: Seq<Color>, w: int, y_start: int, local: Seq<Color>) -> Seq<Color> {
    let lo = y_start * w;
    let hi = (y_start + (local.len() as int) / w) * w;
    Seq::new(pixels.len(), |i: int| if lo <= i < hi { local[i - lo] } else { pixels[i] })
}

/// `pixels` with each band `(y_start, rows)` of `bands` written in turn.
pub open spec fn composite(pixels: Seq<Color>, w: int, bands: Seq<(int, Seq<Color>)>) -> Seq<Color>
    decreases bands.len(),
{
    if bands.len() == 0 {
        pixels
    } else {
        let last = bands.last();
        blit(composite(pixels, w, bands.drop_last()), w, last.0, last.1)
    }
}

/// The bands handed to `composite`, as mathematical values.
pub open spec fn bands_view(bands: Seq<(usize, Vec<Color>)>) -> Seq<(int, Seq<Color>)> {
    bands.map_values(|b: (usize, Vec<Color>)| (b.0 as int, b.1@))
}

/// A CPU color buffer of `width * height` pixels, row-major from the top-left
/// corner, with a background color for clearing and a current color for
/// single-pixel writes.
pub struct Framebuffer {
    width: u32,
    height: u32,
    pixels: Vec<Color>,
    background_color: Color,
    current_color: Color,
}

impl Framebuffer {
    pub closed spec fn w(&self) -> nat {
        self.width as nat
    }

    pub closed spec fn h(&self) -> nat {
        self.height as nat
    }

    /// Whether the whole rows of a band of `len` pixels fit from row `y_start` on.
    pub open spec fn band_fits(&self, y_start: int, len: nat) -> bool {
        y_start + (len as int) / (self.w() as int) <= self.h()
    }

    pub closed spec fn wf(&self) -> bool {
        self.pixels@.len() == self.width * self.height
    }

    pub closed spec fn pixels_view(&self) -> Seq<Color> {
        self.pixels@
    }

    pub closed spec fn background(&self) -> Color {
        self.background_color
    }

    pub closed spec fn current(&self) -> Color {
        self.current_color
    }

    /// A `width` by `height` buffer filled with black; the background is
    /// black and the current color white.
    pub fn new(width: u32, height: u32) -> (fb: Framebuffer)
        requires
            width * height <= usize::MAX,
        ensures
            fb.wf(),
            fb.w() == width,
            fb.h() == height,
            fb.pixels_view() == Seq::new((width * height) as nat, |i: int| Color::black_spec()),
            fb.background() == Color::black_spec(),
            fb.current() == Color::white_spec(),
    {
        let n = (width as usize) * (height as usize);
        let black = Color::black();
        let mut pixels: Vec<Color> = Vec::new();
        while pixels.len() < n
            invariant
                pixels@.len() <= n,
                black == Color::black_spec(),
                forall|j: int| 0 <= j < pixels@.len() ==> pixels@[j] == black,
            decreases n - pixels@.len(),
        {
            pixels.push(black);
        }
        let fb = Framebuffer {
            width,
            height,
            pixels,
            background_color: black,
            current_color: Color::white(),
        };
        assert(fb.pixels_view() =~= Seq::new((width * height) as nat, |i: int| Color::black_spec()));
        fb
    }

    pub fn width(&self) -> (r: u32)
        ensures
            r == self.w(),
    {
        self.width
    }

    pub fn height(&self) -> (r: u32)
        ensures
            r == self.h(),
    {
        self.height
    }

    pub fn pixels(&self) -> (r: &[Color])
        ensures
            r@ == self.pixels_view(),
    {
        self.pixels.as_slice()
    }

    /// Mutable access to the pixels; their number cannot change through it.
    pub fn pixels_mut(&mut self) -> (r: &mut [Color])
        ensures
            r@ == old(self).pixels_view(),
            final(self).pixels_view() == final(r)@,
            final(self).w() == old(self).w(),
            final(self).h() == old(self).h(),
            final(self).background() == old(self).background(),
            final(self).current() == old(self).current(),
    {
        self.pixels.as_mut_slice()
    }

    /// Fills every pixel with the background color.
    pub fn clear(&mut self)
        requires
            old(self).wf(),
        ensures
            final(self).wf(),
            final(self).w() == old(self).w(),
            final(self).h() == old(self).h(),
            final(self).background() == old(self).background(),
            final(self).current() == old(self).current(),
            final(self).pixels_view() == Seq::new(
                old(self).pixels_view().len(),
                |i: int| old(self).background(),
            ),
    {
        let bg = self.background_color;
        let n = self.pixels.len();
        let mut i: usize = 0;
        while i < n
            invariant
                i <= n,
                n == self.pixels@.len(),
                self.pixels@.len() == self.width * self.height,
                bg == self.background_color,
                self.width == old(self).w(),
                self.height == old(self).h(),
                self.background_color == old(self).background_color,
                self.current_color == old(self).current_color,
                forall|j: int| 0 <= j < i ==> self.pixels@[j] == bg,
            decreases n - i,
        {
            self.pixels[i] = bg;
            i = i + 1;
        }
        assert(self.pixels_view() =~= Seq::new(old(self).pixels_view().len(), |i: int| old(self).background()));
    }

    /// Writes the whole rows held in `local` from row `y_start` on.
    pub fn blit_band(&mut self, y_start: usize, local: &Vec<Color>)
        requires
            old(self).wf(),
            old(self).w() > 0,
            old(self).band_fits(y_start as int, local@.len()),
        ensures
            final(self).wf(),
            final(self).w() == old(self).w(),
            final(self).h() == old(self).h(),
            final(self).background() == old(self).background(),
            final(self).current() == old(self).current(),
            final(self).pixels_view() == blit(
                old(self).pixels_view(),
                old(self).w() as int,
                y_start as int,
                local@,
            ),
    {
        let w = self.width as usize;
        let n = self.pixels.len();
        let span = local.len() / w;
        assert(span == (local@.len() as int) / (w as int));
        proof {
            lemma_fundamental_div_mod(local@.len() as int, w as int);
            assert(span * w <= local@.len()) by (nonlinear_arith)
                requires
                    local@.len() == w * span + (local@.len() as int) % (w as int),
                    (local@.len() as int) % (w as int) >= 0,
            ;
            assert(y_start * w + span * w == (y_start + span) * w <= self.height * w) by (nonlinear_arith)
                requires
                    y_start + span <= self.height,
                    w >= 1,
            ;
            assert(0 <= y_start * w) by (nonlinear_arith);
        }
        let lo = y_start * w;
        let count = span * w;
        let ghost before = self.pixels@;
        let mut i: usize = 0;
        while i < count
            invariant
                i <= count,
                count <= local@.len(),
                lo + count <= n,
                n == self.pixels@.len(),
                n == before.len(),
                self.pixels@.len() == self.width * self.height,
                self.width == old(self).w(),
                self.height == old(self).h(),
                self.background_color == old(self).background(),
                self.current_color == old(self).current(),
                forall|j: int|
                    0 <= j < n ==> #[trigger] self.pixels@[j] == if lo <= j < lo + i {
                        local@[j - lo]
                    } else {
                        before[j]
                    },
            decreases count - i,
        {
            self.pixels[lo + i] = local[i];
            i = i + 1;
        }
        proof {
            assert((y_start + (local@.len() as int) / (w as int)) * w == lo + count) by (nonlinear_arith)
                requires
                    span == (local@.len() as int) / (w as int),
                    lo == y_start * w,
                    count == span * w,
            ;
        }
        assert(self.pixels@ =~= blit(before, w as int, y_start as int, local@));
    }

    /// Writes each band `(y_start, rows)` of `bands` in turn.
    pub fn composite(&mut self, bands: &Vec<(usize, Vec<Color>)>)
        requires
            old(self).wf(),
            old(self).w() > 0,
            forall|k: int|
                0 <= k < bands@.len() ==> old(self).band_fits(#[trigger] bands@[k].0 as int, bands@[k].1@.len()),
        ensures
            final(self).wf(),
            final(self).w() == old(self).w(),
            final(self).h() == old(self).h(),
            final(self).background() == old(self).background(),
            final(self).current() == old(self).current(),
            final(self).pixels_view() == composite(
                old(self).pixels_view(),
                old(self).w() as int,
                bands_view(bands@),
            ),
    {
        let n = bands.len();
        let mut k: usize = 0;
        while k < n
            invariant
                k <= n,
                n == bands@.len(),
                self.wf(),
                self.w() == old(self).w(),
                self.h() == old(self).h(),
                self.w() > 0,
                self.background() == old(self).background(),
                self.current() == old(self).current(),
                forall|q: int|
                    0 <= q < bands@.len() ==> self.band_fits(#[trigger] bands@[q].0 as int, bands@[q].1@.len()),
                self.pixels_view() == composite(
                    old(self).pixels_view(),
                    old(self).w() as int,
                    bands_view(bands@.take(k as int)),
                ),
            decreases n - k,
        {
            let band = &bands[k];
            self.blit_band(band.0, &band.1);
            proof {
                assert(bands_view(bands@.take(k + 1)).drop_last() =~= bands_view(bands@.take(k as int)));
                assert(bands_view(bands@.take(k + 1)).last() == (band.0 as int, band.1@));
            }
            k = k + 1;
        }
        assert(bands@.take(n as int) =~= bands@);
    }

    /// Paints the pixel `(x, y)` with the current color; a position outside
    /// the buffer leaves it unchanged.
    pub fn set_pixel(&mut self, x: u32, y: u32)
        requires
            old(self).wf(),
        ensures
            final(self).wf(),
            final(self).w() == old(self).w(),
            final(self).h() == old(self).h(),
            final(self).background() == old(self).background(),
            final(self).current() == old(self).current(),
            final(self).pixels_view() == if x < old(self).w() && y < old(self).h() {
                old(self).pixels_view().update(y * old(self).w() + x, old(self).current())
            } else {
                old(self).pixels_view()
            },
    {
        if x >= self.width || y >= self.height {
            return;
        }
        let n = self.pixels.len();
        proof {
            assert(0 <= y * self.width <= y * self.width + x < self.width * self.height) by (nonlinear_arith)
                requires
                    x < self.width,
                    y < self.height,
            ;
        }
        let idx = (y as usize) * (self.width as usize) + (x as usize);
        self.pixels[idx] = self.current_color;
    }

    pub fn set_background_color(&mut self, color: Color)
        ensures
            final(self).background() == color,
            final(self).pixels_view() == old(self).pixels_view(),
            final(self).w() == old(self).w(),
            final(self).h() == old(self).h(),
            final(self).current() == old(self).current(),
            final(self).wf() == old(self).wf(),
    {
        self.background_color = color;
    }

    pub fn set_current_color(&mut self, color: Color)
        ensures
            final(self).current() == color,
            final(self).pixels_view() == old(self).pixels_view(),
            final(self).w() == old(self).w(),
            final(self).h() == old(self).h(),
            final(self).background() == old(self).background(),
            final(self).wf() == old(self).wf(),
    {
        self.current_color = color;
    }
}

} // verus!
