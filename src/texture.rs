use vstd::prelude::*;

use crate::color::Color;

verus! {

/// An immutable RGBA image, row-major from the top-left corner.
pub struct Texture {
    width: usize,
    height: usize,
    pixels: Vec<Color>,
}

/// `v` clamped to `0 ..= n - 1`.
pub open spec fn clamp_index(v: int, n: int) -> int {
    if v < 0 {
        0
    } else if v >= n {
        n - 1
    } else {
        v
    }
}

impl Texture {
    pub closed spec fn w(&self) -> nat {
        self.width as nat
    }

    pub closed spec fn h(&self) -> nat {
        self.height as nat
    }

    pub closed spec fn texels(&self) -> Seq<Color> {
        self.pixels@
    }

    pub closed spec fn wf(&self) -> bool {
        &&& self.width >= 1
        &&& self.height >= 1
        &&& self.pixels@.len() == self.width * self.height
    }

    /// The texel in column `x` of row `y`.
    pub open spec fn at(&self, x: int, y: int) -> Color {
        self.texels()[y * self.w() + x]
    }

    /// A texture of `width * height` texels given row by row; `None` when a
    /// side is zero or the number of texels does not match.
    pub fn from_pixels(width: usize, height: usize, pixels: Vec<Color>) -> (r: Option<Texture>)
        ensures
            r.is_some() <==> width >= 1 && height >= 1 && pixels@.len() == width * height,
            r.is_some() ==> {
                let t = r.unwrap();
                &&& t.wf()
                &&& t.w() == width
                &&& t.h() == height
                &&& t.texels() == pixels@
            },
    {
        if width == 0 || height == 0 {
            return None;
        }
        let len = pixels.len();
        match width.checked_mul(height) {
            Some(n) => {
                if n == len {
                    Some(Texture { width, height, pixels })
                } else {
                    None
                }
            },
            None => {
                None
            },
        }
    }

    pub fn width(&self) -> (r: usize)
        ensures
            r == self.w(),
    {
        self.width
    }

    pub fn height(&self) -> (r: usize)
        ensures
            r == self.h(),
    {
        self.height
    }

    /// The texel in column `x` of row `y`.
    pub fn texel(&self, x: usize, y: usize) -> (r: Color)
        requires
            self.wf(),
            x < self.w(),
            y < self.h(),
        ensures
            r == self.at(x as int, y as int),
    {
        let n = self.pixels.len();
        proof {
            assert(0 <= y * self.width <= y * self.width + x < self.width * self.height) by (nonlinear_arith)
                requires
                    x < self.width,
                    y < self.height,
            ;
        }
        self.pixels[y * self.width + x]
    }

    /// Nearest-texel lookup: the floor coordinates `(fx, fy)` of a sample are
    /// clamped into the image before the texel is read.
    pub fn nearest(&self, fx: i64, fy: i64) -> (r: Color)
        requires
            self.wf(),
        ensures
            r == self.at(clamp_index(fx as int, self.w() as int), clamp_index(fy as int, self.h() as int)),
    {
        let x: usize = if fx < 0 {
            0
        } else if fx as u64 >= self.width as u64 {
            self.width - 1
        } else {
            fx as usize
        };
        let y: usize = if fy < 0 {
            0
        } else if fy as u64 >= self.height as u64 {
            self.height - 1
        } else {
            fy as usize
        };
        self.texel(x, y)
    }
}

} // verus!
