//! Colors and canvases: the plain-value pixel model the whole pipeline works on.

use vstd::prelude::*;

verus! {

/// A 24-bit RGB color. Captured surfaces, palette entries and canvas pixels
/// all use this representation; alpha is treated as always opaque.
#[derive(Clone, Copy, PartialEq, Eq, Structural, Debug)]
pub struct Color {
    pub r: u8,
    pub g: u8,
    pub b: u8,
}

/// A color buffer of `width x height` pixels in row-major order.
///
/// Both the fixed-size working canvas of the pipeline and captured surfaces
/// of arbitrary size are `Canvas` values.
pub struct Canvas {
    pub width: u32,
    pub height: u32,
    pub pixels: Vec<Color>,
}

impl Canvas {
    /// Dimensions bounded so that every pixel index fits comfortably in a
    /// `usize`, and the buffer holds exactly one color per pixel.
    pub open spec fn wf(self) -> bool {
        &&& self.width <= 0xFFFF
        &&& self.height <= 0xFFFF
        &&& self.pixels@.len() == self.width * self.height
    }

    /// The color at column `x`, row `y`.
    pub open spec fn pix(self, x: int, y: int) -> Color {
        self.pixels@[y * self.width + x]
    }

    /// A canvas filled with a single color.
    pub fn filled(width: u32, height: u32, color: Color) -> (r: Canvas)
        requires
            width <= 0xFFFF,
            height <= 0xFFFF,
        ensures
            r.wf(),
            r.width == width,
            r.height == height,
            forall|x: int, y: int|
                0 <= x < width && 0 <= y < height ==> r.pix(x, y) == color,
    {
        proof {
            lemma_canvas_len_bound(width as int, height as int);
        }
        let total: usize = (width as usize) * (height as usize);
        let mut pixels: Vec<Color> = Vec::new();
        let mut i: usize = 0;
        while i < total
            invariant
                i <= total,
                pixels@.len() == i,
                forall|k: int| 0 <= k < i ==> pixels@[k] == color,
            decreases total - i,
        {
            pixels.push(color);
            i = i + 1;
        }
        let r = Canvas { width, height, pixels };
        assert forall|x: int, y: int|
            0 <= x < width && 0 <= y < height implies r.pix(x, y) == color by {
            lemma_row_major_index_bounds(width as int, height as int, x, y);
        }
        r
    }

    /// An owned copy of the canvas holding the same image.
    pub fn duplicate(&self) -> (r: Canvas)
        ensures
            r.width == self.width,
            r.height == self.height,
            r.pixels@ =~= self.pixels@,
    {
        let mut copy: Vec<Color> = Vec::new();
        let total = self.pixels.len();
        let mut i: usize = 0;
        while i < total
            invariant
                total == self.pixels@.len(),
                i <= total,
                copy@.len() == i,
                forall|k: int| 0 <= k < i ==> copy@[k] == self.pixels@[k],
            decreases total - i,
        {
            copy.push(self.pixels[i]);
            i = i + 1;
        }
        Canvas { width: self.width, height: self.height, pixels: copy }
    }

    /// Reads the pixel at `(x, y)`.
    pub fn get(&self, x: u32, y: u32) -> (c: Color)
        requires
            self.wf(),
            x < self.width,
            y < self.height,
        ensures
            c == self.pix(x as int, y as int),
    {
        proof {
            lemma_row_major_index_bounds(
                self.width as int,
                self.height as int,
                x as int,
                y as int,
            );
            lemma_canvas_len_bound(self.width as int, self.height as int);
        }
        let idx: usize = (y as usize) * (self.width as usize) + (x as usize);
        self.pixels[idx]
    }

    /// Writes the pixel at `(x, y)`.
    pub fn set(&mut self, x: u32, y: u32, c: Color)
        requires
            old(self).wf(),
            x < old(self).width,
            y < old(self).height,
        ensures
            final(self).wf(),
            final(self).width == old(self).width,
            final(self).height == old(self).height,
            final(self).pix(x as int, y as int) == c,
            forall|i: int, j: int|
                0 <= i < old(self).width && 0 <= j < old(self).height
                    && !(i == x && j == y) ==> final(self).pix(i, j) == old(self).pix(i, j),
    {
        proof {
            lemma_row_major_index_bounds(
                self.width as int,
                self.height as int,
                x as int,
                y as int,
            );
            lemma_canvas_len_bound(self.width as int, self.height as int);
        }
        let idx: usize = (y as usize) * (self.width as usize) + (x as usize);
        self.pixels.set(idx, c);
        assert forall|i: int, j: int|
            0 <= i < self.width && 0 <= j < self.height && !(i == x && j == y)
                implies self.pix(i, j) == old(self).pix(i, j) by {
            lemma_row_major_index_bounds(self.width as int, self.height as int, i, j);
            lemma_row_major_index_injective(
                self.width as int,
                i,
                j,
                x as int,
                y as int,
            );
        }
    }
}

/// Row-major indices of in-bounds pixels are in bounds of the buffer.
pub proof fn lemma_row_major_index_bounds(w: int, h: int, x: int, y: int)
    requires
        0 <= x < w,
        0 <= y < h,
    ensures
        0 <= y * w + x < w * h,
{
    assert(y * w + x < w * h) by (nonlinear_arith)
        requires 0 <= x < w, 0 <= y < h;
    assert(0 <= y * w + x) by (nonlinear_arith)
        requires 0 <= x, 0 <= y, 0 < w;
}

/// The pixel count of a bounded canvas fits in 32 bits.
pub proof fn lemma_canvas_len_bound(w: int, h: int)
    requires
        0 <= w <= 0xFFFF,
        0 <= h <= 0xFFFF,
    ensures
        w * h <= 0xFFFF * 0xFFFF,
{
    assert(w * h <= 0xFFFF * 0xFFFF) by (nonlinear_arith)
        requires 0 <= w <= 0xFFFF, 0 <= h <= 0xFFFF;
}

/// Distinct in-bounds coordinates give distinct row-major indices.
pub proof fn lemma_row_major_index_injective(w: int, x1: int, y1: int, x2: int, y2: int)
    requires
        0 <= x1 < w,
        0 <= x2 < w,
        0 <= y1,
        0 <= y2,
        !(x1 == x2 && y1 == y2),
    ensures
        y1 * w + x1 != y2 * w + x2,
{
    assert(y1 * w + x1 != y2 * w + x2) by (nonlinear_arith)
        requires 0 <= x1 < w, 0 <= x2 < w, 0 <= y1, 0 <= y2, !(x1 == x2 && y1 == y2);
}

} // verus!
