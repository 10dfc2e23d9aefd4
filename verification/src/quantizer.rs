//! Color quantization: samples the working canvas through the palette
//! lookup volume and reads back the requested region as one palette index
//! per pixel, rows compacted.

use vstd::prelude::*;
use crate::color::{Canvas, lemma_canvas_len_bound};
use crate::diff::DiffRect;
use crate::lut::{PaletteIndexLUT, is_nearest, lemma_nearest_unique, lut_lookup_pixel_shader};

verus! {

/// The output bytes are exactly one nearest-palette-index per pixel of the
/// requested region of the canvas, in row-major order.
pub open spec fn is_quantized_region(
    palette: Seq<crate::color::Color>,
    canvas: Canvas,
    rect: DiffRect,
    out: Seq<u8>,
) -> bool {
    let rw = rect.right - rect.left;
    let rh = rect.bottom - rect.top;
    &&& out.len() == rw * rh
    &&& forall|i: int, j: int|
        0 <= i < rw && 0 <= j < rh ==> is_nearest(
            palette,
            canvas.pix(rect.left + i, rect.top + j),
            #[trigger] out[j * rw + i] as int,
        )
}

/// Quantization output is a function of the canvas, region and volume alone:
/// any two byte strings that both quantize the same region of the same
/// canvas through the same palette are identical.
pub proof fn lemma_quantize_deterministic(
    palette: Seq<crate::color::Color>,
    canvas: Canvas,
    rect: DiffRect,
    out1: Seq<u8>,
    out2: Seq<u8>,
)
    requires
        rect.left <= rect.right,
        rect.top <= rect.bottom,
        is_quantized_region(palette, canvas, rect, out1),
        is_quantized_region(palette, canvas, rect, out2),
    ensures
        out1 =~= out2,
{
    let rw = rect.right - rect.left;
    let rh = rect.bottom - rect.top;
    assert forall|k: int| 0 <= k < out1.len() implies out1[k] == out2[k] by {
        let j = k / rw;
        let i = k % rw;
        assert(rw > 0) by {
            if rw <= 0 {
                assert(rw * rh <= 0) by (nonlinear_arith)
                    requires rw <= 0, rh >= 0;
            }
        }
        assert(0 <= i < rw && 0 <= j) by (nonlinear_arith)
            requires rw > 0, k >= 0, i == k % rw, j == k / rw;
        assert(j < rh) by (nonlinear_arith)
            requires rw > 0, rh >= 0, k < rw * rh, j == k / rw;
        assert(k == j * rw + i) by (nonlinear_arith)
            requires rw > 0, i == k % rw, j == k / rw;
        lemma_nearest_unique(
            palette,
            canvas.pix(rect.left + i, rect.top + j),
            out1[j * rw + i] as int,
            out2[j * rw + i] as int,
        );
    }
}

/// Quantization reads a canvas only through its dimensions and pixel view,
/// so its specification carries over between canvases holding the same image.
pub proof fn lemma_quantized_region_view(
    palette: Seq<crate::color::Color>,
    c1: Canvas,
    c2: Canvas,
    rect: DiffRect,
    out: Seq<u8>,
)
    requires
        c1.width == c2.width,
        c1.height == c2.height,
        c1.pixels@ == c2.pixels@,
    ensures
        is_quantized_region(palette, c1, rect, out) == is_quantized_region(palette, c2, rect, out),
{
    assert forall|x: int, y: int| #[trigger] c1.pix(x, y) == c2.pix(x, y) by {
    }
}

/// Per-frame quantizer. Owns the lookup volume for the session lifetime and
/// samples it read-only.
pub struct ColorQuantizer {
    pub lut: PaletteIndexLUT,
}

impl ColorQuantizer {
    pub open spec fn wf(self) -> bool {
        self.lut.wf()
    }

    pub fn new(lut: PaletteIndexLUT) -> (r: ColorQuantizer)
        requires
            lut.wf(),
        ensures
            r.wf(),
            r.lut == lut,
    {
        ColorQuantizer { lut }
    }

    /// Maps every pixel of the requested region through the lookup volume
    /// and returns the indices row by row with the row stride compacted to
    /// the region width.
    pub fn quantize(&self, canvas: &Canvas, rect: &DiffRect) -> (r: Vec<u8>)
        requires
            self.wf(),
            canvas.wf(),
            rect.left <= rect.right <= canvas.width,
            rect.top <= rect.bottom <= canvas.height,
        ensures
            is_quantized_region(self.lut.palette.entries@, *canvas, *rect, r@),
    {
        let rw: u32 = rect.right - rect.left;
        let rh: u32 = rect.bottom - rect.top;
        proof {
            lemma_canvas_len_bound(rw as int, rh as int);
        }
        let total: usize = (rw as usize) * (rh as usize);
        let mut out: Vec<u8> = Vec::new();
        let mut j: u32 = 0;
        while j < rh
            invariant
                self.wf(),
                canvas.wf(),
                rect.left <= rect.right <= canvas.width,
                rect.top <= rect.bottom <= canvas.height,
                rw == rect.right - rect.left,
                rh == rect.bottom - rect.top,
                j <= rh,
                out@.len() == j * rw,
                forall|i: int, jj: int|
                    0 <= i < rw && 0 <= jj < j ==> is_nearest(
                        self.lut.palette.entries@,
                        canvas.pix(rect.left + i, rect.top + jj),
                        #[trigger] out@[jj * rw + i] as int,
                    ),
            decreases rh - j,
        {
            let mut i: u32 = 0;
            proof {
                lemma_canvas_len_bound(rw as int, rh as int);
                assert((j + 1) * rw == j * rw + rw) by (nonlinear_arith);
                assert(j * rw + rw <= rh * rw) by (nonlinear_arith)
                    requires j < rh, rw >= 0;
            }
            while i < rw
                invariant
                    self.wf(),
                    canvas.wf(),
                    rect.left <= rect.right <= canvas.width,
                    rect.top <= rect.bottom <= canvas.height,
                    rw == rect.right - rect.left,
                    rh == rect.bottom - rect.top,
                    j < rh,
                    i <= rw,
                    out@.len() == j * rw + i,
                    j * rw + rw <= rh * rw,
                    rh * rw <= 0xFFFF * 0xFFFF,
                    forall|ii: int, jj: int|
                        0 <= ii < rw && 0 <= jj < j ==> is_nearest(
                            self.lut.palette.entries@,
                            canvas.pix(rect.left + ii, rect.top + jj),
                            #[trigger] out@[jj * rw + ii] as int,
                        ),
                    forall|ii: int|
                        0 <= ii < i ==> is_nearest(
                            self.lut.palette.entries@,
                            canvas.pix(rect.left + ii, rect.top + j),
                            #[trigger] out@[j * rw + ii] as int,
                        ),
                decreases rw - i,
            {
                let c = canvas.get(rect.left + i, rect.top + j);
                let idx = lut_lookup_pixel_shader(&self.lut, c);
                out.push(idx);
                proof {
                    assert forall|ii: int, jj: int|
                        0 <= ii < rw && 0 <= jj < j implies is_nearest(
                            self.lut.palette.entries@,
                            canvas.pix(rect.left + ii, rect.top + jj),
                            #[trigger] out@[jj * rw + ii] as int,
                        ) by {
                        assert(jj * rw + ii < j * rw) by (nonlinear_arith)
                            requires 0 <= ii < rw, 0 <= jj < j;
                    }
                }
                i = i + 1;
            }
            j = j + 1;
        }
        proof {
            assert(out@.len() == rh * rw);
            assert(rh * rw == rw * rh) by (nonlinear_arith);
        }
        out
    }
}

} // verus!
