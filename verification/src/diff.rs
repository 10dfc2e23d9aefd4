//! Frame differencing: finds the axis-aligned bounding rectangle of the
//! pixels that changed between the current canvas and the retained previous
//! canvas, or reports that nothing changed.

use vstd::prelude::*;
use crate::color::{Canvas, Color};

verus! {

/// A half-open rectangle `[left, right) x [top, bottom)` in pixel
/// coordinates. Valid iff `right > left` and `bottom > top`; an invalid
/// rectangle signals "no visible change".
#[derive(Clone, Copy, PartialEq, Eq, Structural, Debug)]
pub struct DiffRect {
    pub left: u32,
    pub top: u32,
    pub right: u32,
    pub bottom: u32,
}

impl DiffRect {
    pub fn is_valid(&self) -> (r: bool)
        ensures
            r == (self.right > self.left && self.bottom > self.top),
    {
        self.right > self.left && self.bottom > self.top
    }

    pub fn width(&self) -> (r: u32)
        requires
            self.left <= self.right,
        ensures
            r == self.right - self.left,
    {
        self.right - self.left
    }

    pub fn height(&self) -> (r: u32)
        requires
            self.top <= self.bottom,
        ensures
            r == self.bottom - self.top,
    {
        self.bottom - self.top
    }
}

/// The canvases disagree at `(x, y)`.
pub open spec fn differs_at(a: Canvas, b: Canvas, x: int, y: int) -> bool {
    a.pix(x, y) != b.pix(x, y)
}

/// Some pixel of column `x` differs.
pub open spec fn some_diff_in_col(a: Canvas, b: Canvas, x: int) -> bool {
    exists|y: int| 0 <= y < a.height && differs_at(a, b, x, y)
}

/// Some pixel of row `y` differs.
pub open spec fn some_diff_in_row(a: Canvas, b: Canvas, y: int) -> bool {
    exists|x: int| 0 <= x < a.width && differs_at(a, b, x, y)
}

/// Some pixel differs anywhere.
pub open spec fn any_diff(a: Canvas, b: Canvas) -> bool {
    exists|x: int, y: int|
        0 <= x < a.width && 0 <= y < a.height && differs_at(a, b, x, y)
}

/// `r` is exactly the bounding rectangle of the differing pixels: it is
/// valid, contains every differing pixel, and touches a differing pixel
/// with each of its four edges.
pub open spec fn is_diff_bbox(a: Canvas, b: Canvas, r: DiffRect) -> bool {
    &&& r.left < r.right <= a.width
    &&& r.top < r.bottom <= a.height
    &&& forall|x: int, y: int|
        0 <= x < a.width && 0 <= y < a.height && #[trigger] differs_at(a, b, x, y)
            ==> r.left <= x < r.right && r.top <= y < r.bottom
    &&& some_diff_in_col(a, b, r.left as int)
    &&& some_diff_in_col(a, b, r.right - 1)
    &&& some_diff_in_row(a, b, r.top as int)
    &&& some_diff_in_row(a, b, r.bottom - 1)
}

/// If exactly one pixel differs, the bounding rectangle is exactly that
/// pixel: its single-pixel bounds before any inflation.
pub proof fn lemma_single_pixel_bbox(a: Canvas, b: Canvas, x: int, y: int, r: DiffRect)
    requires
        0 <= x < a.width,
        0 <= y < a.height,
        differs_at(a, b, x, y),
        forall|i: int, j: int|
            0 <= i < a.width && 0 <= j < a.height && #[trigger] differs_at(a, b, i, j)
                ==> i == x && j == y,
        is_diff_bbox(a, b, r),
    ensures
        r.left == x,
        r.top == y,
        r.right == x + 1,
        r.bottom == y + 1,
{
    let lc: int = r.left as int;
    let rc: int = r.right - 1;
    let tc: int = r.top as int;
    let bc: int = r.bottom - 1;
    let yl = choose|j: int| 0 <= j < a.height && differs_at(a, b, lc, j);
    assert(differs_at(a, b, lc, yl));
    let yr = choose|j: int| 0 <= j < a.height && differs_at(a, b, rc, j);
    assert(differs_at(a, b, rc, yr));
    let xt = choose|i: int| 0 <= i < a.width && differs_at(a, b, i, tc);
    assert(differs_at(a, b, xt, tc));
    let xb = choose|i: int| 0 <= i < a.width && differs_at(a, b, i, bc);
    assert(differs_at(a, b, xb, bc));
}

/// The difference predicates read a canvas only through its dimensions and
/// pixel view, so they carry over between canvases holding the same image.
pub proof fn lemma_diff_predicates_view(a: Canvas, b1: Canvas, b2: Canvas, r: DiffRect)
    requires
        b1.width == b2.width,
        b1.height == b2.height,
        b1.pixels@ == b2.pixels@,
    ensures
        any_diff(a, b1) == any_diff(a, b2),
        is_diff_bbox(a, b1, r) == is_diff_bbox(a, b2, r),
{
    assert forall|x: int, y: int|
        #![trigger differs_at(a, b1, x, y)]
        #![trigger differs_at(a, b2, x, y)]
        differs_at(a, b1, x, y) == differs_at(a, b2, x, y) by {
    }
    assert(any_diff(a, b1) == any_diff(a, b2)) by {
        if any_diff(a, b1) {
            let (px, py) = choose|px: int, py: int|
                0 <= px < a.width && 0 <= py < a.height && differs_at(a, b1, px, py);
            assert(differs_at(a, b2, px, py));
        }
        if any_diff(a, b2) {
            let (px, py) = choose|px: int, py: int|
                0 <= px < a.width && 0 <= py < a.height && differs_at(a, b2, px, py);
            assert(differs_at(a, b1, px, py));
        }
    }
    assert forall|x: int| #[trigger] some_diff_in_col(a, b1, x) == some_diff_in_col(a, b2, x) by {
        if some_diff_in_col(a, b1, x) {
            let y = choose|y: int| 0 <= y < a.height && differs_at(a, b1, x, y);
            assert(differs_at(a, b2, x, y));
        }
        if some_diff_in_col(a, b2, x) {
            let y = choose|y: int| 0 <= y < a.height && differs_at(a, b2, x, y);
            assert(differs_at(a, b1, x, y));
        }
    }
    assert forall|y: int| #[trigger] some_diff_in_row(a, b1, y) == some_diff_in_row(a, b2, y) by {
        if some_diff_in_row(a, b1, y) {
            let x = choose|x: int| 0 <= x < a.width && differs_at(a, b1, x, y);
            assert(differs_at(a, b2, x, y));
        }
        if some_diff_in_row(a, b2, y) {
            let x = choose|x: int| 0 <= x < a.width && differs_at(a, b2, x, y);
            assert(differs_at(a, b1, x, y));
        }
    }
}

/// `(px, py)` comes strictly before position `(x, y)` in the row-major scan.
pub open spec fn scanned_before(x: int, y: int, px: int, py: int) -> bool {
    py < y || (py == y && px < x)
}

/// The per-pixel kernel of the difference pass: if the canvases disagree at
/// `(x, y)`, widens the shared accumulator rectangle to cover that pixel;
/// otherwise leaves it untouched.
pub fn texture_diff_shader(current: &Canvas, previous: &Canvas, x: u32, y: u32, acc: &mut DiffRect)
    requires
        current.wf(),
        previous.wf(),
        previous.width == current.width,
        previous.height == current.height,
        x < current.width,
        y < current.height,
    ensures
        differs_at(*previous, *current, x as int, y as int) ==> *final(acc) == (DiffRect {
            left: if x < old(acc).left { x } else { old(acc).left },
            top: if y < old(acc).top { y } else { old(acc).top },
            right: if x + 1 > old(acc).right { (x + 1) as u32 } else { old(acc).right },
            bottom: if y + 1 > old(acc).bottom { (y + 1) as u32 } else { old(acc).bottom },
        }),
        !differs_at(*previous, *current, x as int, y as int) ==> *final(acc) == *old(acc),
{
    let cur = current.get(x, y);
    let prev = previous.get(x, y);
    if cur != prev {
        if x < acc.left {
            acc.left = x;
        }
        if y < acc.top {
            acc.top = y;
        }
        if x + 1 > acc.right {
            acc.right = x + 1;
        }
        if y + 1 > acc.bottom {
            acc.bottom = y + 1;
        }
    }
}

/// The stateful frame differ. Owns the retained copy of the previous canvas,
/// the one piece of cross-frame mutable state in the pipeline.
pub struct TextureDiffer {
    pub width: u32,
    pub height: u32,
    pub previous: Canvas,
    pub first_frame: bool,
}

impl TextureDiffer {
    pub open spec fn wf(self) -> bool {
        &&& self.previous.wf()
        &&& self.previous.width == self.width
        &&& self.previous.height == self.height
    }

    pub fn new(width: u32, height: u32) -> (r: TextureDiffer)
        requires
            width <= 0xFFFF,
            height <= 0xFFFF,
        ensures
            r.wf(),
            r.width == width,
            r.height == height,
            r.first_frame,
    {
        TextureDiffer {
            width,
            height,
            previous: Canvas::filled(width, height, Color { r: 0, g: 0, b: 0 }),
            first_frame: true,
        }
    }

    /// Compares `canvas` against the retained previous canvas.
    ///
    /// The first frame is reported as fully changed without comparison. In
    /// steady state the result is the exact bounding rectangle of the
    /// differing pixels, or `None` when the canvases are identical. The
    /// retained copy always ends up holding `canvas`, whatever the outcome.
    pub fn process_frame(&mut self, canvas: &Canvas) -> (r: Option<DiffRect>)
        requires
            old(self).wf(),
            canvas.wf(),
            canvas.width == old(self).width,
            canvas.height == old(self).height,
        ensures
            final(self).wf(),
            final(self).width == old(self).width,
            final(self).height == old(self).height,
            !final(self).first_frame,
            final(self).previous.pixels@ =~= canvas.pixels@,
            old(self).first_frame ==> r == Some(DiffRect {
                left: 0,
                top: 0,
                right: old(self).width,
                bottom: old(self).height,
            }),
            !old(self).first_frame ==> {
                &&& (r is None <==> !any_diff(old(self).previous, *canvas))
                &&& (r matches Some(rect) ==> is_diff_bbox(old(self).previous, *canvas, rect))
            },
    {
        let w = self.width;
        let h = self.height;
        let result: Option<DiffRect>;
        if self.first_frame {
            self.first_frame = false;
            result = Some(DiffRect { left: 0, top: 0, right: w, bottom: h });
        } else {
            let ghost prev0 = self.previous;
            let mut acc = DiffRect { left: w, top: h, right: 0, bottom: 0 };
            let mut y: u32 = 0;
            while y < h
                invariant
                    self.wf(),
                    canvas.wf(),
                    self.width == w,
                    self.height == h,
                    canvas.width == w,
                    canvas.height == h,
                    prev0 == self.previous,
                    y <= h,
                    acc.right <= w,
                    acc.bottom <= h,
                    acc.right == 0 ==> acc == (DiffRect { left: w, top: h, right: 0, bottom: 0 }),
                    forall|px: int, py: int|
                        0 <= px < w && 0 <= py < y && #[trigger] differs_at(prev0, *canvas, px, py)
                            ==> acc.left <= px < acc.right && acc.top <= py < acc.bottom,
                    acc.right > 0 ==> {
                        &&& some_diff_in_col(prev0, *canvas, acc.left as int)
                        &&& some_diff_in_col(prev0, *canvas, acc.right - 1)
                        &&& some_diff_in_row(prev0, *canvas, acc.top as int)
                        &&& some_diff_in_row(prev0, *canvas, acc.bottom - 1)
                    },
                decreases h - y,
            {
                let mut x: u32 = 0;
                while x < w
                    invariant
                        self.wf(),
                        canvas.wf(),
                        self.width == w,
                        self.height == h,
                        canvas.width == w,
                        canvas.height == h,
                        prev0 == self.previous,
                        y < h,
                        x <= w,
                        acc.right <= w,
                        acc.bottom <= h,
                        acc.right == 0 ==> acc == (DiffRect { left: w, top: h, right: 0, bottom: 0 }),
                        forall|px: int, py: int|
                            0 <= px < w && 0 <= py < h
                                && scanned_before(x as int, y as int, px, py)
                                && #[trigger] differs_at(prev0, *canvas, px, py)
                                ==> acc.left <= px < acc.right && acc.top <= py < acc.bottom,
                        acc.right > 0 ==> {
                            &&& some_diff_in_col(prev0, *canvas, acc.left as int)
                            &&& some_diff_in_col(prev0, *canvas, acc.right - 1)
                            &&& some_diff_in_row(prev0, *canvas, acc.top as int)
                            &&& some_diff_in_row(prev0, *canvas, acc.bottom - 1)
                        },
                    decreases w - x,
                {
                    texture_diff_shader(canvas, &self.previous, x, y, &mut acc);
                    x = x + 1;
                }
                y = y + 1;
            }
            if acc.right > acc.left && acc.bottom > acc.top {
                result = Some(acc);
                proof {
                    assert(is_diff_bbox(prev0, *canvas, acc));
                    let rc: int = acc.right - 1;
                    let py = choose|y: int|
                        0 <= y < prev0.height && differs_at(prev0, *canvas, rc, y);
                    assert(differs_at(prev0, *canvas, rc, py));
                    assert(any_diff(prev0, *canvas));
                }
            } else {
                result = None;
                proof {
                    if acc.right > 0 {
                        let rc: int = acc.right - 1;
                        let bc: int = acc.bottom - 1;
                        let pyl = choose|y: int|
                            0 <= y < prev0.height && differs_at(prev0, *canvas, rc, y);
                        assert(differs_at(prev0, *canvas, rc, pyl));
                        let pxt = choose|x: int|
                            0 <= x < prev0.width && differs_at(prev0, *canvas, x, bc);
                        assert(differs_at(prev0, *canvas, pxt, bc));
                        assert(false);
                    }
                    if any_diff(prev0, *canvas) {
                        let (px, py) = choose|px: int, py: int|
                            0 <= px < prev0.width && 0 <= py < prev0.height
                                && differs_at(prev0, *canvas, px, py);
                        assert(differs_at(prev0, *canvas, px, py));
                        assert(false);
                    }
                }
            }
        }
        self.previous = canvas.duplicate();
        result
    }
}

} // verus!
