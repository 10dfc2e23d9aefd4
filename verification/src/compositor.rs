//! Frame composition: copies a captured surface into the fixed-size working
//! canvas, clearing to a background color first so that area outside the
//! captured content is deterministic.

use vstd::prelude::*;
use crate::color::{Canvas, Color};

verus! {

/// A composited frame: the working canvas together with the capture
/// timestamp it was produced from.
pub struct ComposedFrame {
    pub canvas: Canvas,
    pub system_relative_time: i64,
}

/// How many columns are copied from the surface: the reported content width
/// clamped to zero, the surface itself and the canvas. Rows work the same.
pub open spec fn copy_extent(content: int, surface: int, canvas: int) -> int {
    let c = if content < 0 { 0 } else { content };
    let c = if c < surface { c } else { surface };
    if c < canvas { c } else { canvas }
}

/// The composited image: the copied part of the surface, background color
/// everywhere else.
pub open spec fn composed_pixel(
    surface: Canvas,
    cw: int,
    ch: int,
    bg: Color,
    x: int,
    y: int,
) -> Color {
    if x < cw && y < ch {
        surface.pix(x, y)
    } else {
        bg
    }
}

/// Composites captured surfaces into a working canvas of fixed, even-aligned
/// size, retaining the last output so the final flush can repeat it.
pub struct FrameCompositor {
    pub width: u32,
    pub height: u32,
    pub background: Color,
    pub output: Canvas,
}

impl FrameCompositor {
    pub open spec fn wf(self) -> bool {
        &&& self.output.wf()
        &&& self.output.width == self.width
        &&& self.output.height == self.height
    }

    pub fn new(width: u32, height: u32) -> (r: FrameCompositor)
        requires
            width <= 0xFFFF,
            height <= 0xFFFF,
        ensures
            r.wf(),
            r.width == width,
            r.height == height,
            r.background == (Color { r: 0, g: 0, b: 0 }),
    {
        let background = Color { r: 0, g: 0, b: 0 };
        FrameCompositor {
            width,
            height,
            background,
            output: Canvas::filled(width, height, background),
        }
    }

    /// Clears the canvas to the background color, then copies the captured
    /// content clamped to the canvas extents: a capture that grew is cropped,
    /// one that shrank leaves background at the margins. The canvas size
    /// never changes mid-session.
    pub fn process_frame(
        &mut self,
        surface: &Canvas,
        content_width: i32,
        content_height: i32,
        timestamp: i64,
    ) -> (r: ComposedFrame)
        requires
            old(self).wf(),
            surface.wf(),
        ensures
            final(self).wf(),
            final(self).width == old(self).width,
            final(self).height == old(self).height,
            final(self).background == old(self).background,
            r.system_relative_time == timestamp,
            r.canvas.wf(),
            r.canvas.width == old(self).width,
            r.canvas.height == old(self).height,
            forall|x: int, y: int|
                0 <= x < old(self).width && 0 <= y < old(self).height
                    ==> #[trigger] r.canvas.pix(x, y) == composed_pixel(
                        *surface,
                        copy_extent(content_width as int, surface.width as int, old(self).width as int),
                        copy_extent(content_height as int, surface.height as int, old(self).height as int),
                        old(self).background,
                        x,
                        y,
                    ),
            final(self).output.pixels@ =~= r.canvas.pixels@,
    {
        let cw: u32 = {
            let c: u32 = if content_width < 0 { 0 } else { content_width as u32 };
            let c: u32 = if c < surface.width { c } else { surface.width };
            if c < self.width { c } else { self.width }
        };
        let ch: u32 = {
            let c: u32 = if content_height < 0 { 0 } else { content_height as u32 };
            let c: u32 = if c < surface.height { c } else { surface.height };
            if c < self.height { c } else { self.height }
        };
        let ghost cws = copy_extent(content_width as int, surface.width as int, self.width as int);
        let ghost chs = copy_extent(content_height as int, surface.height as int, self.height as int);
        let mut canvas = Canvas::filled(self.width, self.height, self.background);
        let mut y: u32 = 0;
        while y < ch
            invariant
                surface.wf(),
                canvas.wf(),
                canvas.width == self.width,
                canvas.height == self.height,
                cw == cws,
                ch == chs,
                cw <= surface.width,
                cw <= self.width,
                ch <= surface.height,
                ch <= self.height,
                y <= ch,
                forall|i: int, j: int|
                    0 <= i < self.width && 0 <= j < self.height
                        ==> #[trigger] canvas.pix(i, j) == (if i < cw && j < y {
                            surface.pix(i, j)
                        } else {
                            self.background
                        }),
            decreases ch - y,
        {
            let mut x: u32 = 0;
            while x < cw
                invariant
                    surface.wf(),
                    canvas.wf(),
                    canvas.width == self.width,
                    canvas.height == self.height,
                    cw <= surface.width,
                    cw <= self.width,
                    ch <= surface.height,
                    ch <= self.height,
                    y < ch,
                    x <= cw,
                    forall|i: int, j: int|
                        0 <= i < self.width && 0 <= j < self.height
                            ==> #[trigger] canvas.pix(i, j) == (if (i < cw && j < y)
                                || (j == y && i < x) {
                                surface.pix(i, j)
                            } else {
                                self.background
                            }),
                decreases cw - x,
            {
                let c = surface.get(x, y);
                canvas.set(x, y, c);
                x = x + 1;
            }
            y = y + 1;
        }
        self.output = canvas.duplicate();
        ComposedFrame { canvas, system_relative_time: timestamp }
    }

    /// Hands out the retained last output once more, stamped with the given
    /// timestamp; the forced final flush of a session uses this.
    pub fn repeat_frame(&self, timestamp: i64) -> (r: ComposedFrame)
        requires
            self.wf(),
        ensures
            r.canvas.wf(),
            r.canvas.width == self.width,
            r.canvas.height == self.height,
            r.canvas.pixels@ =~= self.output.pixels@,
            r.system_relative_time == timestamp,
    {
        ComposedFrame { canvas: self.output.duplicate(), system_relative_time: timestamp }
    }
}

} // verus!
