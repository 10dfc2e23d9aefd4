//! The pipeline orchestrator: composites incoming captures, diffs them
//! against the previous canvas, quantizes the changed region, computes the
//! presentation delay and appends the frame to the GIF sink.

use vstd::prelude::*;
use crate::color::{Canvas, Color};
use crate::compositor::{ComposedFrame, FrameCompositor, composed_pixel, copy_extent};
use crate::diff::{DiffRect, TextureDiffer, any_diff, is_diff_bbox, lemma_diff_predicates_view};
use crate::lut::PaletteIndexLUT;
use crate::palette::{Palette, entry_of_bytes};
use crate::quantizer::{ColorQuantizer, is_quantized_region, lemma_quantized_region_view};
use crate::sink::{
    GifSink, gif_sink_finish, gif_sink_new, gif_sink_set_repeat_infinite, gif_sink_write_frame,
};

verus! {

/// Session lifecycle. `Stopped` is terminal: a stopped session holds no
/// sink any more and accepts no further frames.
#[derive(Clone, Copy, PartialEq, Eq, Structural, Debug)]
pub enum SessionState {
    Armed,
    Running,
    Draining,
    Stopped,
}

/// A failure of the pipeline. Per-frame failures are fatal to the session;
/// there is no partial-frame recovery.
#[derive(Debug)]
pub enum EncodeError {
    /// The output sink rejected a write.
    Sink(gif::EncodingError),
}

/// One emitted sub-image: placement, size, presentation delay in hundredths
/// of a second, and one palette index per pixel.
#[derive(PartialEq, Eq, Debug)]
pub struct FrameRecord {
    pub left: u16,
    pub top: u16,
    pub width: u16,
    pub height: u16,
    pub delay: u16,
    pub data: Vec<u8>,
}

/// A captured frame as the capture source hands it over: the surface, the
/// content extent actually occupied, and a monotonic timestamp in ticks of
/// 100 nanoseconds.
pub struct CapturedFrame {
    pub surface: Canvas,
    pub content_width: i32,
    pub content_height: i32,
    pub timestamp: i64,
}

impl CapturedFrame {
    pub open spec fn wf(self) -> bool {
        &&& self.surface.wf()
        &&& self.timestamp >= 0
    }
}

/// The rectangle covering the whole canvas.
pub open spec fn full_rect(w: int, h: int) -> DiffRect {
    DiffRect { left: 0, top: 0, right: w as u32, bottom: h as u32 }
}

/// The small corner patch synthesized when a forced flush finds no change,
/// clamped to the canvas.
pub open spec fn forced_rect(w: int, h: int) -> DiffRect {
    DiffRect {
        left: 0,
        top: 0,
        right: if w < 5 { w as u32 } else { 5 },
        bottom: if h < 5 { h as u32 } else { 5 },
    }
}

/// A rectangle inflated by one pixel on each side and clamped to the canvas,
/// absorbing sampling edge artifacts of the quantization pass.
pub open spec fn inflated_rect(r: DiffRect, w: int, h: int) -> DiffRect {
    DiffRect {
        left: if r.left >= 1 { (r.left - 1) as u32 } else { 0 },
        top: if r.top >= 1 { (r.top - 1) as u32 } else { 0 },
        right: if r.right + 1 <= w { (r.right + 1) as u32 } else { w as u32 },
        bottom: if r.bottom + 1 <= h { (r.bottom + 1) as u32 } else { h as u32 },
    }
}

/// The presentation delay of a frame emitted at `cur`, in hundredths of a
/// second: the distance to the previously emitted frame's timestamp (the
/// first emitted frame is its own baseline), ticks truncated to whole
/// hundredths, and the value truncated to the sink's 16-bit field.
pub open spec fn delay_for(last: Option<i64>, cur: i64) -> int {
    let base: int = match last {
        Some(t) => t as int,
        None => cur as int,
    };
    ((cur - base) / 100000) % 0x10000
}

/// What an emitted record must hold when the frame at `ts` was emitted for
/// the raw changed rectangle `raw` of canvas `cc`.
pub open spec fn emitted_for_rect(
    palette: Seq<Color>,
    cc: Canvas,
    raw: DiffRect,
    w: int,
    h: int,
    last: Option<i64>,
    ts: i64,
    rec: FrameRecord,
) -> bool {
    let infl = inflated_rect(raw, w, h);
    &&& rec.left == infl.left
    &&& rec.top == infl.top
    &&& rec.width == infl.right - infl.left
    &&& rec.height == infl.bottom - infl.top
    &&& rec.delay == delay_for(last, ts)
    &&& is_quantized_region(palette, cc, infl, rec.data@)
}

/// One pass of the per-frame algorithm over captured frame `f`, without a
/// forced flush, taking the session from `pre` to `post` with outcome `o`:
/// the relation `process_frame` establishes between its old and new state.
pub open spec fn step_rel(
    pre: CaptureGifEncoder,
    f: CapturedFrame,
    o: Option<FrameRecord>,
    post: CaptureGifEncoder,
) -> bool {
    &&& post.wf()
    &&& post.width == pre.width
    &&& post.height == pre.height
    &&& post.disable_frame_diff == pre.disable_frame_diff
    &&& post.state == pre.state
    &&& post.quantizer == pre.quantizer
    &&& post.last_composed_timestamp == f.timestamp
    &&& post.compositor.background == pre.compositor.background
    &&& forall|x: int, y: int|
        0 <= x < pre.width && 0 <= y < pre.height
            ==> #[trigger] post.compositor.output.pix(x, y) == composed_pixel(
                f.surface,
                copy_extent(f.content_width as int, f.surface.width as int, pre.width as int),
                copy_extent(f.content_height as int, f.surface.height as int, pre.height as int),
                pre.compositor.background,
                x,
                y,
            )
    &&& pre.disable_frame_diff ==> post.differ == pre.differ
    &&& !pre.disable_frame_diff ==> {
        &&& !post.differ.first_frame
        &&& post.differ.previous.pixels@ == post.compositor.output.pixels@
    }
    &&& o matches Some(rec) ==> {
        &&& post.last_timestamp == Some(f.timestamp)
        &&& post.emitted@ =~= pre.emitted@.push(rec)
    }
    &&& o is None ==> {
        &&& post.last_timestamp == pre.last_timestamp
        &&& post.emitted@ == pre.emitted@
    }
    &&& pre.disable_frame_diff || pre.differ.first_frame ==> (o matches Some(rec)
        && emitted_for_rect(
        pre.palette_view(),
        post.compositor.output,
        full_rect(pre.width as int, pre.height as int),
        pre.width as int,
        pre.height as int,
        pre.last_timestamp,
        f.timestamp,
        rec,
    ))
    &&& !pre.disable_frame_diff && !pre.differ.first_frame && any_diff(
        pre.differ.previous,
        post.compositor.output,
    ) ==> (o matches Some(rec) && exists|raw: DiffRect|
        #[trigger] is_diff_bbox(pre.differ.previous, post.compositor.output, raw)
            && emitted_for_rect(
            pre.palette_view(),
            post.compositor.output,
            raw,
            pre.width as int,
            pre.height as int,
            pre.last_timestamp,
            f.timestamp,
            rec,
        ))
    &&& !pre.disable_frame_diff && !pre.differ.first_frame && !any_diff(
        pre.differ.previous,
        post.compositor.output,
    ) ==> o is None
}

/// The forced final flush at session end: the retained composited canvas is
/// fed through the pipeline once more with the last composited timestamp,
/// and a record is always emitted (the synthesized corner patch when
/// nothing changed).
pub open spec fn final_flush_rel(
    pre: CaptureGifEncoder,
    o: Option<FrameRecord>,
    post: CaptureGifEncoder,
) -> bool {
    &&& post.wf()
    &&& post.width == pre.width
    &&& post.height == pre.height
    &&& post.disable_frame_diff == pre.disable_frame_diff
    &&& post.state == pre.state
    &&& post.quantizer == pre.quantizer
    &&& post.compositor == pre.compositor
    &&& post.last_composed_timestamp == pre.last_composed_timestamp
    &&& pre.disable_frame_diff ==> post.differ == pre.differ
    &&& !pre.disable_frame_diff ==> {
        &&& !post.differ.first_frame
        &&& post.differ.previous.pixels@ == pre.compositor.output.pixels@
    }
    &&& o matches Some(rec) ==> {
        &&& post.last_timestamp == Some(pre.last_composed_timestamp)
        &&& post.emitted@ =~= pre.emitted@.push(rec)
    }
    &&& o is Some
    &&& pre.disable_frame_diff || pre.differ.first_frame ==> (o matches Some(rec)
        && emitted_for_rect(
        pre.palette_view(),
        pre.compositor.output,
        full_rect(pre.width as int, pre.height as int),
        pre.width as int,
        pre.height as int,
        pre.last_timestamp,
        pre.last_composed_timestamp,
        rec,
    ))
    &&& !pre.disable_frame_diff && !pre.differ.first_frame && any_diff(
        pre.differ.previous,
        pre.compositor.output,
    ) ==> (o matches Some(rec) && exists|raw: DiffRect|
        #[trigger] is_diff_bbox(pre.differ.previous, pre.compositor.output, raw)
            && emitted_for_rect(
            pre.palette_view(),
            pre.compositor.output,
            raw,
            pre.width as int,
            pre.height as int,
            pre.last_timestamp,
            pre.last_composed_timestamp,
            rec,
        ))
    &&& !pre.disable_frame_diff && !pre.differ.first_frame && !any_diff(
        pre.differ.previous,
        pre.compositor.output,
    ) ==> (o matches Some(rec) && emitted_for_rect(
        pre.palette_view(),
        pre.compositor.output,
        forced_rect(pre.width as int, pre.height as int),
        pre.width as int,
        pre.height as int,
        pre.last_timestamp,
        pre.last_composed_timestamp,
        rec,
    ))
}

/// The whole drain, relationally: starting from `v0`, the frames were each
/// taken through one `step_rel` pass in order, producing one outcome per
/// frame and ending in `v1`. This is how a session gets from the stop
/// signal to the final flush: no frame skipped over, none reordered.
pub open spec fn drained_from(
    v0: CaptureGifEncoder,
    frames: Seq<CapturedFrame>,
    outs: Seq<Option<FrameRecord>>,
    v1: CaptureGifEncoder,
) -> bool
    decreases frames.len(),
{
    if frames.len() == 0 {
        outs.len() == 0 && v1 == v0
    } else {
        &&& outs.len() == frames.len()
        &&& exists|vmid: CaptureGifEncoder|
            drained_from(v0, frames.drop_last(), outs.drop_last(), vmid)
                && #[trigger] step_rel(vmid, frames.last(), outs.last(), v1)
    }
}

/// A drain extends by one frame through one more step.
pub proof fn lemma_drained_push(
    v0: CaptureGifEncoder,
    frames: Seq<CapturedFrame>,
    outs: Seq<Option<FrameRecord>>,
    vmid: CaptureGifEncoder,
    f: CapturedFrame,
    o: Option<FrameRecord>,
    v1: CaptureGifEncoder,
)
    requires
        outs.len() == frames.len(),
        drained_from(v0, frames, outs, vmid),
        step_rel(vmid, f, o, v1),
    ensures
        drained_from(v0, frames.push(f), outs.push(o), v1),
{
    assert(frames.push(f).drop_last() =~= frames);
    assert(outs.push(o).drop_last() =~= outs);
    assert(frames.push(f).last() == f);
    assert(outs.push(o).last() == o);
    assert(drained_from(v0, frames.push(f).drop_last(), outs.push(o).drop_last(), vmid));
    assert(step_rel(vmid, frames.push(f).last(), outs.push(o).last(), v1));
}

/// The records among a sequence of per-frame outcomes, in order: what a run
/// of the pipeline actually handed to the sink.
pub open spec fn somes_of(s: Seq<Option<FrameRecord>>) -> Seq<FrameRecord>
    decreases s.len(),
{
    if s.len() == 0 {
        Seq::empty()
    } else {
        match s.last() {
            Some(rec) => somes_of(s.drop_last()).push(rec),
            None => somes_of(s.drop_last()),
        }
    }
}

/// Appending one outcome appends its record, if any.
pub proof fn lemma_somes_of_push(s: Seq<Option<FrameRecord>>, o: Option<FrameRecord>)
    ensures
        somes_of(s.push(o)) == (match o {
            Some(rec) => somes_of(s).push(rec),
            None => somes_of(s),
        }),
{
    assert(s.push(o).drop_last() =~= s);
    assert(s.push(o).last() == o);
}

/// Inflates a rectangle by one pixel on each side, clamped to the canvas.
pub fn inflate_rect(r: DiffRect, w: u32, h: u32) -> (out: DiffRect)
    requires
        r.left <= r.right <= 0xFFFF,
        r.top <= r.bottom <= 0xFFFF,
    ensures
        out == inflated_rect(r, w as int, h as int),
{
    let left: u32 = if r.left >= 1 { r.left - 1 } else { 0 };
    let top: u32 = if r.top >= 1 { r.top - 1 } else { 0 };
    let right: u32 = if r.right + 1 <= w { r.right + 1 } else { w };
    let bottom: u32 = if r.bottom + 1 <= h { r.bottom + 1 } else { h };
    DiffRect { left, top, right, bottom }
}

/// Computes a frame's presentation delay from the previously emitted
/// timestamp, truncating to whole hundredths of a second and then to the
/// sink's 16-bit delay field.
pub fn compute_delay(last: Option<i64>, cur: i64) -> (d: u16)
    requires
        cur >= 0,
        last matches Some(t) ==> 0 <= t <= cur,
    ensures
        d == delay_for(last, cur),
{
    let base: i64 = match last {
        Some(t) => t,
        None => cur,
    };
    let diff: i64 = cur - base;
    let hundredths: i64 = diff / 100000;
    (hundredths % 0x10000) as u16
}

/// The orchestrator: owns every pipeline stage and the output sink, and
/// runs the per-frame algorithm on each captured frame handed to it.
pub struct CaptureGifEncoder {
    pub width: u32,
    pub height: u32,
    pub disable_frame_diff: bool,
    pub state: SessionState,
    pub compositor: FrameCompositor,
    pub differ: TextureDiffer,
    pub quantizer: ColorQuantizer,
    pub sink: Option<GifSink>,
    pub last_timestamp: Option<i64>,
    pub last_composed_timestamp: i64,
    pub emitted: Ghost<Seq<FrameRecord>>,
}

impl CaptureGifEncoder {
    /// The palette the session quantizes against.
    pub open spec fn palette_view(self) -> Seq<Color> {
        self.quantizer.lut.palette.entries@
    }

    pub open spec fn wf(self) -> bool {
        &&& 2 <= self.width <= 0xFFFE
        &&& 2 <= self.height <= 0xFFFE
        &&& self.width % 2 == 0
        &&& self.height % 2 == 0
        &&& self.compositor.wf()
        &&& self.compositor.width == self.width
        &&& self.compositor.height == self.height
        &&& self.differ.wf()
        &&& self.differ.width == self.width
        &&& self.differ.height == self.height
        &&& self.quantizer.wf()
        &&& self.sink is Some
        &&& self.last_composed_timestamp >= 0
        &&& match self.last_timestamp {
            Some(t) => 0 <= t <= self.last_composed_timestamp,
            None => true,
        }
    }

    /// Sets up a session: rounds the canvas size up to even values, pads or
    /// truncates the palette to 256 entries, builds the lookup volume, and
    /// opens the sink with the canvas size and the global palette, looping
    /// forever.
    pub fn new(
        palette_bytes: &Vec<u8>,
        width: i32,
        height: i32,
        disable_frame_diff: bool,
    ) -> (r: Result<CaptureGifEncoder, EncodeError>)
        requires
            0 < width <= 0xFFFE,
            0 < height <= 0xFFFE,
        ensures
            r is Ok,
            r matches Ok(enc) ==> {
                &&& enc.wf()
                &&& enc.state == SessionState::Armed
                &&& enc.disable_frame_diff == disable_frame_diff
                &&& enc.width == if width % 2 == 0 { width as int } else { width + 1 }
                &&& enc.height == if height % 2 == 0 { height as int } else { height + 1 }
                &&& enc.differ.first_frame
                &&& enc.last_timestamp is None
                &&& enc.last_composed_timestamp == 0
                &&& enc.emitted@ =~= Seq::<FrameRecord>::empty()
                &&& forall|i: int|
                    0 <= i < 256 ==> enc.palette_view()[i] == entry_of_bytes(palette_bytes@, i)
            },
    {
        let width: u32 = crate::ensure_even(width) as u32;
        let height: u32 = crate::ensure_even(height) as u32;
        let palette = Palette::normalize(palette_bytes);
        let global = palette.to_rgb_bytes();
        let lut = PaletteIndexLUT::new(palette);
        let quantizer = ColorQuantizer::new(lut);
        let differ = TextureDiffer::new(width, height);
        let compositor = FrameCompositor::new(width, height);
        let mut sink = match gif_sink_new(width as u16, height as u16, &global) {
            Ok(s) => s,
            Err(e) => {
                return Err(EncodeError::Sink(e));
            },
        };
        match gif_sink_set_repeat_infinite(&mut sink) {
            Ok(()) => {},
            Err(e) => {
                return Err(EncodeError::Sink(e));
            },
        }
        Ok(CaptureGifEncoder {
            width,
            height,
            disable_frame_diff,
            state: SessionState::Armed,
            compositor,
            differ,
            quantizer,
            sink: Some(sink),
            last_timestamp: None,
            last_composed_timestamp: 0,
            emitted: Ghost(Seq::empty()),
        })
    }

    /// Arms the session for processing. Idempotent and one-shot: only the
    /// first call moves the session from `Armed` to `Running`.
    pub fn start(&mut self)
        ensures
            *final(self) == (CaptureGifEncoder {
                state: if old(self).state == SessionState::Armed {
                    SessionState::Running
                } else {
                    old(self).state
                },
                ..*old(self)
            }),
    {
        if self.state == SessionState::Armed {
            self.state = SessionState::Running;
        }
    }

    /// The per-frame algorithm on an already composited canvas: diff (or
    /// treat everything as dirty), decide skip or emit, inflate, quantize,
    /// compute the delay and append to the sink.
    ///
    /// Returns the emitted record, or `None` when the frame was skipped
    /// because nothing changed. The in-memory sink accepts every record the
    /// pipeline produces, so the call always succeeds; the `Result` carries
    /// the session's policy that any sink failure would be fatal.
    pub fn process_composed(&mut self, frame: ComposedFrame, force: bool) -> (r: Result<
        Option<FrameRecord>,
        EncodeError,
    >)
        requires
            old(self).wf(),
            old(self).state == SessionState::Running || old(self).state == SessionState::Draining,
            frame.canvas.wf(),
            frame.canvas.width == old(self).width,
            frame.canvas.height == old(self).height,
            frame.system_relative_time >= 0,
            old(self).last_timestamp matches Some(t) ==> t <= frame.system_relative_time,
        ensures
            r is Ok,
            final(self).wf(),
            final(self).width == old(self).width,
            final(self).height == old(self).height,
            final(self).disable_frame_diff == old(self).disable_frame_diff,
            final(self).state == old(self).state,
            final(self).quantizer == old(self).quantizer,
            final(self).compositor == old(self).compositor,
            final(self).last_composed_timestamp == frame.system_relative_time,
            old(self).disable_frame_diff ==> final(self).differ == old(self).differ,
            !old(self).disable_frame_diff ==> {
                &&& !final(self).differ.first_frame
                &&& final(self).differ.previous.pixels@ == frame.canvas.pixels@
            },
            r matches Ok(Some(rec)) ==> {
                &&& final(self).last_timestamp == Some(frame.system_relative_time)
                &&& final(self).emitted@ =~= old(self).emitted@.push(rec)
            },
            r matches Ok(None) ==> {
                &&& final(self).last_timestamp == old(self).last_timestamp
                &&& final(self).emitted@ == old(self).emitted@
            },
            // Which of the four decisions was taken, and what was emitted.
            old(self).disable_frame_diff || old(self).differ.first_frame ==> (r
                matches Ok(Some(rec)) && emitted_for_rect(
                old(self).palette_view(),
                frame.canvas,
                full_rect(old(self).width as int, old(self).height as int),
                old(self).width as int,
                old(self).height as int,
                old(self).last_timestamp,
                frame.system_relative_time,
                rec,
            )),
            !old(self).disable_frame_diff && !old(self).differ.first_frame && any_diff(
                old(self).differ.previous,
                frame.canvas,
            ) ==> (r matches Ok(Some(rec)) && exists|raw: DiffRect|
                #[trigger] is_diff_bbox(old(self).differ.previous, frame.canvas, raw)
                    && emitted_for_rect(
                    old(self).palette_view(),
                    frame.canvas,
                    raw,
                    old(self).width as int,
                    old(self).height as int,
                    old(self).last_timestamp,
                    frame.system_relative_time,
                    rec,
                )),
            !old(self).disable_frame_diff && !old(self).differ.first_frame && !any_diff(
                old(self).differ.previous,
                frame.canvas,
            ) && !force ==> r matches Ok(None),
            !old(self).disable_frame_diff && !old(self).differ.first_frame && !any_diff(
                old(self).differ.previous,
                frame.canvas,
            ) && force ==> (r matches Ok(Some(rec)) && emitted_for_rect(
                old(self).palette_view(),
                frame.canvas,
                forced_rect(old(self).width as int, old(self).height as int),
                old(self).width as int,
                old(self).height as int,
                old(self).last_timestamp,
                frame.system_relative_time,
                rec,
            )),
    {
        let ghost prev0 = self.differ.previous;
        let w = self.width;
        let h = self.height;
        let ts = frame.system_relative_time;
        let rect_opt: Option<DiffRect> = if !self.disable_frame_diff {
            self.differ.process_frame(&frame.canvas)
        } else {
            Some(DiffRect { left: 0, top: 0, right: w, bottom: h })
        };
        let rect_opt: Option<DiffRect> = match rect_opt {
            Some(r0) => Some(r0),
            None => {
                if force {
                    Some(DiffRect {
                        left: 0,
                        top: 0,
                        right: if w < 5 { w } else { 5 },
                        bottom: if h < 5 { h } else { 5 },
                    })
                } else {
                    None
                }
            },
        };
        self.last_composed_timestamp = ts;
        match rect_opt {
            None => Ok(None),
            Some(raw) => {
                let infl = inflate_rect(raw, w, h);
                let bytes = self.quantizer.quantize(&frame.canvas, &infl);
                let delay = compute_delay(self.last_timestamp, ts);
                let rec = FrameRecord {
                    left: infl.left as u16,
                    top: infl.top as u16,
                    width: (infl.right - infl.left) as u16,
                    height: (infl.bottom - infl.top) as u16,
                    delay,
                    data: bytes,
                };
                let wrote = match &mut self.sink {
                    Some(s) => gif_sink_write_frame(
                        s,
                        rec.width,
                        rec.height,
                        rec.left,
                        rec.top,
                        rec.delay,
                        &rec.data,
                    ),
                    None => vstd::pervasive::unreached(),
                };
                match wrote {
                    Ok(()) => {
                        self.last_timestamp = Some(ts);
                        proof {
                            self.emitted@ = self.emitted@.push(rec);
                        }
                        Ok(Some(rec))
                    },
                    Err(e) => Err(EncodeError::Sink(e)),
                }
            },
        }
    }
    /// The per-frame algorithm on a raw captured surface: composites it
    /// into the working canvas, then runs the composed-frame pipeline.
    ///
    /// The decision contract is stated against the retained composited
    /// canvas, `final(self).compositor.output`.
    pub fn process_frame(
        &mut self,
        surface: &Canvas,
        content_width: i32,
        content_height: i32,
        timestamp: i64,
    ) -> (r: Result<Option<FrameRecord>, EncodeError>)
        requires
            old(self).wf(),
            old(self).state == SessionState::Running || old(self).state == SessionState::Draining,
            surface.wf(),
            timestamp >= old(self).last_composed_timestamp,
        ensures
            r is Ok,
            final(self).wf(),
            final(self).width == old(self).width,
            final(self).height == old(self).height,
            final(self).disable_frame_diff == old(self).disable_frame_diff,
            final(self).state == old(self).state,
            final(self).quantizer == old(self).quantizer,
            final(self).last_composed_timestamp == timestamp,
            final(self).compositor.background == old(self).compositor.background,
            forall|x: int, y: int|
                0 <= x < old(self).width && 0 <= y < old(self).height
                    ==> #[trigger] final(self).compositor.output.pix(x, y) == composed_pixel(
                        *surface,
                        copy_extent(content_width as int, surface.width as int, old(self).width as int),
                        copy_extent(content_height as int, surface.height as int, old(self).height as int),
                        old(self).compositor.background,
                        x,
                        y,
                    ),
            old(self).disable_frame_diff ==> final(self).differ == old(self).differ,
            !old(self).disable_frame_diff ==> {
                &&& !final(self).differ.first_frame
                &&& final(self).differ.previous.pixels@ == final(self).compositor.output.pixels@
            },
            r matches Ok(Some(rec)) ==> {
                &&& final(self).last_timestamp == Some(timestamp)
                &&& final(self).emitted@ =~= old(self).emitted@.push(rec)
            },
            r matches Ok(None) ==> {
                &&& final(self).last_timestamp == old(self).last_timestamp
                &&& final(self).emitted@ == old(self).emitted@
            },
            old(self).disable_frame_diff || old(self).differ.first_frame ==> (r
                matches Ok(Some(rec)) && emitted_for_rect(
                old(self).palette_view(),
                final(self).compositor.output,
                full_rect(old(self).width as int, old(self).height as int),
                old(self).width as int,
                old(self).height as int,
                old(self).last_timestamp,
                timestamp,
                rec,
            )),
            !old(self).disable_frame_diff && !old(self).differ.first_frame && any_diff(
                old(self).differ.previous,
                final(self).compositor.output,
            ) ==> (r matches Ok(Some(rec)) && exists|raw: DiffRect|
                #[trigger] is_diff_bbox(old(self).differ.previous, final(self).compositor.output, raw)
                    && emitted_for_rect(
                    old(self).palette_view(),
                    final(self).compositor.output,
                    raw,
                    old(self).width as int,
                    old(self).height as int,
                    old(self).last_timestamp,
                    timestamp,
                    rec,
                )),
            !old(self).disable_frame_diff && !old(self).differ.first_frame && !any_diff(
                old(self).differ.previous,
                final(self).compositor.output,
            ) ==> r matches Ok(None),
    {
        let composed = self.compositor.process_frame(
            surface,
            content_width,
            content_height,
            timestamp,
        );
        let ghost ccf = composed.canvas;
        let ghost prev0 = self.differ.previous;
        let r = self.process_composed(composed, false);
        proof {
            let cco = self.compositor.output;
            let pal = old(self).palette_view();
            assert(ccf.pixels@ == cco.pixels@);
            assert forall|x: int, y: int|
                #![trigger cco.pix(x, y)]
                #![trigger ccf.pix(x, y)]
                cco.pix(x, y) == ccf.pix(x, y) by {
            }
            assert(any_diff(prev0, ccf) == any_diff(prev0, cco)) by {
                lemma_diff_predicates_view(
                    prev0,
                    ccf,
                    cco,
                    (DiffRect { left: 0, top: 0, right: 0, bottom: 0 }),
                );
            }
            assert forall|raw: DiffRect|
                #![trigger is_diff_bbox(prev0, ccf, raw)]
                #![trigger is_diff_bbox(prev0, cco, raw)]
                is_diff_bbox(prev0, ccf, raw) == is_diff_bbox(prev0, cco, raw) by {
                lemma_diff_predicates_view(prev0, ccf, cco, raw);
            }
            assert forall|rect: DiffRect, out: Seq<u8>|
                #![trigger is_quantized_region(pal, ccf, rect, out)]
                #![trigger is_quantized_region(pal, cco, rect, out)]
                is_quantized_region(pal, ccf, rect, out) == is_quantized_region(
                    pal,
                    cco,
                    rect,
                    out,
                ) by {
                lemma_quantized_region_view(pal, ccf, cco, rect, out);
            }
        }
        r
    }

    /// Stops the session: processes every still-queued frame in arrival
    /// order, then emits one forced final frame (repeating the last
    /// composited canvas) so the stream always ends with a terminating
    /// record, and finalizes the sink. Terminal: the session ends in
    /// `Stopped` and accepts no further frames.
    ///
    /// Returns one outcome per queued frame plus the forced final outcome,
    /// in processing order, and the finished GIF byte stream. No queued
    /// frame is dropped and none is reordered: each queued frame is taken
    /// through one pass of the per-frame algorithm (`drained_from` chains
    /// `step_rel` over the queue, then `final_flush_rel` ends the stream),
    /// and what was emitted during the stop is exactly the `Some` outcomes,
    /// in order, appended to what the session had emitted before — all of
    /// it in the sink before the stream is finalized. The in-memory sink
    /// cannot fail, so the call always succeeds; were a frame ever refused,
    /// finalizing the sink would still be attempted so that the stream on
    /// record stays structurally valid.
    pub fn stop(&mut self, queued: Vec<CapturedFrame>) -> (r: Result<
        (Vec<Option<FrameRecord>>, Vec<u8>),
        EncodeError,
    >)
        requires
            old(self).wf(),
            old(self).state == SessionState::Running,
            forall|i: int| 0 <= i < queued@.len() ==> (#[trigger] queued@[i]).wf(),
            forall|i: int|
                0 <= i < queued@.len() - 1
                    ==> (#[trigger] queued@[i]).timestamp <= queued@[i + 1].timestamp,
            queued@.len() > 0 ==> queued@[0].timestamp >= old(self).last_composed_timestamp,
        ensures
            r is Ok,
            final(self).state == SessionState::Stopped,
            r matches Ok(out) ==> {
                &&& out.0@.len() == queued@.len() + 1
                &&& out.0@[queued@.len() as int] is Some
                &&& final(self).emitted@ =~= old(self).emitted@ + somes_of(out.0@)
                &&& old(self).disable_frame_diff ==> forall|i: int|
                    0 <= i < queued@.len() ==> {
                        &&& #[trigger] out.0@[i] is Some
                        &&& out.0@[i]->0.left == 0
                        &&& out.0@[i]->0.top == 0
                        &&& out.0@[i]->0.width == old(self).width
                        &&& out.0@[i]->0.height == old(self).height
                    }
                &&& old(self).differ.first_frame && queued@.len() > 0 ==> {
                    &&& out.0@[0] is Some
                    &&& out.0@[0]->0.left == 0
                    &&& out.0@[0]->0.top == 0
                    &&& out.0@[0]->0.width == old(self).width
                    &&& out.0@[0]->0.height == old(self).height
                }
                &&& exists|vend: CaptureGifEncoder, vfin: CaptureGifEncoder| {
                    &&& drained_from(
                        (CaptureGifEncoder { state: SessionState::Draining, ..*old(self) }),
                        queued@,
                        out.0@.drop_last(),
                        vend,
                    )
                    &&& #[trigger] final_flush_rel(vend, out.0@.last(), vfin)
                    &&& *final(self) == (CaptureGifEncoder {
                        state: SessionState::Stopped,
                        sink: None,
                        ..vfin
                    })
                }
            },
    {
        let ghost em0 = self.emitted@;
        let ghost w0 = self.width;
        let ghost h0 = self.height;
        let ghost d0 = self.disable_frame_diff;
        let ghost ff0 = self.differ.first_frame;
        self.state = SessionState::Draining;
        let ghost v0 = *self;
        let mut outcomes: Vec<Option<FrameRecord>> = Vec::new();
        let n = queued.len();
        let mut k: usize = 0;
        while k < n
            invariant
                n == queued@.len(),
                k <= n,
                self.wf(),
                self.state == SessionState::Draining,
                self.width == w0,
                self.height == h0,
                self.disable_frame_diff == d0,
                forall|i: int| 0 <= i < n ==> (#[trigger] queued@[i]).wf(),
                forall|i: int|
                    0 <= i < n - 1
                        ==> (#[trigger] queued@[i]).timestamp <= queued@[i + 1].timestamp,
                k < n ==> queued@[k as int].timestamp >= self.last_composed_timestamp,
                outcomes@.len() == k,
                self.emitted@ =~= em0 + somes_of(outcomes@),
                drained_from(v0, queued@.take(k as int), outcomes@, *self),
                d0 ==> forall|i: int|
                    0 <= i < k ==> {
                        &&& #[trigger] outcomes@[i] is Some
                        &&& outcomes@[i]->0.left == 0
                        &&& outcomes@[i]->0.top == 0
                        &&& outcomes@[i]->0.width == w0
                        &&& outcomes@[i]->0.height == h0
                    },
                k == 0 ==> self.differ.first_frame == ff0,
                ff0 && k > 0 ==> {
                    &&& outcomes@[0] is Some
                    &&& outcomes@[0]->0.left == 0
                    &&& outcomes@[0]->0.top == 0
                    &&& outcomes@[0]->0.width == w0
                    &&& outcomes@[0]->0.height == h0
                },
            decreases n - k,
        {
            let ghost pre = *self;
            let f = &queued[k];
            match self.process_frame(&f.surface, f.content_width, f.content_height, f.timestamp) {
                Ok(o) => {
                    proof {
                        lemma_somes_of_push(outcomes@, o);
                        assert(step_rel(pre, queued@[k as int], o, *self));
                        assert(queued@.take(k as int + 1) =~= queued@.take(k as int).push(
                            queued@[k as int],
                        ));
                        lemma_drained_push(
                            v0,
                            queued@.take(k as int),
                            outcomes@,
                            pre,
                            queued@[k as int],
                            o,
                            *self,
                        );
                    }
                    outcomes.push(o);
                },
                Err(e) => {
                    self.state = SessionState::Stopped;
                    match self.sink.take() {
                        Some(sink) => {
                            let _ = gif_sink_finish(sink);
                        },
                        None => {},
                    }
                    return Err(e);
                },
            }
            k = k + 1;
        }
        let ghost vend = *self;
        let ghost outs_loop = outcomes@;
        proof {
            assert(queued@.take(n as int) =~= queued@);
            assert(drained_from(v0, queued@, outcomes@, vend));
        }
        let last_frame = self.compositor.repeat_frame(self.last_composed_timestamp);
        let ghost ccf = last_frame.canvas;
        match self.process_composed(last_frame, true) {
            Ok(o) => {
                proof {
                    lemma_somes_of_push(outcomes@, o);
                    let cco = vend.compositor.output;
                    let pal = vend.palette_view();
                    let prev0 = vend.differ.previous;
                    assert(ccf.pixels@ == cco.pixels@);
                    assert(any_diff(prev0, ccf) == any_diff(prev0, cco)) by {
                        lemma_diff_predicates_view(
                            prev0,
                            ccf,
                            cco,
                            (DiffRect { left: 0, top: 0, right: 0, bottom: 0 }),
                        );
                    }
                    assert forall|raw: DiffRect|
                        #![trigger is_diff_bbox(prev0, ccf, raw)]
                        #![trigger is_diff_bbox(prev0, cco, raw)]
                        is_diff_bbox(prev0, ccf, raw) == is_diff_bbox(prev0, cco, raw) by {
                        lemma_diff_predicates_view(prev0, ccf, cco, raw);
                    }
                    assert forall|rect: DiffRect, out: Seq<u8>|
                        #![trigger is_quantized_region(pal, ccf, rect, out)]
                        #![trigger is_quantized_region(pal, cco, rect, out)]
                        is_quantized_region(pal, ccf, rect, out) == is_quantized_region(
                            pal,
                            cco,
                            rect,
                            out,
                        ) by {
                        lemma_quantized_region_view(pal, ccf, cco, rect, out);
                    }
                    assert(final_flush_rel(vend, o, *self));
                }
                outcomes.push(o);
            },
            Err(e) => {
                self.state = SessionState::Stopped;
                match self.sink.take() {
                    Some(sink) => {
                        let _ = gif_sink_finish(sink);
                    },
                    None => {},
                }
                return Err(e);
            },
        }
        let ghost vfin = *self;
        self.state = SessionState::Stopped;
        proof {
            assert(v0 == (CaptureGifEncoder { state: SessionState::Draining, ..*old(self) }));
            assert(outcomes@.drop_last() =~= outs_loop);
            assert(drained_from(v0, queued@, outcomes@.drop_last(), vend));
            assert(final_flush_rel(vend, outcomes@.last(), vfin));
        }
        match self.sink.take() {
            Some(sink) => {
                proof {
                    assert(*self == (CaptureGifEncoder {
                        state: SessionState::Stopped,
                        sink: None,
                        ..vfin
                    }));
                }
                match gif_sink_finish(sink) {
                    Ok(bytes) => Ok((outcomes, bytes)),
                    Err(e) => Err(EncodeError::Sink(e)),
                }
            },
            None => vstd::pervasive::unreached(),
        }
    }
}

} // verus!
