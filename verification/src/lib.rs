//! Verified core of a screen-recording GIF pipeline: palette lookup-volume
//! construction, frame composition, frame differencing, color quantization,
//! and the per-frame encoding loop that feeds an animated GIF sink.

use vstd::prelude::*;

pub mod color;
pub mod compositor;
pub mod diff;
pub mod encoder;
pub mod lut;
pub mod palette;
pub mod quantizer;
pub mod sink;

pub use encoder::CaptureGifEncoder;
pub use palette::default_palette;

verus! {

/// Rounds a dimension up to the next even value, as the pipeline requires
/// even-aligned canvas sizes.
pub fn ensure_even(value: i32) -> (r: i32)
    requires
        value < i32::MAX,
    ensures
        r == if value % 2 == 0 { value as int } else { value + 1 },
        r % 2 == 0,
{
    if value % 2 == 0 {
        value
    } else {
        value + 1
    }
}

} // verus!
