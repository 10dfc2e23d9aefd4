//! The output sink: an in-memory animated GIF writer from the `gif` crate,
//! reached through a small set of trusted declarations. The stream is built
//! in a byte buffer; persisting it is the caller's concern.
//!
//! `gif::Encoder` is generic over `std::io::Write`, a trait Verus has no
//! specification for, so the encoder is held inside an opaque struct rather
//! than declared directly.

use vstd::prelude::*;

verus! {

/// Holds the `gif` crate's encoder writing into a `Vec<u8>`. Opaque to
/// Verus; every use goes through the trusted functions below.
#[verifier::external_body]
pub struct GifSink {
    enc: gif::Encoder<Vec<u8>>,
}

#[verifier::external_type_specification]
#[verifier::external_body]
pub struct ExEncodingError(gif::EncodingError);

/// Relies on gif::Encoder::new: writes the screen descriptor and the global
/// color table into a fresh in-memory buffer and returns the encoder. A
/// 768-byte palette is 256 colors, within the format's limit, and writing
/// to a `Vec<u8>` never fails, so the call succeeds.
#[verifier::external_body]
pub fn gif_sink_new(
    width: u16,
    height: u16,
    palette: &Vec<u8>,
) -> (r: Result<GifSink, gif::EncodingError>)
    requires
        palette@.len() == 768,
    ensures
        r is Ok,
{
    match gif::Encoder::new(Vec::new(), width, height, palette.as_slice()) {
        Ok(enc) => Ok(GifSink { enc }),
        Err(e) => Err(e),
    }
}

/// Relies on gif::Encoder::set_repeat: writes the looping extension block.
/// The block is plain bytes into the in-memory buffer, so the call succeeds.
#[verifier::external_body]
pub fn gif_sink_set_repeat_infinite(sink: &mut GifSink) -> (r: Result<(), gif::EncodingError>)
    ensures
        r is Ok,
{
    sink.enc.set_repeat(gif::Repeat::Infinite)
}

/// Relies on gif::Encoder::write_frame: appends one sub-image record with
/// the given placement, size and delay (hundredths of a second), indexed
/// against the global palette. The call succeeds on every admitted input:
/// the exact-length buffer passes the callee's size check, every `GifSink`
/// carries a global palette (set at creation), and all output lands in the
/// in-memory `Vec<u8>`, which never fails to write.
#[verifier::external_body]
pub fn gif_sink_write_frame(
    sink: &mut GifSink,
    width: u16,
    height: u16,
    left: u16,
    top: u16,
    delay: u16,
    data: &Vec<u8>,
) -> (r: Result<(), gif::EncodingError>)
    requires
        data@.len() == width * height,
    ensures
        r is Ok,
{
    let frame = gif::Frame {
        delay, top, left, width, height,
        dispose: gif::DisposalMethod::Keep,
        transparent: None,
        needs_user_input: false,
        interlaced: false,
        palette: None,
        buffer: std::borrow::Cow::Borrowed(data.as_slice()),
    };
    sink.enc.write_frame(&frame)
}

/// Relies on gif::Encoder::into_inner: writes the trailer byte and hands
/// back the buffer holding the finished stream. The writer is always
/// present and writing to a `Vec<u8>` never fails, so the call succeeds.
#[verifier::external_body]
pub fn gif_sink_finish(sink: GifSink) -> (r: Result<Vec<u8>, gif::EncodingError>)
    ensures
        r is Ok,
{
    sink.enc.into_inner()
}

} // verus!
