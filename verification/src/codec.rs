//! The boundary to the `gif` crate.
//!
//! The encoder is carried as an opaque value. What each call into it appends
//! to the stream is stated here and believed, not proved: the fixed blocks
//! byte for byte, the block of a frame by name.

use crate::error::GifCreationError;
use vstd::prelude::*;

verus! {

#[verifier::external_type_specification]
#[verifier::external_body]
pub struct ExEncodingError(gif::EncodingError);

/// A `gif::Encoder` that writes into a `Vec<u8>`.
#[verifier::external_body]
pub struct StreamEncoder {
    inner: gif::Encoder<Vec<u8>>,
}

/// The bytes that the encoder has put into its `Vec<u8>` so far.
pub uninterp spec fn encoder_written(encoder: StreamEncoder) -> Seq<u8>;

/// The bytes that `gif::Encoder::write_frame` appends for a frame that covers
/// the whole canvas and carries its own palette: graphic control extension,
/// image descriptor, local colour table and LZW-compressed indices.
pub uninterp spec fn frame_block(
    width: u16,
    height: u16,
    palette: Seq<u8>,
    indices: Seq<u8>,
    delay: u16,
    transparent: Option<u8>,
) -> Seq<u8>;

/// The two bytes of a 16-bit field, low byte first.
pub open spec fn le_bytes(value: u16) -> Seq<u8> {
    seq![(value % 256) as u8, (value / 256) as u8]
}

/// The opening of a stream without global palette: the signature `GIF89a`,
/// the logical screen descriptor, and the two black entries that stand in for
/// a global colour table.
pub open spec fn screen_header(width: u16, height: u16) -> Seq<u8> {
    seq![0x47u8, 0x49, 0x46, 0x38, 0x39, 0x61] + le_bytes(width) + le_bytes(height)
        + seq![0x80u8, 0, 0] + seq![0u8, 0, 0, 0, 0, 0]
}

/// The application extension `NETSCAPE2.0` with a repeat count of zero, which
/// tells a viewer to loop without end.
pub open spec fn loop_block() -> Seq<u8> {
    seq![0x21u8, 0xFF, 0x0B] + seq![0x4Eu8, 0x45, 0x54, 0x53, 0x43, 0x41, 0x50, 0x45, 0x32, 0x2E, 0x30]
        + seq![0x03u8, 0x01, 0x00, 0x00, 0x00]
}

/// The byte that closes a stream.
pub open spec fn trailer() -> Seq<u8> {
    seq![0x3Bu8]
}

/// `gif::Encoder::new` over an empty `Vec<u8>`, with an empty global palette.
///
/// Claimed of it: it succeeds, and the sink then holds the screen header and
/// nothing else. The call can fail on a palette of more than 256 colours,
/// which an empty one is not, and on a write that fails, which a write into
/// a `Vec<u8>` does not.
#[verifier::external_body]
pub(crate) fn encoder_new(width: u16, height: u16) -> (res: Result<StreamEncoder, gif::EncodingError>)
    ensures
        res is Ok,
        res matches Ok(encoder) ==> encoder_written(encoder) == screen_header(width, height),
{
    gif::Encoder::new(Vec::new(), width, height, &[]).map(|inner| StreamEncoder { inner })
}

/// `gif::Encoder::set_repeat` with `Repeat::Infinite`.
///
/// Claimed of it: it succeeds, and the loop block has then been appended.
/// The call fails only on a write that fails, which a write into a `Vec<u8>`
/// does not.
#[verifier::external_body]
pub(crate) fn encoder_repeat_forever(encoder: &mut StreamEncoder) -> (res: Result<(), gif::EncodingError>)
    ensures
        res is Ok,
        encoder_written(*final(encoder)) == encoder_written(*old(encoder)) + loop_block(),
{
    encoder.inner.set_repeat(gif::Repeat::Infinite)
}

/// `gif::Encoder::write_frame`, on a frame made with
/// `gif::Frame::from_indexed_pixels` and given its delay and its palette.
///
/// Claimed of it: when it succeeds, the frame's block has been appended. The
/// length that is required is the one that `from_indexed_pixels` insists on.
/// Success is not claimed: the call gives an error when it cannot reserve
/// the memory for the compressed indices.
#[verifier::external_body]
pub(crate) fn encoder_write_frame(
    encoder: &mut StreamEncoder,
    width: u16,
    height: u16,
    palette: Vec<u8>,
    indices: Vec<u8>,
    delay: u16,
    transparent: Option<u8>,
) -> (res: Result<(), gif::EncodingError>)
    requires
        indices@.len() == width * height,
    ensures
        res is Ok ==> encoder_written(*final(encoder)) == encoder_written(*old(encoder))
            + frame_block(width, height, palette@, indices@, delay, transparent),
{
    let mut frame = gif::Frame::from_indexed_pixels(width, height, indices, transparent);
    frame.delay = delay;
    frame.palette = Some(palette);
    encoder.inner.write_frame(&frame)
}

/// `gif::Encoder::into_inner`.
///
/// Claimed of it: it succeeds, and hands back what was written, closed by the
/// trailer. The call fails only on a write that fails, which a write into a
/// `Vec<u8>` does not, or on an encoder whose sink was taken before, which
/// nothing but this call does.
#[verifier::external_body]
pub(crate) fn encoder_into_inner(encoder: StreamEncoder) -> (res: Result<Vec<u8>, std::io::Error>)
    ensures
        res is Ok,
        res matches Ok(bytes) ==> bytes@ == encoder_written(encoder) + trailer(),
{
    encoder.inner.into_inner()
}

/// Turns a `gif::EncodingError` into the library's error: an I/O failure
/// keeps its `std::io::Error`, a format failure its description.
#[verifier::external_body]
pub(crate) fn convert_encoding_error(error: gif::EncodingError) -> (res: GifCreationError)
    ensures
        res is EncodingError || res is IoError,
{
    match error {
        gif::EncodingError::Io(err) => GifCreationError::IoError(err),
        gif::EncodingError::Format(err) => GifCreationError::EncodingError(err.to_string()),
    }
}

} // verus!
