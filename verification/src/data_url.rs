//! A GIF as a `data:` URL. The base64 text comes from the `base64` crate.

use crate::encode::{
    create_gif, encoded, frame_count, frame_size, frames_well_formed,
    lemma_stream_without_frames, overflowing_frames, valid_dimensions,
};
use crate::error::GifCreationError;
use base64::Engine;
use vstd::prelude::*;
use vstd::string::StringExecFns;

verus! {

/// The base64 text of `data` in the standard alphabet, padded with `=`.
pub uninterp spec fn base64_standard(data: Seq<u8>) -> Seq<char>;

/// Length of the base64 text of `len` bytes: four characters for every three
/// bytes or part of them.
pub open spec fn base64_len(len: nat) -> nat {
    (len + 2) / 3 * 4
}

/// The text is short enough to be held in memory as one string.
pub open spec fn fits_data_url(len: nat) -> bool {
    base64_len(len) <= isize::MAX
}

/// `base64::Engine::encode` of the engine `general_purpose::STANDARD`.
///
/// Claimed of it: the result is the text named above, four characters long
/// for every three bytes or part of them. The call panics when the text's
/// length cannot be computed or allocated, which the bound rules out.
#[verifier::external_body]
pub(crate) fn base64_encode(data: &[u8]) -> (text: String)
    requires
        fits_data_url(data@.len()),
    ensures
        text@ == base64_standard(data@),
        text@.len() == base64_len(data@.len()),
{
    base64::engine::general_purpose::STANDARD.encode(data)
}

/// The URL that carries `data` as a GIF.
pub open spec fn data_url(data: Seq<u8>) -> Seq<char> {
    "data:image/gif;base64,"@ + base64_standard(data)
}

/// A GIF as a URL, and what was lost in encoding it.
pub struct GifDataUrl {
    /// The `data:` URL.
    pub url: String,
    /// The frames whose colours were reduced, as in
    /// [`crate::encode::EncodedGif`].
    pub overflowed_frames: Vec<usize>,
}

/// Wraps a GIF stream in a `data:` URL. Gives nothing when the URL would be
/// too long to hold.
pub fn gif_data_url(data: &[u8]) -> (url: Option<String>)
    ensures
        url is Some <==> fits_data_url(data@.len()),
        url matches Some(text) ==> text@ == data_url(data@) && text@.len()
            == "data:image/gif;base64,"@.len() + base64_len(data@.len()),
{
    let len: usize = data.len();
    let groups: usize = len / 3 + if len % 3 > 0 {
        1
    } else {
        0
    };
    assert(groups == (len + 2) / 3);
    if groups > (isize::MAX as usize) / 4 {
        return None;
    }
    let text = base64_encode(data);
    Some(String::from_str("data:image/gif;base64,").concat(text.as_str()))
}

/// Encodes an animation as [`create_gif`] does and wraps the stream in a
/// `data:` URL. A stream too long for a URL counts as an encoding error.
pub fn create_gif_data_url(
    width: i32,
    height: i32,
    frames: Vec<u8>,
    fps: i32,
    transparent_color: Option<[u8; 4]>,
) -> (res: Result<GifDataUrl, GifCreationError>)
    ensures
        !valid_dimensions(width as int, height as int, frames@.len() as int) ==> res is Err
            && res->Err_0 is InvalidImageData,
        valid_dimensions(width as int, height as int, frames@.len() as int) && fps <= 0 ==> res is Err
            && res->Err_0 is InvalidFrameRate,
        valid_dimensions(width as int, height as int, frames@.len() as int) && fps > 0 ==> match res {
            Ok(gif) => {
                &&& gif.url@ == data_url(
                    encoded(width as int, height as int, frames@, fps as int, transparent_color),
                )
                &&& gif.overflowed_frames@ == overflowing_frames(
                    frames@,
                    frame_size(width as int, height as int),
                    transparent_color,
                    frame_count(frames@.len() as int, frame_size(width as int, height as int)),
                )
                &&& frames_well_formed(
                    width as int,
                    height as int,
                    frames@,
                    transparent_color,
                )
                &&& fits_data_url(
                    encoded(
                        width as int,
                        height as int,
                        frames@,
                        fps as int,
                        transparent_color,
                    ).len(),
                )
            },
            Err(e) => e is EncodingError || e is IoError,
        },
        valid_dimensions(width as int, height as int, frames@.len() as int) && fps > 0
            && frames@.len() == 0 ==> res is Ok,
{
    proof {
        if 0 < width <= 0xFFFF && 0 < height <= 0xFFFF && frames@.len() == 0 {
            assert(frames@ =~= Seq::<u8>::empty());
            lemma_stream_without_frames(width as int, height as int, fps as int, transparent_color);
        }
    }
    match create_gif(width, height, frames, fps, transparent_color) {
        Ok(gif) => match gif_data_url(gif.data.as_slice()) {
            Some(url) => Ok(GifDataUrl { url, overflowed_frames: gif.overflowed_frames }),
            None => Err(
                GifCreationError::EncodingError(
                    String::from_str("the stream is too long for a data URL"),
                ),
            ),
        },
        Err(e) => Err(e),
    }
}

} // verus!
