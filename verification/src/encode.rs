//! The entry point: from raw RGBA frames to an animated GIF.

use crate::assembler::{assemble, frame_models, gif_stream, IndexedFrame, IndexedFrameModel};
use crate::codec::{le_bytes, loop_block, screen_header, trailer};
use crate::color::{
    collect_opaque_colors, is_transparent, lemma_opaque_colors_cover, opaque_colors, pixel_count,
    pixel_rgb, reserved_rgb, rgb_of, to_rgb, Rgb,
};
use crate::error::GifCreationError;
use crate::indexer::{index_frame, indexed, lemma_exact_color_is_kept, slot_of};
use crate::palette::{
    build_palette, built_palette, direct_palette, first_seen, lemma_first_seen_same_colors,
    overflows,
};
use vstd::prelude::*;
use vstd::slice::slice_subrange;
use vstd::string::StringExecFns;

verus! {

/// An encoded animation, and what was lost on the way.
pub struct EncodedGif {
    /// The GIF stream.
    pub data: Vec<u8>,
    /// The frames, by index and in ascending order, that held more distinct
    /// opaque colours than a palette has slots, and whose colours were
    /// therefore reduced.
    pub overflowed_frames: Vec<usize>,
}

/// Number of bytes in one frame.
pub open spec fn frame_size(width: int, height: int) -> int {
    width * height * 4
}

/// Both dimensions are positive and fit the format's 16-bit fields, and the
/// pixel data is a whole number of frames.
pub open spec fn valid_dimensions(width: int, height: int, len: int) -> bool {
    &&& 0 < width <= 0xFFFF
    &&& 0 < height <= 0xFFFF
    &&& len % frame_size(width, height) == 0
}

/// The time each frame is shown, in hundredths of a second: 100 divided by
/// the frame rate, rounded to the nearest whole number (a half rounds up),
/// and never less than 1.
pub open spec fn frame_delay(fps: int) -> int {
    let nearest = (200 + fps) / (2 * fps);
    if nearest < 1 {
        1
    } else {
        nearest
    }
}

/// Number of frames in `len` bytes of pixel data.
pub open spec fn frame_count(len: int, size: int) -> nat {
    (len / size) as nat
}

/// The bytes of frame `i`.
pub open spec fn frame_pixels(frames: Seq<u8>, size: int, i: int) -> Seq<u8> {
    frames.subrange(i * size, (i + 1) * size)
}

/// The frame holds more distinct opaque colours than its palette has slots.
pub open spec fn frame_overflows(frame: Seq<u8>, transparent: Option<[u8; 4]>) -> bool {
    overflows(opaque_colors(frame, transparent), reserved_rgb(transparent))
}

/// Palette and index buffer of one frame.
pub open spec fn indexed_frame(frame: Seq<u8>, transparent: Option<[u8; 4]>) -> IndexedFrameModel {
    let palette = built_palette(opaque_colors(frame, transparent), reserved_rgb(transparent));
    IndexedFrameModel { palette, indices: indexed(frame, palette, transparent) }
}

/// Palette and index buffer of every frame, in order.
pub open spec fn indexed_frames(frames: Seq<u8>, size: int, transparent: Option<[u8; 4]>) -> Seq<
    IndexedFrameModel,
> {
    Seq::new(
        frame_count(frames.len() as int, size),
        |i: int| indexed_frame(frame_pixels(frames, size, i), transparent),
    )
}

/// The indices, ascending, of those among the first `n` frames that overflow.
pub open spec fn overflowing_frames(
    frames: Seq<u8>,
    size: int,
    transparent: Option<[u8; 4]>,
    n: nat,
) -> Seq<usize>
    decreases n,
{
    if n == 0 {
        Seq::empty()
    } else {
        let before = overflowing_frames(frames, size, transparent, (n - 1) as nat);
        if frame_overflows(frame_pixels(frames, size, n - 1), transparent) {
            before.push((n - 1) as usize)
        } else {
            before
        }
    }
}

/// The stream that encodes the animation: it loops without end, and every
/// frame carries its own palette, its transparent slot if one is reserved,
/// and the delay that the frame rate gives.
pub open spec fn encoded(
    width: int,
    height: int,
    frames: Seq<u8>,
    fps: int,
    transparent: Option<[u8; 4]>,
) -> Seq<u8> {
    gif_stream(
        width as u16,
        height as u16,
        indexed_frames(frames, frame_size(width, height), transparent),
        frame_delay(fps) as u16,
        true,
    )
}

/// Every frame that is encoded has a well-formed palette, covers the canvas,
/// and keeps each of its indices within its palette.
pub open spec fn frames_well_formed(
    width: int,
    height: int,
    frames: Seq<u8>,
    transparent: Option<[u8; 4]>,
) -> bool {
    forall|f: int|
        0 <= f < frame_count(frames.len() as int, frame_size(width, height)) ==> {
            &&& (#[trigger] indexed_frames(
                frames,
                frame_size(width, height),
                transparent,
            )[f]).palette.wf()
            &&& indexed_frames(frames, frame_size(width, height), transparent)[f].fits(
                width as u16,
                height as u16,
            )
        }
}

/// The stream of an animation without frames is the header, the loop block
/// and the trailer: 39 bytes.
pub proof fn lemma_stream_without_frames(
    width: int,
    height: int,
    fps: int,
    transparent: Option<[u8; 4]>,
)
    requires
        0 < width <= 0xFFFF,
        0 < height <= 0xFFFF,
    ensures
        encoded(width, height, Seq::<u8>::empty(), fps, transparent) == screen_header(
            width as u16,
            height as u16,
        ) + loop_block() + trailer(),
        encoded(width, height, Seq::<u8>::empty(), fps, transparent).len() == 39,
{
    let size = frame_size(width, height);
    assert(size >= 4) by (nonlinear_arith)
        requires
            width >= 1,
            height >= 1,
            size == width * height * 4,
    ;
    assert(0int / size == 0) by (nonlinear_arith)
        requires
            size >= 4,
    ;
    let models = indexed_frames(Seq::<u8>::empty(), size, transparent);
    assert(models.len() == 0);
    let stream = encoded(width, height, Seq::<u8>::empty(), fps, transparent);
    assert(stream =~= screen_header(width as u16, height as u16) + loop_block() + trailer());
    assert(le_bytes(width as u16).len() == 2 && le_bytes(height as u16).len() == 2);
    assert(screen_header(width as u16, height as u16).len() == 19);
    assert(loop_block().len() == 19);
}

/// The delay is the whole number nearest to 100 divided by the frame rate,
/// unless that would be 0.
pub proof fn lemma_frame_delay_is_nearest(fps: int)
    requires
        fps > 0,
    ensures
        1 <= frame_delay(fps) <= 100,
        fps <= 200 ==> -fps < 2 * (frame_delay(fps) * fps - 100) <= fps,
        fps > 200 ==> frame_delay(fps) == 1,
{
    let nearest = (200 + fps) / (2 * fps);
    let product = nearest * fps;
    assert(0 <= nearest <= 100 && 2 * product <= 200 + fps < 2 * product + 2 * fps)
        by (nonlinear_arith)
        requires
            fps > 0,
            nearest == (200 + fps) / (2 * fps),
            product == nearest * fps,
    ;
    assert(fps > 200 ==> nearest == 0) by (nonlinear_arith)
        requires
            fps > 0,
            0 <= nearest,
            product == nearest * fps,
            2 * product <= 200 + fps,
    ;
    assert(fps <= 200 ==> nearest >= 1) by (nonlinear_arith)
        requires
            fps > 0,
            product == nearest * fps,
            200 + fps < 2 * product + 2 * fps,
    ;
}

/// While a frame's colours fit its palette, every opaque pixel is mapped to a
/// slot that holds exactly the pixel's colour.
pub proof fn lemma_fitting_colors_are_kept(frame: Seq<u8>, transparent: Option<[u8; 4]>, i: int)
    requires
        !frame_overflows(frame, transparent),
        0 <= i < pixel_count(frame),
        !is_transparent(frame, i, transparent),
    ensures
        indexed_frame(frame, transparent).indices[i] < indexed_frame(
            frame,
            transparent,
        ).palette.entries.len(),
        indexed_frame(frame, transparent).palette.entries[indexed_frame(
            frame,
            transparent,
        ).indices[i] as int] == pixel_rgb(frame, i),
{
    let colors = opaque_colors(frame, transparent);
    let target = pixel_rgb(frame, i);
    let palette = indexed_frame(frame, transparent).palette;
    lemma_opaque_colors_cover(frame, transparent, pixel_count(frame));
    lemma_first_seen_same_colors(colors, target);
    assert(palette == direct_palette(colors, reserved_rgb(transparent)));
    assert(palette.ordinary() =~= first_seen(colors));
    lemma_exact_color_is_kept(palette.ordinary(), target);
    assert(palette.entries[slot_of(palette, target)] == target);
}

/// In an animation of valid dimensions and without transparent colour, every
/// pixel of a frame whose colours fit its palette is mapped to a slot that
/// holds exactly the pixel's colour: resolving the index buffer through the
/// palette gives the frame back.
pub proof fn lemma_round_trip(width: int, height: int, frames: Seq<u8>, k: int, i: int)
    requires
        valid_dimensions(width, height, frames.len() as int),
        0 <= k < frame_count(frames.len() as int, frame_size(width, height)),
        !frame_overflows(frame_pixels(frames, frame_size(width, height), k), None),
        0 <= i < width * height,
    ensures
        indexed_frames(frames, frame_size(width, height), None)[k].indices.len() == width
            * height,
        indexed_frames(frames, frame_size(width, height), None)[k].indices[i] < indexed_frames(
            frames,
            frame_size(width, height),
            None,
        )[k].palette.entries.len(),
        indexed_frames(frames, frame_size(width, height), None)[k].palette.entries[indexed_frames(
            frames,
            frame_size(width, height),
            None,
        )[k].indices[i] as int] == pixel_rgb(frame_pixels(frames, frame_size(width, height), k), i),
{
    let size = frame_size(width, height);
    let len = frames.len() as int;
    assert(size >= 4 && size == 4 * (width * height)) by (nonlinear_arith)
        requires
            width > 0,
            height > 0,
            size == width * height * 4,
    ;
    assert(0 <= k * size && (k + 1) * size <= len && (k + 1) * size - k * size == size)
        by (nonlinear_arith)
        requires
            0 <= k < len / size,
            size > 0,
            len >= 0,
    ;
    let frame = frame_pixels(frames, size, k);
    assert(frame.len() == size);
    assert(pixel_count(frame) == width * height);
    lemma_fitting_colors_are_kept(frame, None, i);
}

/// A pixel that equals the transparent colour in all four bytes is mapped to
/// slot 0, which its frame declares transparent and which holds the
/// transparent colour.
pub proof fn lemma_transparent_pixels_take_reserved_slot(
    frame: Seq<u8>,
    transparent: Option<[u8; 4]>,
    i: int,
)
    requires
        0 <= i < pixel_count(frame),
        is_transparent(frame, i, transparent),
    ensures
        indexed_frame(frame, transparent).indices[i] == 0,
        indexed_frame(frame, transparent).palette.transparent_index() == Some(0u8),
        indexed_frame(frame, transparent).palette.entries[0] == rgb_of(transparent->Some_0),
{
}

/// The delay between frames at `fps` frames per second, as [`frame_delay`]
/// defines it. A frame rate that is not positive is refused.
pub fn delay_for(fps: i32) -> (res: Result<u16, GifCreationError>)
    ensures
        fps > 0 ==> res is Ok && res->Ok_0 == frame_delay(fps as int),
        fps <= 0 ==> res is Err && res->Err_0 is InvalidFrameRate,
{
    if fps <= 0 {
        return Err(GifCreationError::InvalidFrameRate);
    }
    proof {
        lemma_frame_delay_is_nearest(fps as int);
    }
    let nearest: i64 = (200 + fps as i64) / (2 * fps as i64);
    if nearest < 1 {
        Ok(1)
    } else {
        Ok(nearest as u16)
    }
}

/// Encodes `frames`, a sequence of `width` by `height` frames of four bytes
/// per pixel, as a GIF that plays `fps` frames per second and loops without
/// end. Pixels that equal `transparent_color` in all four bytes are
/// transparent.
///
/// The dimensions are checked first, then the frame rate; nothing is encoded
/// for an input that fails either check. A dimension above 65535 cannot be
/// written into the stream and is refused with the dimensions that are not
/// positive. Once the input is valid, only the encoding of a frame can fail,
/// so an animation without frames always gives its stream.
///
/// A frame with more distinct opaque colours than its palette has slots is
/// still encoded, with its colours reduced as [`build_palette`] describes,
/// and is named in the result.
pub fn create_gif(
    width: i32,
    height: i32,
    frames: Vec<u8>,
    fps: i32,
    transparent_color: Option<[u8; 4]>,
) -> (res: Result<EncodedGif, GifCreationError>)
    ensures
        !valid_dimensions(width as int, height as int, frames@.len() as int) ==> res is Err
            && res->Err_0 is InvalidImageData,
        valid_dimensions(width as int, height as int, frames@.len() as int) && fps <= 0 ==> res is Err
            && res->Err_0 is InvalidFrameRate,
        valid_dimensions(width as int, height as int, frames@.len() as int) && fps > 0 ==> match res {
            Ok(gif) => {
                &&& gif.data@ == encoded(
                    width as int,
                    height as int,
                    frames@,
                    fps as int,
                    transparent_color,
                )
                &&& gif.overflowed_frames@ == overflowing_frames(
                    frames@,
                    frame_size(width as int, height as int),
                    transparent_color,
                    frame_count(frames@.len() as int, frame_size(width as int, height as int)),
                )
                &&& frames_well_formed(
                    width as int,
                    height as int,
                    frames@,
                    transparent_color,
                )
            },
            Err(e) => e is EncodingError || e is IoError,
        },
        valid_dimensions(width as int, height as int, frames@.len() as int) && fps > 0
            && frames@.len() == 0 ==> res is Ok,
{
    if width <= 0 || width > 0xFFFF || height <= 0 || height > 0xFFFF {
        return Err(
            GifCreationError::InvalidImageData(
                String::from_str("width and height must be between 1 and 65535"),
            ),
        );
    }
    assert(1 <= width * height <= 0xFFFF * 0xFFFF) by (nonlinear_arith)
        requires
            0 < width <= 0xFFFF,
            0 < height <= 0xFFFF,
    ;
    let area: u64 = width as u64 * height as u64;
    let size: u64 = area * 4;
    let len: usize = frames.len();
    if len as u64 % size != 0 {
        return Err(
            GifCreationError::InvalidImageData(
                String::from_str("the pixel data is not a whole number of frames"),
            ),
        );
    }
    let delay: u16 = match delay_for(fps) {
        Ok(delay) => delay,
        Err(e) => {
            return Err(e);
        },
    };
    let count: usize = (len as u64 / size) as usize;
    let transparent: Option<Rgb> = match &transparent_color {
        Some(color) => Some(to_rgb(color)),
        None => None,
    };
    let mut indexed_frames: Vec<IndexedFrame> = Vec::new();
    let mut overflowed_frames: Vec<usize> = Vec::new();
    let mut i: usize = 0;
    while i < count
        invariant
            i <= count,
            len == frames@.len(),
            size == frame_size(width as int, height as int),
            area == width * height,
            1 <= area,
            count == len as int / size as int,
            len as int % size as int == 0,
            0 < width <= 0xFFFF,
            0 < height <= 0xFFFF,
            transparent == reserved_rgb(transparent_color),
            indexed_frames@.len() == i,
            forall|k: int|
                0 <= k < i ==> (#[trigger] indexed_frames@[k])@ == indexed_frame(
                    frame_pixels(frames@, size as int, k),
                    transparent_color,
                ),
            forall|k: int|
                0 <= k < i ==> (#[trigger] indexed_frames@[k])@.fits(width as u16, height as u16),
            forall|k: int| 0 <= k < i ==> (#[trigger] indexed_frames@[k])@.palette.wf(),
            overflowed_frames@ == overflowing_frames(
                frames@,
                size as int,
                transparent_color,
                i as nat,
            ),
        decreases count - i,
    {
        assert((i + 1) * size <= len && i * size + size == (i + 1) * size) by (nonlinear_arith)
            requires
                i < count,
                count == len as int / size as int,
                len as int % size as int == 0,
                size > 0,
        ;
        let step: usize = size as usize;
        let start: usize = i * step;
        let frame = slice_subrange(frames.as_slice(), start, start + step);
        assert(frame@ == frame_pixels(frames@, size as int, i as int));
        let colors = collect_opaque_colors(frame, &transparent_color);
        let built = build_palette(colors.as_slice(), transparent);
        let indices = index_frame(frame, &built.palette, transparent_color);
        proof {
            lemma_opaque_colors_cover(frame@, transparent_color, pixel_count(frame@));
            assert(pixel_count(frame@) == area);
            assert(built.palette@.entries.len() > 0);
        }
        if built.overflowed {
            overflowed_frames.push(i);
        }
        indexed_frames.push(IndexedFrame { palette: built.palette, indices });
        i += 1;
    }
    proof {
        let models = crate::encode::indexed_frames(frames@, size as int, transparent_color);
        assert(frame_models(indexed_frames@) =~= models);
        assert forall|f: int| 0 <= f < count implies (#[trigger] models[f]).palette.wf()
            && models[f].fits(width as u16, height as u16) by {
            assert(models[f] == indexed_frames@[f]@);
        }
    }
    match assemble(&indexed_frames, width as u16, height as u16, delay, true) {
        Ok(data) => Ok(EncodedGif { data, overflowed_frames }),
        Err(e) => Err(e),
    }
}

} // verus!
