//! Assembling indexed frames into one GIF stream.
//!
//! An assembler starts `Empty`, writes the header once, then any number of
//! frames, and is `Finalized` when the stream is taken out of it. A call that
//! does not fit the state is refused and changes nothing. A frame that cannot
//! be encoded ends the assembly: the assembler is `Finalized` and what was
//! written is given up, so no part of a stream is ever handed out as a
//! stream. Taking the stream right after the header is allowed; the format
//! accepts a stream without frames. Writing the header and taking the stream
//! cannot fail in a state that admits them; only the encoding of a frame can.

use crate::codec::{
    convert_encoding_error, encoder_into_inner, encoder_new, encoder_repeat_forever,
    encoder_write_frame, encoder_written, frame_block, loop_block, screen_header, trailer,
    StreamEncoder,
};
use crate::color::rgb_bytes;
use crate::error::GifCreationError;
use crate::palette::{Palette, PaletteModel};
use vstd::prelude::*;
use vstd::string::StringExecFns;

verus! {

/// The mathematical content of an indexed frame.
pub struct IndexedFrameModel {
    pub palette: PaletteModel,
    pub indices: Seq<u8>,
}

/// One frame, ready to be encoded: a palette and one palette slot per pixel.
pub struct IndexedFrame {
    pub palette: Palette,
    pub indices: Vec<u8>,
}

impl View for IndexedFrame {
    type V = IndexedFrameModel;

    open spec fn view(&self) -> IndexedFrameModel {
        IndexedFrameModel { palette: self.palette@, indices: self.indices@ }
    }
}

impl IndexedFrameModel {
    /// The frame covers a canvas of the given size, and each of its indices
    /// names a slot of its palette.
    pub open spec fn fits(self, width: u16, height: u16) -> bool {
        &&& self.indices.len() == width * height
        &&& forall|i: int|
            0 <= i < self.indices.len() ==> self.indices[i] < self.palette.entries.len()
    }

    /// The bytes that encode the frame when it is shown for `delay`
    /// hundredths of a second.
    pub open spec fn block(self, width: u16, height: u16, delay: u16) -> Seq<u8> {
        frame_block(
            width,
            height,
            rgb_bytes(self.palette.entries),
            self.indices,
            delay,
            self.palette.transparent_index(),
        )
    }
}

/// The views of a sequence of frames.
pub open spec fn frame_models(frames: Seq<IndexedFrame>) -> Seq<IndexedFrameModel> {
    Seq::new(frames.len(), |i: int| frames[i]@)
}

/// The blocks of the first `n` frames, in order.
pub open spec fn frame_blocks(
    width: u16,
    height: u16,
    frames: Seq<IndexedFrameModel>,
    delay: u16,
    n: nat,
) -> Seq<u8>
    decreases n,
{
    if n == 0 {
        Seq::empty()
    } else {
        frame_blocks(width, height, frames, delay, (n - 1) as nat) + frames[n - 1].block(
            width,
            height,
            delay,
        )
    }
}

/// What follows the screen header: the loop block, or nothing for a stream
/// that plays once.
pub open spec fn repeat_block(loop_forever: bool) -> Seq<u8> {
    if loop_forever {
        loop_block()
    } else {
        Seq::empty()
    }
}

/// The whole stream: header, loop block, the frames in ascending order, and
/// the trailer.
pub open spec fn gif_stream(
    width: u16,
    height: u16,
    frames: Seq<IndexedFrameModel>,
    delay: u16,
    loop_forever: bool,
) -> Seq<u8> {
    screen_header(width, height) + repeat_block(loop_forever) + frame_blocks(
        width,
        height,
        frames,
        delay,
        frames.len(),
    ) + trailer()
}

/// Where an assembler stands.
#[derive(Clone, Copy, Debug, PartialEq, Eq, Structural)]
pub enum AssemblerState {
    Empty,
    HeaderWritten,
    FrameWritten,
    Finalized,
}

impl AssemblerState {
    /// Frames can be written, and the stream can be taken, once the header is
    /// written and until the assembler is finalized.
    pub open spec fn is_open(self) -> bool {
        self == AssemblerState::HeaderWritten || self == AssemblerState::FrameWritten
    }
}

/// The mathematical content of an assembler.
pub struct AssemblerModel {
    pub state: AssemblerState,
    /// Canvas size, as given with the header.
    pub width: u16,
    pub height: u16,
    /// What has been written so far; empty unless the assembler is open.
    pub stream: Seq<u8>,
}

enum Stage {
    Empty,
    Open { encoder: StreamEncoder, has_frames: bool },
    Finalized,
}

/// Writes a GIF stream frame by frame.
pub struct Assembler {
    stage: Stage,
    width: u16,
    height: u16,
}

impl View for Assembler {
    type V = AssemblerModel;

    closed spec fn view(&self) -> AssemblerModel {
        match self.stage {
            Stage::Empty => AssemblerModel {
                state: AssemblerState::Empty,
                width: self.width,
                height: self.height,
                stream: Seq::empty(),
            },
            Stage::Open { encoder, has_frames } => AssemblerModel {
                state: if has_frames {
                    AssemblerState::FrameWritten
                } else {
                    AssemblerState::HeaderWritten
                },
                width: self.width,
                height: self.height,
                stream: encoder_written(encoder),
            },
            Stage::Finalized => AssemblerModel {
                state: AssemblerState::Finalized,
                width: self.width,
                height: self.height,
                stream: Seq::empty(),
            },
        }
    }
}

/// Tells whether a frame covers the canvas and stays within its palette.
pub fn frame_fits(frame: &IndexedFrame, width: u16, height: u16) -> (fits: bool)
    ensures
        fits == frame@.fits(width, height),
{
    assert(width * height <= 0xFFFF * 0xFFFF) by (nonlinear_arith)
        requires
            width <= 0xFFFF,
            height <= 0xFFFF,
    ;
    let area: u64 = width as u64 * height as u64;
    let n: usize = frame.indices.len();
    if n as u64 != area {
        return false;
    }
    let slots: usize = frame.palette.len();
    let mut i: usize = 0;
    while i < n
        invariant
            i <= n,
            n == frame.indices@.len(),
            slots == frame.palette@.entries.len(),
            forall|k: int| 0 <= k < i ==> frame.indices@[k] < slots,
        decreases n - i,
    {
        if frame.indices[i] as usize >= slots {
            return false;
        }
        i += 1;
    }
    true
}

impl Assembler {
    /// Settles a call into the encoder, given what the encoder answered: on
    /// success the assembler is open again, with the encoder as the call left
    /// it; on failure the encoder is given up and the assembler stays
    /// `Finalized`.
    fn settle(
        &mut self,
        encoder: StreamEncoder,
        outcome: Result<(), gif::EncodingError>,
        has_frames: bool,
    ) -> (res: Result<(), GifCreationError>)
        requires
            old(self)@.state == AssemblerState::Finalized,
        ensures
            res is Ok <==> outcome is Ok,
            res is Ok ==> final(self)@ == (AssemblerModel {
                state: if has_frames {
                    AssemblerState::FrameWritten
                } else {
                    AssemblerState::HeaderWritten
                },
                stream: encoder_written(encoder),
                ..old(self)@
            }),
            res matches Err(e) ==> final(self)@ == old(self)@ && (e is EncodingError
                || e is IoError),
    {
        match outcome {
            Ok(()) => {
                self.stage = Stage::Open { encoder, has_frames };
                Ok(())
            },
            Err(e) => Err(convert_encoding_error(e)),
        }
    }

    /// An assembler that has written nothing.
    pub fn new() -> (assembler: Assembler)
        ensures
            assembler@.state == AssemblerState::Empty,
            assembler@.stream == Seq::<u8>::empty(),
    {
        Assembler { stage: Stage::Empty, width: 0, height: 0 }
    }

    /// Where the assembler stands.
    pub fn state(&self) -> (state: AssemblerState)
        ensures
            state == self@.state,
    {
        match &self.stage {
            Stage::Empty => AssemblerState::Empty,
            Stage::Open { encoder: _, has_frames } => if *has_frames {
                AssemblerState::FrameWritten
            } else {
                AssemblerState::HeaderWritten
            },
            Stage::Finalized => AssemblerState::Finalized,
        }
    }

    /// Opens the stream for a canvas of `width` by `height`, followed by the
    /// loop block if the animation is to repeat without end.
    ///
    /// Refused unless the assembler is `Empty`; on an `Empty` assembler it
    /// succeeds.
    pub fn write_header(&mut self, width: u16, height: u16, loop_forever: bool) -> (res: Result<
        (),
        GifCreationError,
    >)
        ensures
            old(self)@.state != AssemblerState::Empty ==> res is Err && res->Err_0 is EncodingError
                && final(self)@ == old(self)@,
            old(self)@.state == AssemblerState::Empty ==> res is Ok && final(self)@
                == (AssemblerModel {
                state: AssemblerState::HeaderWritten,
                width,
                height,
                stream: screen_header(width, height) + repeat_block(loop_forever),
            }),
    {
        match &self.stage {
            Stage::Empty => {},
            _ => {
                return Err(
                    GifCreationError::EncodingError(String::from_str("the header is already written")),
                );
            },
        }
        self.width = width;
        self.height = height;
        self.stage = Stage::Finalized;
        match encoder_new(width, height) {
            Ok(encoder) => {
                let mut encoder = encoder;
                let outcome = if loop_forever {
                    encoder_repeat_forever(&mut encoder)
                } else {
                    Ok(())
                };
                self.settle(encoder, outcome, false)
            },
            Err(e) => Err(convert_encoding_error(e)),
        }
    }

    /// Appends a frame that is shown for `delay` hundredths of a second.
    ///
    /// Refused unless the assembler is open. A frame that does not fit the
    /// canvas or its own palette, or that the encoder fails on, ends the
    /// assembly.
    pub fn write_frame(&mut self, frame: &IndexedFrame, delay: u16) -> (res: Result<
        (),
        GifCreationError,
    >)
        ensures
            !old(self)@.state.is_open() ==> res is Err && res->Err_0 is EncodingError
                && final(self)@ == old(self)@,
            old(self)@.state.is_open() && !frame@.fits(old(self)@.width, old(self)@.height)
                ==> res is Err && res->Err_0 is EncodingError && final(self)@.state
                == AssemblerState::Finalized,
            old(self)@.state.is_open() && frame@.fits(old(self)@.width, old(self)@.height)
                ==> match res {
                Ok(()) => final(self)@ == (AssemblerModel {
                    state: AssemblerState::FrameWritten,
                    stream: old(self)@.stream + frame@.block(
                        old(self)@.width,
                        old(self)@.height,
                        delay,
                    ),
                    ..old(self)@
                }),
                Err(e) => final(self)@.state == AssemblerState::Finalized && (e is EncodingError
                    || e is IoError),
            },
    {
        match &self.stage {
            Stage::Open { .. } => {},
            _ => {
                return Err(
                    GifCreationError::EncodingError(String::from_str("the stream is not open")),
                );
            },
        }
        let mut stage = Stage::Finalized;
        core::mem::swap(&mut self.stage, &mut stage);
        if !frame_fits(frame, self.width, self.height) {
            return Err(
                GifCreationError::EncodingError(
                    String::from_str("the frame does not fit the canvas or its palette"),
                ),
            );
        }
        match stage {
            Stage::Open { encoder, has_frames: _ } => {
                let mut encoder = encoder;
                let palette = frame.palette.to_rgb_bytes();
                let indices = frame.indices.clone();
                let transparent = frame.palette.transparent_index();
                let outcome = encoder_write_frame(
                    &mut encoder,
                    self.width,
                    self.height,
                    palette,
                    indices,
                    delay,
                    transparent,
                );
                self.settle(encoder, outcome, true)
            },
            _ => vstd::pervasive::unreached(),
        }
    }

    /// Closes the stream and hands it out.
    ///
    /// Refused unless the assembler is open; on an open assembler it
    /// succeeds, and the assembler is `Finalized` afterwards.
    pub fn finish(&mut self) -> (res: Result<Vec<u8>, GifCreationError>)
        ensures
            !old(self)@.state.is_open() ==> res is Err && res->Err_0 is EncodingError
                && final(self)@ == old(self)@,
            old(self)@.state.is_open() ==> final(self)@.state == AssemblerState::Finalized
                && res is Ok && res->Ok_0@ == old(self)@.stream + trailer(),
    {
        match &self.stage {
            Stage::Open { .. } => {},
            _ => {
                return Err(
                    GifCreationError::EncodingError(String::from_str("the stream is not open")),
                );
            },
        }
        let mut stage = Stage::Finalized;
        core::mem::swap(&mut self.stage, &mut stage);
        match stage {
            Stage::Open { encoder, has_frames: _ } => match encoder_into_inner(encoder) {
                Ok(bytes) => Ok(bytes),
                Err(e) => Err(GifCreationError::from(e)),
            },
            _ => vstd::pervasive::unreached(),
        }
    }
}

/// Assembles `frames`, in order, into a stream for a canvas of `width` by
/// `height`, each frame shown for `delay` hundredths of a second.
///
/// Every frame has to fit the canvas and its palette: this is checked of all
/// frames before anything is encoded. After that only the encoding of a frame
/// can fail, and the first frame it fails on ends the assembly with its
/// error. A sequence without frames always gives its stream.
pub fn assemble(
    frames: &Vec<IndexedFrame>,
    width: u16,
    height: u16,
    delay: u16,
    loop_forever: bool,
) -> (res: Result<Vec<u8>, GifCreationError>)
    ensures
        match res {
            Ok(bytes) => {
                &&& bytes@ == gif_stream(width, height, frame_models(frames@), delay, loop_forever)
                &&& forall|i: int| 0 <= i < frames@.len() ==> frames@[i]@.fits(width, height)
            },
            Err(e) => e is EncodingError || e is IoError,
        },
        (exists|i: int| 0 <= i < frames@.len() && !frames@[i]@.fits(width, height)) ==> res is Err
            && res->Err_0 is EncodingError,
        frames@.len() == 0 ==> res is Ok,
{
    let n: usize = frames.len();
    let mut checked: usize = 0;
    while checked < n
        invariant
            checked <= n,
            n == frames@.len(),
            forall|k: int| 0 <= k < checked ==> frames@[k]@.fits(width, height),
        decreases n - checked,
    {
        if !frame_fits(&frames[checked], width, height) {
            return Err(
                GifCreationError::EncodingError(
                    String::from_str("a frame does not fit the canvas or its palette"),
                ),
            );
        }
        checked += 1;
    }
    let mut assembler = Assembler::new();
    match assembler.write_header(width, height, loop_forever) {
        Ok(()) => {},
        Err(e) => {
            return Err(e);
        },
    }
    let mut i: usize = 0;
    while i < n
        invariant
            i <= n,
            n == frames@.len(),
            assembler@.state.is_open(),
            assembler@.width == width,
            assembler@.height == height,
            assembler@.stream == screen_header(width, height) + repeat_block(loop_forever)
                + frame_blocks(width, height, frame_models(frames@), delay, i as nat),
            forall|k: int| 0 <= k < n ==> frames@[k]@.fits(width, height),
        decreases n - i,
    {
        match assembler.write_frame(&frames[i], delay) {
            Ok(()) => {},
            Err(e) => {
                return Err(e);
            },
        }
        i += 1;
    }
    match assembler.finish() {
        Ok(bytes) => Ok(bytes),
        Err(e) => Err(e),
    }
}

} // verus!
