//! The errors of the encoder.

use vstd::prelude::*;
use vstd::std_specs::convert::FromSpecImpl;
use vstd::string::StringExecFns;

verus! {

#[verifier::external_type_specification]
#[verifier::external_body]
pub struct ExIoError(std::io::Error);

/// Why no GIF was produced.
#[derive(Debug)]
pub enum GifCreationError {
    /// The dimensions are not positive, do not fit the format's 16-bit fields,
    /// or the pixel data is not a whole number of frames.
    InvalidImageData(String),
    /// The frame rate is not positive.
    InvalidFrameRate,
    /// A frame was rejected, by the assembler or by the encoder.
    EncodingError(String),
    /// The sink that takes the encoded bytes failed.
    IoError(std::io::Error),
}

impl From<std::io::Error> for GifCreationError {
    fn from(err: std::io::Error) -> (res: GifCreationError) {
        GifCreationError::IoError(err)
    }
}

impl FromSpecImpl<std::io::Error> for GifCreationError {
    open spec fn obeys_from_spec() -> bool {
        true
    }

    open spec fn from_spec(err: std::io::Error) -> GifCreationError {
        GifCreationError::IoError(err)
    }
}

/// `std::io::Error`'s `Display`, through `to_string`. The text may depend on
/// the operating system, so nothing is claimed of it.
#[verifier::external_body]
fn io_error_text(err: &std::io::Error) -> (text: String) {
    err.to_string()
}

impl GifCreationError {
    /// The words that open the description of each kind of error.
    pub open spec fn prefix(self) -> Seq<char> {
        match self {
            GifCreationError::InvalidImageData(_) => "Invalid image data: "@,
            GifCreationError::InvalidFrameRate => "Invalid frame rate"@,
            GifCreationError::EncodingError(_) => "Encoding error: "@,
            GifCreationError::IoError(_) => "IO error: "@,
        }
    }

    /// Describes the error: its kind, followed by the message it carries.
    pub fn to_string(&self) -> (text: String)
        ensures
            self.prefix().is_prefix_of(text@),
            self matches GifCreationError::InvalidImageData(msg) ==> text@ == self.prefix()
                + msg@,
            self matches GifCreationError::EncodingError(msg) ==> text@ == self.prefix() + msg@,
            self is InvalidFrameRate ==> text@ == self.prefix(),
    {
        match self {
            GifCreationError::InvalidImageData(msg) => {
                let text = String::from_str("Invalid image data: ").concat(msg.as_str());
                assert(text@.subrange(0, self.prefix().len() as int) =~= self.prefix());
                text
            },
            GifCreationError::InvalidFrameRate => {
                let text = String::from_str("Invalid frame rate");
                assert(text@.subrange(0, self.prefix().len() as int) =~= self.prefix());
                text
            },
            GifCreationError::EncodingError(msg) => {
                let text = String::from_str("Encoding error: ").concat(msg.as_str());
                assert(text@.subrange(0, self.prefix().len() as int) =~= self.prefix());
                text
            },
            GifCreationError::IoError(err) => {
                let detail = io_error_text(err);
                let text = String::from_str("IO error: ").concat(detail.as_str());
                assert(text@.subrange(0, self.prefix().len() as int) =~= self.prefix());
                text
            },
        }
    }
}

} // verus!
