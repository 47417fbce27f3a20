//! What can go wrong while decoding a song.
use vstd::prelude::*;

verus! {

/// A decoding failure.
#[derive(Debug, Clone)]
pub enum DecoderError {
    /// The format of the data has not been recognized.
    UnrecognizedFormat,
    /// An IO error occured while reading, writing, or seeking the stream.
    IoError(String),
    /// The stream contained malformed data and could not be decoded or demuxed.
    DecodeError(&'static str),
    /// A default or user-defined limit was reached while decoding or demuxing the stream.
    LimitError(&'static str),
    /// The demuxer or decoder needs to be reset before continuing.
    ResetRequired,
    /// No streams were found by the decoder.
    NoStreams,
}

impl DecoderError {
    /// The text the error is shown as.
    pub fn message(&self) -> (r: &str)
        ensures
            match *self {
                DecoderError::UnrecognizedFormat => r@ == "Unrecognized format"@,
                DecoderError::IoError(m) => r@ == m@,
                DecoderError::DecodeError(m) => r@ == m@,
                DecoderError::LimitError(m) => r@ == m@,
                DecoderError::ResetRequired => r@ == "Reset required"@,
                DecoderError::NoStreams => r@ == "No streams"@,
            },
    {
        match self {
            DecoderError::UnrecognizedFormat => "Unrecognized format",
            DecoderError::IoError(msg) => msg.as_str(),
            DecoderError::DecodeError(msg) => msg,
            DecoderError::LimitError(msg) => msg,
            DecoderError::ResetRequired => "Reset required",
            DecoderError::NoStreams => "No streams",
        }
    }
}

} // verus!
