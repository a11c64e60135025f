//! Media composition utilities: an in-memory image engine (alpha
//! compositing, canvas stacking, per-pixel filters, shape masks, a
//! format-aware save policy) together with the argument builders for an
//! external command-line transcoder.
//!
//! The engine holds every image fully in memory as a fixed-size pixel
//! grid and works on plain bytes; decoding files into such grids and
//! encoding them back, as well as actually spawning the transcoder, are
//! left to the caller.
use vstd::prelude::*;

pub mod audio;
pub mod command;
pub mod compositor;
pub mod convert;
pub mod encoder;
pub mod filter;
pub mod mask;
pub mod numfmt;
pub mod pixel;
pub mod video;
pub mod utils;

verus! {

/// The failures a library operation can report.
///
/// Every operation fails fast and whole: no partial result is ever
/// returned beside an error.
#[derive(Debug, PartialEq, Eq)]
pub enum MediaError {
    /// A combine operation was given zero images.
    EmptyInput,
    /// An unrecognized combine mode name.
    InvalidMode,
    /// An unrecognized filter name.
    InvalidFilter,
    /// An unrecognized shape name.
    InvalidShape,
    /// A combine mode was given a number of inputs it cannot take.
    InvalidInputCount,
    /// A file extension that names no known file type.
    UnsupportedFileType,
    /// The codec collaborator could not decode an input; carries its
    /// diagnostic text.
    DecodeFailure(String),
    /// The codec collaborator could not encode a result; carries its
    /// diagnostic text.
    EncodeFailure(String),
    /// The external transcoder exited with a failure; carries its
    /// diagnostic text verbatim.
    TranscodeFailure(String),
}

} // verus!
