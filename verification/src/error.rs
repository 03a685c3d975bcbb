use vstd::prelude::*;

verus! {

/// The variant of an [`Error`], without its payload.
///
/// Stream models speak of failures by kind, so that a contract can name
/// the failure that ends a stream without fixing diagnostic text.
#[derive(Clone, Copy, PartialEq, Eq, Structural, Debug)]
pub enum ErrorKind {
    FileNotFound,
    MetadataUnavailable,
    SpawnFailure,
    SizeMismatch,
    TruncatedStream,
    WriteFailure,
    UnsupportedFormat,
}

/// Everything that can go wrong in the pipeline.
///
/// No error is retried internally; each is surfaced to the caller as is.
#[derive(Debug)]
pub enum Error {
    /// The given path is not a regular file.
    FileNotFound,
    /// The metadata collaborator could not describe the file.
    MetadataUnavailable,
    /// An external decode or encode process could not be started.
    SpawnFailure,
    /// A buffer or rectangle does not fit the dimensions it was given with.
    SizeMismatch,
    /// The decode stream closed before a whole frame arrived.
    TruncatedStream,
    /// The encoder rejected or closed its input; carries the write failure
    /// and the drained diagnostic text, never the failure alone.
    WriteFailure { detail: String, diagnostics: String },
    /// An effect stage was given a pixel format it does not operate on.
    UnsupportedFormat,
}

impl Error {
    /// The variant of this error.
    pub open spec fn spec_kind(&self) -> ErrorKind {
        match self {
            Error::FileNotFound => ErrorKind::FileNotFound,
            Error::MetadataUnavailable => ErrorKind::MetadataUnavailable,
            Error::SpawnFailure => ErrorKind::SpawnFailure,
            Error::SizeMismatch => ErrorKind::SizeMismatch,
            Error::TruncatedStream => ErrorKind::TruncatedStream,
            Error::WriteFailure { .. } => ErrorKind::WriteFailure,
            Error::UnsupportedFormat => ErrorKind::UnsupportedFormat,
        }
    }

    pub fn kind(&self) -> (k: ErrorKind)
        ensures
            k == self.spec_kind(),
    {
        match self {
            Error::FileNotFound => ErrorKind::FileNotFound,
            Error::MetadataUnavailable => ErrorKind::MetadataUnavailable,
            Error::SpawnFailure => ErrorKind::SpawnFailure,
            Error::SizeMismatch => ErrorKind::SizeMismatch,
            Error::TruncatedStream => ErrorKind::TruncatedStream,
            Error::WriteFailure { .. } => ErrorKind::WriteFailure,
            Error::UnsupportedFormat => ErrorKind::UnsupportedFormat,
        }
    }
}

} // verus!
