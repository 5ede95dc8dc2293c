use vstd::prelude::*;

verus! {

/// The error of the one-shot entry points, which tell failure from success
/// and nothing more.
#[derive(Debug, Clone, Copy, PartialEq, Eq, Structural, Hash, Default)]
pub struct WebpUnknownError;

impl WebpUnknownError {
    /// The fixed text that describes this error.
    pub fn description(&self) -> (text: &'static str)
        ensures
            text@ == "webp library error"@,
    {
        "webp library error"
    }
}

/// The error of a checked integer conversion whose source value does not fit
/// the target type.
#[derive(Debug, Clone, Copy, PartialEq, Eq)]
pub struct TryFromIntError(pub(crate) ());

impl TryFromIntError {
    /// The fixed text that describes this error.
    pub fn description(&self) -> (text: &'static str)
        ensures
            text@ == "out of range integral type conversion attempted"@,
    {
        "out of range integral type conversion attempted"
    }
}

/// What can go wrong while reading, building or decoding a container.
#[derive(Debug, Clone, Copy, PartialEq, Eq, Structural, Hash)]
pub enum WebpError {
    /// The bytes end before the chunk they announce; more data may cure it.
    TruncatedChunk,
    /// The bytes break the container's structure.
    MalformedContainer,
    /// The chunk, frame or tag asked for is absent.
    NotFound,
    /// The caller broke a documented precondition.
    InvalidArgument,
    /// The pixel codec rejected the payload.
    BitstreamError,
    /// An allocation failed.
    OutOfMemory,
    /// The incremental decoder waits for more bytes.
    Suspended,
}

impl WebpError {
    /// Whether feeding more bytes can turn this outcome into a success.
    pub open spec fn recoverable_by_more_data(self) -> bool {
        self == WebpError::TruncatedChunk || self == WebpError::Suspended
    }

    /// Whether feeding more bytes can turn this outcome into a success.
    #[verifier::when_used_as_spec(recoverable_by_more_data)]
    pub fn is_recoverable_by_more_data(self) -> (b: bool)
        ensures
            b == self.recoverable_by_more_data(),
    {
        match self {
            WebpError::TruncatedChunk => true,
            WebpError::Suspended => true,
            _ => false,
        }
    }
}

} // verus!
