use vstd::prelude::*;

verus! {

/// Every way a concatenation run can end without an output file.
#[derive(Debug, Clone, PartialEq, Eq)]
pub enum MovcatError {
    /// The resolved list of inputs is empty.
    NoInput,
    /// A glob token whose syntax is malformed.
    InvalidPattern { pattern: String, reason: String },
    /// A glob token that matched no regular file.
    NoMatch { pattern: String },
    /// An input that does not exist when it is inspected.
    FileNotFound { path: String },
    /// An input that the container parser could not read.
    UnreadableContainer { path: String, diagnostic: String },
    /// An input with neither a video nor an audio track.
    NoMediaTracks { path: String },
    /// The external muxer could not be started.
    ExternalToolMissing,
    /// An input whose absolute, canonical path could not be obtained.
    PathResolution { path: String, diagnostic: String },
    /// The manifest could not be written.
    ManifestWrite { path: String, diagnostic: String },
    /// The external muxer ran and reported failure.
    ExternalToolFailure { diagnostic: String },
}

} // verus!
