use vstd::prelude::*;

verus! {

/// Structured errors for the upload, integrity and credential components.
///
/// Validation errors are reported before any durable side effect; the
/// I/O-flavoured variants describe which stage of an upload failed so that a
/// boundary layer can decide how to present them.
#[derive(Clone, Copy, Debug, PartialEq, Eq, Structural)]
pub enum UploadError {
    /// A relative path contained a parent-directory, current-directory or
    /// root marker.
    InvalidPath,
    /// A file name could not be reduced to a safe stored name.
    UnsafeOrUnsanitizableFilename,
    /// Content sniffing found no type, or a type outside the allow-list.
    UnsupportedMediaType,
    /// A chunk or an assembled artifact exceeded the configured ceiling.
    PayloadTooLarge,
    /// Persisting one chunk's bytes failed.
    ChunkWriteFailed { index: usize },
    /// Reassembly found no chunk stored at this sequence index.
    ChunkMissingDuringAssembly { index: usize },
    /// Writing the assembled artifact failed.
    ArtifactWriteFailed,
    /// Computing the content digest failed.
    HashComputeFailed,
    /// Writing the digest sidecar failed.
    SidecarWriteFailed,
    /// Removing the session's temporary storage failed; the artifact and its
    /// sidecar are already durable when this is reported.
    TemporaryCleanupFailed,
    /// A stored credential hash was not in a recognized format.
    CredentialFormatInvalid,
    /// Reading a byte range of an artifact failed.
    RangeReadFailed,
}

} // verus!
