use vstd::prelude::*;

verus! {

/// The distinct ways an invocation of the build operation can fail.
///
/// Every fallible step of the operation reports its own kind, so a caller
/// can tell a request it could not read from a manifest that could not be
/// resolved, an unsupported manifest shape, a build context that could not
/// be constructed, and a compilation that failed.
#[derive(Clone, Copy, Debug, PartialEq, Eq, Structural)]
pub enum BuildError {
    /// The operation was invoked in asynchronous mode, which is unsupported.
    AsyncNotSupported,
    /// The request bytes were not valid UTF-8 or did not hold a well-formed
    /// request record.
    RequestDecode,
    /// The manifest file could not be found or read.
    ManifestResolution,
    /// The manifest was read but is a virtual, workspace-only manifest,
    /// which the operation does not support.
    UnsupportedManifest,
    /// The build context (home directory, configuration, workspace, or
    /// compile options) could not be constructed.
    WorkspaceConstruction,
    /// The compilation itself failed.
    Compile,
}

impl BuildError {
    /// A short human-readable description of the error.
    pub fn message(&self) -> (r: &'static str)
        ensures
            *self == BuildError::AsyncNotSupported ==> r@ == "Async not supported!"@,
            *self == BuildError::RequestDecode ==> r@ == "Malformed build request"@,
            *self == BuildError::ManifestResolution ==> r@ == "Manifest could not be resolved"@,
            *self == BuildError::UnsupportedManifest ==> r@ == "Unsupported manifest shape"@,
            *self == BuildError::WorkspaceConstruction ==> r@ == "Workspace could not be constructed"@,
            *self == BuildError::Compile ==> r@ == "Compilation failed"@,
    {
        match self {
            BuildError::AsyncNotSupported => "Async not supported!",
            BuildError::RequestDecode => "Malformed build request",
            BuildError::ManifestResolution => "Manifest could not be resolved",
            BuildError::UnsupportedManifest => "Unsupported manifest shape",
            BuildError::WorkspaceConstruction => "Workspace could not be constructed",
            BuildError::Compile => "Compilation failed",
        }
    }
}

} // verus!
