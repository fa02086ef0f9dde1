//! A host-runtime binding around a package manager's build pipeline.
//!
//! The library decodes a build request from its textual wire form, classifies
//! the outcome of the delegated build pipeline, derives one artifact record
//! per manifest target, and encodes the build result back to wire form.
//! Driving the actual toolchain is left to the embedding program.

mod artifact;
mod error;
mod json;
mod op;
mod pipeline;
mod request;
mod response;
mod strutil;
mod target;

pub use artifact::{BuildArtifact, BuildArtifactView};
pub use error::BuildError;
pub use op::{op_cargo_build, OpOutput, OpOutputView};
pub use pipeline::{run_cargo_build, working_dir_of, PipelineOutcome, PipelineOutcomeView};
pub use request::{BuildConfig, BuildConfigView};
pub use response::{BuildResult, BuildResultView};
pub use target::{TargetInfo, TargetInfoView, TargetKind};
