use crate::target::{crate_name_of, kind_is_cdylib, kind_is_dylib, kind_is_lib};
use crate::target::{TargetInfo, TargetInfoView};
use vstd::prelude::*;

verus! {

/// The record the operation emits for one build target: the target's crate
/// name and three independent boolean facts about its declared kind.
pub struct BuildArtifact {
    pub output_name: String,
    pub is_lib: bool,
    pub is_dylib: bool,
    pub is_cdylib: bool,
}

/// The mathematical value of a [`BuildArtifact`].
#[verifier::ext_equal]
pub ghost struct BuildArtifactView {
    pub output_name: Seq<char>,
    pub is_lib: bool,
    pub is_dylib: bool,
    pub is_cdylib: bool,
}

impl View for BuildArtifact {
    type V = BuildArtifactView;

    open spec fn view(&self) -> BuildArtifactView {
        BuildArtifactView {
            output_name: self.output_name@,
            is_lib: self.is_lib,
            is_dylib: self.is_dylib,
            is_cdylib: self.is_cdylib,
        }
    }
}

/// The artifact record that describes a given target: its crate name, and
/// the three kind flags of the target's declared kind.
pub open spec fn artifact_of_target(t: TargetInfoView) -> BuildArtifactView {
    BuildArtifactView {
        output_name: crate_name_of(t.name),
        is_lib: kind_is_lib(t.kind),
        is_dylib: kind_is_dylib(t.kind),
        is_cdylib: kind_is_cdylib(t.kind),
    }
}

impl BuildArtifact {
    /// The artifact record for one build target.
    pub fn from_target(target: &TargetInfo) -> (r: Self)
        ensures
            r@ == artifact_of_target(target@),
    {
        Self {
            output_name: target.crate_name(),
            is_lib: matches!(target.kind, crate::target::TargetKind::Library { .. }),
            is_dylib: match target.kind {
                crate::target::TargetKind::Library { dylib, .. } => dylib,
                _ => false,
            },
            is_cdylib: match target.kind {
                crate::target::TargetKind::Library { cdylib, .. } => cdylib,
                _ => false,
            },
        }
    }
}

} // verus!
