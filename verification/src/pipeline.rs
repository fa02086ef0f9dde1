use crate::artifact::BuildArtifactView;
use crate::artifact::artifact_of_target;
use crate::error::BuildError;
use crate::request::{BuildConfig, BuildConfigView};
use crate::response::{artifacts_of_targets, BuildResult, BuildResultView};
use crate::strutil::str_to_chars;
use crate::target::{TargetInfo, TargetInfoView};
use vstd::prelude::*;
use vstd::string::StringExecFns;

verus! {

/// How one run of the delegated build pipeline ended, as the embedding
/// program reports it: which step failed first, or the root output directory
/// and the manifest's declared targets after a successful compilation.
pub enum PipelineOutcome {
    /// No home directory could be resolved for the working directory.
    HomeDirUnresolved,
    /// The manifest file could not be found or read.
    ManifestUnreadable,
    /// The manifest was read but is a virtual, workspace-only manifest.
    ManifestNotReal,
    /// The workspace could not be constructed.
    WorkspaceFailed,
    /// The compile options could not be constructed.
    OptionsFailed,
    /// The compilation itself failed.
    CompileFailed,
    /// The compilation succeeded.
    Compiled { output_root: String, targets: Vec<TargetInfo> },
}

/// The mathematical value of a [`PipelineOutcome`].
#[verifier::ext_equal]
pub ghost enum PipelineOutcomeView {
    HomeDirUnresolved,
    ManifestUnreadable,
    ManifestNotReal,
    WorkspaceFailed,
    OptionsFailed,
    CompileFailed,
    Compiled { output_root: Seq<char>, targets: Seq<TargetInfoView> },
}

/// The mathematical values of a list of targets.
pub open spec fn views_of_targets(ts: Seq<TargetInfo>) -> Seq<TargetInfoView> {
    ts.map_values(|t: TargetInfo| t@)
}

impl View for PipelineOutcome {
    type V = PipelineOutcomeView;

    open spec fn view(&self) -> PipelineOutcomeView {
        match self {
            PipelineOutcome::HomeDirUnresolved => PipelineOutcomeView::HomeDirUnresolved,
            PipelineOutcome::ManifestUnreadable => PipelineOutcomeView::ManifestUnreadable,
            PipelineOutcome::ManifestNotReal => PipelineOutcomeView::ManifestNotReal,
            PipelineOutcome::WorkspaceFailed => PipelineOutcomeView::WorkspaceFailed,
            PipelineOutcome::OptionsFailed => PipelineOutcomeView::OptionsFailed,
            PipelineOutcome::CompileFailed => PipelineOutcomeView::CompileFailed,
            PipelineOutcome::Compiled { output_root, targets } => PipelineOutcomeView::Compiled {
                output_root: output_root@,
                targets: views_of_targets(targets@),
            },
        }
    }
}

/// The artifact records that describe a list of target values, in order.
pub open spec fn artifacts_of_target_views(ts: Seq<TargetInfoView>) -> Seq<BuildArtifactView> {
    ts.map_values(|t: TargetInfoView| artifact_of_target(t))
}

/// The build result the operation owes for a request and a pipeline
/// outcome: each failed step reports its own error kind, and a successful
/// compilation reports the pipeline's root output directory verbatim and
/// one artifact record per declared target, in manifest order. Neither the
/// `lib_only` flag nor the `verbose` level of the request is consulted.
pub open spec fn run_result_view(config: BuildConfigView, outcome: PipelineOutcomeView) -> Result<
    BuildResultView,
    BuildError,
> {
    match outcome {
        PipelineOutcomeView::HomeDirUnresolved => Err(BuildError::WorkspaceConstruction),
        PipelineOutcomeView::ManifestUnreadable => Err(BuildError::ManifestResolution),
        PipelineOutcomeView::ManifestNotReal => Err(BuildError::UnsupportedManifest),
        PipelineOutcomeView::WorkspaceFailed => Err(BuildError::WorkspaceConstruction),
        PipelineOutcomeView::OptionsFailed => Err(BuildError::WorkspaceConstruction),
        PipelineOutcomeView::CompileFailed => Err(BuildError::Compile),
        PipelineOutcomeView::Compiled { output_root, targets } => Ok(
            BuildResultView { output_root, artifacts: artifacts_of_target_views(targets) },
        ),
    }
}

/// The request's `lib_only` flag is accepted but never consulted: for an
/// identical manifest and pipeline outcome, a request with the flag set
/// yields exactly the result of a request with the flag clear.
pub proof fn lemma_lib_only_unenforced(
    c1: BuildConfigView,
    c2: BuildConfigView,
    outcome: PipelineOutcomeView,
)
    requires
        c1.manifest_path == c2.manifest_path,
        c1.verbose == c2.verbose,
    ensures
        run_result_view(c1, outcome) == run_result_view(c2, outcome),
{
}

/// A successful build yields exactly one artifact record per declared
/// target: the list has the targets' length, and the record at each
/// position is the one that describes the target at that position.
pub proof fn lemma_one_artifact_per_target(targets: Seq<TargetInfoView>)
    ensures
        artifacts_of_target_views(targets).len() == targets.len(),
        forall|i: int|
            0 <= i < targets.len() ==> artifacts_of_target_views(targets)[i] == artifact_of_target(
                targets[i],
            ),
{
}

/// The two mapped forms of a target list describe the same artifacts.
proof fn lemma_artifacts_of_views(ts: Seq<TargetInfo>)
    ensures
        artifacts_of_target_views(views_of_targets(ts)) == artifacts_of_targets(ts),
{
    assert(artifacts_of_target_views(views_of_targets(ts)) =~= artifacts_of_targets(ts));
}

/// The build result for a request, given how the delegated pipeline run
/// ended. A failed step yields its error kind; a successful compilation
/// yields the pipeline's root output directory verbatim and one artifact
/// record per declared target, in manifest order.
pub fn run_cargo_build(config: BuildConfig, outcome: PipelineOutcome) -> (r: Result<
    BuildResult,
    BuildError,
>)
    ensures
        run_result_view(config@, outcome@) matches Ok(v) ==> r matches Ok(br) && br@ == v,
        run_result_view(config@, outcome@) matches Err(e) ==> r == Err::<BuildResult, BuildError>(
            e,
        ),
        outcome@ matches PipelineOutcomeView::Compiled { output_root, targets } ==> r matches Ok(br)
            && br@.output_root == output_root && br@.artifacts == artifacts_of_target_views(
            targets,
        ) && br@.artifacts.len() == targets.len(),
{
    match outcome {
        PipelineOutcome::HomeDirUnresolved => Err(BuildError::WorkspaceConstruction),
        PipelineOutcome::ManifestUnreadable => Err(BuildError::ManifestResolution),
        PipelineOutcome::ManifestNotReal => Err(BuildError::UnsupportedManifest),
        PipelineOutcome::WorkspaceFailed => Err(BuildError::WorkspaceConstruction),
        PipelineOutcome::OptionsFailed => Err(BuildError::WorkspaceConstruction),
        PipelineOutcome::CompileFailed => Err(BuildError::Compile),
        PipelineOutcome::Compiled { output_root, targets } => {
            let mut build_result = BuildResult::from_build_result(output_root);
            build_result.push_artifacts_for_targets(&targets);
            proof {
                lemma_artifacts_of_views(targets@);
                assert(Seq::<BuildArtifactView>::empty() + artifacts_of_targets(targets@)
                    =~= artifacts_of_targets(targets@));
            }
            Ok(build_result)
        },
    }
}

/// The directory that holds the file at the given path: the longest prefix
/// before the final `/`, or the empty string where the path holds no `/`.
pub open spec fn parent_dir_of(p: Seq<char>) -> Seq<char>
    decreases p.len(),
{
    if p.len() == 0 {
        Seq::empty()
    } else if p.last() == '/' {
        p.drop_last()
    } else {
        parent_dir_of(p.drop_last())
    }
}

/// A path without separators has no containing directory to name.
proof fn lemma_parent_dir_no_slash(p: Seq<char>)
    requires
        forall|m: int| 0 <= m < p.len() ==> p[m] != '/',
    ensures
        parent_dir_of(p) == Seq::<char>::empty(),
    decreases p.len(),
{
    if p.len() > 0 {
        lemma_parent_dir_no_slash(p.drop_last());
    }
}

/// The containing directory ends just before the last separator.
proof fn lemma_parent_dir_last_slash(p: Seq<char>, k: int)
    requires
        0 <= k < p.len(),
        p[k] == '/',
        forall|m: int| k < m < p.len() ==> p[m] != '/',
    ensures
        parent_dir_of(p) == p.take(k),
    decreases p.len(),
{
    if k == p.len() - 1 {
        assert(p.drop_last() =~= p.take(k));
    } else {
        lemma_parent_dir_last_slash(p.drop_last(), k);
        assert(p.drop_last().take(k) =~= p.take(k));
    }
}

/// The directory holding the given manifest file: everything before the
/// final `/`, or the empty string where the path holds none.
pub fn working_dir_of(manifest_path: &str) -> (r: String)
    ensures
        r@ == parent_dir_of(manifest_path@),
{
    let chars = str_to_chars(manifest_path);
    let n = chars.len();
    let mut i = n;
    while i > 0
        invariant
            i <= n,
            n == chars@.len(),
            chars@ == manifest_path@,
            forall|m: int| i <= m < n ==> chars@[m] != '/',
        decreases i,
    {
        if chars[i - 1] == '/' {
            proof {
                lemma_parent_dir_last_slash(manifest_path@, i - 1 as int);
            }
            let prefix = manifest_path.substring_char(0, i - 1);
            proof {
                assert(manifest_path@.subrange(0, i - 1 as int) =~= manifest_path@.take(
                    i - 1 as int,
                ));
            }
            return String::from_str(prefix);
        }
        i = i - 1;
    }
    proof {
        lemma_parent_dir_no_slash(manifest_path@);
    }
    String::new()
}

} // verus!
