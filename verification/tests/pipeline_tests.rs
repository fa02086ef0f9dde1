use cargo_binding::{
    run_cargo_build, working_dir_of, BuildConfig, BuildError, PipelineOutcome, TargetInfo,
    TargetKind,
};

fn config(lib_only: bool) -> BuildConfig {
    BuildConfig {
        manifest_path: "/proj/Cargo.toml".to_string(),
        lib_only,
        verbose: 0,
    }
}

fn three_targets() -> Vec<TargetInfo> {
    vec![
        TargetInfo {
            name: "core-lib".to_string(),
            kind: TargetKind::Library {
                dylib: false,
                cdylib: true,
            },
        },
        TargetInfo {
            name: "tool".to_string(),
            kind: TargetKind::Binary,
        },
        TargetInfo {
            name: "demo".to_string(),
            kind: TargetKind::Example,
        },
    ]
}

#[test]
fn one_artifact_per_target() {
    let outcome = PipelineOutcome::Compiled {
        output_root: "/proj/target/release".to_string(),
        targets: three_targets(),
    };
    let r = run_cargo_build(config(false), outcome).unwrap();
    assert_eq!(r.output_root, "/proj/target/release");
    assert_eq!(r.artifacts.len(), 3);
    assert_eq!(r.artifacts[0].output_name, "core_lib");
    assert!(r.artifacts[0].is_lib);
    assert!(!r.artifacts[0].is_dylib);
    assert!(r.artifacts[0].is_cdylib);
    assert_eq!(r.artifacts[1].output_name, "tool");
    assert!(!r.artifacts[1].is_lib);
    assert_eq!(r.artifacts[2].output_name, "demo");
    assert!(!r.artifacts[2].is_lib);
}

#[test]
fn output_root_kept_verbatim() {
    let odd = "target//release ";
    let outcome = PipelineOutcome::Compiled {
        output_root: odd.to_string(),
        targets: Vec::new(),
    };
    let r = run_cargo_build(config(false), outcome).unwrap();
    assert_eq!(r.output_root, odd);
    assert!(r.artifacts.is_empty());
}

#[test]
fn lib_only_not_consulted() {
    let make_outcome = || PipelineOutcome::Compiled {
        output_root: "/r".to_string(),
        targets: three_targets(),
    };
    let with_flag = run_cargo_build(config(true), make_outcome()).unwrap();
    let without_flag = run_cargo_build(config(false), make_outcome()).unwrap();
    assert_eq!(with_flag.artifacts.len(), without_flag.artifacts.len());
    for (a, b) in with_flag.artifacts.iter().zip(without_flag.artifacts.iter()) {
        assert_eq!(a.output_name, b.output_name);
        assert_eq!(a.is_lib, b.is_lib);
        assert_eq!(a.is_dylib, b.is_dylib);
        assert_eq!(a.is_cdylib, b.is_cdylib);
    }
    assert_eq!(with_flag.to_json(), without_flag.to_json());
}

#[test]
fn each_failure_reports_its_kind() {
    let cases = [
        (
            PipelineOutcome::HomeDirUnresolved,
            BuildError::WorkspaceConstruction,
        ),
        (
            PipelineOutcome::ManifestUnreadable,
            BuildError::ManifestResolution,
        ),
        (
            PipelineOutcome::ManifestNotReal,
            BuildError::UnsupportedManifest,
        ),
        (
            PipelineOutcome::WorkspaceFailed,
            BuildError::WorkspaceConstruction,
        ),
        (
            PipelineOutcome::OptionsFailed,
            BuildError::WorkspaceConstruction,
        ),
        (PipelineOutcome::CompileFailed, BuildError::Compile),
    ];
    for (outcome, expected) in cases {
        let r = run_cargo_build(config(false), outcome);
        assert_eq!(r.err().unwrap(), expected);
    }
}

#[test]
fn working_dir_strips_last_component() {
    assert_eq!(working_dir_of("/a/b/Cargo.toml"), "/a/b");
    assert_eq!(working_dir_of("a/Cargo.toml"), "a");
    assert_eq!(working_dir_of("Cargo.toml"), "");
    assert_eq!(working_dir_of("/Cargo.toml"), "");
}

#[test]
fn error_messages() {
    assert_eq!(BuildError::AsyncNotSupported.message(), "Async not supported!");
    assert_eq!(BuildError::RequestDecode.message(), "Malformed build request");
    assert_eq!(
        BuildError::ManifestResolution.message(),
        "Manifest could not be resolved"
    );
    assert_eq!(
        BuildError::UnsupportedManifest.message(),
        "Unsupported manifest shape"
    );
    assert_eq!(
        BuildError::WorkspaceConstruction.message(),
        "Workspace could not be constructed"
    );
    assert_eq!(BuildError::Compile.message(), "Compilation failed");
}
