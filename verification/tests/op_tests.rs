use cargo_binding::{op_cargo_build, BuildError, OpOutput, PipelineOutcome, TargetInfo, TargetKind};

const GOOD_REQUEST: &str =
    "{\"manifest_path\":\"/proj/Cargo.toml\",\"lib_only\":false,\"verbose\":0}";

fn compiled() -> PipelineOutcome {
    PipelineOutcome::Compiled {
        output_root: "/proj/target/release".to_string(),
        targets: vec![TargetInfo {
            name: "proj-lib".to_string(),
            kind: TargetKind::Library {
                dylib: false,
                cdylib: true,
            },
        }],
    }
}

#[test]
fn async_mode_is_rejected() {
    // whatever the payload and the outcome, the asynchronous path only rejects
    match op_cargo_build(false, GOOD_REQUEST.as_bytes(), None, compiled()) {
        OpOutput::Async(e) => assert_eq!(e, BuildError::AsyncNotSupported),
        OpOutput::Sync(_) => panic!("asynchronous invocation reached the synchronous path"),
    }
    match op_cargo_build(false, &[0xff, 0x00], None, PipelineOutcome::CompileFailed) {
        OpOutput::Async(e) => assert_eq!(e, BuildError::AsyncNotSupported),
        OpOutput::Sync(_) => panic!("asynchronous invocation reached the synchronous path"),
    }
}

#[test]
fn sync_success_encodes_response() {
    match op_cargo_build(true, GOOD_REQUEST.as_bytes(), None, compiled()) {
        OpOutput::Sync(Ok(text)) => {
            assert_eq!(
                text,
                "{\"output_root\":\"/proj/target/release\",\"artifacts\":[\
                 {\"output_name\":\"proj_lib\",\"is_lib\":true,\"is_dylib\":false,\"is_cdylib\":true}]}"
            );
        }
        _ => panic!("expected a synchronous success"),
    }
}

#[test]
fn sync_rejects_invalid_utf8() {
    match op_cargo_build(true, &[0xff, 0xfe, 0xfd], None, compiled()) {
        OpOutput::Sync(Err(e)) => assert_eq!(e, BuildError::RequestDecode),
        _ => panic!("expected a decode error"),
    }
}

#[test]
fn sync_rejects_malformed_request() {
    match op_cargo_build(true, b"{\"manifest_path\":12}", None, compiled()) {
        OpOutput::Sync(Err(e)) => assert_eq!(e, BuildError::RequestDecode),
        _ => panic!("expected a decode error"),
    }
}

#[test]
fn sync_passes_pipeline_errors_on() {
    match op_cargo_build(
        true,
        GOOD_REQUEST.as_bytes(),
        None,
        PipelineOutcome::ManifestNotReal,
    ) {
        OpOutput::Sync(Err(e)) => assert_eq!(e, BuildError::UnsupportedManifest),
        _ => panic!("expected an unsupported-manifest error"),
    }
    match op_cargo_build(
        true,
        GOOD_REQUEST.as_bytes(),
        None,
        PipelineOutcome::ManifestUnreadable,
    ) {
        OpOutput::Sync(Err(e)) => assert_eq!(e, BuildError::ManifestResolution),
        _ => panic!("expected a manifest-resolution error"),
    }
    match op_cargo_build(true, GOOD_REQUEST.as_bytes(), None, PipelineOutcome::CompileFailed) {
        OpOutput::Sync(Err(e)) => assert_eq!(e, BuildError::Compile),
        _ => panic!("expected a compile error"),
    }
}

#[test]
fn sync_accepts_multibyte_payload() {
    let request = "{\"manifest_path\":\"/caf\u{e9}/Cargo.toml\",\"lib_only\":false,\"verbose\":0}";
    let outcome = PipelineOutcome::Compiled {
        output_root: "/caf\u{e9}/target/release".to_string(),
        targets: Vec::new(),
    };
    match op_cargo_build(true, request.as_bytes(), None, outcome) {
        OpOutput::Sync(Ok(text)) => {
            assert_eq!(
                text,
                "{\"output_root\":\"/caf\u{e9}/target/release\",\"artifacts\":[]}"
            );
        }
        _ => panic!("expected a synchronous success"),
    }
}

#[test]
fn zero_copy_buffer_is_ignored() {
    let with_buffer = op_cargo_build(
        true,
        GOOD_REQUEST.as_bytes(),
        Some(vec![1, 2, 3]),
        compiled(),
    );
    let without_buffer = op_cargo_build(true, GOOD_REQUEST.as_bytes(), None, compiled());
    match (with_buffer, without_buffer) {
        (OpOutput::Sync(Ok(a)), OpOutput::Sync(Ok(b))) => assert_eq!(a, b),
        _ => panic!("expected two synchronous successes"),
    }
}

#[test]
fn lib_only_flag_changes_nothing_end_to_end() {
    let set = "{\"manifest_path\":\"/proj/Cargo.toml\",\"lib_only\":true,\"verbose\":0}";
    let clear = "{\"manifest_path\":\"/proj/Cargo.toml\",\"lib_only\":false,\"verbose\":0}";
    let a = op_cargo_build(true, set.as_bytes(), None, compiled());
    let b = op_cargo_build(true, clear.as_bytes(), None, compiled());
    match (a, b) {
        (OpOutput::Sync(Ok(x)), OpOutput::Sync(Ok(y))) => assert_eq!(x, y),
        _ => panic!("expected two synchronous successes"),
    }
}
