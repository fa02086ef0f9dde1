use crate::error::BuildError;
use crate::pipeline::{run_cargo_build, run_result_view, PipelineOutcome, PipelineOutcomeView};
use crate::request::{parse_request, BuildConfig};
use crate::response::encode_build_result;
use crate::strutil::utf8_to_str;
use vstd::prelude::*;

verus! {

/// What one invocation of the operation hands back to the host runtime:
/// either the immediate rejection of an asynchronous invocation, or the
/// synchronous result, which is the encoded response text or an error.
pub enum OpOutput {
    Async(BuildError),
    Sync(Result<String, BuildError>),
}

/// The mathematical value of an [`OpOutput`].
#[verifier::ext_equal]
pub ghost enum OpOutputView {
    Async(BuildError),
    Sync(Result<Seq<char>, BuildError>),
}

impl View for OpOutput {
    type V = OpOutputView;

    open spec fn view(&self) -> OpOutputView {
        match self {
            OpOutput::Async(e) => OpOutputView::Async(*e),
            OpOutput::Sync(res) => OpOutputView::Sync(
                match res {
                    Ok(s) => Ok(s@),
                    Err(e) => Err(*e),
                },
            ),
        }
    }
}

/// The output the operation owes for an invocation mode, a request payload
/// and a pipeline outcome: an asynchronous invocation is rejected outright;
/// a payload that is not UTF-8 or does not hold a well-formed request record
/// is a decode error; otherwise the result for the pipeline outcome is
/// encoded, or its error passed on.
pub open spec fn op_result_view(
    is_sync: bool,
    data: Seq<u8>,
    outcome: PipelineOutcomeView,
) -> OpOutputView {
    if !is_sync {
        OpOutputView::Async(BuildError::AsyncNotSupported)
    } else if !vstd::utf8::valid_utf8(data) {
        OpOutputView::Sync(Err(BuildError::RequestDecode))
    } else {
        match parse_request(vstd::utf8::decode_utf8(data)) {
            None => OpOutputView::Sync(Err(BuildError::RequestDecode)),
            Some(config) => match run_result_view(config, outcome) {
                Ok(result) => OpOutputView::Sync(Ok(encode_build_result(result))),
                Err(e) => OpOutputView::Sync(Err(e)),
            },
        }
    }
}

/// An asynchronous invocation is always rejected with the unsupported
/// error, whatever the request holds and whatever the pipeline would have
/// reported: the build pipeline is never consulted.
pub proof fn lemma_async_never_builds(
    data1: Seq<u8>,
    data2: Seq<u8>,
    o1: PipelineOutcomeView,
    o2: PipelineOutcomeView,
)
    ensures
        op_result_view(false, data1, o1) == OpOutputView::Async(BuildError::AsyncNotSupported),
        op_result_view(false, data1, o1) == op_result_view(false, data2, o2),
{
}

/// The operation: rejects an asynchronous invocation, decodes the request
/// payload, classifies the reported pipeline outcome, and encodes the
/// response. The auxiliary zero-copy buffer is accepted and not consulted.
pub fn op_cargo_build(
    is_sync: bool,
    data: &[u8],
    _zero_copy: Option<Vec<u8>>,
    outcome: PipelineOutcome,
) -> (r: OpOutput)
    ensures
        r@ == op_result_view(is_sync, data@, outcome@),
{
    if !is_sync {
        return OpOutput::Async(BuildError::AsyncNotSupported);
    }
    let text = match utf8_to_str(data) {
        Some(t) => t,
        None => {
            return OpOutput::Sync(Err(BuildError::RequestDecode));
        },
    };
    let config = match BuildConfig::from_json(text) {
        Ok(c) => c,
        Err(e) => {
            return OpOutput::Sync(Err(e));
        },
    };
    match run_cargo_build(config, outcome) {
        Ok(build_result) => OpOutput::Sync(Ok(build_result.to_json())),
        Err(e) => OpOutput::Sync(Err(e)),
    }
}

} // verus!
