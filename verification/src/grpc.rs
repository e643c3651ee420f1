//! OTLP over gRPC: how a request is answered.

use crate::text::push_text;
use vstd::prelude::*;

verus! {

/// The gRPC status code for an internal error.
pub const INTERNAL: i32 = 13;

/// A gRPC status.
pub struct RpcStatus {
    pub code: i32,
    pub message: String,
}

/// The status for a batch that could not be kept.
pub fn persistence_status(cause: &str) -> (r: RpcStatus)
    ensures
        r.code == INTERNAL,
        r.code == 13,
        r.message@ == "failed to persist telemetry: "@ + cause@,
{
    let mut message = String::new();
    push_text(&mut message, "failed to persist telemetry: ");
    push_text(&mut message, cause);
    assert(message@ =~= "failed to persist telemetry: "@ + cause@);
    RpcStatus { code: INTERNAL, message }
}

/// The answer to an export, once it is known whether its batch was kept and, if
/// not, why.
pub fn acknowledge(failure: Option<String>) -> (r: Result<(), RpcStatus>)
    ensures
        match failure {
            Some(cause) => r matches Err(s) && s.code == INTERNAL && s.code == 13 && s.message@
                == "failed to persist telemetry: "@ + cause@,
            None => r is Ok,
        },
{
    match failure {
        Some(cause) => Err(persistence_status(cause.as_str())),
        None => Ok(()),
    }
}

/// A batch that was kept is acknowledged, and one that was not is answered with the code
/// for an internal error and with why.
pub proof fn law_answers(failure: Option<String>, r: Result<(), RpcStatus>)
    requires
        call_ensures(acknowledge, (failure,), r),
    ensures
        r is Ok <==> failure is None,
        failure matches Some(cause) ==> r->Err_0.code == 13 && r->Err_0.message@
            == "failed to persist telemetry: "@ + cause@,
{
}

} // verus!
