//! Errors of the RPC layer, and how a transport failure is sorted into one.
use vstd::prelude::*;

use alloy::transports::RpcError as AlloyRpcError;
use alloy::transports::TransportError;

use crate::extractor::rpc::transport::RateLimited;
use crate::time::Duration;

verus! {

/// alloy's JSON-RPC error, generic over the transport's own error and the error reply.
#[verifier::external_type_specification]
#[verifier::external_body]
#[verifier::reject_recursive_types(E)]
#[verifier::reject_recursive_types(ErrResp)]
pub struct ExAlloyRpcError<E, ErrResp>(AlloyRpcError<E, ErrResp>);

/// serde_json's unparsed JSON text, the body of alloy's error replies.
#[verifier::external_type_specification]
#[verifier::external_body]
pub struct ExRawValue(serde_json::value::RawValue);

/// alloy's transport-level error.
#[verifier::external_type_specification]
#[verifier::external_body]
pub struct ExTransportErrorKind(alloy::transports::TransportErrorKind);

/// Whether a failed call may be tried again.
#[derive(Debug, Clone, Copy, PartialEq, Eq, Structural)]
pub enum RetryFlag {
    Fail,
    Retry,
}

/// What a call to the node can end in, other than a result.
#[allow(inconsistent_fields)]
#[derive(Debug)]
pub enum RpcError {
    /// An attempt took longer than it was allowed.
    Timeout { elapsed: Option<Duration>, method: String },
    /// The node answered `429`, asking to wait `retry_after` where it said how long.
    RateLimited { method: String, retry_after: Option<Duration> },
    /// The request or its reply failed on the way.
    Transport { method: String, source: TransportError },
    /// The call failed on every attempt it was allowed; `source` is the last failure.
    RetriesExhausted { method: String, attempt_count: u32, source: Box<RpcError> },
    /// The node answered with a JSON-RPC error.
    RpcResponse { method: String, source: TransportError },
}

/// What alloy's `RpcError::is_error_resp` answers for `err`: whether it is the
/// `ErrorResp` variant, a JSON-RPC error reply of the node.
pub uninterp spec fn alloy_is_error_resp(err: TransportError) -> bool;

/// alloy's `RpcError::is_error_resp`: whether the failure is a JSON-RPC error reply
/// of the node. The answer depends on the error alone, and is named.
#[verifier::external_body]
fn is_error_response(err: &TransportError) -> (r: bool)
    ensures
        r == alloy_is_error_resp(*err),
{
    err.is_error_resp()
}

/// How a transport failure is sorted: an error reply fails at once; a rate limit
/// keeps the server's delay and is retried; anything else is retried as a
/// transport error. `rate_limited` is the rate-limit signal the failure carries.
pub open spec fn classified(
    r: (RpcError, RetryFlag),
    err: TransportError,
    is_error_resp: bool,
    rate_limited: Option<RateLimited>,
    method: Seq<char>,
) -> bool {
    if is_error_resp {
        &&& r.1 == RetryFlag::Fail
        &&& r.0 matches RpcError::RpcResponse { method: m, source } && m@ == method && source == err
    } else if rate_limited is Some {
        &&& r.1 == RetryFlag::Retry
        &&& r.0 matches RpcError::RateLimited { method: m, retry_after } && m@ == method
            && retry_after == rate_limited.unwrap().retry_after
    } else {
        &&& r.1 == RetryFlag::Retry
        &&& r.0 matches RpcError::Transport { method: m, source } && m@ == method && source == err
    }
}

/// Sorts a transport failure, given whether it is an error reply and the
/// rate-limit signal it carries.
pub fn classify_failure(
    err: TransportError,
    is_error_resp: bool,
    rate_limited: Option<RateLimited>,
    method: &str,
) -> (r: (RpcError, RetryFlag))
    ensures
        classified(r, err, is_error_resp, rate_limited, method@),
{
    if is_error_resp {
        return (RpcError::RpcResponse { method: method.to_owned(), source: err }, RetryFlag::Fail);
    }
    match rate_limited {
        Some(rl) => (
            RpcError::RateLimited { method: method.to_owned(), retry_after: rl.retry_after },
            RetryFlag::Retry,
        ),
        None => (RpcError::Transport { method: method.to_owned(), source: err }, RetryFlag::Retry),
    }
}

/// Maps a transport failure, with the rate-limit signal it carries, into a typed
/// error and a verdict on retrying. Whether it is an error reply is asked of alloy.
pub fn classify(err: TransportError, rate_limited: Option<RateLimited>, method: &str) -> (r: (
    RpcError,
    RetryFlag,
))
    ensures
        classified(r, err, alloy_is_error_resp(err), rate_limited, method@),
{
    let is_error_resp = is_error_response(&err);
    classify_failure(err, is_error_resp, rate_limited, method)
}

} // verus!
