use std::time::Duration as StdDuration;

use alloy::rpc::json_rpc::ErrorPayload;
use alloy::transports::{TransportError, TransportErrorKind};

use plexus::extractor::rpc::error::{classify, classify_failure, RetryFlag, RpcError};
use plexus::extractor::rpc::transport::RateLimited;
use plexus::time::Duration;

fn error_payload() -> ErrorPayload {
    serde_json::from_str::<ErrorPayload>(
        r#"{"code":-32000,"message":"execution reverted","data":null}"#,
    )
    .unwrap()
}

#[test]
fn classify_error_response_fails_fast() {
    let (err, flag) = classify(TransportError::ErrorResp(error_payload()), None, "eth_call");
    assert_eq!(flag, RetryFlag::Fail);
    assert!(matches!(err, RpcError::RpcResponse { .. }));
}

#[test]
fn classify_rate_limited_is_retryable_and_preserves_retry_after() {
    let signal = RateLimited { retry_after: Some(Duration::from_secs(2)) };
    let raw = TransportErrorKind::custom_str("rate limited (HTTP 429)");
    let (err, flag) = classify(raw, Some(signal), "eth_getLogs");
    assert_eq!(flag, RetryFlag::Retry);
    match err {
        RpcError::RateLimited { method, retry_after } => {
            assert_eq!(method, "eth_getLogs");
            assert_eq!(retry_after, Some(Duration::from_secs(2)));
        }
        other => panic!("expected RateLimited, got {other:?}"),
    }
}

#[test]
fn classify_rate_limited_without_retry_after() {
    let raw = TransportErrorKind::custom_str("rate limited (HTTP 429)");
    let (err, flag) = classify(raw, Some(RateLimited { retry_after: None }), "eth_call");
    assert_eq!(flag, RetryFlag::Retry);
    match err {
        RpcError::RateLimited { retry_after, .. } => assert_eq!(retry_after, None),
        other => panic!("expected RateLimited, got {other:?}"),
    }
}

#[test]
fn classify_plain_transport_is_retryable() {
    let (err, flag) = classify(
        TransportErrorKind::custom_str("connection reset"),
        None,
        "eth_blockNumber",
    );
    assert_eq!(flag, RetryFlag::Retry);
    assert!(matches!(err, RpcError::Transport { .. }));
}

#[test]
fn classify_error_response_wins_over_rate_limit() {
    let signal = RateLimited { retry_after: Some(Duration::from_secs(1)) };
    let (err, flag) = classify(TransportError::ErrorResp(error_payload()), Some(signal), "m");
    assert_eq!(flag, RetryFlag::Fail);
    match err {
        RpcError::RpcResponse { method, source } => {
            assert_eq!(method, "m");
            assert!(source.is_error_resp());
        }
        other => panic!("expected RpcResponse, got {other:?}"),
    }
}

#[test]
fn classify_failure_keeps_the_source() {
    let (err, flag) = classify_failure(TransportErrorKind::custom_str("x"), false, None, "m");
    assert_eq!(flag, RetryFlag::Retry);
    match err {
        RpcError::Transport { source, .. } => assert_eq!(source.to_string(), "x"),
        other => panic!("expected Transport, got {other:?}"),
    }
    let _ = StdDuration::from_secs(1);
}
