//! The shape of every response that the guard generates.
use tower_guard_rs::response::{
    activity_banned, banned_ip, blocked, failure, forbidden, oversize, rate_limited,
};
use tower_guard_rs::{
    ACTIVITY_BANNED_MESSAGE, BANNED_MESSAGE, BLOCKED_MESSAGE, FAILURE_MESSAGE, FORBIDDEN_MESSAGE,
    OVERSIZE_MESSAGE, RATE_LIMITED_MESSAGE,
};

#[test]
fn blocked_response_shape() {
    let response = blocked();
    assert_eq!(response.status, 400);
    assert_eq!(response.content_type, "text/plain; charset=utf-8");
    assert_eq!(response.message, BLOCKED_MESSAGE);
}

#[test]
fn forbidden_response_shape() {
    let response = forbidden();
    assert_eq!(response.status, 403);
    assert_eq!(response.content_type, "text/plain; charset=utf-8");
    assert_eq!(response.message, FORBIDDEN_MESSAGE);
}

#[test]
fn banned_response_shape() {
    let response = banned_ip();
    assert_eq!(response.status, 403);
    assert_eq!(response.message, BANNED_MESSAGE);
}

#[test]
fn activity_banned_response_shape() {
    let response = activity_banned();
    assert_eq!(response.status, 403);
    assert_eq!(response.message, ACTIVITY_BANNED_MESSAGE);
}

#[test]
fn rate_limited_response_shape_carries_retry_after() {
    let response = rate_limited(90);
    assert_eq!(response.status, 429);
    assert_eq!(response.retry_after.as_deref(), Some("90"));
    assert_eq!(response.message, RATE_LIMITED_MESSAGE);
}

#[test]
fn oversize_response_shape() {
    let response = oversize();
    assert_eq!(response.status, 413);
    assert_eq!(response.content_type, "text/plain; charset=utf-8");
    assert_eq!(response.message, OVERSIZE_MESSAGE);
}

#[test]
fn failure_response_shape() {
    let response = failure();
    assert_eq!(response.status, 500);
    assert_eq!(response.content_type, "text/plain; charset=utf-8");
    assert_eq!(response.message, FAILURE_MESSAGE);
}

#[test]
fn messages_are_the_documented_ones() {
    assert_eq!(BLOCKED_MESSAGE, "Suspicious activity detected");
    assert_eq!(FORBIDDEN_MESSAGE, "Forbidden");
    assert_eq!(BANNED_MESSAGE, "IP address banned");
    assert_eq!(ACTIVITY_BANNED_MESSAGE, "IP has been banned");
    assert_eq!(RATE_LIMITED_MESSAGE, "Too many requests");
    assert_eq!(OVERSIZE_MESSAGE, "Payload too large");
    assert_eq!(FAILURE_MESSAGE, "Security check failed");
}

#[test]
fn only_the_rate_limit_response_carries_retry_after() {
    for response in [
        blocked(),
        forbidden(),
        banned_ip(),
        activity_banned(),
        oversize(),
        failure(),
    ] {
        assert_eq!(response.retry_after, None);
    }
}

#[test]
fn retry_after_is_written_in_decimal() {
    for seconds in [0, 9, 10, 60, 101, 3600, u64::MAX] {
        assert_eq!(rate_limited(seconds).retry_after, Some(seconds.to_string()));
    }
}
