//! # tower_guard_rs
//!
//! Application-layer security screening for `tower` services, powered by the
//! `guard-core-engine` detection engine. Every detection decision comes from
//! the engine; this library decides which views of a request are scanned, in
//! which order the checks run, and how a request that fails one is answered.
//!
//! ## What it inspects
//!
//! One engine call per request view ([`scan`]):
//!
//! | Request part | Engine context | Notes |
//! |---|---|---|
//! | Path | `url_path` | Skipped for `/` |
//! | Query string | `query_param` | Skipped when empty |
//! | Header values | `header` | Skips `sec-*` and negotiation headers |
//! | Body | `request_body` | Buffered first, capped; taken apart by content type |
//!
//! ## Responses
//!
//! | Situation | Status | Body |
//! |---|---|---|
//! | The IP gate denies the client IP | `403` | `Forbidden` |
//! | There is a live ban on the client IP | `403` | `IP address banned` |
//! | The client IP crosses the rate limit | `429` (+ `Retry-After: <window>`) | `Too many requests` |
//! | The engine flags a view | `400` | `Suspicious activity detected` |
//! | The engine flags a view, and that gets the client banned | `403` | `IP has been banned` |
//! | The body exceeds the cap | `413` | `Payload too large` |
//! | The body cannot be read, or an engine call is reported to have panicked | `500` | `Security check failed` |
//!
//! The guard is fail-secure: a request that could not be checked is answered,
//! never passed on. The IP gate, the ban check and the rate limiter are
//! optional ([`GuardLayer`]). The whitelisted and the exempt skip the ban check
//! and the rate limiter, never detection.
//!
//! The engine may panic on hostile content. So the library never calls its
//! detection itself: it says what to ask ([`call::CallState`]), and whoever
//! drives it makes the call, recovers from a panic, and hands in the answer or
//! `None`.
//!
//! ## Layout
//!
//! [`layer`] holds the settings, [`call`] takes one request through the guard
//! step by step, [`stages`] holds the checks around the scan, [`stores`] the
//! bans and the rate limits under them, [`scan`] and [`categories`] the scan
//! itself, [`response`] the answers, [`text`] what is
//! needed of strings. [`laws`] states what holds of all of them together.
//! [`engine`], [`transport`] and the calls in [`stores`] state what is taken on
//! trust of the crates underneath.

pub mod call;
pub mod categories;
pub mod engine;
pub mod laws;
pub mod layer;
pub mod request;
pub mod response;
pub mod scan;
pub mod stages;
pub mod stores;
pub mod text;
pub mod transport;

pub use crate::layer::GuardLayer;
pub use crate::request::{ClientIp, GuardClientIp, RequestParts};
pub use crate::response::{
    ACTIVITY_BANNED_MESSAGE, BANNED_MESSAGE, BLOCKED_MESSAGE, FAILURE_MESSAGE, FORBIDDEN_MESSAGE,
    OVERSIZE_MESSAGE, RATE_LIMITED_MESSAGE,
};
pub use guard_core_engine::detect::{DetectConfig, DetectVerdict, Threat};
pub use guard_core_engine::ip_ban::{
    BanError, BanRecord, Clock, IpBanConfig, IpBanConfigError, IpBanManager, ResolvedBan,
    ThreatBanEntry, ViolationCounters,
};
pub use guard_core_engine::ip_gate::{
    IpGateConfig, IpGateDecision, IpGateDenial, IpGateError, IpGateVerdict,
};
pub use guard_core_engine::rate_limit::{
    RateLimitConfig, RateLimitConfigError, RateLimitDecision, RateLimiter,
};

