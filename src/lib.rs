//! A rate-limiting engine for clients of remote APIs, and the decisions of a
//! breach-lookup client built on it.
//!
//! - `bucket`: a token bucket with continuous refill and server-driven backoff.
//! - `limits`: hard quotas of calls per rolling period.
//! - `limiter`: the two composed; an acquisition needs both to accept.
//! - `retry_after`: a `Retry-After` header value as a wait.
//! - `hibp`, `mosint`, `markup`, `text`: the breach-lookup client's own rules.
//!
//! Time is a `u64` count of nanoseconds on a monotonic clock of the caller's
//! choosing; the caller reads the clock, sleeps and wakes, and the library
//! decides.
pub mod bucket;
pub mod retry_after;
pub mod limits;
pub mod limiter;
pub mod markup;
pub mod text;
pub mod hibp;
pub mod mosint;
