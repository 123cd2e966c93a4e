//! The REST routes: health and echo.

use crate::services::Services;
use vstd::prelude::*;

verus! {

/// Nanoseconds in a second.
pub const NANOS: u128 = 1_000_000_000;

#[derive(Debug)]
pub struct HealthResponse {
    pub status: &'static str,
    pub uptime_secs: u64,
}

#[derive(Debug)]
pub struct EchoRequest {
    pub message: String,
}

#[derive(Debug)]
pub struct EchoResponse {
    pub message: String,
}

/// The whole seconds since the start, both times in nanoseconds on a clock that
/// does not go back.
pub open spec fn uptime(started_at: u128, now: u128) -> int {
    if now >= started_at {
        (now - started_at) / NANOS as int
    } else {
        0
    }
}

/// Says that the server is up, and for how long.
pub fn health(started_at: u128, now: u128) -> (r: HealthResponse)
    requires
        uptime(started_at, now) <= u64::MAX,
    ensures
        r.status@ == "ok"@,
        r.uptime_secs == uptime(started_at, now),
{
    let elapsed: u128 = if now >= started_at {
        now - started_at
    } else {
        0
    };
    HealthResponse { status: "ok", uptime_secs: (elapsed / NANOS) as u64 }
}

/// Answers an echo request with its own message.
pub fn echo(services: &Services, request: EchoRequest) -> (r: EchoResponse)
    ensures
        r.message == request.message,
{
    EchoResponse { message: services.echo.echo(request.message) }
}

} // verus!
