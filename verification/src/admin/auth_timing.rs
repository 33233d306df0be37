//! Timing of the client's access token.
//!
//! An access token lives two hours; it is refreshed five minutes before it
//! expires. Without a token the client checks again every thirty seconds.
//! After five refresh failures in a row, proactive refreshing pauses and
//! waits for the server to reject the token. Durations are in milliseconds.

use vstd::prelude::*;

verus! {

/// Lifetime of an access token.
pub const ACCESS_TOKEN_TTL_MS: u64 = 7_200_000;
/// How long before expiry a token is refreshed.
pub const REFRESH_MARGIN_MS: u64 = 300_000;
/// Wait after a failed refresh.
pub const RETRY_INTERVAL_MS: u64 = 30_000;
/// Wait between checks while there is no token.
pub const NO_TOKEN_CHECK_INTERVAL_MS: u64 = 30_000;
/// Failures in a row after which proactive refreshing pauses.
pub const MAX_CONSECUTIVE_FAILURES: u32 = 5;
/// Pause of proactive refreshing after too many failures.
pub const FAILURE_PAUSE_MS: u64 = 300_000;
/// Wait while another task refreshes.
pub const BUSY_WAIT_MS: u64 = 5_000;

/// When a token of lifetime `expires_in` must be refreshed.
pub open spec fn refresh_at(expires_in: u64) -> int {
    if expires_in >= REFRESH_MARGIN_MS { expires_in - REFRESH_MARGIN_MS } else { 0 }
}

/// Whether a token of age `elapsed` is due for refresh; without a token
/// (`None`) it always is.
pub fn should_refresh_soon(elapsed: Option<u64>, expires_in: u64) -> (b: bool)
    ensures
        b == (match elapsed { Some(e) => e >= refresh_at(expires_in), None => true }),
{
    match elapsed {
        None => true,
        Some(e) => e >= expires_in.saturating_sub(REFRESH_MARGIN_MS),
    }
}

/// Whether a token of age `elapsed` has expired; without a token it has.
pub fn is_expired(elapsed: Option<u64>, expires_in: u64) -> (b: bool)
    ensures
        b == (match elapsed { Some(e) => e >= expires_in, None => true }),
{
    match elapsed {
        None => true,
        Some(e) => e >= expires_in,
    }
}

/// How long to wait before the next refresh: the check interval without a
/// token, nothing once refresh is due, else the time left until it is.
pub fn time_until_refresh(elapsed: Option<u64>, has_token: bool, expires_in: u64) -> (d: u64)
    ensures
        d == (match elapsed {
            Some(e) => if !has_token {
                NO_TOKEN_CHECK_INTERVAL_MS as int
            } else if e >= refresh_at(expires_in) {
                0
            } else {
                refresh_at(expires_in) - e
            },
            None => NO_TOKEN_CHECK_INTERVAL_MS as int,
        }),
{
    match elapsed {
        None => NO_TOKEN_CHECK_INTERVAL_MS,
        Some(e) => {
            if !has_token {
                return NO_TOKEN_CHECK_INTERVAL_MS;
            }
            let at = expires_in.saturating_sub(REFRESH_MARGIN_MS);
            if e >= at { 0 } else { at - e }
        },
    }
}

/// Whether proactive refreshing pauses.
pub fn too_many_failures(failures: u32) -> (b: bool)
    ensures
        b == (failures >= MAX_CONSECUTIVE_FAILURES),
{
    failures >= MAX_CONSECUTIVE_FAILURES
}

/// What the proactive refresher does once its wait is over.
#[derive(Debug, Clone, Copy, PartialEq, Eq, Structural)]
pub enum RefreshStep {
    /// Wait this long, then decide again.
    Wait(u64),
    /// Refresh the token now (the refresh lock is held).
    Refresh,
}

/// The refresher's decision after its wait: pause after too many failures,
/// wait while another task holds the refresh lock, else refresh.
pub fn refresh_step(failures: u32, lock_acquired: bool) -> (r: RefreshStep)
    ensures
        failures >= MAX_CONSECUTIVE_FAILURES ==> r == RefreshStep::Wait(FAILURE_PAUSE_MS),
        failures < MAX_CONSECUTIVE_FAILURES && !lock_acquired ==> r == RefreshStep::Wait(BUSY_WAIT_MS),
        failures < MAX_CONSECUTIVE_FAILURES && lock_acquired ==> r == RefreshStep::Refresh,
{
    if too_many_failures(failures) {
        RefreshStep::Wait(FAILURE_PAUSE_MS)
    } else if !lock_acquired {
        RefreshStep::Wait(BUSY_WAIT_MS)
    } else {
        RefreshStep::Refresh
    }
}

/// The failure count after a refresh: reset on success, one more on failure
/// (saturating), and the wait that follows a failure.
pub fn after_refresh(failures: u32, success: bool) -> (r: (u32, u64))
    ensures
        success ==> r == (0u32, 0u64),
        !success ==> r.0 == (if failures == u32::MAX { failures as int } else { failures + 1 }) && r.1 == RETRY_INTERVAL_MS,
{
    if success {
        (0, 0)
    } else {
        (failures.saturating_add(1), RETRY_INTERVAL_MS)
    }
}

/// A token is due for refresh no later than it expires.
pub proof fn law_refresh_before_expiry(elapsed: u64, expires_in: u64)
    requires
        elapsed >= expires_in,
    ensures
        elapsed >= refresh_at(expires_in),
{
}

} // verus!
