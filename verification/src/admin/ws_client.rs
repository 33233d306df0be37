//! The WebSocket client: the address it connects to, its reconnection
//! schedule, the watch over its authentication, what each server event
//! leads to, and log timestamps `<seconds>.<milliseconds>`.

use vstd::prelude::*;
use crate::text::{decimal, lowercase, padded_decimal, push_decimal, push_padded, push_str, str_eq, to_lowercase};

verus! {

/// Seconds since the Unix epoch and milliseconds within the second, from
/// `std::time::SystemTime` (zero for a clock set before the epoch).
/// Claimed: the milliseconds are below 1000, as `Duration::subsec_millis`
/// documents; nothing is claimed of the seconds.
#[verifier::external_body]
fn clock_now() -> (r: (u64, u32))
    ensures
        r.1 < 1000,
{
    let d = std::time::SystemTime::now().duration_since(std::time::UNIX_EPOCH).unwrap_or_default();
    (d.as_secs(), d.subsec_millis())
}

/// A timestamp: the seconds, a dot, and the milliseconds on three digits.
pub open spec fn time_text(secs: nat, millis: nat) -> Seq<char> {
    decimal(secs) + "."@ + padded_decimal(millis, 3)
}

/// Formats a timestamp (see [`time_text`]).
pub fn format_time(secs: u64, millis: u32) -> (r: String)
    ensures
        r@ == time_text(secs as nat, millis as nat),
{
    let mut s = String::new();
    push_decimal(&mut s, secs);
    push_str(&mut s, ".");
    push_padded(&mut s, millis as u64, 3);
    s
}

/// The timestamp of now.
pub fn fmt_time() -> (r: String)
    ensures
        exists|secs: nat, millis: nat| millis < 1000 && r@ == #[trigger] time_text(secs, millis),
{
    let (secs, millis) = clock_now();
    format_time(secs, millis)
}

/// What the client does with a server event.
#[derive(Debug, PartialEq, Eq)]
pub enum WsAction {
    /// Store the layouts of the payload and tell the front end.
    SyncLayouts,
    /// Log the authentication answer.
    LogAuth,
    /// Log the server's error.
    LogError,
    /// Forward the payload to the front end under this event name.
    Forward(String),
    /// Log the unknown event.
    Unknown,
}

/// The model of an action: a forwarded event's name as a sequence.
pub enum WsActionModel {
    SyncLayouts,
    LogAuth,
    LogError,
    Forward(Seq<char>),
    Unknown,
}

/// The model of an action.
pub open spec fn action_model(a: WsAction) -> WsActionModel {
    match a {
        WsAction::SyncLayouts => WsActionModel::SyncLayouts,
        WsAction::LogAuth => WsActionModel::LogAuth,
        WsAction::LogError => WsActionModel::LogError,
        WsAction::Forward(n) => WsActionModel::Forward(n@),
        WsAction::Unknown => WsActionModel::Unknown,
    }
}

/// The action of an event name: layouts are stored, authentication and
/// errors logged, card events forwarded as `ws_` and the lower-cased name,
/// anything else logged as unknown.
pub open spec fn ws_action_of(event: Seq<char>) -> WsActionModel {
    if event == "LAYOUT_UPDATED"@ {
        WsActionModel::SyncLayouts
    } else if event == "AUTH_OK"@ {
        WsActionModel::LogAuth
    } else if event == "ERROR"@ {
        WsActionModel::LogError
    } else if event == "CARD_CREATED"@ || event == "CARD_UPDATED"@ || event == "CARD_DELETED"@ || event == "CARDS_MERGED"@ {
        WsActionModel::Forward("ws_"@ + lowercase(event))
    } else {
        WsActionModel::Unknown
    }
}

/// Decides what to do with a server event.
pub fn ws_action(event: &str) -> (r: WsAction)
    ensures
        action_model(r) == ws_action_of(event@),
{
    if str_eq(event, "LAYOUT_UPDATED") {
        WsAction::SyncLayouts
    } else if str_eq(event, "AUTH_OK") {
        WsAction::LogAuth
    } else if str_eq(event, "ERROR") {
        WsAction::LogError
    } else if str_eq(event, "CARD_CREATED") || str_eq(event, "CARD_UPDATED") || str_eq(event, "CARD_DELETED")
        || str_eq(event, "CARDS_MERGED") {
        let mut name = "ws_".to_string();
        push_str(&mut name, to_lowercase(event).as_str());
        WsAction::Forward(name)
    } else {
        WsAction::Unknown
    }
}

/// Seconds the server has to confirm authentication.
pub const AUTH_TIMEOUT_SECS: u64 = 3;

/// Failed connections after which the client stops trying.
pub const MAX_RETRIES: u32 = 30;

/// The address to connect to: the configured one, or the local default
/// when none is configured.
pub fn ws_url_or_default(ws_url: &str) -> (r: String)
    ensures
        ws_url@.len() == 0 ==> r@ == "ws://localhost:8080/api/v1/ws"@,
        ws_url@.len() > 0 ==> r@ == ws_url@,
{
    if str_eq(ws_url, "") {
        proof {
            reveal_strlit("");
        }
        "ws://localhost:8080/api/v1/ws".to_string()
    } else {
        proof {
            reveal_strlit("");
            if ws_url@.len() == 0 {
                assert(ws_url@ =~= ""@);
            }
        }
        ws_url.to_string()
    }
}

/// The reconnection schedule: the wait before the next attempt, in
/// seconds, and the failed attempts so far.
#[derive(Debug, Clone, Copy, PartialEq, Eq, Structural)]
pub struct Reconnect {
    pub delay_secs: u64,
    pub attempts: u32,
}

impl Reconnect {
    /// A fresh schedule: three seconds, no failure yet.
    pub fn new() -> (r: Reconnect)
        ensures
            r == (Reconnect { delay_secs: 3, attempts: 0 }),
    {
        Reconnect { delay_secs: 3, attempts: 0 }
    }

    /// A connection succeeded: the schedule starts afresh.
    pub fn connected(&mut self)
        ensures
            *final(self) == (Reconnect { delay_secs: 3, attempts: 0 }),
    {
        self.delay_secs = 3;
        self.attempts = 0;
    }

    /// A connection ended or failed: one more attempt is counted; at
    /// [`MAX_RETRIES`] the client stops (`None`), otherwise it waits the
    /// current delay (returned), which then doubles up to thirty seconds.
    pub fn after_disconnect(&mut self) -> (r: Option<u64>)
        ensures
            final(self).attempts as int == if old(self).attempts == u32::MAX { u32::MAX as int } else { old(self).attempts + 1 },
            final(self).attempts >= MAX_RETRIES ==> r is None && final(self).delay_secs == old(self).delay_secs,
            final(self).attempts < MAX_RETRIES ==> r == Some(old(self).delay_secs)
                && final(self).delay_secs == (if 2 * old(self).delay_secs < 30 { 2 * old(self).delay_secs } else { 30 }),
    {
        self.attempts = self.attempts.saturating_add(1);
        if self.attempts >= MAX_RETRIES {
            return None;
        }
        let wait = self.delay_secs;
        self.delay_secs = if self.delay_secs < 15 { self.delay_secs * 2 } else { 30 };
        Some(wait)
    }
}

/// The watch over a connection's authentication: whether the server
/// confirmed it, and whether its deadline still matters.
#[derive(Debug, Clone, Copy, PartialEq, Eq, Structural)]
pub struct AuthWatch {
    pub ok: bool,
    pub deadline_checked: bool,
}

impl AuthWatch {
    /// The watch of a new connection: with a token sent, confirmation is
    /// awaited before the deadline; without one, nothing is awaited.
    pub fn new(auth_sent: bool) -> (r: AuthWatch)
        ensures
            r == (AuthWatch { ok: !auth_sent, deadline_checked: !auth_sent }),
    {
        AuthWatch { ok: !auth_sent, deadline_checked: !auth_sent }
    }

    /// Whether the deadline is still to be watched.
    pub fn deadline_armed(&self) -> (r: bool)
        ensures
            r == !self.deadline_checked,
    {
        !self.deadline_checked
    }

    /// A text message arrived, with the event name read from it (`None`
    /// when it is no event). Before confirmation, `AUTH_OK` confirms and
    /// `ERROR` rejects: the answer is then `false`, and the connection is
    /// dropped to refresh the token. Otherwise the message is handled.
    pub fn on_event(&mut self, event: Option<&str>) -> (keep: bool)
        ensures
            !old(self).ok && (event matches Some(e) && e@ == "ERROR"@) ==> !keep && *final(self) == *old(self),
            !old(self).ok && (event matches Some(e) && e@ == "AUTH_OK"@) ==> keep
                && *final(self) == (AuthWatch { ok: true, deadline_checked: true }),
            (old(self).ok || !(event matches Some(e) && (e@ == "ERROR"@ || e@ == "AUTH_OK"@)))
                ==> keep && *final(self) == *old(self),
    {
        proof {
            reveal_strlit("ERROR");
            reveal_strlit("AUTH_OK");
            assert("AUTH_OK"@.len() != "ERROR"@.len());
        }
        if !self.ok {
            match event {
                Some(e) => {
                    if str_eq(e, "AUTH_OK") {
                        self.ok = true;
                        self.deadline_checked = true;
                    } else if str_eq(e, "ERROR") {
                        return false;
                    }
                },
                None => {},
            }
        }
        true
    }

    /// The deadline passed: without confirmation the connection is dropped
    /// (`false`); with it, the deadline no longer matters.
    pub fn on_deadline(&mut self) -> (keep: bool)
        ensures
            keep == old(self).ok,
            keep ==> final(self).ok && final(self).deadline_checked,
            !keep ==> *final(self) == *old(self),
    {
        if !self.ok {
            return false;
        }
        self.deadline_checked = true;
        true
    }
}

/// Whether the front end is told that the session expired after a
/// disconnection: a token refresh was attempted and failed while a refresh
/// token was held.
pub fn auth_expired_after(refresh_attempted: bool, refreshed: bool, has_refresh_token: bool) -> (r: bool)
    ensures
        r == (refresh_attempted && !refreshed && has_refresh_token),
{
    refresh_attempted && !refreshed && has_refresh_token
}

} // verus!
