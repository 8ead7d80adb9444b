//! The forwarder's decisions: its configuration, the reconnection schedule,
//! its connection states, and what it does with each message it receives.

use vstd::prelude::*;
use crate::constants::{
    HEARTBEAT_INTERVAL_SECS, RECONNECT_MAX_DELAY_MS, RECONNECT_MIN_DELAY_MS, RECONNECT_MULTIPLIER,
};
use crate::encoding::{b64_encode, encode_body};
use crate::protocol::{ErrorCode, Headers, HttpRequest, HttpResponse, Message};
use crate::text::{chars_of, decimal, decimal_string, push_char};

verus! {

/// How the forwarder waits between connection attempts.
#[derive(Debug, Clone)]
pub struct ReconnectConfig {
    pub min_delay_ms: u64,
    pub max_delay_ms: u64,
    /// Factor by which the delay grows after each failed attempt.
    pub multiplier: u64,
    /// Attempts before giving up; `None` for no limit.
    pub max_attempts: Option<usize>,
}

/// The forwarder's settings.
#[derive(Debug, Clone)]
pub struct Config {
    /// The local service, e.g. `http://127.0.0.1:3000`.
    pub local_address: String,
    /// The relay's channel endpoint.
    pub websocket_url: String,
    /// The bearer token, if any.
    pub token: Option<String>,
    pub connect_timeout_secs: u64,
    /// Timeout of each call to the local service.
    pub request_timeout_secs: u64,
    pub heartbeat_interval_secs: u64,
    pub reconnect_config: ReconnectConfig,
}

/// `http://{host}:{port}`
pub open spec fn local_address_of(host: Seq<char>, port: u16) -> Seq<char> {
    "http://"@ + host + ":"@ + decimal(port as nat)
}

fn push_text(out: &mut String, s: &str)
    ensures
        final(out)@ == old(out)@ + s@,
{
    let cs = chars_of(s);
    let ghost start = out@;
    let mut i: usize = 0;
    while i < cs.len()
        invariant
            i <= cs@.len(),
            cs@ == s@,
            out@ == start + cs@.take(i as int),
        decreases cs@.len() - i,
    {
        push_char(out, cs[i]);
        i = i + 1;
        assert(out@ =~= start + cs@.take(i as int));
    }
    assert(cs@.take(i as int) =~= cs@);
}

impl ReconnectConfig {
    /// One second at first, doubling up to a minute, with no attempt limit.
    pub open spec fn is_default(&self) -> bool {
        &&& self.min_delay_ms == RECONNECT_MIN_DELAY_MS
        &&& self.max_delay_ms == RECONNECT_MAX_DELAY_MS
        &&& self.multiplier == RECONNECT_MULTIPLIER
        &&& self.max_attempts is None
    }

    pub fn standard() -> (r: Self)
        ensures
            r.is_default(),
    {
        ReconnectConfig {
            min_delay_ms: RECONNECT_MIN_DELAY_MS,
            max_delay_ms: RECONNECT_MAX_DELAY_MS,
            multiplier: RECONNECT_MULTIPLIER,
            max_attempts: None,
        }
    }
}

impl Config {
    /// The configuration for a local service at `host:port` and the given relay endpoint.
    pub fn from_args(
        port: u16,
        host: &str,
        endpoint: String,
        token: Option<String>,
        connect_timeout_secs: u64,
        request_timeout_secs: u64,
    ) -> (r: Self)
        ensures
            r.local_address@ == local_address_of(host@, port),
            r.websocket_url == endpoint,
            r.token == token,
            r.connect_timeout_secs == connect_timeout_secs,
            r.request_timeout_secs == request_timeout_secs,
            r.heartbeat_interval_secs == HEARTBEAT_INTERVAL_SECS,
            r.reconnect_config.is_default(),
    {
        let mut local = String::new();
        push_text(&mut local, "http://");
        push_text(&mut local, host);
        push_text(&mut local, ":");
        let p = decimal_string(port as u64);
        push_text(&mut local, p.as_str());
        Config {
            local_address: local,
            websocket_url: endpoint,
            token,
            connect_timeout_secs,
            request_timeout_secs,
            heartbeat_interval_secs: HEARTBEAT_INTERVAL_SECS,
            reconnect_config: ReconnectConfig::standard(),
        }
    }
}

/// The delay that follows `current_ms`: multiplied, at most the maximum.
pub open spec fn next_delay(c: ReconnectConfig, current_ms: nat) -> nat {
    if current_ms * c.multiplier > c.max_delay_ms {
        c.max_delay_ms as nat
    } else {
        (current_ms * c.multiplier) as nat
    }
}

/// The delay before the attempt that follows `n` failures in a row.
pub open spec fn delay_after(c: ReconnectConfig, n: nat) -> nat
    decreases n,
{
    if n == 0 {
        c.min_delay_ms as nat
    } else {
        next_delay(c, delay_after(c, (n - 1) as nat))
    }
}

/// The delay that follows `current_ms` under `config`.
pub fn next_reconnect_delay(config: &ReconnectConfig, current_ms: u64) -> (r: u64)
    ensures
        r == next_delay(*config, current_ms as nat),
{
    let a = current_ms as u128;
    let b = config.multiplier as u128;
    assert(a * b <= 0xffff_ffff_ffff_ffffu128 * 0xffff_ffff_ffff_ffffu128) by (nonlinear_arith)
        requires
            a <= 0xffff_ffff_ffff_ffffu128,
            b <= 0xffff_ffff_ffff_ffffu128,
    ;
    let prod = a * b;
    if prod > config.max_delay_ms as u128 {
        config.max_delay_ms
    } else {
        prod as u64
    }
}

/// With the default configuration, the delays run 1, 2, 4, 8, 16 and 32
/// seconds, and 60 seconds from then on.
pub proof fn lemma_reconnect_schedule(c: ReconnectConfig, n: nat)
    requires
        c.is_default(),
    ensures
        delay_after(c, n) == if n < 6 {
            seq![1000nat, 2000, 4000, 8000, 16000, 32000][n as int]
        } else {
            60000nat
        },
    decreases n,
{
    if n > 0 {
        lemma_reconnect_schedule(c, (n - 1) as nat);
    }
}

/// Where the forwarder's connection stands.
#[derive(Debug, Clone)]
pub enum ConnectionState {
    Disconnected,
    Connecting,
    Connected { connection_id: String, public_url: String },
    Reconnecting { attempt: usize, next_delay_ms: u64 },
}

/// The forwarder's reconnection bookkeeping.
#[derive(Debug, Clone, Copy, PartialEq, Eq, Structural)]
pub struct Backoff {
    /// Connection attempts since the last established connection.
    pub attempt: usize,
    /// The delay before the next attempt.
    pub delay_ms: u64,
}

/// What the forwarder does once a connection attempt, or a connection, has ended.
#[derive(Debug, Clone, Copy, PartialEq, Eq, Structural)]
pub struct ReconnectStep {
    /// How long to sleep before the next attempt.
    pub sleep_ms: u64,
    /// The bookkeeping after the sleep.
    pub next: Backoff,
}

/// After an attempt ends: an established connection resets the delay to the
/// minimum first; either way the attempt is counted (the count stops at the
/// largest `usize`), the forwarder sleeps the current delay, and the delay grows
/// for the attempt after.
pub fn after_attempt(config: &ReconnectConfig, state: Backoff, established: bool) -> (r: ReconnectStep)
    ensures
        established ==> r.sleep_ms == config.min_delay_ms && r.next.attempt == 1,
        !established ==> r.sleep_ms == state.delay_ms && r.next.attempt == if state.attempt
            < usize::MAX {
            state.attempt + 1
        } else {
            usize::MAX as int
        },
        r.next.delay_ms == next_delay(*config, r.sleep_ms as nat),
{
    let (attempt, delay) = if established {
        (0usize, config.min_delay_ms)
    } else {
        (state.attempt, state.delay_ms)
    };
    ReconnectStep {
        sleep_ms: delay,
        next: Backoff {
            attempt: if attempt < usize::MAX {
                attempt + 1
            } else {
                usize::MAX
            },
            delay_ms: next_reconnect_delay(config, delay),
        },
    }
}

/// The state shown while waiting to reconnect.
pub fn reconnecting_state(step: &ReconnectStep) -> (r: ConnectionState)
    ensures
        r matches ConnectionState::Reconnecting { attempt, next_delay_ms } && attempt
            == step.next.attempt && next_delay_ms == step.sleep_ms,
{
    ConnectionState::Reconnecting { attempt: step.next.attempt, next_delay_ms: step.sleep_ms }
}

/// What the handshake learns from a message: the channel id and public URL of
/// a `connection_established`, nothing from any other message.
pub fn handshake_outcome(msg: Message) -> (r: Option<ConnectionState>)
    ensures
        match msg {
            Message::ConnectionEstablished { connection_id, public_url, .. } => r matches Some(
                ConnectionState::Connected { connection_id: c, public_url: u },
            ) && c == connection_id && u == public_url,
            _ => r is None,
        },
{
    match msg {
        Message::ConnectionEstablished { connection_id, public_url, .. } => Some(
            ConnectionState::Connected { connection_id, public_url },
        ),
        _ => None,
    }
}

/// The methods the forwarder passes on to the local service.
#[derive(Debug, Clone, Copy, PartialEq, Eq, Structural)]
pub enum LocalMethod {
    Get,
    Post,
    Put,
    Delete,
    Patch,
    Head,
    Options,
}

pub open spec fn method_of(m: Seq<char>) -> Option<LocalMethod> {
    if m == "GET"@ {
        Some(LocalMethod::Get)
    } else if m == "POST"@ {
        Some(LocalMethod::Post)
    } else if m == "PUT"@ {
        Some(LocalMethod::Put)
    } else if m == "DELETE"@ {
        Some(LocalMethod::Delete)
    } else if m == "PATCH"@ {
        Some(LocalMethod::Patch)
    } else if m == "HEAD"@ {
        Some(LocalMethod::Head)
    } else if m == "OPTIONS"@ {
        Some(LocalMethod::Options)
    } else {
        None
    }
}

fn same_text(a: &str, b: &str) -> (r: bool)
    ensures
        r == (a@ == b@),
{
    let x = chars_of(a);
    let y = chars_of(b);
    if x.len() != y.len() {
        return false;
    }
    let mut i: usize = 0;
    while i < x.len()
        invariant
            i <= x@.len() == y@.len(),
            x@ == a@,
            y@ == b@,
            forall|j: int| 0 <= j < i ==> x@[j] == y@[j],
        decreases x@.len() - i,
    {
        if x[i] != y[i] {
            assert(x@[i as int] != y@[i as int]);
            return false;
        }
        i = i + 1;
    }
    assert(x@ =~= y@);
    true
}

/// The method named by `method`, if the forwarder supports it.
pub fn parse_method(method: &str) -> (r: Option<LocalMethod>)
    ensures
        r == method_of(method@),
{
    if same_text(method, "GET") {
        Some(LocalMethod::Get)
    } else if same_text(method, "POST") {
        Some(LocalMethod::Post)
    } else if same_text(method, "PUT") {
        Some(LocalMethod::Put)
    } else if same_text(method, "DELETE") {
        Some(LocalMethod::Delete)
    } else if same_text(method, "PATCH") {
        Some(LocalMethod::Patch)
    } else if same_text(method, "HEAD") {
        Some(LocalMethod::Head)
    } else if same_text(method, "OPTIONS") {
        Some(LocalMethod::Options)
    } else {
        None
    }
}

/// The local service's URL for a forwarded request.
pub fn local_url(local_address: &str, uri: &str) -> (r: String)
    ensures
        r@ == local_address@ + uri@,
{
    let mut out = String::new();
    push_text(&mut out, local_address);
    push_text(&mut out, uri);
    out
}

/// What the forwarder does with a message from the relay.
#[derive(Debug, Clone)]
pub enum InboundAction {
    /// Call the local service with this request.
    Forward(HttpRequest),
    /// Only worth a log line.
    Log,
}

pub fn inbound_action(msg: Message) -> (r: InboundAction)
    ensures
        match msg {
            Message::HttpRequest(req) => r matches InboundAction::Forward(x) && x == req,
            _ => r matches InboundAction::Log,
        },
{
    match msg {
        Message::HttpRequest(req) => InboundAction::Forward(req),
        _ => InboundAction::Log,
    }
}

/// The answer for a request whose method the forwarder does not support.
pub fn unsupported_method_reply(request: &HttpRequest) -> (r: Message)
    ensures
        r matches Message::Error { request_id: Some(id), code, message } && id == request.request_id
            && code == ErrorCode::InvalidRequest && message@ == "Unsupported HTTP method: "@
            + request.method@,
{
    let mut m = String::new();
    push_text(&mut m, "Unsupported HTTP method: ");
    push_text(&mut m, request.method.as_str());
    Message::Error {
        request_id: Some(request.request_id.clone()),
        code: ErrorCode::InvalidRequest,
        message: m,
    }
}

/// The answer for a request the local service could not be reached for.
pub fn local_failure_reply(request_id: String, message: String) -> (r: Message)
    ensures
        r matches Message::Error { request_id: Some(id), code, message: m } && id == request_id
            && code == ErrorCode::LocalServiceUnavailable && m == message,
{
    Message::Error { request_id: Some(request_id), code: ErrorCode::LocalServiceUnavailable, message }
}

/// The answer carrying the local service's response.
pub fn local_response_reply(
    request_id: String,
    status_code: u16,
    headers: Headers,
    body: &[u8],
    processing_time_ms: u64,
) -> (r: Message)
    requires
        (body@.len() / 3) * 4 + 4 <= usize::MAX,
    ensures
        r matches Message::HttpResponse(resp) && resp.request_id == request_id && resp.status_code
            == status_code && resp.headers == headers && resp.body@ == b64_encode(body@)
            && resp.processing_time_ms == processing_time_ms,
{
    Message::HttpResponse(
        HttpResponse {
            request_id,
            status_code,
            headers,
            body: encode_body(body),
            processing_time_ms,
        },
    )
}

} // verus!
