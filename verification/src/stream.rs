//! Real-time quote streams: configuration and the stream builder.
use crate::client::{CacheMode, RetryConfig, YfClient};
use crate::isin::{trim_all, trimmed_string};
use crate::json::{member_text, parse_json, parsed_json};
use crate::text::chars_of;
use base64::Engine;
use std::time::Duration;
use vstd::prelude::*;

verus! {

/// A duration of `secs` seconds (the result of `Duration::from_secs`).
pub uninterp spec fn duration_from_secs(secs: u64) -> Duration;

/// `Duration::from_secs`.
#[verifier::external_body]
fn seconds(secs: u64) -> (d: Duration)
    ensures
        d == duration_from_secs(secs),
{
    Duration::from_secs(secs)
}

/// Configuration of a polling quote stream.
#[derive(Debug, Clone, Copy)]
pub struct StreamConfig {
    /// The polling interval.
    pub interval: Duration,
    /// Whether only changed prices are emitted.
    pub diff_only: bool,
}

impl StreamConfig {
    /// Polls every second and emits changed prices only.
    pub fn default_config() -> (c: StreamConfig)
        ensures
            c.interval == duration_from_secs(1),
            c.diff_only,
    {
        StreamConfig { interval: seconds(1), diff_only: true }
    }
}

/// The transport of a quote stream.
#[derive(Debug, Clone, Copy, PartialEq, Eq, Structural)]
pub enum StreamMethod {
    /// WebSocket, falling back to polling when the connection fails (the default).
    WebsocketWithFallback,
    /// WebSocket only.
    Websocket,
    /// HTTP polling.
    Polling,
}

impl Default for StreamMethod {
    /// WebSocket with polling fallback.
    fn default() -> (m: StreamMethod)
        ensures
            m == StreamMethod::WebsocketWithFallback,
    {
        StreamMethod::WebsocketWithFallback
    }
}

/// Why a stream cannot be started.
#[derive(Debug, Clone, Copy, PartialEq, Eq, Structural)]
pub enum StreamStartError {
    /// The symbol list is empty.
    NoSymbols,
}

/// Builds and starts a real-time quote stream.
#[derive(Debug)]
pub struct StreamBuilder {
    /// The client configuration.
    pub client: YfClient,
    /// The symbols to stream, in order.
    pub symbols: Vec<String>,
    /// The polling configuration.
    pub cfg: StreamConfig,
    /// The transport.
    pub method: StreamMethod,
    /// How the cache is used (polling only).
    pub cache_mode: CacheMode,
    /// A retry policy overriding the client's (polling only).
    pub retry_override: Option<RetryConfig>,
}

impl StreamBuilder {
    /// A builder without symbols: WebSocket with polling fallback, one-second
    /// polling, changed prices only, using the cache.
    pub fn new(client: &YfClient) -> (r: StreamBuilder)
        ensures
            r.client == *client,
            r.symbols@.len() == 0,
            r.cfg.interval == duration_from_secs(1),
            r.cfg.diff_only,
            r.method == StreamMethod::WebsocketWithFallback,
            r.cache_mode == CacheMode::Use,
            r.retry_override is None,
    {
        StreamBuilder {
            client: client.duplicate(),
            symbols: Vec::new(),
            cfg: StreamConfig::default_config(),
            method: StreamMethod::WebsocketWithFallback,
            cache_mode: CacheMode::Use,
            retry_override: None,
        }
    }

    /// Sets the cache mode.
    pub fn cache_mode(self, mode: CacheMode) -> (r: StreamBuilder)
        ensures
            r == (StreamBuilder { cache_mode: mode, ..self }),
    {
        StreamBuilder { cache_mode: mode, ..self }
    }

    /// Overrides the retry policy.
    pub fn retry_policy(self, cfg: Option<RetryConfig>) -> (r: StreamBuilder)
        ensures
            r == (StreamBuilder { retry_override: cfg, ..self }),
    {
        StreamBuilder { retry_override: cfg, ..self }
    }

    /// Replaces the symbols.
    pub fn symbols(self, syms: Vec<String>) -> (r: StreamBuilder)
        ensures
            r == (StreamBuilder { symbols: syms, ..self }),
    {
        StreamBuilder { symbols: syms, ..self }
    }

    /// Appends one symbol.
    pub fn add_symbol(self, sym: &str) -> (r: StreamBuilder)
        ensures
            r.symbols@.len() == self.symbols@.len() + 1,
            r.symbols@.drop_last() == self.symbols@,
            r.symbols@.last()@ == sym@,
            r.client == self.client,
            r.cfg == self.cfg,
            r.method == self.method,
            r.cache_mode == self.cache_mode,
            r.retry_override == self.retry_override,
    {
        let mut s = self;
        s.symbols.push(sym.to_owned());
        proof {
            assert(s.symbols@.drop_last() =~= self.symbols@);
        }
        s
    }

    /// Sets the transport.
    pub fn method(self, method: StreamMethod) -> (r: StreamBuilder)
        ensures
            r == (StreamBuilder { method, ..self }),
    {
        StreamBuilder { method, ..self }
    }

    /// Sets the polling interval.
    pub fn interval(self, dur: Duration) -> (r: StreamBuilder)
        ensures
            r == (StreamBuilder { cfg: StreamConfig { interval: dur, ..self.cfg }, ..self }),
    {
        StreamBuilder { cfg: StreamConfig { interval: dur, ..self.cfg }, ..self }
    }

    /// Sets whether only changed prices are emitted.
    pub fn diff_only(self, yes: bool) -> (r: StreamBuilder)
        ensures
            r == (StreamBuilder { cfg: StreamConfig { diff_only: yes, ..self.cfg }, ..self }),
    {
        StreamBuilder { cfg: StreamConfig { diff_only: yes, ..self.cfg }, ..self }
    }

    /// Checks that the stream can be started: at least one symbol is needed.
    pub fn check_start(&self) -> (r: Result<(), StreamStartError>)
        ensures
            r is Ok <==> self.symbols@.len() > 0,
    {
        if self.symbols.len() == 0 {
            Err(StreamStartError::NoSymbols)
        } else {
            Ok(())
        }
    }
}

/// The transport a stream session runs on.
#[derive(Debug, Clone, Copy, PartialEq, Eq, Structural)]
pub enum Transport {
    /// A WebSocket session.
    WebSocket,
    /// HTTP polling.
    Polling,
}

/// The transport a stream starts on: polling for the polling method, the
/// WebSocket otherwise.
pub fn initial_transport(method: StreamMethod) -> (t: Transport)
    ensures
        t == (if method == StreamMethod::Polling {
            Transport::Polling
        } else {
            Transport::WebSocket
        }),
{
    match method {
        StreamMethod::Polling => Transport::Polling,
        _ => Transport::WebSocket,
    }
}

/// What a stream runs after its WebSocket session ended: polling when the
/// session failed and the method falls back; nothing otherwise.
pub fn after_websocket(method: StreamMethod, failed: bool) -> (t: Option<Transport>)
    ensures
        t == (if failed && method == StreamMethod::WebsocketWithFallback {
            Some(Transport::Polling)
        } else {
            None
        }),
{
    if failed && method == StreamMethod::WebsocketWithFallback {
        Some(Transport::Polling)
    } else {
        None
    }
}

/// The bytes the standard base64 alphabet, with padding, decodes `text`
/// into (`general_purpose::STANDARD.decode`); `None` when the text is not
/// such base64.
pub uninterp spec fn base64_standard(text: Seq<char>) -> Option<Seq<u8>>;

/// `base64::engine::general_purpose::STANDARD.decode` of the text's bytes.
/// Trusted: the bytes are [`base64_standard`] of the text, and the decode
/// fails exactly where that name is `None`.
#[verifier::external_body]
fn decode_base64(text: &str) -> (r: Option<Vec<u8>>)
    ensures
        match r {
            Some(b) => base64_standard(text@) == Some(b@),
            None => base64_standard(text@) is None,
        },
{
    base64::engine::general_purpose::STANDARD.decode(text).ok()
}

/// Why a stream frame gives no payload.
#[derive(Debug, Clone, Copy, PartialEq, Eq, Structural)]
pub enum FrameError {
    /// The frame is a JSON object without a string `message` member.
    MissingMessage,
    /// The payload text is not standard base64.
    Base64,
}

/// The base64 text a stream frame carries: the frame trimmed; when that
/// starts with `{` and parses as JSON, its string member `message` (an
/// error when there is none); otherwise the trimmed frame itself.
pub open spec fn frame_payload_text(text: Seq<char>) -> Result<Seq<char>, FrameError> {
    let s = trim_all(text);
    if s.len() > 0 && s[0] == '{' {
        match parsed_json(s) {
            Some(v) => match member_text(v, "message"@) {
                Some(m) => Ok(m),
                None => Err(FrameError::MissingMessage),
            },
            None => Ok(s),
        }
    } else {
        Ok(s)
    }
}

/// The payload bytes of a stream frame: its base64 text
/// ([`frame_payload_text`]) decoded ([`base64_standard`]).
pub open spec fn frame_payload(text: Seq<char>) -> Result<Seq<u8>, FrameError> {
    match frame_payload_text(text) {
        Ok(t) => match base64_standard(t) {
            Some(b) => Ok(b),
            None => Err(FrameError::Base64),
        },
        Err(e) => Err(e),
    }
}

/// The payload bytes of a stream frame, bare base64 or wrapped as
/// `{"message": "<base64>"}` ([`frame_payload`]).
pub fn ws_frame_payload(text: &str) -> (r: Result<Vec<u8>, FrameError>)
    ensures
        match r {
            Ok(b) => frame_payload(text@) == Ok::<Seq<u8>, FrameError>(b@),
            Err(e) => frame_payload(text@) == Err::<Seq<u8>, FrameError>(e),
        },
{
    let cs = chars_of(text);
    let s = trimmed_string(&cs);
    let sc = chars_of(s.as_str());
    let starts_object = sc.len() > 0 && sc[0] == '{';
    let payload: String = if starts_object {
        match parse_json(s.as_str()) {
            Some(v) => {
                let m = match v.get("message") {
                    Some(x) => x.as_str(),
                    None => None,
                };
                match m {
                    Some(t) => t.to_owned(),
                    None => return Err(FrameError::MissingMessage),
                }
            },
            None => s,
        }
    } else {
        s
    };
    match decode_base64(payload.as_str()) {
        Some(b) => Ok(b),
        None => Err(FrameError::Base64),
    }
}

} // verus!
