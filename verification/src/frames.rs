//! Wire frames.
//!
//! Outbound identification and heartbeat frames are rendered directly; the
//! outbound request frame, which embeds caller-supplied payload text, is
//! rendered by serde_json behind a trusted wrapper. Inbound frames are
//! decoded by serde_json into a record of plain fields, and classified into
//! the tagged event the per-connection state machine consumes, so nothing
//! past this module ever inspects raw structured data.

use crate::ids::dec_str;
use vstd::prelude::*;

verus! {

/// The plain fields the protocol logic reads out of one inbound frame.
#[derive(Clone, Debug)]
pub struct RawFrame {
    /// The text decoded as structured data at all.
    pub valid: bool,
    /// The `op` code; 0 when absent or not an integer.
    pub op: i64,
    /// `d.heartbeat_interval`, when present on a hello frame.
    pub heartbeat_interval_ms: Option<u64>,
    /// Whether `d.uuid` carries a string, signalling authentication success.
    pub has_auth_uuid: bool,
    /// `d.benchmarkId`, when present: the echo of a request identifier.
    pub benchmark_id: Option<String>,
}

/// The fields serde_json decodes out of a frame text: a function of the
/// text alone.
pub uninterp spec fn frame_fields(s: Seq<char>) -> RawFrame;

/// Relies on serde_json::from_str and serde_json::Value's accessors: the
/// decoded fields depend on the frame text alone.
#[verifier::external_body]
fn decode_fields(s: &str) -> (r: RawFrame)
    ensures
        r == frame_fields(s@),
{
    match serde_json::from_str::<serde_json::Value>(s) {
        Ok(v) => RawFrame {
            valid: true,
            op: v["op"].as_i64().unwrap_or(0),
            heartbeat_interval_ms: v["d"]["heartbeat_interval"].as_u64(),
            has_auth_uuid: v["d"]["uuid"].is_string(),
            benchmark_id: v["d"]["benchmarkId"].as_str().map(|t| t.to_string()),
        },
        Err(_) => RawFrame {
            valid: false, op: 0, heartbeat_interval_ms: None,
            has_auth_uuid: false, benchmark_id: None,
        },
    }
}

/// One decoded inbound frame, dispatched by its `op` code.
#[derive(Clone, Debug)]
pub enum InboundEvent {
    /// `op` 10 with a heartbeat interval: start the heartbeat cadence.
    Hello { heartbeat_interval_ms: u64 },
    /// `op` 2 carrying a uuid: the connection is authenticated.
    AuthSuccess,
    /// Any other `op`: a candidate application response. It counts toward
    /// the response quota whether or not an identifier is present.
    Response { benchmark_id: Option<String> },
    /// A recognized control `op` missing its payload field: ignored.
    ControlNoise,
    /// Text that did not decode as structured data.
    Malformed,
}

/// Dispatch by `op` code: 10 is hello, 2 is authentication success, and
/// everything else is a candidate application response.
pub open spec fn classify_spec(f: RawFrame) -> InboundEvent {
    if !f.valid {
        InboundEvent::Malformed
    } else if f.op == 10 {
        match f.heartbeat_interval_ms {
            Some(ms) => InboundEvent::Hello { heartbeat_interval_ms: ms },
            None => InboundEvent::ControlNoise,
        }
    } else if f.op == 2 {
        if f.has_auth_uuid {
            InboundEvent::AuthSuccess
        } else {
            InboundEvent::ControlNoise
        }
    } else {
        InboundEvent::Response { benchmark_id: f.benchmark_id }
    }
}

/// Classify one decoded frame.
pub fn classify(f: RawFrame) -> (r: InboundEvent)
    ensures
        r == classify_spec(f),
{
    if !f.valid {
        InboundEvent::Malformed
    } else if f.op == 10 {
        match f.heartbeat_interval_ms {
            Some(ms) => InboundEvent::Hello { heartbeat_interval_ms: ms },
            None => InboundEvent::ControlNoise,
        }
    } else if f.op == 2 {
        if f.has_auth_uuid {
            InboundEvent::AuthSuccess
        } else {
            InboundEvent::ControlNoise
        }
    } else {
        InboundEvent::Response { benchmark_id: f.benchmark_id }
    }
}

/// Decode one inbound frame text into the event it stands for.
pub fn decode_frame(s: &str) -> (r: InboundEvent)
    ensures
        r == classify_spec(frame_fields(s@)),
{
    classify(decode_fields(s))
}

/// The heartbeat frame: `op` 1 with an empty payload.
pub open spec fn heartbeat_frame_chars() -> Seq<char> {
    "{\"op\":1,\"d\":{}}"@
}

pub fn heartbeat_frame() -> (r: String)
    ensures
        r@ == heartbeat_frame_chars(),
{
    "{\"op\":1,\"d\":{}}".to_owned()
}

/// The identification frame for one connection: `op` 2 with a user label
/// derived from the connection index.
pub open spec fn identify_frame_chars(conn_id: u64) -> Seq<char> {
    "{\"op\":2,\"d\":{\"username\":\"benchmark_user_"@ + dec_str(conn_id as nat)
        + "\",\"isVoiceChat\":false}}"@
}

pub fn identify_frame(conn_id: u64) -> (r: String)
    ensures
        r@ == identify_frame_chars(conn_id),
{
    let mut r = String::from_str("{\"op\":2,\"d\":{\"username\":\"benchmark_user_");
    let digits = crate::ids::u64_to_dec(conn_id);
    r.append(digits.as_str());
    r.append("\",\"isVoiceChat\":false}}");
    r
}

/// What serde_json renders for a request frame with the given `op` code,
/// payload fields, identifier and timestamp: a function of them alone.
pub uninterp spec fn request_frame_of(
    op: int,
    user: Seq<char>,
    text: Seq<char>,
    benchmark_id: Seq<char>,
    timestamp_ms: int,
) -> Seq<char>;

/// Relies on serde_json::Value's rendering (`to_string`): the rendered
/// request frame depends on its fields alone.
#[verifier::external_body]
pub(crate) fn encode_request(
    op: i64,
    user: &str,
    text: &str,
    benchmark_id: &str,
    timestamp_ms: i64,
) -> (r: String)
    ensures
        r@ == request_frame_of(op as int, user@, text@, benchmark_id@, timestamp_ms as int),
{
    let mut d = serde_json::Map::new();
    d.insert("user".to_string(), serde_json::Value::from(user));
    d.insert("text".to_string(), serde_json::Value::from(text));
    d.insert("benchmarkId".to_string(), serde_json::Value::from(benchmark_id));
    d.insert("timestamp".to_string(), serde_json::Value::from(timestamp_ms));
    let mut root = serde_json::Map::new();
    root.insert("op".to_string(), serde_json::Value::from(op));
    root.insert("d".to_string(), serde_json::Value::Object(d));
    serde_json::Value::Object(root).to_string()
}

/// Relies on chrono::Utc::now: the wall-clock timestamp, in epoch
/// milliseconds, carried inside each request frame. Nothing is promised of
/// the clock's reading.
#[verifier::external_body]
pub(crate) fn now_epoch_ms() -> i64 {
    chrono::Utc::now().timestamp_millis()
}

} // verus!
