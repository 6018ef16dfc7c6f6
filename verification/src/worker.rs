//! Per-connection lifecycle.
//!
//! Each logical connection is driven by one `ConnectionWorker`: a state
//! machine from connect through handshake, authentication and request
//! streaming to teardown. The surrounding runtime performs the transport
//! work (connect, read, write, sleep) and feeds the outcome back as a
//! `WorkerEvent`; every decision — which state comes next and which action
//! the runtime must take — is made here.

use crate::engine::BenchEngine;
use crate::frames::{InboundEvent, encode_request, now_epoch_ms, request_frame_of};
use crate::ids::{id_chars, make_benchmark_id};
use crate::metrics::ErrorKind;
use vstd::prelude::*;

verus! {

/// Where a connection stands in its lifecycle.
#[derive(Clone, Copy, PartialEq, Eq, Structural, Debug)]
pub enum ConnectionPhase {
    /// Opening the transport.
    Connecting,
    /// The identification frame is being written.
    HandshakeSent,
    /// Waiting for the server's control frames.
    AwaitingAuth,
    /// Authenticated; the emission duty is being started.
    Authenticated,
    /// Emitting timed requests and consuming responses.
    Streaming,
    /// Emission stopped; in-flight sub-tasks are finishing.
    Draining,
    /// Terminal.
    Closed,
}

/// What the runtime observed on behalf of a connection.
pub enum WorkerEvent {
    /// The transport opened.
    ConnectSucceeded,
    /// The transport could not be established.
    ConnectFailed,
    /// The identification frame was written.
    IdentifySent,
    /// Writing the identification frame failed.
    IdentifySendFailed,
    /// The emission duty is running.
    EmissionStarted,
    /// One inbound frame, decoded.
    Inbound(InboundEvent),
    /// A mid-stream write failed.
    SendFailed,
    /// The inbound stream ended.
    StreamEnded,
    /// The inbound stream raised an error.
    ReadFailed,
    /// Reader and writer sub-tasks have finished.
    TasksFinished,
}

/// What the runtime must do next on behalf of a connection.
#[derive(Debug)]
pub enum WorkerAction {
    /// Write the identification frame.
    SendIdentify,
    /// Start the heartbeat cadence at the server-provided interval.
    StartHeartbeat { interval_ms: u64 },
    /// Start the request-emission duty.
    BeginStreaming,
    /// Hand this response identifier to the engine for correlation.
    ResolveResponse { benchmark_id: String },
    /// Tally this error with the engine.
    TallyError { kind: ErrorKind },
}

/// One connection's state.
#[derive(Clone, Copy, PartialEq, Eq, Structural, Debug)]
pub struct ConnectionWorker {
    /// This connection's index, `0..connections`.
    pub conn_id: u64,
    pub phase: ConnectionPhase,
    /// Responses observed so far, saturating at the quota.
    pub responses_seen: u64,
    /// `requests_per_connection`: responses to observe before draining.
    pub quota: u64,
    /// A hello frame already started the heartbeat cadence.
    pub heartbeat_started: bool,
}

/// Whether a phase consumes inbound frames.
pub open spec fn receiving(phase: ConnectionPhase) -> bool {
    phase is HandshakeSent || phase is AwaitingAuth || phase is Authenticated
        || phase is Streaming || phase is Draining
}

/// The full transition relation: from a state and an observed event to the
/// next state and the action the runtime must take.
pub open spec fn step_spec(w: ConnectionWorker, ev: WorkerEvent) -> (ConnectionWorker, Option<
    WorkerAction,
>) {
    match ev {
        WorkerEvent::ConnectSucceeded => if w.phase is Connecting {
            (
                ConnectionWorker { phase: ConnectionPhase::HandshakeSent, ..w },
                Some(WorkerAction::SendIdentify),
            )
        } else {
            (w, None)
        },
        WorkerEvent::ConnectFailed => if w.phase is Connecting {
            (
                ConnectionWorker { phase: ConnectionPhase::Closed, ..w },
                Some(WorkerAction::TallyError { kind: ErrorKind::ConnectionError }),
            )
        } else {
            (w, None)
        },
        WorkerEvent::IdentifySent => if w.phase is HandshakeSent {
            (ConnectionWorker { phase: ConnectionPhase::AwaitingAuth, ..w }, None)
        } else {
            (w, None)
        },
        WorkerEvent::IdentifySendFailed => if w.phase is HandshakeSent {
            (
                ConnectionWorker { phase: ConnectionPhase::Closed, ..w },
                Some(WorkerAction::TallyError { kind: ErrorKind::SendError }),
            )
        } else {
            (w, None)
        },
        WorkerEvent::EmissionStarted => if w.phase is Authenticated {
            (ConnectionWorker { phase: ConnectionPhase::Streaming, ..w }, None)
        } else {
            (w, None)
        },
        WorkerEvent::Inbound(inbound) => if receiving(w.phase) {
            inbound_spec(w, inbound)
        } else {
            (w, None)
        },
        WorkerEvent::SendFailed => if w.phase is Streaming || w.phase is Authenticated {
            (
                ConnectionWorker { phase: ConnectionPhase::Draining, ..w },
                Some(WorkerAction::TallyError { kind: ErrorKind::SendError }),
            )
        } else {
            (w, None)
        },
        WorkerEvent::StreamEnded => if receiving(w.phase) {
            (ConnectionWorker { phase: ConnectionPhase::Draining, ..w }, None)
        } else {
            (w, None)
        },
        WorkerEvent::ReadFailed => if receiving(w.phase) {
            (
                ConnectionWorker { phase: ConnectionPhase::Draining, ..w },
                Some(WorkerAction::TallyError { kind: ErrorKind::ReadError }),
            )
        } else {
            (w, None)
        },
        WorkerEvent::TasksFinished => if w.phase is Closed {
            (w, None)
        } else {
            (ConnectionWorker { phase: ConnectionPhase::Closed, ..w }, None)
        },
    }
}

/// Dispatch of one decoded inbound frame, in a receiving phase.
///
/// A hello starts the heartbeat cadence once; an authentication success is
/// honoured only while awaiting it; a malformed frame is tallied and
/// otherwise ignored; any other frame counts toward the response quota and,
/// when it carries an identifier, is handed over for correlation. Observing
/// the quota-filling response drains the connection.
pub open spec fn inbound_spec(w: ConnectionWorker, inbound: InboundEvent) -> (ConnectionWorker,
    Option<WorkerAction>) {
    match inbound {
        InboundEvent::Hello { heartbeat_interval_ms } => if !w.heartbeat_started {
            (
                ConnectionWorker { heartbeat_started: true, ..w },
                Some(WorkerAction::StartHeartbeat { interval_ms: heartbeat_interval_ms }),
            )
        } else {
            (w, None)
        },
        InboundEvent::AuthSuccess => if w.phase is AwaitingAuth {
            (
                ConnectionWorker { phase: ConnectionPhase::Authenticated, ..w },
                Some(WorkerAction::BeginStreaming),
            )
        } else {
            (w, None)
        },
        InboundEvent::Response { benchmark_id } => {
            let seen = if w.responses_seen < w.quota {
                (w.responses_seen + 1) as u64
            } else {
                w.responses_seen
            };
            let phase = if seen >= w.quota {
                ConnectionPhase::Draining
            } else {
                w.phase
            };
            let next = ConnectionWorker { phase, responses_seen: seen, ..w };
            match benchmark_id {
                Some(id) => (next, Some(WorkerAction::ResolveResponse { benchmark_id: id })),
                None => (next, None),
            }
        },
        InboundEvent::ControlNoise => (w, None),
        InboundEvent::Malformed => (
            w,
            Some(WorkerAction::TallyError { kind: ErrorKind::MessageParseError }),
        ),
    }
}

impl ConnectionWorker {
    /// A fresh worker for connection `conn_id`, about to connect.
    pub fn new(conn_id: u64, quota: u64) -> (r: Self)
        ensures
            r.conn_id == conn_id,
            r.quota == quota,
            r.phase is Connecting,
            r.responses_seen == 0,
            !r.heartbeat_started,
    {
        ConnectionWorker {
            conn_id,
            phase: ConnectionPhase::Connecting,
            responses_seen: 0,
            quota,
            heartbeat_started: false,
        }
    }

    /// Advance the state machine by one observed event.
    pub fn step(&mut self, ev: WorkerEvent) -> (r: Option<WorkerAction>)
        ensures
            *final(self) == step_spec(*old(self), ev).0,
            r == step_spec(*old(self), ev).1,
    {
        match ev {
            WorkerEvent::ConnectSucceeded => {
                if self.phase == ConnectionPhase::Connecting {
                    self.phase = ConnectionPhase::HandshakeSent;
                    Some(WorkerAction::SendIdentify)
                } else {
                    None
                }
            },
            WorkerEvent::ConnectFailed => {
                if self.phase == ConnectionPhase::Connecting {
                    self.phase = ConnectionPhase::Closed;
                    Some(WorkerAction::TallyError { kind: ErrorKind::ConnectionError })
                } else {
                    None
                }
            },
            WorkerEvent::IdentifySent => {
                if self.phase == ConnectionPhase::HandshakeSent {
                    self.phase = ConnectionPhase::AwaitingAuth;
                }
                None
            },
            WorkerEvent::IdentifySendFailed => {
                if self.phase == ConnectionPhase::HandshakeSent {
                    self.phase = ConnectionPhase::Closed;
                    Some(WorkerAction::TallyError { kind: ErrorKind::SendError })
                } else {
                    None
                }
            },
            WorkerEvent::EmissionStarted => {
                if self.phase == ConnectionPhase::Authenticated {
                    self.phase = ConnectionPhase::Streaming;
                }
                None
            },
            WorkerEvent::Inbound(inbound) => {
                if self.is_receiving() {
                    self.step_inbound(inbound)
                } else {
                    None
                }
            },
            WorkerEvent::SendFailed => {
                if self.phase == ConnectionPhase::Streaming || self.phase
                    == ConnectionPhase::Authenticated {
                    self.phase = ConnectionPhase::Draining;
                    Some(WorkerAction::TallyError { kind: ErrorKind::SendError })
                } else {
                    None
                }
            },
            WorkerEvent::StreamEnded => {
                if self.is_receiving() {
                    self.phase = ConnectionPhase::Draining;
                }
                None
            },
            WorkerEvent::ReadFailed => {
                if self.is_receiving() {
                    self.phase = ConnectionPhase::Draining;
                    Some(WorkerAction::TallyError { kind: ErrorKind::ReadError })
                } else {
                    None
                }
            },
            WorkerEvent::TasksFinished => {
                if !(self.phase == ConnectionPhase::Closed) {
                    self.phase = ConnectionPhase::Closed;
                }
                None
            },
        }
    }

    fn is_receiving(&self) -> (r: bool)
        ensures
            r == receiving(self.phase),
    {
        self.phase == ConnectionPhase::HandshakeSent || self.phase == ConnectionPhase::AwaitingAuth
            || self.phase == ConnectionPhase::Authenticated || self.phase
            == ConnectionPhase::Streaming || self.phase == ConnectionPhase::Draining
    }

    fn step_inbound(&mut self, inbound: InboundEvent) -> (r: Option<WorkerAction>)
        requires
            receiving(old(self).phase),
        ensures
            *final(self) == inbound_spec(*old(self), inbound).0,
            r == inbound_spec(*old(self), inbound).1,
    {
        match inbound {
            InboundEvent::Hello { heartbeat_interval_ms } => {
                if !self.heartbeat_started {
                    self.heartbeat_started = true;
                    Some(WorkerAction::StartHeartbeat { interval_ms: heartbeat_interval_ms })
                } else {
                    None
                }
            },
            InboundEvent::AuthSuccess => {
                if self.phase == ConnectionPhase::AwaitingAuth {
                    self.phase = ConnectionPhase::Authenticated;
                    Some(WorkerAction::BeginStreaming)
                } else {
                    None
                }
            },
            InboundEvent::Response { benchmark_id } => {
                if self.responses_seen < self.quota {
                    self.responses_seen = self.responses_seen + 1;
                }
                if self.responses_seen >= self.quota {
                    self.phase = ConnectionPhase::Draining;
                }
                match benchmark_id {
                    Some(id) => Some(WorkerAction::ResolveResponse { benchmark_id: id }),
                    None => None,
                }
            },
            InboundEvent::ControlNoise => None,
            InboundEvent::Malformed => Some(
                WorkerAction::TallyError { kind: ErrorKind::MessageParseError },
            ),
        }
    }
}

/// One prepared outbound request: registered with the engine before the
/// write is attempted, so a response racing the write is never missed.
pub struct OutboundRequest {
    /// The run-global counter drawn for this request.
    pub counter: u64,
    /// The identifier embedded in the frame, `"<conn_id>_<counter>"`.
    pub benchmark_id: String,
    /// The rendered frame text to write.
    pub frame: String,
    /// The wall-clock timestamp embedded in the frame.
    pub timestamp_ms: i64,
}

/// Draw a fresh identifier, register the request, and render its frame.
pub fn prepare_request(
    engine: &mut BenchEngine,
    conn_id: u64,
    message_type: i64,
    user: &str,
    text: &str,
    now_us: u64,
) -> (r: OutboundRequest)
    requires
        old(engine).wf(),
        old(engine).total() < u64::MAX,
    ensures
        final(engine).wf(),
        r.counter == old(engine).total(),
        r.benchmark_id@ == id_chars(conn_id, r.counter),
        r.frame@ == request_frame_of(
            message_type as int,
            user@,
            text@,
            id_chars(conn_id, r.counter),
            r.timestamp_ms as int,
        ),
        !old(engine).requests().contains_key(r.counter),
        final(engine).requests() == old(engine).requests().insert(
            r.counter,
            crate::tracker::PendingRequest { conn: conn_id, sent_at_us: now_us, responded: false },
        ),
        final(engine).total() == old(engine).total() + 1,
        final(engine).successful() == old(engine).successful(),
        final(engine).latencies() == old(engine).latencies(),
        final(engine).errors() == old(engine).errors(),
{
    let counter = engine.issue_request(conn_id, now_us);
    let benchmark_id = make_benchmark_id(conn_id, counter);
    let timestamp_ms = now_epoch_ms();
    let frame = encode_request(message_type, user, text, benchmark_id.as_str(), timestamp_ms);
    OutboundRequest { counter, benchmark_id, frame, timestamp_ms }
}

} // verus!
