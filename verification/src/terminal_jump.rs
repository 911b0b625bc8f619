//! The relay on a jumphost. It registers with the local router as a
//! terminal, waits for the payload that the client sent, opens a session of
//! its own at the destination, and then carries packets both ways.
use vstd::prelude::*;

use crate::client_terminal_loop::PollFlags;
use crate::error::joined;
use crate::forward::{InitialPayload, PayloadModel};
use crate::initial_connect::{ConnectResponse, ConnectStatus};
use crate::terminal_protocol::PacketKind;
use crate::text::{decimal, decimal_string};

verus! {

/// How often the destination is tried.
pub const CONNECT_ATTEMPTS: usize = 3;

/// How long one attempt may take.
pub const CONNECT_TIMEOUT_SECONDS: u64 = 3;

pub const READ_BUFFER: usize = 16384;

// Failures.

/// A failure with what caused it.
pub open spec fn blamed(what: Seq<char>, cause: Seq<char>) -> Seq<char> {
    what + ": "@ + cause
}

fn blame(what: &str, cause: &str) -> (out: String)
    ensures
        out@ == blamed(what@, cause@),
{
    let mut out = joined(what, ": ");
    out.append(cause);
    out
}

/// Whether a result fails with these words.
pub open spec fn fails<T>(r: Result<T, String>, words: Seq<char>) -> bool {
    r matches Err(message) && message@ == words
}

// The payload.

/// Whether `r` is what the router's first packet holds. `payload` is what it
/// decodes to, where it does.
pub open spec fn init_read(
    encrypted: bool,
    header: u8,
    kind: PacketKind,
    payload: Option<InitialPayload>,
    r: Result<InitialPayload, String>,
) -> bool {
    if encrypted || kind != PacketKind::JumphostInit {
        fails(r, "Invalid jumphost init packet header: "@ + decimal(header as nat))
    } else {
        match payload {
            Some(payload) => r == Ok::<InitialPayload, String>(payload),
            None => fails(r, "JUMPHOST_INIT protobuf is malformed"@),
        }
    }
}

pub fn read_jumphost_init(
    encrypted: bool,
    header: u8,
    kind: PacketKind,
    payload: Option<InitialPayload>,
) -> (r: Result<InitialPayload, String>)
    ensures
        init_read(encrypted, header, kind, payload, r),
{
    if encrypted || kind != PacketKind::JumphostInit {
        return Err(
            joined("Invalid jumphost init packet header: ", decimal_string(header as u64).as_str()),
        );
    }
    match payload {
        Some(payload) => Ok(payload),
        None => Err("JUMPHOST_INIT protobuf is malformed".to_owned()),
    }
}

/// The payload for the destination. It runs a real terminal, so it is not
/// asked to be a jumphost.
pub fn destination_payload(payload: InitialPayload) -> (r: Result<InitialPayload, String>)
    ensures
        if payload.jumphost == Some(true) {
            r matches Ok(sent) && sent.deep_view() == (PayloadModel {
                jumphost: Some(false),
                ..payload.deep_view()
            }) && (payload.well_formed() ==> sent.well_formed())
        } else {
            fails(r, "Jumphost should be set by the initial client"@)
        },
{
    match payload.jumphost {
        Some(true) => {
            let mut sent = payload;
            sent.jumphost = Some(false);
            Ok(sent)
        },
        _ => Err("Jumphost should be set by the initial client".to_owned()),
    }
}

// The destination.

/// What an attempt to reach the destination does.
#[derive(Debug, Clone, Copy, PartialEq, Eq, Structural)]
pub enum DestinationStep {
    Configure,
    SendRequest,
    ReadResponse,
    /// Bound the output that the connection buffers.
    Bound,
    SendPayload,
    ReadInitial,
}

/// What a step of an attempt could not do.
pub open spec fn destination_trouble(step: DestinationStep) -> Seq<char> {
    match step {
        DestinationStep::Configure => "could not configure the destination socket"@,
        DestinationStep::SendRequest => "could not send ConnectRequest"@,
        DestinationStep::ReadResponse => "could not read ConnectResponse"@,
        DestinationStep::Bound => "could not bound destination output buffering"@,
        DestinationStep::SendPayload => "could not send INITIAL_PAYLOAD"@,
        DestinationStep::ReadInitial => "could not read INITIAL_RESPONSE"@,
    }
}

/// Why an attempt ended at a step.
pub fn destination_failure(step: DestinationStep, cause: &str) -> (out: String)
    ensures
        out@ == blamed(destination_trouble(step), cause@),
{
    let what = match step {
        DestinationStep::Configure => "could not configure the destination socket",
        DestinationStep::SendRequest => "could not send ConnectRequest",
        DestinationStep::ReadResponse => "could not read ConnectResponse",
        DestinationStep::Bound => "could not bound destination output buffering",
        DestinationStep::SendPayload => "could not send INITIAL_PAYLOAD",
        DestinationStep::ReadInitial => "could not read INITIAL_RESPONSE",
    };
    blame(what, cause)
}

/// Why a host has no address.
pub fn resolve_failure(host: &str, cause: &str) -> (out: String)
    ensures
        out@ == blamed("could not resolve "@ + host@, cause@),
{
    let what = joined("could not resolve ", host);
    blame(what.as_str(), cause)
}

/// Why no address of a host could be reached: the last failure, where any
/// was tried.
pub fn unreachable(last_error: Option<String>) -> (out: String)
    ensures
        out@ == match last_error {
            Some(cause) => cause@,
            None => "host resolved to no addresses"@,
        },
{
    match last_error {
        Some(cause) => cause,
        None => "host resolved to no addresses".to_owned(),
    }
}

/// The name of a status.
pub open spec fn status_name(status: ConnectStatus) -> Seq<char> {
    match status {
        ConnectStatus::NewClient => "NewClient"@,
        ConnectStatus::ReturningClient => "ReturningClient"@,
        ConnectStatus::InvalidKey => "InvalidKey"@,
        ConnectStatus::MismatchedProtocol => "MismatchedProtocol"@,
    }
}

fn name_of(status: ConnectStatus) -> (name: &'static str)
    ensures
        name@ == status_name(status),
{
    match status {
        ConnectStatus::NewClient => "NewClient",
        ConnectStatus::ReturningClient => "ReturningClient",
        ConnectStatus::InvalidKey => "InvalidKey",
        ConnectStatus::MismatchedProtocol => "MismatchedProtocol",
    }
}

/// The relay is always a new client of the destination.
pub fn accept_destination(response: ConnectResponse) -> (r: Result<(), String>)
    ensures
        match response.status {
            Some(ConnectStatus::NewClient) => r == Ok::<(), String>(()),
            Some(status) => fails(
                r,
                "destination rejected the session: "@ + status_name(status) + match response.error {
                    Some(error) => ": "@ + error@,
                    None => Seq::empty(),
                },
            ),
            None => fails(r, "destination sent an unknown connect status"@),
        },
{
    match response.status {
        Some(ConnectStatus::NewClient) => Ok(()),
        Some(status) => {
            let mut out = joined("destination rejected the session: ", name_of(status));
            match response.error {
                Some(error) => {
                    let ghost before = out@;
                    out.append(": ");
                    out.append(error.as_str());
                    assert(out@ =~= before + (": "@ + error@));
                },
                None => {
                    assert(out@ =~= out@ + Seq::empty());
                },
            }
            Err(out)
        },
        None => Err("destination sent an unknown connect status".to_owned()),
    }
}

/// The destination answers the payload, and with nothing else.
pub fn accept_destination_packet(kind: PacketKind) -> (r: Result<(), String>)
    ensures
        if kind == PacketKind::InitialResponse {
            r == Ok::<(), String>(())
        } else {
            fails(r, "Missing initial response!"@)
        },
{
    if kind == PacketKind::InitialResponse {
        Ok(())
    } else {
        Err("Missing initial response!".to_owned())
    }
}

/// What follows a failed attempt.
#[derive(Debug)]
pub enum AttemptStep {
    /// Wait a second, then try again.
    Again,
    Fail(String),
}

/// Tries the destination again while attempts are left. `made` attempts
/// failed, the last one as `error` says.
pub fn connect_destination(made: usize, host: &str, port: u16, error: &str) -> (step: AttemptStep)
    ensures
        if made < CONNECT_ATTEMPTS {
            step == AttemptStep::Again
        } else {
            step matches AttemptStep::Fail(message) && message@
                == "Could not make initial connection to "@ + host@ + ":"@ + decimal(port as nat)
                + ": "@ + error@
        },
{
    if made < CONNECT_ATTEMPTS {
        AttemptStep::Again
    } else {
        let mut out = joined("Could not make initial connection to ", host);
        out.append(":");
        out.append(decimal_string(port as u64).as_str());
        out.append(": ");
        out.append(error);
        AttemptStep::Fail(out)
    }
}

/// Whether the client has to acknowledge the destination's answer: it does
/// where the answer reports an error. `error` is what the answer decodes to,
/// where it does.
pub fn downstream_requires_ack(error: Option<Option<String>>) -> (r: Result<bool, String>)
    ensures
        match error {
            Some(error) => r == Ok::<bool, String>(error is Some),
            None => fails(r, "destination sent a malformed INITIAL_RESPONSE"@),
        },
{
    match error {
        Some(error) => Ok(error.is_some()),
        None => Err("destination sent a malformed INITIAL_RESPONSE".to_owned()),
    }
}

/// An acknowledgement is a plain heartbeat without a payload.
pub fn is_acknowledgement(encrypted: bool, kind: PacketKind, payload: &[u8]) -> (r: bool)
    ensures
        r == (!encrypted && kind == PacketKind::Heartbeat && payload@.len() == 0),
{
    !encrypted && kind == PacketKind::Heartbeat && payload.len() == 0
}

// The start of a relay.

/// What the start of a relay does.
#[derive(Debug, Clone, Copy, PartialEq, Eq, Structural)]
pub enum StartPhase {
    ReadInit,
    /// Bound the output that the router buffers.
    BoundRouter,
    Connect,
    /// Tell that the relay runs.
    Announce,
    /// Hand the destination's answer to the router.
    RelayResponse,
    ReadAck,
    SendAck,
    ClearTimeout,
    /// Let the router's socket no longer block.
    ConfigureRouter,
    Running,
    Failed,
}

/// What a phase gave.
#[derive(Debug)]
pub enum StartEvent {
    Done,
    Failed(String),
    /// The payload was checked, and prepared for the destination.
    Payload(Result<(), String>),
    /// The destination answered, with whether its answer needs to be
    /// acknowledged.
    Connected(Result<bool, String>),
    /// A packet came that should be the acknowledgement.
    Acknowledgement(bool),
}

/// The start of a relay between two steps.
#[derive(Debug)]
pub struct JumpStart {
    pub phase: StartPhase,
    /// What the destination's answer asks for.
    pub answer: Option<Result<bool, String>>,
}

/// What a phase could not do. Connecting and announcing describe their
/// failures themselves.
pub open spec fn start_trouble(phase: StartPhase, cause: Seq<char>) -> Seq<char> {
    match phase {
        StartPhase::ReadInit => blamed("Cannot read jumphost init from router"@, cause),
        StartPhase::BoundRouter => blamed("could not bound jumphost output buffering"@, cause),
        StartPhase::RelayResponse => blamed(
            "could not relay destination INITIAL_RESPONSE"@,
            cause,
        ),
        StartPhase::ReadAck => blamed("could not read jumphost acknowledgement"@, cause),
        StartPhase::SendAck => blamed("could not acknowledge destination response"@, cause),
        StartPhase::ClearTimeout => blamed("could not clear the destination timeout"@, cause),
        StartPhase::ConfigureRouter => blamed("could not configure the router socket"@, cause),
        _ => cause,
    }
}

fn describe_start(phase: StartPhase, cause: &str) -> (out: String)
    ensures
        out@ == start_trouble(phase, cause@),
{
    match phase {
        StartPhase::ReadInit => blame("Cannot read jumphost init from router", cause),
        StartPhase::BoundRouter => blame("could not bound jumphost output buffering", cause),
        StartPhase::RelayResponse => blame("could not relay destination INITIAL_RESPONSE", cause),
        StartPhase::ReadAck => blame("could not read jumphost acknowledgement", cause),
        StartPhase::SendAck => blame("could not acknowledge destination response", cause),
        StartPhase::ClearTimeout => blame("could not clear the destination timeout", cause),
        StartPhase::ConfigureRouter => blame("could not configure the router socket", cause),
        _ => cause.to_owned(),
    }
}

impl JumpStart {
    pub fn new() -> (start: Self)
        ensures
            start.phase == StartPhase::ReadInit,
            start.answer is None,
    {
        JumpStart { phase: StartPhase::ReadInit, answer: None }
    }

    /// The phase that follows a success, and the failure where there is one.
    pub open spec fn next(self, event: StartEvent) -> (StartPhase, Option<Seq<char>>) {
        match (self.phase, event) {
            (StartPhase::ReadInit, StartEvent::Payload(checked)) => match checked {
                Ok(()) => (StartPhase::BoundRouter, None),
                Err(message) => (StartPhase::Failed, Some(message@)),
            },
            (StartPhase::BoundRouter, StartEvent::Done) => (StartPhase::Connect, None),
            (StartPhase::Connect, StartEvent::Connected(_)) => (StartPhase::Announce, None),
            (StartPhase::Announce, StartEvent::Done) => (StartPhase::RelayResponse, None),
            (StartPhase::RelayResponse, StartEvent::Done) => match self.answer {
                Some(Ok(true)) => (StartPhase::ReadAck, None),
                Some(Err(message)) => (StartPhase::Failed, Some(message@)),
                _ => (StartPhase::ClearTimeout, None),
            },
            (StartPhase::ReadAck, StartEvent::Acknowledgement(valid)) => if valid {
                (StartPhase::SendAck, None)
            } else {
                (StartPhase::Failed, Some("jumphost acknowledgement is malformed"@))
            },
            (StartPhase::SendAck, StartEvent::Done) => (StartPhase::ClearTimeout, None),
            (StartPhase::ClearTimeout, StartEvent::Done) => (StartPhase::ConfigureRouter, None),
            (StartPhase::ConfigureRouter, StartEvent::Done) => (StartPhase::Running, None),
            (_, StartEvent::Failed(cause)) => (
                StartPhase::Failed,
                Some(start_trouble(self.phase, cause@)),
            ),
            _ => (self.phase, None),
        }
    }

    fn fail(&mut self, message: String) -> (r: Option<String>)
        ensures
            final(self).phase == StartPhase::Failed,
            final(self).answer == old(self).answer,
            r matches Some(text) && text@ == message@,
    {
        self.phase = StartPhase::Failed;
        Some(message)
    }

    /// Takes in what the present phase gave. A failure ends the relay.
    pub fn advance(&mut self, event: StartEvent) -> (r: Option<String>)
        ensures
            (final(self).phase, r.deep_view()) == old(self).next(event),
            final(self).answer == match (old(self).phase, event) {
                (StartPhase::Connect, StartEvent::Connected(answer)) => Some(answer),
                _ => old(self).answer,
            },
    {
        match (self.phase, event) {
            (StartPhase::ReadInit, StartEvent::Payload(checked)) => match checked {
                Ok(()) => {
                    self.phase = StartPhase::BoundRouter;
                    None
                },
                Err(message) => self.fail(message),
            },
            (StartPhase::BoundRouter, StartEvent::Done) => {
                self.phase = StartPhase::Connect;
                None
            },
            (StartPhase::Connect, StartEvent::Connected(answer)) => {
                self.answer = Some(answer);
                self.phase = StartPhase::Announce;
                None
            },
            (StartPhase::Announce, StartEvent::Done) => {
                self.phase = StartPhase::RelayResponse;
                None
            },
            (StartPhase::RelayResponse, StartEvent::Done) => {
                let failure: Option<String> = match &self.answer {
                    Some(Err(message)) => Some(message.clone()),
                    _ => None,
                };
                let needed = match &self.answer {
                    Some(Ok(needed)) => *needed,
                    _ => false,
                };
                match failure {
                    Some(message) => self.fail(message),
                    None => {
                        if needed {
                            self.phase = StartPhase::ReadAck;
                        } else {
                            self.phase = StartPhase::ClearTimeout;
                        }
                        None
                    },
                }
            },
            (StartPhase::ReadAck, StartEvent::Acknowledgement(valid)) => {
                if valid {
                    self.phase = StartPhase::SendAck;
                    None
                } else {
                    self.fail("jumphost acknowledgement is malformed".to_owned())
                }
            },
            (StartPhase::SendAck, StartEvent::Done) => {
                self.phase = StartPhase::ClearTimeout;
                None
            },
            (StartPhase::ClearTimeout, StartEvent::Done) => {
                self.phase = StartPhase::ConfigureRouter;
                None
            },
            (StartPhase::ConfigureRouter, StartEvent::Done) => {
                self.phase = StartPhase::Running;
                None
            },
            (phase, StartEvent::Failed(cause)) => {
                let message = describe_start(phase, cause.as_str());
                self.fail(message)
            },
            _ => None,
        }
    }
}

/// An answer that cannot be read, or that reports an error nobody
/// acknowledged, starts no relay.
pub proof fn unsettled_answers_start_no_relay(start: JumpStart, event: StartEvent)
    ensures
        start.next(event).0 == StartPhase::Running ==> start.phase == StartPhase::ConfigureRouter
            || start.phase == StartPhase::Running,
        start.next(event).0 == StartPhase::ConfigureRouter ==> start.phase
            == StartPhase::ClearTimeout || start.phase == StartPhase::ConfigureRouter,
        start.next(event).0 == StartPhase::ClearTimeout && start.phase != StartPhase::ClearTimeout
            ==> start.phase == StartPhase::SendAck || (start.phase == StartPhase::RelayResponse
            && !(start.answer matches Some(Ok(needed)) && needed) && !(
        start.answer matches Some(Err(_)))),
        start.next(event).0 == StartPhase::SendAck && start.phase != StartPhase::SendAck ==> event
            == StartEvent::Acknowledgement(true),
{
}

// Packets.

/// A packet on its way through the relay.
#[derive(Debug)]
pub struct RelayPacket {
    pub header: u8,
    pub kind: PacketKind,
    pub payload: Vec<u8>,
}

/// Normalize a packet relayed towards the destination.
///
/// Keep-alive acknowledgements are per-hop: what the client attached was
/// consumed before, so this hop's own acknowledgement takes its place.
pub fn destination_packet(packet: RelayPacket, own_ack: Vec<u8>) -> (out: RelayPacket)
    ensures
        out == if packet.kind == PacketKind::KeepAlive {
            RelayPacket { payload: own_ack, ..packet }
        } else {
            packet
        },
{
    if packet.kind == PacketKind::KeepAlive {
        RelayPacket { header: packet.header, kind: packet.kind, payload: own_ack }
    } else {
        packet
    }
}

/// Normalize a packet relayed towards the local router, together with the
/// acknowledgement that it held for this hop.
///
/// A keep-alive echo from the destination acknowledges this hop's writer; it
/// goes on without a payload.
pub fn router_packet(packet: RelayPacket) -> (r: (RelayPacket, Option<Vec<u8>>))
    ensures
        if packet.kind == PacketKind::KeepAlive {
            r.0.header == packet.header && r.0.kind == packet.kind && r.0.payload@.len() == 0
                && r.1 == Some(packet.payload)
        } else {
            r == (packet, None::<Vec<u8>>)
        },
{
    if packet.kind == PacketKind::KeepAlive {
        (
            RelayPacket { header: packet.header, kind: packet.kind, payload: Vec::new() },
            Some(packet.payload),
        )
    } else {
        (packet, None)
    }
}

/// A frame of which the router took only a part.
#[derive(Debug)]
pub struct PendingFrame {
    pub frame: Vec<u8>,
    pub offset: usize,
}

impl PendingFrame {
    pub open spec fn well_formed(self) -> bool {
        self.offset < self.frame@.len()
    }

    /// What the router has not taken yet.
    pub open spec fn rest(self) -> Seq<u8> {
        self.frame@.skip(self.offset as int)
    }
}

/// What a write to the router gave.
#[derive(Debug)]
pub enum FrameWrite {
    Count(usize),
    Interrupted,
    WouldBlock,
    Failed(String),
}

/// What follows a write to the router.
#[derive(Debug)]
pub enum FrameStep {
    /// Write the rest.
    Again,
    /// The frame is out.
    Complete,
    /// The router takes no more for now.
    Blocked,
    Fail(String),
}

/// Takes in what a write of the pending frame gave: no byte of it is lost or
/// repeated.
pub fn write_pending_local(pending: &mut Option<PendingFrame>, outcome: FrameWrite) -> (step:
    FrameStep)
    requires
        *old(pending) matches Some(frame) && frame.well_formed(),
        outcome matches FrameWrite::Count(n) ==> n <= old(pending)->0.rest().len(),
    ensures
        match outcome {
            FrameWrite::Count(n) => if n == 0 {
                step matches FrameStep::Fail(message) && message@
                    == "jumphost router stopped accepting output"@ && *final(pending) == *old(pending)
            } else if n == old(pending)->0.rest().len() {
                step == FrameStep::Complete && *final(pending) is None
            } else {
                step == FrameStep::Again && (*final(pending) matches Some(frame)
                    && frame.well_formed() && frame.rest() == old(pending)->0.rest().skip(n as int))
            },
            FrameWrite::Interrupted => step == FrameStep::Again && *final(pending) == *old(pending),
            FrameWrite::WouldBlock => step == FrameStep::Blocked && *final(pending) == *old(pending),
            FrameWrite::Failed(cause) => step matches FrameStep::Fail(message) && message@
                == blamed("could not write destination output"@, cause@) && *final(pending) == *old(pending),
        },
{
    match outcome {
        FrameWrite::Count(n) => {
            if n == 0 {
                return FrameStep::Fail("jumphost router stopped accepting output".to_owned());
            }
            let ghost before = pending->0;
            match pending.take() {
                Some(frame) => {
                    let total: usize = frame.frame.len();
                    let offset = frame.offset + n;
                    if offset == total {
                        FrameStep::Complete
                    } else {
                        let next = PendingFrame { frame: frame.frame, offset };
                        assert(next.rest() =~= before.rest().skip(n as int));
                        *pending = Some(next);
                        FrameStep::Again
                    }
                },
                None => FrameStep::Again,
            }
        },
        FrameWrite::Interrupted => FrameStep::Again,
        FrameWrite::WouldBlock => FrameStep::Blocked,
        FrameWrite::Failed(cause) => FrameStep::Fail(
            blame("could not write destination output", cause.as_str()),
        ),
    }
}

/// What a read from the router gave.
#[derive(Debug)]
pub enum RouterRead {
    /// The router closed.
    Ended,
    /// Bytes came, and whether they completed a packet.
    Fed(bool),
    /// They are no packet.
    Malformed(String),
    WouldBlock,
    Interrupted,
    Failed(String),
}

/// What follows a read from the router.
#[derive(Debug)]
pub enum RouterStep {
    /// Read on.
    Again,
    Packet,
    /// There is no whole packet for now.
    Nothing,
    Fail(String),
}

pub fn read_router_packet(outcome: RouterRead) -> (step: RouterStep)
    ensures
        match outcome {
            RouterRead::Ended => step matches RouterStep::Fail(message) && message@
                == "jumphost router disconnected"@,
            RouterRead::Fed(complete) => step == if complete {
                RouterStep::Packet
            } else {
                RouterStep::Again
            },
            RouterRead::Malformed(cause) => step matches RouterStep::Fail(message) && message@
                == blamed("malformed router packet"@, cause@),
            RouterRead::WouldBlock => step == RouterStep::Nothing,
            RouterRead::Interrupted => step == RouterStep::Again,
            RouterRead::Failed(cause) => step matches RouterStep::Fail(message) && message@
                == blamed("could not read the router"@, cause@),
        },
{
    match outcome {
        RouterRead::Ended => RouterStep::Fail("jumphost router disconnected".to_owned()),
        RouterRead::Fed(complete) => {
            if complete {
                RouterStep::Packet
            } else {
                RouterStep::Again
            }
        },
        RouterRead::Malformed(cause) => RouterStep::Fail(
            blame("malformed router packet", cause.as_str()),
        ),
        RouterRead::WouldBlock => RouterStep::Nothing,
        RouterRead::Interrupted => RouterStep::Again,
        RouterRead::Failed(cause) => RouterStep::Fail(
            blame("could not read the router", cause.as_str()),
        ),
    }
}

// The loop.

/// What the router is watched for. Input that nobody can take any more does
/// not wake the loop.
pub fn router_poll_flags(destination_closed: bool, output_pending: bool) -> (flags: PollFlags)
    ensures
        flags == (PollFlags {
            readable: !destination_closed,
            writable: output_pending,
            hangup: true,
            error: true,
        }),
{
    PollFlags { readable: !destination_closed, writable: output_pending, hangup: true, error: true }
}

/// What the destination is watched for, while it is open. Its output is left
/// where it is while the router has not taken what came before.
pub fn destination_poll_flags(output_pending: bool) -> (flags: PollFlags)
    ensures
        flags == (PollFlags {
            readable: !output_pending,
            writable: false,
            hangup: true,
            error: true,
        }),
{
    PollFlags { readable: !output_pending, writable: false, hangup: true, error: true }
}

/// What a poll said.
#[derive(Debug, Clone, Copy, PartialEq, Eq, Structural)]
pub struct RelayReady {
    pub router_readable: bool,
    pub router_writable: bool,
    pub router_down: bool,
    pub destination_readable: bool,
    pub destination_down: bool,
}

pub open spec fn relay_quiet() -> RelayReady {
    RelayReady {
        router_readable: false,
        router_writable: false,
        router_down: false,
        destination_readable: false,
        destination_down: false,
    }
}

/// What the relay does now.
#[derive(Debug, Clone, Copy, PartialEq, Eq, Structural)]
pub enum RelayPhase {
    Poll,
    /// Write the pending frame.
    Flush,
    /// Read a packet of the router.
    ReadRouter,
    /// Send it to the destination.
    SendInput,
    /// Read a packet of the destination.
    ReadDestination,
    /// Frame it, and begin to write the frame.
    StartOutput,
    Ended,
}

#[derive(Debug)]
pub enum RelayEvent {
    Polled(RelayReady),
    /// The poll failed, with its description.
    PollFailed(String),
    /// The destination's socket could not be prepared for the poll.
    DestinationUnpolled(String),
    /// The frame is out, or a part of it is left.
    Flushed(bool),
    FlushFailed(String),
    /// The packet cannot be framed.
    FrameFailed(String),
    RouterPacket,
    RouterNothing,
    RouterFailed(String),
    InputSent,
    InputFailed,
    DestinationPacket,
    DestinationNothing,
    DestinationFailed,
    /// A turn without progress was waited out.
    Waited,
}

/// The relay between two steps.
#[derive(Debug, Clone, Copy)]
pub struct Relay {
    /// A frame is left that the router did not take.
    pub pending: bool,
    /// The destination may hold packets that it has read already.
    pub resume: bool,
    pub closed: bool,
    /// Nothing more comes from the destination.
    pub drained: bool,
    pub ready: RelayReady,
    pub phase: RelayPhase,
}

/// How the relay ends: well, or with a description.
pub type RelayEnd = Option<Result<(), Seq<char>>>;

impl Relay {
    pub open spec fn at(self, phase: RelayPhase) -> Relay {
        Relay { phase, ..self }
    }

    /// Output is read only while none is pending, and a destination that is
    /// drained is closed.
    pub open spec fn well_formed(self) -> bool {
        &&& self.drained ==> self.closed
        &&& self.phase == RelayPhase::ReadDestination || self.phase == RelayPhase::StartOutput
            ==> !self.pending && !self.drained
    }

    pub open spec fn finished(self) -> (Relay, RelayEnd) {
        (self.at(RelayPhase::Ended), Some(Ok(())))
    }

    pub open spec fn failed(self, message: Seq<char>) -> (Relay, RelayEnd) {
        (self.at(RelayPhase::Ended), Some(Err(message)))
    }

    /// The beginning of a round. The relay is over when the destination is
    /// drained and its last frame is out.
    pub open spec fn top(self) -> (Relay, RelayEnd) {
        if self.drained && !self.pending {
            self.finished()
        } else {
            (Relay { ready: relay_quiet(), ..self }.at(RelayPhase::Poll), None)
        }
    }

    /// On to the input.
    pub open spec fn to_input(self) -> (Relay, RelayEnd) {
        if !self.closed && self.ready.router_readable {
            (self.at(RelayPhase::ReadRouter), None)
        } else {
            self.to_output()
        }
    }

    /// On to the output. What the destination read ahead is no longer
    /// announced by its socket.
    pub open spec fn to_output(self) -> (Relay, RelayEnd) {
        if !self.pending && !self.drained && (self.ready.destination_readable || self.resume
            || self.closed) {
            (self.at(RelayPhase::ReadDestination), None)
        } else {
            self.top()
        }
    }

    /// What follows an event. Events that the phase does not wait for leave
    /// the relay as it is.
    pub open spec fn next(self, event: RelayEvent) -> (Relay, RelayEnd) {
        match (self.phase, event) {
            (RelayPhase::Poll, RelayEvent::Polled(ready)) => {
                let seen = Relay { ready, closed: self.closed || ready.destination_down, ..self };
                if ready.router_down {
                    seen.finished()
                } else if ready.router_writable && self.pending {
                    (seen.at(RelayPhase::Flush), None)
                } else {
                    seen.to_input()
                }
            },
            (RelayPhase::Poll, RelayEvent::PollFailed(cause)) => self.failed(
                blamed("poll failed"@, cause@),
            ),
            (RelayPhase::Poll, RelayEvent::DestinationUnpolled(cause)) => self.failed(
                blamed("could not poll the destination"@, cause@),
            ),
            (RelayPhase::Flush, RelayEvent::Flushed(complete)) => Relay {
                pending: !complete,
                ..self
            }.to_input(),
            (RelayPhase::Flush, RelayEvent::FlushFailed(_)) => self.finished(),
            (RelayPhase::ReadRouter, RelayEvent::RouterPacket) => (
                self.at(RelayPhase::SendInput),
                None,
            ),
            (RelayPhase::ReadRouter, RelayEvent::RouterNothing) => self.to_output(),
            (RelayPhase::ReadRouter, RelayEvent::RouterFailed(message)) => self.failed(message@),
            (RelayPhase::SendInput, RelayEvent::InputSent) => self.to_output(),
            (RelayPhase::SendInput, RelayEvent::InputFailed) => self.finished(),
            (RelayPhase::ReadDestination, RelayEvent::DestinationPacket) => (
                Relay { resume: true, ..self }.at(RelayPhase::StartOutput),
                None,
            ),
            (RelayPhase::ReadDestination, RelayEvent::DestinationNothing) => Relay {
                resume: false,
                drained: self.closed,
                ..self
            }.top(),
            (RelayPhase::ReadDestination, RelayEvent::DestinationFailed) => Relay {
                closed: true,
                drained: true,
                ..self
            }.top(),
            (RelayPhase::StartOutput, RelayEvent::Flushed(complete)) => if complete {
                (self.at(RelayPhase::ReadDestination), None)
            } else {
                Relay { pending: true, ..self }.top()
            },
            (RelayPhase::StartOutput, RelayEvent::FlushFailed(_)) => self.finished(),
            (RelayPhase::StartOutput, RelayEvent::FrameFailed(cause)) => self.failed(
                blamed("could not frame destination output"@, cause@),
            ),
            _ => (self, None),
        }
    }

    pub fn new() -> (relay: Self)
        ensures
            relay == (Relay {
                pending: false,
                resume: false,
                closed: false,
                drained: false,
                ready: relay_quiet(),
                phase: RelayPhase::Poll,
            }),
            relay.well_formed(),
    {
        Relay {
            pending: false,
            resume: false,
            closed: false,
            drained: false,
            ready: RelayReady {
                router_readable: false,
                router_writable: false,
                router_down: false,
                destination_readable: false,
                destination_down: false,
            },
            phase: RelayPhase::Poll,
        }
    }

    fn end_well(&mut self) -> (r: Option<Result<(), String>>)
        ensures
            (*final(self), end_model(r)) == old(self).finished(),
    {
        self.phase = RelayPhase::Ended;
        Some(Ok(()))
    }

    fn end_badly(&mut self, message: String) -> (r: Option<Result<(), String>>)
        ensures
            (*final(self), end_model(r)) == old(self).failed(message@),
    {
        self.phase = RelayPhase::Ended;
        Some(Err(message))
    }

    fn go_top(&mut self) -> (r: Option<Result<(), String>>)
        ensures
            (*final(self), end_model(r)) == old(self).top(),
    {
        if self.drained && !self.pending {
            self.end_well()
        } else {
            self.ready =
            RelayReady {
                router_readable: false,
                router_writable: false,
                router_down: false,
                destination_readable: false,
                destination_down: false,
            };
            self.phase = RelayPhase::Poll;
            None
        }
    }

    fn go_input(&mut self) -> (r: Option<Result<(), String>>)
        ensures
            (*final(self), end_model(r)) == old(self).to_input(),
    {
        if !self.closed && self.ready.router_readable {
            self.phase = RelayPhase::ReadRouter;
            None
        } else {
            self.go_output()
        }
    }

    fn go_output(&mut self) -> (r: Option<Result<(), String>>)
        ensures
            (*final(self), end_model(r)) == old(self).to_output(),
    {
        if !self.pending && !self.drained && (self.ready.destination_readable || self.resume
            || self.closed) {
            self.phase = RelayPhase::ReadDestination;
            None
        } else {
            self.go_top()
        }
    }

    /// Takes in what happened in the present phase.
    pub fn advance(&mut self, event: RelayEvent) -> (r: Option<Result<(), String>>)
        ensures
            (*final(self), end_model(r)) == old(self).next(event),
    {
        match (self.phase, event) {
            (RelayPhase::Poll, RelayEvent::Polled(ready)) => {
                self.ready = ready;
                self.closed = self.closed || ready.destination_down;
                if ready.router_down {
                    self.end_well()
                } else if ready.router_writable && self.pending {
                    self.phase = RelayPhase::Flush;
                    None
                } else {
                    self.go_input()
                }
            },
            (RelayPhase::Poll, RelayEvent::PollFailed(cause)) => {
                let message = blame("poll failed", cause.as_str());
                self.end_badly(message)
            },
            (RelayPhase::Poll, RelayEvent::DestinationUnpolled(cause)) => {
                let message = blame("could not poll the destination", cause.as_str());
                self.end_badly(message)
            },
            (RelayPhase::Flush, RelayEvent::Flushed(complete)) => {
                self.pending = !complete;
                self.go_input()
            },
            (RelayPhase::Flush, RelayEvent::FlushFailed(_)) => self.end_well(),
            (RelayPhase::ReadRouter, RelayEvent::RouterPacket) => {
                self.phase = RelayPhase::SendInput;
                None
            },
            (RelayPhase::ReadRouter, RelayEvent::RouterNothing) => self.go_output(),
            (RelayPhase::ReadRouter, RelayEvent::RouterFailed(message)) => self.end_badly(message),
            (RelayPhase::SendInput, RelayEvent::InputSent) => self.go_output(),
            (RelayPhase::SendInput, RelayEvent::InputFailed) => self.end_well(),
            (RelayPhase::ReadDestination, RelayEvent::DestinationPacket) => {
                self.resume = true;
                self.phase = RelayPhase::StartOutput;
                None
            },
            (RelayPhase::ReadDestination, RelayEvent::DestinationNothing) => {
                self.resume = false;
                self.drained = self.closed;
                self.go_top()
            },
            (RelayPhase::ReadDestination, RelayEvent::DestinationFailed) => {
                self.closed = true;
                self.drained = true;
                self.go_top()
            },
            (RelayPhase::StartOutput, RelayEvent::Flushed(complete)) => {
                if complete {
                    self.phase = RelayPhase::ReadDestination;
                    None
                } else {
                    self.pending = true;
                    self.go_top()
                }
            },
            (RelayPhase::StartOutput, RelayEvent::FlushFailed(_)) => self.end_well(),
            (RelayPhase::StartOutput, RelayEvent::FrameFailed(cause)) => {
                let message = blame("could not frame destination output", cause.as_str());
                self.end_badly(message)
            },
            _ => None,
        }
    }
}

/// What an ending says.
pub open spec fn end_model(r: Option<Result<(), String>>) -> RelayEnd {
    match r {
        None => None,
        Some(Ok(())) => Some(Ok(())),
        Some(Err(message)) => Some(Err(message@)),
    }
}

/// Whatever happens, the relay reads no output while a frame is pending.
pub proof fn pending_output_stops_the_reading(relay: Relay, event: RelayEvent)
    requires
        relay.well_formed(),
    ensures
        relay.next(event).0.well_formed(),
{
}

/// A frame that the router does not take holds up the output alone: input
/// that arrives meanwhile goes to the destination.
pub proof fn pending_output_lets_input_through(relay: Relay, ready: RelayReady)
    requires
        relay.phase == RelayPhase::Poll,
        relay.pending,
        !relay.closed,
        ready.router_readable,
        !ready.router_down,
        !ready.destination_down,
    ensures
        relay.next(RelayEvent::Polled(ready)).0.phase == RelayPhase::ReadRouter || (relay.next(
            RelayEvent::Polled(ready),
        ).0.phase == RelayPhase::Flush && relay.next(RelayEvent::Polled(ready)).0.next(
            RelayEvent::Flushed(false),
        ).0.phase == RelayPhase::ReadRouter),
{
}

/// A destination that closes loses nothing: the relay ends by itself only
/// when the destination has no packet left and every frame is out. All other
/// ends come from a router or a destination that failed.
pub proof fn closing_loses_no_output(relay: Relay, event: RelayEvent)
    requires
        relay.well_formed(),
        relay.phase != RelayPhase::Ended,
        relay.next(event).1 == Some(Ok::<(), Seq<char>>(())),
    ensures
        (relay.next(event).0.drained && !relay.next(event).0.pending) || (
        event matches RelayEvent::Polled(ready) && ready.router_down) || event is FlushFailed
            || event is InputFailed,
{
}

// The loop on Windows. The router's channel and the destination's socket
// cannot be polled together there, so both are walked in short turns.

/// How long a turn without progress waits, in milliseconds.
pub const TURN_MILLIS: u64 = 10;

/// What a turn does now.
#[derive(Debug, Clone, Copy, PartialEq, Eq, Structural)]
pub enum TurnPhase {
    /// Write the pending frame.
    Flush,
    /// Read a packet of the router.
    ReadRouter,
    /// Send it to the destination.
    SendInput,
    /// Read a packet of the destination.
    ReadDestination,
    /// Frame it, and begin to write the frame.
    StartOutput,
    /// Wait a little.
    Wait,
    Ended,
}

/// The relay on Windows between two steps.
#[derive(Debug, Clone, Copy)]
pub struct TurnRelay {
    /// A frame is left that the router did not take.
    pub pending: bool,
    /// Something moved in this turn.
    pub progress: bool,
    pub phase: TurnPhase,
}

impl TurnRelay {
    pub open spec fn at(self, phase: TurnPhase) -> TurnRelay {
        TurnRelay { phase, ..self }
    }

    /// Output is read only while none is pending.
    pub open spec fn well_formed(self) -> bool {
        &&& self.phase == TurnPhase::ReadDestination || self.phase == TurnPhase::StartOutput
            ==> !self.pending
        &&& self.phase == TurnPhase::Flush ==> self.pending
    }

    pub open spec fn finished(self) -> (TurnRelay, RelayEnd) {
        (self.at(TurnPhase::Ended), Some(Ok(())))
    }

    pub open spec fn failed(self, message: Seq<char>) -> (TurnRelay, RelayEnd) {
        (self.at(TurnPhase::Ended), Some(Err(message)))
    }

    /// The beginning of a turn.
    pub open spec fn top(self) -> TurnRelay {
        let fresh = TurnRelay { progress: false, ..self };
        if self.pending {
            fresh.at(TurnPhase::Flush)
        } else {
            fresh.at(TurnPhase::ReadRouter)
        }
    }

    /// On to the output.
    pub open spec fn to_output(self) -> TurnRelay {
        if self.pending {
            self.rest()
        } else {
            self.at(TurnPhase::ReadDestination)
        }
    }

    /// The end of a turn.
    pub open spec fn rest(self) -> TurnRelay {
        if self.progress {
            self.top()
        } else {
            self.at(TurnPhase::Wait)
        }
    }

    /// What follows an event. Events that the phase does not wait for leave
    /// the relay as it is.
    pub open spec fn next(self, event: RelayEvent) -> (TurnRelay, RelayEnd) {
        match (self.phase, event) {
            (TurnPhase::Flush, RelayEvent::Flushed(complete)) => (
                TurnRelay { pending: !complete, progress: complete, ..self }.at(
                    TurnPhase::ReadRouter,
                ),
                None,
            ),
            (TurnPhase::Flush, RelayEvent::FlushFailed(message)) => self.failed(message@),
            (TurnPhase::ReadRouter, RelayEvent::RouterPacket) => (
                TurnRelay { progress: true, ..self }.at(TurnPhase::SendInput),
                None,
            ),
            (TurnPhase::ReadRouter, RelayEvent::RouterNothing) => (self.to_output(), None),
            (TurnPhase::ReadRouter, RelayEvent::RouterFailed(message)) => self.failed(message@),
            (TurnPhase::SendInput, RelayEvent::InputSent) => (self.to_output(), None),
            (TurnPhase::SendInput, RelayEvent::InputFailed) => self.finished(),
            (TurnPhase::ReadDestination, RelayEvent::DestinationPacket) => (
                TurnRelay { progress: true, ..self }.at(TurnPhase::StartOutput),
                None,
            ),
            (TurnPhase::ReadDestination, RelayEvent::DestinationNothing) => (self.rest(), None),
            (TurnPhase::ReadDestination, RelayEvent::DestinationFailed) => self.finished(),
            (TurnPhase::StartOutput, RelayEvent::Flushed(complete)) => (
                TurnRelay { pending: !complete, ..self }.to_output(),
                None,
            ),
            (TurnPhase::StartOutput, RelayEvent::FlushFailed(message)) => self.failed(message@),
            (TurnPhase::StartOutput, RelayEvent::FrameFailed(cause)) => self.failed(
                blamed("could not frame destination output"@, cause@),
            ),
            (TurnPhase::Wait, RelayEvent::Waited) => (self.top(), None),
            _ => (self, None),
        }
    }

    pub fn new() -> (relay: Self)
        ensures
            relay == (TurnRelay { pending: false, progress: false, phase: TurnPhase::ReadRouter }),
            relay.well_formed(),
    {
        TurnRelay { pending: false, progress: false, phase: TurnPhase::ReadRouter }
    }

    fn end_well(&mut self) -> (r: Option<Result<(), String>>)
        ensures
            (*final(self), end_model(r)) == old(self).finished(),
    {
        self.phase = TurnPhase::Ended;
        Some(Ok(()))
    }

    fn end_badly(&mut self, message: String) -> (r: Option<Result<(), String>>)
        ensures
            (*final(self), end_model(r)) == old(self).failed(message@),
    {
        self.phase = TurnPhase::Ended;
        Some(Err(message))
    }

    fn go_top(&mut self)
        ensures
            *final(self) == old(self).top(),
    {
        self.progress = false;
        if self.pending {
            self.phase = TurnPhase::Flush;
        } else {
            self.phase = TurnPhase::ReadRouter;
        }
    }

    fn go_output(&mut self)
        ensures
            *final(self) == old(self).to_output(),
    {
        if self.pending {
            self.go_rest();
        } else {
            self.phase = TurnPhase::ReadDestination;
        }
    }

    fn go_rest(&mut self)
        ensures
            *final(self) == old(self).rest(),
    {
        if self.progress {
            self.go_top();
        } else {
            self.phase = TurnPhase::Wait;
        }
    }

    /// Takes in what happened in the present phase.
    pub fn advance(&mut self, event: RelayEvent) -> (r: Option<Result<(), String>>)
        ensures
            (*final(self), end_model(r)) == old(self).next(event),
    {
        match (self.phase, event) {
            (TurnPhase::Flush, RelayEvent::Flushed(complete)) => {
                self.pending = !complete;
                self.progress = complete;
                self.phase = TurnPhase::ReadRouter;
                None
            },
            (TurnPhase::Flush, RelayEvent::FlushFailed(message)) => self.end_badly(message),
            (TurnPhase::ReadRouter, RelayEvent::RouterPacket) => {
                self.progress = true;
                self.phase = TurnPhase::SendInput;
                None
            },
            (TurnPhase::ReadRouter, RelayEvent::RouterNothing) => {
                self.go_output();
                None
            },
            (TurnPhase::ReadRouter, RelayEvent::RouterFailed(message)) => self.end_badly(message),
            (TurnPhase::SendInput, RelayEvent::InputSent) => {
                self.go_output();
                None
            },
            (TurnPhase::SendInput, RelayEvent::InputFailed) => self.end_well(),
            (TurnPhase::ReadDestination, RelayEvent::DestinationPacket) => {
                self.progress = true;
                self.phase = TurnPhase::StartOutput;
                None
            },
            (TurnPhase::ReadDestination, RelayEvent::DestinationNothing) => {
                self.go_rest();
                None
            },
            (TurnPhase::ReadDestination, RelayEvent::DestinationFailed) => self.end_well(),
            (TurnPhase::StartOutput, RelayEvent::Flushed(complete)) => {
                self.pending = !complete;
                self.go_output();
                None
            },
            (TurnPhase::StartOutput, RelayEvent::FlushFailed(message)) => self.end_badly(message),
            (TurnPhase::StartOutput, RelayEvent::FrameFailed(cause)) => {
                let message = blame("could not frame destination output", cause.as_str());
                self.end_badly(message)
            },
            (TurnPhase::Wait, RelayEvent::Waited) => {
                self.go_top();
                None
            },
            _ => None,
        }
    }
}

/// Whatever happens, a turn reads no output while a frame is pending, and
/// waits only when nothing moved.
pub proof fn turns_keep_their_order(relay: TurnRelay, event: RelayEvent)
    requires
        relay.well_formed(),
        relay.phase == TurnPhase::Wait ==> !relay.progress,
    ensures
        relay.next(event).0.well_formed(),
        relay.next(event).0.phase == TurnPhase::Wait ==> !relay.next(event).0.progress,
{
}

// What the relay is for.

/// A packet crosses the relay as it is, in either direction. Only what a
/// keep-alive acknowledges is each hop's own: towards the destination it is
/// this hop's acknowledgement, and what came back is kept here.
pub proof fn packets_cross_unchanged(
    packet: RelayPacket,
    own_ack: Vec<u8>,
    forth: RelayPacket,
    back: (RelayPacket, Option<Vec<u8>>),
)
    requires
        call_ensures(destination_packet, (packet, own_ack), forth),
        call_ensures(router_packet, (packet,), back),
    ensures
        forth.header == packet.header && forth.kind == packet.kind,
        back.0.header == packet.header && back.0.kind == packet.kind,
        packet.kind != PacketKind::KeepAlive ==> forth.payload@ == packet.payload@
            && back.0.payload@ == packet.payload@ && back.1 is None,
        packet.kind == PacketKind::KeepAlive ==> forth.payload@ == own_ack@ && (
        back.1 matches Some(ack) && back.0.payload@ + ack@ == packet.payload@)
            && back.0.payload@.len() == 0,
{
    if packet.kind == PacketKind::KeepAlive {
        assert(back.0.payload@ + packet.payload@ =~= packet.payload@);
    }
}

/// The router gets every byte of a frame once and in order: what a write took
/// followed by what is left is what was left before. Nothing leaves with a
/// write that failed or has to wait, and a frame of which nothing is left is
/// forgotten.
pub proof fn frames_leave_once_and_in_order()
    ensures
        forall|pending: &mut Option<PendingFrame>, n: usize, step: FrameStep|
            (*pending matches Some(frame) && 0 < n <= frame.rest().len()) && #[trigger] call_ensures(
                write_pending_local,
                (pending, FrameWrite::Count(n)),
                step,
            ) ==> pending->0.rest() == pending->0.rest().take(n as int) + match *final(pending) {
                Some(frame) => frame.rest(),
                None => Seq::empty(),
            } && (*final(pending) is None <==> n == pending->0.rest().len()) && (step
                == FrameStep::Complete <==> *final(pending) is None) && !(step is Fail),
        forall|pending: &mut Option<PendingFrame>, outcome: FrameWrite, step: FrameStep|
            *pending is Some && !(outcome is Count) && #[trigger] call_ensures(
                write_pending_local,
                (pending, outcome),
                step,
            ) ==> *final(pending) == *pending && (step is Fail <==> outcome is Failed) && (
            step == FrameStep::Blocked <==> outcome == FrameWrite::WouldBlock),
        forall|pending: &mut Option<PendingFrame>, step: FrameStep|
            *pending is Some && #[trigger] call_ensures(
                write_pending_local,
                (pending, FrameWrite::Count(0)),
                step,
            ) ==> *final(pending) == *pending && step is Fail,
{
    assert forall|pending: &mut Option<PendingFrame>, n: usize, step: FrameStep|
        (*pending matches Some(frame) && 0 < n <= frame.rest().len()) && #[trigger] call_ensures(
            write_pending_local,
            (pending, FrameWrite::Count(n)),
            step,
        ) implies pending->0.rest() == pending->0.rest().take(n as int) + match *final(pending) {
        Some(frame) => frame.rest(),
        None => Seq::empty(),
    } && (*final(pending) is None <==> n == pending->0.rest().len()) && (step == FrameStep::Complete
        <==> *final(pending) is None) && !(step is Fail) by {
        let rest = pending->0.rest();
        assert(rest =~= rest.take(n as int) + rest.skip(n as int));
        if n == rest.len() {
            assert(rest.take(n as int) + Seq::<u8>::empty() =~= rest);
        }
    }
}

/// The destination gets the client's payload with one thing changed: it is
/// no jumphost. A payload that asks for no jumphost goes nowhere.
pub proof fn payloads_reach_the_destination(
    payload: InitialPayload,
    r: Result<InitialPayload, String>,
)
    requires
        call_ensures(destination_payload, (payload,), r),
    ensures
        r is Ok <==> payload.jumphost == Some(true),
        r matches Ok(sent) ==> sent.jumphost == Some(false) && sent.deep_view() == (PayloadModel {
            jumphost: sent.jumphost,
            ..payload.deep_view()
        }),
{
}

/// A destination is tried three times. Then the relay fails, and says where
/// it could not get and why.
pub proof fn three_attempts_are_made(
    made: usize,
    host: &str,
    port: u16,
    error: &str,
    step: AttemptStep,
)
    requires
        call_ensures(connect_destination, (made, host, port, error), step),
    ensures
        step == AttemptStep::Again <==> made < 3,
        step matches AttemptStep::Fail(message) ==> message@.len() >= host@.len() + error@.len()
            && message@.skip(message@.len() - error@.len()) == error@,
{
    if let AttemptStep::Fail(message) = step {
        assert(message@.skip(message@.len() - error@.len()) =~= error@);
    }
}

/// Only a destination that takes the relay for a new client is relayed to,
/// and only one that answers the payload.
pub proof fn only_new_clients_are_relayed(
    response: ConnectResponse,
    r: Result<(), String>,
    kind: PacketKind,
    answered: Result<(), String>,
)
    requires
        call_ensures(accept_destination, (response,), r),
        call_ensures(accept_destination_packet, (kind,), answered),
    ensures
        r is Ok <==> response.status == Some(ConnectStatus::NewClient),
        r is Err && response.status is Some && response.error is Some ==> r->Err_0@.len()
            >= response.error->0@.len() && r->Err_0@.skip(
            r->Err_0@.len() - response.error->0@.len(),
        ) == response.error->0@,
        answered is Ok <==> kind == PacketKind::InitialResponse,
{
    if r is Err && response.status is Some && response.error is Some {
        let message = r->Err_0@;
        let error = response.error->0@;
        let head = "destination rejected the session: "@ + status_name(response.status->0);
        assert(message =~= (head + ": "@) + error);
        assert(message.skip(message.len() - error.len()) =~= error);
    }
}

/// A relay starts step by step. The destination's answer reaches the router
/// before anything is made of it; an answer that reports an error is then
/// acknowledged both ways, and one that cannot be read ends the relay.
pub proof fn relays_start_step_by_step(start: JumpStart)
    ensures
        start.phase == StartPhase::ReadInit ==> start.next(StartEvent::Payload(Ok(()))) == (
            StartPhase::BoundRouter,
            None::<Seq<char>>,
        ),
        start.phase == StartPhase::BoundRouter ==> start.next(StartEvent::Done) == (
            StartPhase::Connect,
            None::<Seq<char>>,
        ),
        forall|answer: Result<bool, String>|
            start.phase == StartPhase::Connect ==> (#[trigger] start.next(
                StartEvent::Connected(answer),
            )) == (StartPhase::Announce, None::<Seq<char>>),
        start.phase == StartPhase::Announce ==> start.next(StartEvent::Done) == (
            StartPhase::RelayResponse,
            None::<Seq<char>>,
        ),
        start.phase == StartPhase::RelayResponse ==> match start.answer {
            Some(Ok(true)) => start.next(StartEvent::Done).0 == StartPhase::ReadAck,
            Some(Ok(false)) => start.next(StartEvent::Done).0 == StartPhase::ClearTimeout,
            Some(Err(message)) => start.next(StartEvent::Done) == (
                StartPhase::Failed,
                Some(message@),
            ),
            None => true,
        },
        start.phase == StartPhase::ReadAck ==> start.next(StartEvent::Acknowledgement(true)).0
            == StartPhase::SendAck && start.next(StartEvent::Acknowledgement(false)).0
            == StartPhase::Failed,
        start.phase == StartPhase::SendAck ==> start.next(StartEvent::Done).0
            == StartPhase::ClearTimeout,
        start.phase == StartPhase::ClearTimeout ==> start.next(StartEvent::Done).0
            == StartPhase::ConfigureRouter,
        start.phase == StartPhase::ConfigureRouter ==> start.next(StartEvent::Done) == (
            StartPhase::Running,
            None::<Seq<char>>,
        ),
        forall|cause: String|
            (#[trigger] start.next(StartEvent::Failed(cause))).0 == StartPhase::Failed && (
            start.next(StartEvent::Failed(cause)).1 matches Some(message) && message.len()
                >= cause@.len() && message.skip(message.len() - cause@.len()) == cause@),
{
    assert forall|cause: String|
        (#[trigger] start.next(StartEvent::Failed(cause))).0 == StartPhase::Failed && (start.next(
            StartEvent::Failed(cause),
        ).1 matches Some(message) && message.len() >= cause@.len() && message.skip(
            message.len() - cause@.len(),
        ) == cause@) by {
        let message = start.next(StartEvent::Failed(cause)).1->0;
        assert(message.skip(message.len() - cause@.len()) =~= cause@);
    }
}

/// An answer needs an acknowledgement where it reports an error, and only an
/// empty heartbeat is one.
pub proof fn errors_are_acknowledged(
    error: Option<Option<String>>,
    needed: Result<bool, String>,
    encrypted: bool,
    kind: PacketKind,
    payload: &[u8],
    taken: bool,
)
    requires
        call_ensures(downstream_requires_ack, (error,), needed),
        call_ensures(is_acknowledgement, (encrypted, kind, payload), taken),
    ensures
        needed is Err <==> error is None,
        needed == Ok::<bool, String>(true) <==> (error matches Some(reported) && reported is Some),
        taken <==> kind == PacketKind::Heartbeat && !encrypted && payload@.len() == 0,
{
}

/// What the client sends goes to the destination: input that is announced is
/// read, whatever the output waits for, and what was read is sent.
pub proof fn input_reaches_the_destination(relay: Relay, ready: RelayReady)
    requires
        relay.well_formed(),
        !relay.closed,
        !ready.router_down,
        !ready.destination_down,
        ready.router_readable,
    ensures
        relay.phase == RelayPhase::Poll && !(relay.pending && ready.router_writable) ==> relay.next(
            RelayEvent::Polled(ready),
        ).0.phase == RelayPhase::ReadRouter,
        relay.phase == RelayPhase::Poll && relay.pending && ready.router_writable ==> relay.next(
            RelayEvent::Polled(ready),
        ).0.phase == RelayPhase::Flush && (forall|complete: bool|
            (#[trigger] relay.next(RelayEvent::Polled(ready)).0.next(
                RelayEvent::Flushed(complete),
            )).0.phase == RelayPhase::ReadRouter),
        relay.phase == RelayPhase::ReadRouter ==> relay.next(RelayEvent::RouterPacket) == (
            Relay { phase: RelayPhase::SendInput, ..relay },
            None::<Result<(), Seq<char>>>,
        ),
        relay.phase == RelayPhase::SendInput ==> relay.next(RelayEvent::InputSent).1 is None,
{
}

/// What the destination sends goes to the router: output that is announced
/// or was read ahead is read while no frame is left, each packet is framed
/// and written before the next one is read, and a frame that is left is
/// written as soon as the router takes more.
pub proof fn output_reaches_the_router(relay: Relay, ready: RelayReady)
    requires
        relay.well_formed(),
        !ready.router_down,
    ensures
        relay.phase == RelayPhase::Poll && !relay.pending && !relay.drained && (relay.closed
            || !ready.router_readable) && (ready.destination_readable || relay.resume
            || relay.closed) ==> relay.next(RelayEvent::Polled(ready)).0.phase
            == RelayPhase::ReadDestination,
        relay.phase == RelayPhase::SendInput && !relay.pending && !relay.drained && (
        relay.ready.destination_readable || relay.resume || relay.closed) ==> relay.next(
            RelayEvent::InputSent,
        ).0.phase == RelayPhase::ReadDestination,
        relay.phase == RelayPhase::ReadRouter && !relay.pending && !relay.drained && (
        relay.ready.destination_readable || relay.resume || relay.closed) ==> relay.next(
            RelayEvent::RouterNothing,
        ).0.phase == RelayPhase::ReadDestination,
        relay.phase == RelayPhase::ReadDestination ==> {
            let (read, ended) = relay.next(RelayEvent::DestinationPacket);
            read.phase == RelayPhase::StartOutput && ended is None && read.resume && read.next(
                RelayEvent::Flushed(true),
            ).0 == (Relay { phase: RelayPhase::ReadDestination, ..read }) && read.next(
                RelayEvent::Flushed(false),
            ).0.pending && read.next(RelayEvent::Flushed(false)).0.resume && read.next(
                RelayEvent::Flushed(false),
            ).0.phase == RelayPhase::Poll
        },
        relay.phase == RelayPhase::Poll && relay.pending && ready.router_writable ==> {
            let flushing = relay.next(RelayEvent::Polled(ready)).0;
            flushing.phase == RelayPhase::Flush && flushing.pending && !flushing.next(
                RelayEvent::Flushed(true),
            ).0.pending && flushing.next(RelayEvent::Flushed(false)).0.pending
        },
{
}

/// A destination that went is read to its end: nothing is sent to it any
/// more, what it left is read, and the relay ends well with the last frame.
pub proof fn closed_destinations_are_read_to_the_end(relay: Relay, ready: RelayReady)
    requires
        relay.well_formed(),
        relay.phase == RelayPhase::Poll,
        !ready.router_down,
        ready.destination_down,
        !relay.pending,
        !relay.drained,
    ensures
        ({
            let gone = relay.next(RelayEvent::Polled(ready)).0;
            let end = Some(Ok::<(), Seq<char>>(()));
            gone.phase == RelayPhase::ReadDestination && gone.closed && gone.next(
                RelayEvent::DestinationNothing,
            ).1 == end && gone.next(RelayEvent::DestinationPacket).0.next(
                RelayEvent::Flushed(true),
            ).0.next(RelayEvent::DestinationNothing).1 == end && gone.next(
                RelayEvent::DestinationPacket,
            ).0.next(RelayEvent::Flushed(false)).1 is None
        }),
{
}

/// A destination that is only silent does not end the relay, and a router
/// that went does.
pub proof fn silence_does_not_end_the_relay(relay: Relay, ready: RelayReady)
    requires
        relay.well_formed(),
    ensures
        relay.phase == RelayPhase::ReadDestination && !relay.closed ==> {
            let waiting = relay.next(RelayEvent::DestinationNothing);
            waiting.1 is None && waiting.0.phase == RelayPhase::Poll && !waiting.0.closed
                && !waiting.0.drained && !waiting.0.resume
        },
        relay.phase == RelayPhase::Poll && ready.router_down ==> relay.next(
            RelayEvent::Polled(ready),
        ).1 == Some(Ok::<(), Seq<char>>(())),
        relay.phase == RelayPhase::ReadDestination ==> relay.next(
            RelayEvent::DestinationFailed,
        ).1 == Some(Ok::<(), Seq<char>>(())),
        relay.phase == RelayPhase::SendInput ==> relay.next(RelayEvent::InputFailed).1 == Some(
            Ok::<(), Seq<char>>(()),
        ),
        forall|message: String|
            relay.phase == RelayPhase::ReadRouter ==> (#[trigger] relay.next(
                RelayEvent::RouterFailed(message),
            )).1 == Some(Err::<(), Seq<char>>(message@)),
{
}

/// In turns, too, what the router sends goes to the destination and what the
/// destination sends goes to the router: every turn asks both, and writes
/// first what is left of a frame.
pub proof fn turns_carry_both_ways(relay: TurnRelay)
    requires
        relay.well_formed(),
    ensures
        relay.phase == TurnPhase::Wait ==> relay.next(RelayEvent::Waited).0.phase == if relay.pending {
            TurnPhase::Flush
        } else {
            TurnPhase::ReadRouter
        },
        relay.phase == TurnPhase::Flush ==> (forall|complete: bool|
            (#[trigger] relay.next(RelayEvent::Flushed(complete))).0.phase == TurnPhase::ReadRouter
                && relay.next(RelayEvent::Flushed(complete)).0.pending == !complete),
        relay.phase == TurnPhase::ReadRouter ==> relay.next(RelayEvent::RouterPacket).0.phase
            == TurnPhase::SendInput && (!relay.pending ==> relay.next(
            RelayEvent::RouterNothing,
        ).0.phase == TurnPhase::ReadDestination),
        relay.phase == TurnPhase::SendInput && !relay.pending ==> relay.next(
            RelayEvent::InputSent,
        ).0.phase == TurnPhase::ReadDestination,
        relay.phase == TurnPhase::ReadDestination ==> {
            let read = relay.next(RelayEvent::DestinationPacket).0;
            read.phase == TurnPhase::StartOutput && read.next(RelayEvent::Flushed(true)).0.phase
                == TurnPhase::ReadDestination && read.next(RelayEvent::Flushed(false)).0.phase
                == TurnPhase::Flush && read.next(RelayEvent::Flushed(false)).0.pending
        },
        relay.phase == TurnPhase::ReadDestination && !relay.progress ==> relay.next(
            RelayEvent::DestinationNothing,
        ).0.phase == TurnPhase::Wait,
        relay.phase == TurnPhase::ReadDestination && relay.progress ==> relay.next(
            RelayEvent::DestinationNothing,
        ).0.phase == TurnPhase::ReadRouter,
        relay.phase == TurnPhase::ReadDestination ==> relay.next(
            RelayEvent::DestinationFailed,
        ).1 == Some(Ok::<(), Seq<char>>(())),
        relay.phase == TurnPhase::SendInput ==> relay.next(RelayEvent::InputFailed).1 == Some(
            Ok::<(), Seq<char>>(()),
        ),
{
}

/// What reads of the router give is passed on: a packet once it is whole, a
/// pause, or a failure. The router's end is a failure.
pub proof fn router_reads_come_to_something(outcome: RouterRead, step: RouterStep)
    requires
        call_ensures(read_router_packet, (outcome,), step),
    ensures
        step == RouterStep::Packet <==> outcome == RouterRead::Fed(true),
        step == RouterStep::Nothing <==> outcome == RouterRead::WouldBlock,
        step == RouterStep::Again <==> outcome == RouterRead::Fed(false) || outcome
            == RouterRead::Interrupted,
        outcome is Ended ==> step is Fail,
{
}

/// Both sides are always watched for their end. Input is waited for while the
/// destination can take it, output while no frame is left, and room at the
/// router while one is.
pub proof fn both_sides_are_watched(
    closed: bool,
    pending: bool,
    router: PollFlags,
    destination: PollFlags,
)
    requires
        call_ensures(router_poll_flags, (closed, pending), router),
        call_ensures(destination_poll_flags, (pending,), destination),
    ensures
        router.hangup && router.error && destination.hangup && destination.error,
        router.readable != closed,
        router.writable == pending,
        destination.readable != router.writable,
        !destination.writable,
{
}

/// Only a plain packet of the right kind opens a relay, and its payload is
/// taken as it is.
pub proof fn relays_open_with_their_payload(
    encrypted: bool,
    header: u8,
    kind: PacketKind,
    payload: Option<InitialPayload>,
    r: Result<InitialPayload, String>,
)
    requires
        call_ensures(read_jumphost_init, (encrypted, header, kind, payload), r),
    ensures
        r is Ok <==> !encrypted && kind == PacketKind::JumphostInit && payload is Some,
        r is Ok ==> Some(r->Ok_0) == payload,
{
}

/// Failures on the way to the destination tell their cause at their end.
pub proof fn destination_failures_tell_their_cause(
    step: DestinationStep,
    host: &str,
    cause: &str,
    failed: String,
    unresolved: String,
)
    requires
        call_ensures(destination_failure, (step, cause), failed),
        call_ensures(resolve_failure, (host, cause), unresolved),
    ensures
        failed@.len() > cause@.len() && failed@.skip(failed@.len() - cause@.len()) == cause@,
        unresolved@.len() > cause@.len() + host@.len() && unresolved@.skip(
            unresolved@.len() - cause@.len(),
        ) == cause@,
{
    reveal_strlit(": ");
    reveal_strlit("could not resolve ");
    assert(failed@.skip(failed@.len() - cause@.len()) =~= cause@);
    assert(unresolved@.skip(unresolved@.len() - cause@.len()) =~= cause@);
}

/// The failure that is told is the last one.
pub proof fn last_failures_are_told(cause: String, out: String, none: String)
    requires
        call_ensures(unreachable, (Some(cause),), out),
        call_ensures(unreachable, (None,), none),
    ensures
        out@ == cause@,
        none@.len() > 0,
{
    reveal_strlit("host resolved to no addresses");
}

} // verus!
