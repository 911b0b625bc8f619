//! The handshake with the server: for a new session, and for a session that
//! lost its connection.
use std::time::Duration;
use vstd::prelude::*;

use crate::deadline::Deadline;
use crate::error::{ClientError, ConnError};
use crate::forward::ForwardOrigin;
use crate::terminal_protocol::PacketKind;
use crate::text::{chars_of, decimal, decimal_string, find_char, lemma_first_index_bounds};

verus! {

/// How many addresses of an endpoint are tried.
pub const MAX_ENDPOINT_ADDRESSES: usize = 16;

/// How long one address may take to answer.
pub const CONNECT_TIMEOUT_SECONDS: u64 = 3;

/// How long a read or a write of the handshake may take.
pub const IO_TIMEOUT_SECONDS: u64 = 10;

#[derive(Debug, Clone, PartialEq, Eq)]
pub struct Endpoint {
    pub host: String,
    pub port: u16,
}

/// How a reconnect ended.
#[derive(Debug, Clone, Copy, PartialEq, Eq, Structural)]
pub enum ReconnectOutcome {
    Recovered,
    SessionEnded,
}

impl Endpoint {
    /// Host and port, with brackets round a host that holds a colon.
    pub open spec fn text(self) -> Seq<char> {
        if self.host@.contains(':') {
            "["@ + self.host@ + "]:"@ + decimal(self.port as nat)
        } else {
            self.host@ + ":"@ + decimal(self.port as nat)
        }
    }

    pub fn display(&self) -> (out: String)
        ensures
            out@ == self.text(),
    {
        let chars = chars_of(self.host.as_str());
        let k = find_char(chars.as_slice(), ':');
        proof {
            lemma_first_index_bounds(chars@, ':');
        }
        if k < chars.len() {
            assert(self.host@[k as int] == ':');
            let mut out = crate::error::joined("[", self.host.as_str());
            out.append("]:");
            out.append(decimal_string(self.port as u64).as_str());
            out
        } else {
            let mut out = crate::error::joined(self.host.as_str(), ":");
            out.append(decimal_string(self.port as u64).as_str());
            out
        }
    }
}

// Time.

/// What an operation needs: time.
pub open spec fn timely(left: Option<Duration>, operation: &'static str) -> Result<(), ClientError> {
    match left {
        Some(_) => Ok(()),
        None => Err(ClientError::BootstrapTimeout(operation)),
    }
}

/// Refuses to begin an operation after the deadline.
pub fn ensure_deadline(deadline: Deadline, operation: &'static str) -> (r: Result<(), ClientError>)
    ensures
        exists|left: Option<Duration>| #[trigger]
            call_ensures(Deadline::remaining, (deadline,), left) && r == timely(left, operation),
{
    let left = deadline.remaining();
    assert(call_ensures(Deadline::remaining, (deadline,), left));
    match left {
        Some(_) => Ok(()),
        None => Err(ClientError::BootstrapTimeout(operation)),
    }
}

/// The time that is left for an operation.
pub fn remaining_time(deadline: Deadline, operation: &'static str) -> (r: Result<
    Duration,
    ClientError,
>)
    ensures
        exists|left: Option<Duration>| #[trigger]
            call_ensures(Deadline::remaining, (deadline,), left) && r == match left {
                Some(time) => Ok::<Duration, ClientError>(time),
                None => Err(ClientError::BootstrapTimeout(operation)),
            },
{
    let left = deadline.remaining();
    assert(call_ensures(Deadline::remaining, (deadline,), left));
    match left {
        Some(time) => Ok(time),
        None => Err(ClientError::BootstrapTimeout(operation)),
    }
}

/// A socket failure, or the timeout that it stands for.
pub fn connect_error(time_left: bool, operation: &'static str, source: String) -> (error:
    ClientError)
    ensures
        error == if time_left {
            ClientError::ConnectIo { operation, source }
        } else {
            ClientError::BootstrapTimeout(operation)
        },
{
    if time_left {
        ClientError::ConnectIo { operation, source }
    } else {
        ClientError::BootstrapTimeout(operation)
    }
}

/// A failure of the encrypted transport, or the timeout that it stands for.
pub fn transport_error(time_left: bool, operation: &'static str, error: ConnError) -> (r:
    ClientError)
    ensures
        r == if time_left {
            ClientError::Transport(error)
        } else {
            ClientError::BootstrapTimeout(operation)
        },
{
    if time_left {
        ClientError::Transport(error)
    } else {
        ClientError::BootstrapTimeout(operation)
    }
}

// Addresses.

/// What to do about the addresses of an endpoint.
#[derive(Debug)]
pub enum ConnectStep {
    /// Try the address with this number.
    Try(usize),
    Fail(ClientError),
}

/// Why no address of an endpoint could be reached.
pub open spec fn is_unreachable(
    error: ClientError,
    endpoint: Endpoint,
    last_error: Option<String>,
) -> bool {
    match error {
        ClientError::UnreachableEndpoint { endpoint: name, source } => name@ == endpoint.text()
            && source@ == match last_error {
            Some(cause) => cause@,
            None => "host resolved to no addresses"@,
        },
        _ => false,
    }
}

/// The next address to try, in the order of the resolver. `tried` of them
/// have failed, the last one as `last_error` says.
pub fn connect_endpoint(
    endpoint: &Endpoint,
    addresses: usize,
    tried: usize,
    time_left: bool,
    last_error: Option<String>,
) -> (step: ConnectStep)
    ensures
        if tried < addresses && tried < MAX_ENDPOINT_ADDRESSES {
            step == if time_left {
                ConnectStep::Try(tried)
            } else {
                ConnectStep::Fail(ClientError::BootstrapTimeout("connecting to the ET endpoint"))
            }
        } else {
            step matches ConnectStep::Fail(error) && is_unreachable(error, *endpoint, last_error)
        },
{
    if tried < addresses && tried < MAX_ENDPOINT_ADDRESSES {
        if time_left {
            ConnectStep::Try(tried)
        } else {
            ConnectStep::Fail(ClientError::BootstrapTimeout("connecting to the ET endpoint"))
        }
    } else {
        let source = match last_error {
            Some(cause) => cause,
            None => "host resolved to no addresses".to_owned(),
        };
        ConnectStep::Fail(ClientError::UnreachableEndpoint { endpoint: endpoint.display(), source })
    }
}

// Replies.

/// What a server can make of a connection.
#[derive(Debug, Clone, Copy, PartialEq, Eq, Structural)]
pub enum ConnectStatus {
    NewClient,
    ReturningClient,
    InvalidKey,
    MismatchedProtocol,
}

/// A decoded reply to a request for a connection.
#[derive(Debug)]
pub struct ConnectResponse {
    /// The number in the reply.
    pub raw_status: Option<i32>,
    /// What the number stands for, where it stands for anything.
    pub status: Option<ConnectStatus>,
    pub error: Option<String>,
}

/// The reply that the client owes a server that did not take it as it is.
pub open spec fn rejection(response: ConnectResponse) -> ClientError {
    ClientError::ServerRejected { status: response.raw_status, message: response.error }
}

/// A new session begins only as a new client.
pub fn accept_response(response: ConnectResponse) -> (r: Result<(), ClientError>)
    ensures
        r == match response.status {
            Some(ConnectStatus::NewClient) => Ok::<(), ClientError>(()),
            Some(ConnectStatus::ReturningClient) => Err(
                ClientError::ReturningSessionRequiresRecovery,
            ),
            Some(ConnectStatus::InvalidKey) => Err(ClientError::ServerInvalidKey(response.error)),
            Some(ConnectStatus::MismatchedProtocol) => Err(
                ClientError::ProtocolMismatch(response.error),
            ),
            None => Err(rejection(response)),
        },
{
    match response.status {
        Some(ConnectStatus::NewClient) => Ok(()),
        Some(ConnectStatus::ReturningClient) => Err(ClientError::ReturningSessionRequiresRecovery),
        Some(ConnectStatus::InvalidKey) => Err(ClientError::ServerInvalidKey(response.error)),
        Some(ConnectStatus::MismatchedProtocol) => Err(
            ClientError::ProtocolMismatch(response.error),
        ),
        None => Err(
            ClientError::ServerRejected { status: response.raw_status, message: response.error },
        ),
    }
}

#[derive(Debug, Clone, Copy, PartialEq, Eq, Structural)]
pub enum ReconnectStatus {
    Recover,
    SessionEnded,
}

/// A lost session goes on only as a returning client, and is over when its
/// key is no longer known.
pub fn accept_reconnect_response(response: ConnectResponse) -> (r: Result<
    ReconnectStatus,
    ClientError,
>)
    ensures
        r == match response.status {
            Some(ConnectStatus::ReturningClient) => Ok::<ReconnectStatus, ClientError>(
                ReconnectStatus::Recover,
            ),
            Some(ConnectStatus::InvalidKey) => Ok(ReconnectStatus::SessionEnded),
            Some(ConnectStatus::MismatchedProtocol) => Err(
                ClientError::ProtocolMismatch(response.error),
            ),
            _ => Err(rejection(response)),
        },
{
    match response.status {
        Some(ConnectStatus::ReturningClient) => Ok(ReconnectStatus::Recover),
        Some(ConnectStatus::InvalidKey) => Ok(ReconnectStatus::SessionEnded),
        Some(ConnectStatus::MismatchedProtocol) => Err(
            ClientError::ProtocolMismatch(response.error),
        ),
        _ => Err(
            ClientError::ServerRejected { status: response.raw_status, message: response.error },
        ),
    }
}

/// What the server made of the initial payload.
#[derive(Debug)]
pub enum InitialResponse {
    Accepted,
    /// An error in the server's words.
    Error(String),
    /// A report of the reverse tunnels that could not be bound, by number.
    Skipped(Vec<usize>),
    /// A report that cannot be read.
    MalformedReport,
}

/// A row that the session can do without.
pub open spec fn optional_row(origins: Seq<ForwardOrigin>, row: usize) -> bool {
    row < origins.len() && origins[row as int] == ForwardOrigin::SshConfig { strict: false }
}

/// Whether a session can begin without the rows of a report.
pub open spec fn dispensable(origins: Seq<ForwardOrigin>, rows: Seq<usize>) -> bool {
    forall|i: int| 0 <= i < rows.len() ==> optional_row(origins, #[trigger] rows[i])
}

/// Whether an error refuses the initial payload with these words.
pub open spec fn refuses(r: Result<(), ClientError>, words: Seq<char>) -> bool {
    match r {
        Err(ClientError::InitialResponseRejected(message)) => message@ == words,
        _ => false,
    }
}

/// A session begins where the server took the payload, and also where it
/// left out only rows that the configuration does not insist on. `origins`
/// tells who asked for the reverse tunnels.
pub fn accept_initial_response(response: InitialResponse, origins: &[ForwardOrigin]) -> (r: Result<
    (),
    ClientError,
>)
    ensures
        match response {
            InitialResponse::Accepted => r == Ok::<(), ClientError>(()),
            InitialResponse::Error(message) => refuses(r, message@),
            InitialResponse::MalformedReport => refuses(
                r,
                "malformed reverse forwarding skip report"@,
            ),
            InitialResponse::Skipped(rows) => if dispensable(origins@, rows@) {
                r == Ok::<(), ClientError>(())
            } else {
                refuses(r, "required reverse forwarding row could not bind"@)
            },
        },
{
    match response {
        InitialResponse::Accepted => Ok(()),
        InitialResponse::Error(message) => Err(ClientError::InitialResponseRejected(message)),
        InitialResponse::MalformedReport => Err(
            ClientError::InitialResponseRejected(
                "malformed reverse forwarding skip report".to_owned(),
            ),
        ),
        InitialResponse::Skipped(rows) => {
            if are_dispensable(origins, &rows) {
                Ok(())
            } else {
                Err(
                    ClientError::InitialResponseRejected(
                        "required reverse forwarding row could not bind".to_owned(),
                    ),
                )
            }
        },
    }
}

fn are_dispensable(origins: &[ForwardOrigin], rows: &Vec<usize>) -> (r: bool)
    ensures
        r == dispensable(origins@, rows@),
{
    let mut i: usize = 0;
    while i < rows.len()
        invariant
            i <= rows@.len(),
            forall|k: int| 0 <= k < i ==> optional_row(origins@, #[trigger] rows@[k]),
        decreases rows@.len() - i,
    {
        let row = rows[i];
        let optional = if row < origins.len() {
            match origins[row] {
                ForwardOrigin::SshConfig { strict } => !strict,
                _ => false,
            }
        } else {
            false
        };
        if !optional {
            assert(!optional_row(origins@, rows@[i as int]));
            return false;
        }
        i += 1;
    }
    true
}

// The sequence.

/// Where a handshake stands.
#[derive(Debug, Clone, Copy, PartialEq, Eq, Structural)]
pub enum HandshakePhase {
    /// Limit the time of the socket, then send the request.
    LimitSend,
    SendRequest,
    /// Limit the time again, then read the reply.
    LimitRead,
    ReadResponse,
    /// A new session: send the payload over the encrypted connection.
    SendPayload,
    ReadInitial,
    /// Take the limits off.
    Unlimit,
    /// A lost session: exchange what was missed.
    Recover,
    /// Limit the time of the recovered connection.
    LimitProof,
    /// Send a keepalive that only this client can send.
    SendProof,
    /// Wait for a packet that only this server can send.
    Authenticate,
    Done,
}

/// What a step of the handshake gave.
#[derive(Debug)]
pub enum HandshakeEvent {
    /// It was done.
    Done,
    /// The socket refused a limit, named by the operation.
    LimitFailed(&'static str, String),
    IoFailed(String),
    TransportFailed(ConnError),
    Response(ConnectResponse),
    /// A packet with this header, its kind, and what its payload decodes to.
    Packet(u8, PacketKind, Result<InitialResponse, String>),
}

/// How a handshake ends.
#[derive(Debug)]
pub enum HandshakeEnd {
    Connected,
    Recovered,
    SessionEnded,
    Failed(ClientError),
}

/// A handshake between two steps.
#[derive(Debug, Clone, Copy)]
pub struct Handshake {
    /// The session existed before.
    pub returning: bool,
    pub phase: HandshakePhase,
}

impl Handshake {
    pub fn new(returning: bool) -> (handshake: Self)
        ensures
            handshake == (Handshake { returning, phase: HandshakePhase::LimitSend }),
    {
        Handshake { returning, phase: HandshakePhase::LimitSend }
    }

    /// What the present step is called.
    pub open spec fn operation(self) -> &'static str {
        match self.phase {
            HandshakePhase::LimitSend => "configuring the ET connection",
            HandshakePhase::LimitRead => "configuring the ET connection",
            HandshakePhase::SendRequest => if self.returning {
                "sending reconnect ConnectRequest"
            } else {
                "sending ConnectRequest"
            },
            HandshakePhase::ReadResponse => if self.returning {
                "reading reconnect ConnectResponse"
            } else {
                "reading ConnectResponse"
            },
            HandshakePhase::SendPayload => "sending INITIAL_PAYLOAD",
            HandshakePhase::ReadInitial => "reading INITIAL_RESPONSE",
            HandshakePhase::Unlimit => "configuring the ET connection",
            HandshakePhase::Recover => "recovering ET session",
            HandshakePhase::LimitProof => "authenticating recovery",
            HandshakePhase::SendProof => "authenticating recovery",
            HandshakePhase::Authenticate => "verifying recovery proof",
            HandshakePhase::Done => "configuring the ET connection",
        }
    }

    /// Whether the present step begins only before the deadline. A read waits
    /// no longer than the limit that was just set.
    pub open spec fn needs_time(self) -> bool {
        self.phase != HandshakePhase::ReadResponse && self.phase != HandshakePhase::Unlimit
            && self.phase != HandshakePhase::SendProof && self.phase != HandshakePhase::Done
    }

    fn operation_name(&self) -> (name: &'static str)
        ensures
            name == self.operation(),
    {
        match self.phase {
            HandshakePhase::LimitSend => "configuring the ET connection",
            HandshakePhase::LimitRead => "configuring the ET connection",
            HandshakePhase::SendRequest => {
                if self.returning {
                    "sending reconnect ConnectRequest"
                } else {
                    "sending ConnectRequest"
                }
            },
            HandshakePhase::ReadResponse => {
                if self.returning {
                    "reading reconnect ConnectResponse"
                } else {
                    "reading ConnectResponse"
                }
            },
            HandshakePhase::SendPayload => "sending INITIAL_PAYLOAD",
            HandshakePhase::ReadInitial => "reading INITIAL_RESPONSE",
            HandshakePhase::Unlimit => "configuring the ET connection",
            HandshakePhase::Recover => "recovering ET session",
            HandshakePhase::LimitProof => "authenticating recovery",
            HandshakePhase::SendProof => "authenticating recovery",
            HandshakePhase::Authenticate => "verifying recovery proof",
            HandshakePhase::Done => "configuring the ET connection",
        }
    }

    /// Whether the present step may begin.
    pub fn begin(&self, time_left: bool) -> (r: Result<(), ClientError>)
        ensures
            r == if self.needs_time() && !time_left {
                Err::<(), ClientError>(ClientError::BootstrapTimeout(self.operation()))
            } else {
                Ok(())
            },
    {
        let timed = match self.phase {
            HandshakePhase::ReadResponse => false,
            HandshakePhase::Unlimit => false,
            HandshakePhase::SendProof => false,
            HandshakePhase::Done => false,
            _ => true,
        };
        if timed && !time_left {
            Err(ClientError::BootstrapTimeout(self.operation_name()))
        } else {
            Ok(())
        }
    }

    pub open spec fn at(self, phase: HandshakePhase) -> (Handshake, Option<HandshakeEnd>) {
        (Handshake { phase, ..self }, None)
    }

    pub open spec fn ended(self, end: HandshakeEnd) -> (Handshake, Option<HandshakeEnd>) {
        (Handshake { phase: HandshakePhase::Done, ..self }, Some(end))
    }

    /// Whether `result` is where the handshake goes when a step was done.
    pub open spec fn follows(
        self,
        event: HandshakeEvent,
        time_left: bool,
        origins: Seq<ForwardOrigin>,
        result: (Handshake, Option<HandshakeEnd>),
    ) -> bool {
        match (self.phase, event) {
            (HandshakePhase::LimitSend, HandshakeEvent::Done) => result == self.at(
                HandshakePhase::SendRequest,
            ),
            (HandshakePhase::SendRequest, HandshakeEvent::Done) => result == self.at(
                HandshakePhase::LimitRead,
            ),
            (HandshakePhase::LimitRead, HandshakeEvent::Done) => result == self.at(
                HandshakePhase::ReadResponse,
            ),
            (HandshakePhase::ReadResponse, HandshakeEvent::Response(response)) => if self.returning {
                match response.status {
                    Some(ConnectStatus::ReturningClient) => result == self.at(
                        HandshakePhase::Recover,
                    ),
                    Some(ConnectStatus::InvalidKey) => result == self.ended(
                        HandshakeEnd::SessionEnded,
                    ),
                    Some(ConnectStatus::MismatchedProtocol) => result == self.ended(
                        HandshakeEnd::Failed(ClientError::ProtocolMismatch(response.error)),
                    ),
                    _ => result == self.ended(HandshakeEnd::Failed(rejection(response))),
                }
            } else {
                match response.status {
                    Some(ConnectStatus::NewClient) => result == self.at(
                        HandshakePhase::SendPayload,
                    ),
                    Some(ConnectStatus::ReturningClient) => result == self.ended(
                        HandshakeEnd::Failed(ClientError::ReturningSessionRequiresRecovery),
                    ),
                    Some(ConnectStatus::InvalidKey) => result == self.ended(
                        HandshakeEnd::Failed(ClientError::ServerInvalidKey(response.error)),
                    ),
                    Some(ConnectStatus::MismatchedProtocol) => result == self.ended(
                        HandshakeEnd::Failed(ClientError::ProtocolMismatch(response.error)),
                    ),
                    None => result == self.ended(HandshakeEnd::Failed(rejection(response))),
                }
            },
            (HandshakePhase::SendPayload, HandshakeEvent::Done) => result == self.at(
                HandshakePhase::ReadInitial,
            ),
            (HandshakePhase::ReadInitial, HandshakeEvent::Packet(header, kind, message)) => if kind
                != PacketKind::InitialResponse {
                result == self.ended(
                    HandshakeEnd::Failed(ClientError::UnexpectedInitialPacket(header)),
                )
            } else {
                match message {
                    Err(cause) => result == self.ended(
                        HandshakeEnd::Failed(ClientError::MalformedInitialResponse(cause)),
                    ),
                    Ok(InitialResponse::Accepted) => result == self.at(HandshakePhase::Unlimit),
                    Ok(InitialResponse::Error(words)) => self.refused(result, words@),
                    Ok(InitialResponse::MalformedReport) => self.refused(
                        result,
                        "malformed reverse forwarding skip report"@,
                    ),
                    Ok(InitialResponse::Skipped(rows)) => if dispensable(origins, rows@) {
                        result == self.at(HandshakePhase::Unlimit)
                    } else {
                        self.refused(result, "required reverse forwarding row could not bind"@)
                    },
                }
            },
            (HandshakePhase::Unlimit, HandshakeEvent::Done) => result == self.ended(
                HandshakeEnd::Connected,
            ),
            (HandshakePhase::Recover, HandshakeEvent::Done) => result == self.at(
                HandshakePhase::LimitProof,
            ),
            (HandshakePhase::LimitProof, HandshakeEvent::Done) => result == self.at(
                HandshakePhase::SendProof,
            ),
            (HandshakePhase::SendProof, HandshakeEvent::Done) => result == self.at(
                HandshakePhase::Authenticate,
            ),
            (HandshakePhase::Authenticate, HandshakeEvent::Done) => result == self.ended(
                HandshakeEnd::Recovered,
            ),
            (_, HandshakeEvent::LimitFailed(operation, source)) => result == self.ended(
                HandshakeEnd::Failed(ClientError::ConnectIo { operation, source }),
            ),
            (_, HandshakeEvent::IoFailed(source)) => result == self.ended(
                HandshakeEnd::Failed(
                    if time_left {
                        ClientError::ConnectIo { operation: self.operation(), source }
                    } else {
                        ClientError::BootstrapTimeout(self.operation())
                    },
                ),
            ),
            (_, HandshakeEvent::TransportFailed(error)) => result == self.ended(
                HandshakeEnd::Failed(
                    if time_left || self.phase == HandshakePhase::Unlimit || self.phase
                        == HandshakePhase::LimitProof {
                        ClientError::Transport(error)
                    } else {
                        ClientError::BootstrapTimeout(self.operation())
                    },
                ),
            ),
            _ => result == (self, None::<HandshakeEnd>),
        }
    }

    /// Whether a handshake ended because the server refused the payload.
    pub open spec fn refused(
        self,
        result: (Handshake, Option<HandshakeEnd>),
        words: Seq<char>,
    ) -> bool {
        &&& result.0 == (Handshake { phase: HandshakePhase::Done, ..self })
        &&& match result.1 {
            Some(HandshakeEnd::Failed(ClientError::InitialResponseRejected(message))) => message@
                == words,
            _ => false,
        }
    }

    fn finish(&mut self, end: HandshakeEnd) -> (r: Option<HandshakeEnd>)
        ensures
            (*final(self), r) == old(self).ended(end),
    {
        self.phase = HandshakePhase::Done;
        Some(end)
    }

    fn after_response(&mut self, response: ConnectResponse, time_left: bool, origins: &[
        ForwardOrigin
    ]) -> (r: Option<HandshakeEnd>)
        requires
            old(self).phase == HandshakePhase::ReadResponse,
        ensures
            old(self).follows(
                HandshakeEvent::Response(response),
                time_left,
                origins@,
                (*final(self), r),
            ),
    {
        if self.returning {
            match accept_reconnect_response(response) {
                Ok(ReconnectStatus::Recover) => {
                    self.phase = HandshakePhase::Recover;
                    None
                },
                Ok(ReconnectStatus::SessionEnded) => self.finish(HandshakeEnd::SessionEnded),
                Err(error) => self.finish(HandshakeEnd::Failed(error)),
            }
        } else {
            match accept_response(response) {
                Ok(()) => {
                    self.phase = HandshakePhase::SendPayload;
                    None
                },
                Err(error) => self.finish(HandshakeEnd::Failed(error)),
            }
        }
    }

    /// Takes in what the present step gave. `time_left` tells whether the
    /// deadline has passed since, and `origins` who asked for the reverse
    /// tunnels.
    pub fn advance(&mut self, event: HandshakeEvent, time_left: bool, origins: &[ForwardOrigin]) -> (r:
        Option<HandshakeEnd>)
        ensures
            old(self).follows(event, time_left, origins@, (*final(self), r)),
    {
        match (self.phase, event) {
            (HandshakePhase::LimitSend, HandshakeEvent::Done) => {
                self.phase = HandshakePhase::SendRequest;
                None
            },
            (HandshakePhase::SendRequest, HandshakeEvent::Done) => {
                self.phase = HandshakePhase::LimitRead;
                None
            },
            (HandshakePhase::LimitRead, HandshakeEvent::Done) => {
                self.phase = HandshakePhase::ReadResponse;
                None
            },
            (HandshakePhase::ReadResponse, HandshakeEvent::Response(response)) =>
                self.after_response(response, time_left, origins),
            (HandshakePhase::SendPayload, HandshakeEvent::Done) => {
                self.phase = HandshakePhase::ReadInitial;
                None
            },
            (HandshakePhase::ReadInitial, HandshakeEvent::Packet(header, kind, message)) => {
                if kind != PacketKind::InitialResponse {
                    return self.finish(
                        HandshakeEnd::Failed(ClientError::UnexpectedInitialPacket(header)),
                    );
                }
                match message {
                    Err(cause) => self.finish(
                        HandshakeEnd::Failed(ClientError::MalformedInitialResponse(cause)),
                    ),
                    Ok(response) => match accept_initial_response(response, origins) {
                        Ok(()) => {
                            self.phase = HandshakePhase::Unlimit;
                            None
                        },
                        Err(error) => self.finish(HandshakeEnd::Failed(error)),
                    },
                }
            },
            (HandshakePhase::Unlimit, HandshakeEvent::Done) => self.finish(HandshakeEnd::Connected),
            (HandshakePhase::Recover, HandshakeEvent::Done) => {
                self.phase = HandshakePhase::LimitProof;
                None
            },
            (HandshakePhase::LimitProof, HandshakeEvent::Done) => {
                self.phase = HandshakePhase::SendProof;
                None
            },
            (HandshakePhase::SendProof, HandshakeEvent::Done) => {
                self.phase = HandshakePhase::Authenticate;
                None
            },
            (HandshakePhase::Authenticate, HandshakeEvent::Done) => self.finish(
                HandshakeEnd::Recovered,
            ),
            (_, HandshakeEvent::LimitFailed(operation, source)) => self.finish(
                HandshakeEnd::Failed(ClientError::ConnectIo { operation, source }),
            ),
            (_, HandshakeEvent::IoFailed(source)) => {
                let operation = self.operation_name();
                self.finish(HandshakeEnd::Failed(connect_error(time_left, operation, source)))
            },
            (phase, HandshakeEvent::TransportFailed(error)) => {
                let operation = self.operation_name();
                let plain = match phase {
                    HandshakePhase::Unlimit => true,
                    HandshakePhase::LimitProof => true,
                    _ => time_left,
                };
                self.finish(HandshakeEnd::Failed(transport_error(plain, operation, error)))
            },
            _ => None,
        }
    }
}

/// A session begins only when a server that took the client as a new one
/// also took its payload, and goes on only when a server that knows the
/// session proved that it holds its key.
pub proof fn sessions_open_only_when_proven(
    handshake: Handshake,
    event: HandshakeEvent,
    time_left: bool,
    origins: Seq<ForwardOrigin>,
    result: (Handshake, Option<HandshakeEnd>),
)
    requires
        handshake.follows(event, time_left, origins, result),
    ensures
        result.1 == Some(HandshakeEnd::Connected) ==> handshake.phase == HandshakePhase::Unlimit,
        result.1 == Some(HandshakeEnd::Recovered) ==> handshake.phase
            == HandshakePhase::Authenticate,
        result.0.phase == HandshakePhase::Unlimit && handshake.phase != HandshakePhase::Unlimit
            ==> handshake.phase == HandshakePhase::ReadInitial && (event matches HandshakeEvent::Packet(
            _,
            kind,
            Ok(response),
        ) && kind == PacketKind::InitialResponse && (response is Accepted || (
        response matches InitialResponse::Skipped(rows) && dispensable(origins, rows@)))),
        result.0.phase == HandshakePhase::SendPayload && handshake.phase
            != HandshakePhase::SendPayload ==> !handshake.returning && (
        event matches HandshakeEvent::Response(response) && response.status == Some(
            ConnectStatus::NewClient,
        )),
        result.0.phase == HandshakePhase::Recover && handshake.phase != HandshakePhase::Recover
            ==> handshake.returning && (event matches HandshakeEvent::Response(response)
            && response.status == Some(ConnectStatus::ReturningClient)),
        result.1 == Some(HandshakeEnd::SessionEnded) ==> handshake.returning && (
        event matches HandshakeEvent::Response(response) && response.status == Some(
            ConnectStatus::InvalidKey,
        )),
{
}

/// A handshake whose steps succeed gets where it wants to: a new client sends
/// its request, its payload and takes the limits off, and a returning one
/// recovers, proves itself and waits for the server's proof. No step is left
/// out, and none comes twice.
pub proof fn handshakes_make_progress(
    handshake: Handshake,
    event: HandshakeEvent,
    time_left: bool,
    origins: Seq<ForwardOrigin>,
    result: (Handshake, Option<HandshakeEnd>),
)
    requires
        handshake.follows(event, time_left, origins, result),
    ensures
        result.0.returning == handshake.returning,
        event == HandshakeEvent::Done ==> match handshake.phase {
            HandshakePhase::LimitSend => result.1 is None && result.0.phase
                == HandshakePhase::SendRequest,
            HandshakePhase::SendRequest => result.1 is None && result.0.phase
                == HandshakePhase::LimitRead,
            HandshakePhase::LimitRead => result.1 is None && result.0.phase
                == HandshakePhase::ReadResponse,
            HandshakePhase::SendPayload => result.1 is None && result.0.phase
                == HandshakePhase::ReadInitial,
            HandshakePhase::Unlimit => result.1 == Some(HandshakeEnd::Connected),
            HandshakePhase::Recover => result.1 is None && result.0.phase
                == HandshakePhase::LimitProof,
            HandshakePhase::LimitProof => result.1 is None && result.0.phase
                == HandshakePhase::SendProof,
            HandshakePhase::SendProof => result.1 is None && result.0.phase
                == HandshakePhase::Authenticate,
            HandshakePhase::Authenticate => result.1 == Some(HandshakeEnd::Recovered),
            _ => result == (handshake, None::<HandshakeEnd>),
        },
        handshake.phase == HandshakePhase::ReadResponse && event is Response ==> {
            let status = event->Response_0.status;
            if !handshake.returning && status == Some(ConnectStatus::NewClient) {
                result.1 is None && result.0.phase == HandshakePhase::SendPayload
            } else if handshake.returning && status == Some(ConnectStatus::ReturningClient) {
                result.1 is None && result.0.phase == HandshakePhase::Recover
            } else {
                result.1 is Some && result.1 != Some(HandshakeEnd::Connected) && result.1 != Some(
                    HandshakeEnd::Recovered,
                )
            }
        },
        handshake.phase == HandshakePhase::ReadInitial && (event matches HandshakeEvent::Packet(
            _,
            kind,
            Ok(response),
        ) && kind == PacketKind::InitialResponse && response is Accepted) ==> result.1 is None
            && result.0.phase == HandshakePhase::Unlimit,
        event is IoFailed || event is TransportFailed || event is LimitFailed ==> (
        result.1 matches Some(HandshakeEnd::Failed(_))) && result.0.phase == HandshakePhase::Done,
{
}

/// A failure after the deadline is told as a timeout, of the operation that
/// ran, and one before it as what it is.
pub proof fn late_failures_are_timeouts(
    time_left: bool,
    operation: &'static str,
    source: String,
    failure: ConnError,
    connecting: ClientError,
    carrying: ClientError,
)
    requires
        call_ensures(connect_error, (time_left, operation, source), connecting),
        call_ensures(transport_error, (time_left, operation, failure), carrying),
    ensures
        !time_left ==> connecting == ClientError::BootstrapTimeout(operation) && carrying
            == connecting,
        time_left ==> connecting == (ClientError::ConnectIo { operation, source }) && carrying
            == ClientError::Transport(failure),
{
}

/// The addresses of an endpoint are tried one after the other, sixteen of
/// them at most, while there is time. A failure names the endpoint and the
/// last cause.
pub proof fn addresses_are_tried_in_order(
    endpoint: &Endpoint,
    addresses: usize,
    tried: usize,
    time_left: bool,
    last_error: Option<String>,
    step: ConnectStep,
)
    requires
        call_ensures(
            connect_endpoint,
            (endpoint, addresses, tried, time_left, last_error),
            step,
        ),
    ensures
        step is Try <==> time_left && tried < addresses && tried < 16,
        step matches ConnectStep::Try(index) ==> index == tried,
        tried < addresses && tried < 16 && !time_left ==> (step matches ConnectStep::Fail(error)
            && error is BootstrapTimeout),
        tried >= addresses || tried >= 16 ==> (step matches ConnectStep::Fail(error)
            && error is UnreachableEndpoint && (last_error matches Some(cause)
            ==> error->UnreachableEndpoint_source@ == cause@)),
{
}

/// An endpoint is shown as it is written: the host, a colon and the port,
/// with brackets round a host that has colons of its own.
pub proof fn endpoints_are_shown_as_written(endpoint: &Endpoint, shown: String)
    requires
        call_ensures(Endpoint::display, (endpoint,), shown),
    ensures
        !endpoint.host@.contains(':') ==> shown@ == endpoint.host@ + (seq![':'] + decimal(
            endpoint.port as nat,
        )),
        endpoint.host@.contains(':') ==> shown@ == seq!['['] + (endpoint.host@ + (seq![']', ':']
            + decimal(endpoint.port as nat))),
{
    reveal_strlit("[");
    reveal_strlit("]:");
    reveal_strlit(":");
    if endpoint.host@.contains(':') {
        assert(shown@ =~= seq!['['] + (endpoint.host@ + (seq![']', ':'] + decimal(
            endpoint.port as nat,
        ))));
    } else {
        assert(shown@ =~= endpoint.host@ + (seq![':'] + decimal(endpoint.port as nat)));
    }
}

/// A new session needs a server that takes it as new, a lost one needs a
/// server that knows it, and a server that no longer knows its key has ended
/// it.
pub proof fn servers_answer_by_status(
    response: ConnectResponse,
    fresh: Result<(), ClientError>,
    again: Result<ReconnectStatus, ClientError>,
)
    requires
        call_ensures(accept_response, (response,), fresh),
        call_ensures(accept_reconnect_response, (response,), again),
    ensures
        fresh is Ok <==> response.status == Some(ConnectStatus::NewClient),
        again == Ok::<ReconnectStatus, ClientError>(ReconnectStatus::Recover) <==> response.status
            == Some(ConnectStatus::ReturningClient),
        again == Ok::<ReconnectStatus, ClientError>(ReconnectStatus::SessionEnded)
            <==> response.status == Some(ConnectStatus::InvalidKey),
        fresh is Ok ==> again is Err,
        response.status == Some(ConnectStatus::MismatchedProtocol) ==> fresh == Err::<
            (),
            ClientError,
        >(ClientError::ProtocolMismatch(response.error)) && again is Err,
        response.status == Some(ConnectStatus::InvalidKey) ==> fresh == Err::<(), ClientError>(
            ClientError::ServerInvalidKey(response.error),
        ),
{
}

/// A session begins without a reverse tunnel only where a configuration asked
/// for it that does not insist on its forwardings.
pub proof fn only_lenient_rows_are_left_out(
    response: InitialResponse,
    origins: &[ForwardOrigin],
    r: Result<(), ClientError>,
    i: int,
)
    requires
        call_ensures(accept_initial_response, (response, origins), r),
    ensures
        response is Accepted ==> r is Ok,
        response is Error || response is MalformedReport ==> r is Err,
        r is Ok && (response matches InitialResponse::Skipped(rows) && 0 <= i < rows@.len()) ==> {
            let row = response->Skipped_0@[i];
            row < origins@.len() && origins@[row as int] == (ForwardOrigin::SshConfig {
                strict: false,
            })
        },
        (response matches InitialResponse::Skipped(rows) && rows@.len() == 0) ==> r is Ok,
        (response matches InitialResponse::Skipped(rows) && rows@.len() == 1 && rows@[0]
            < origins@.len() && origins@[rows@[0] as int] == (ForwardOrigin::SshConfig {
            strict: false,
        })) ==> r is Ok,
{
    if response is Skipped {
        let rows = response->Skipped_0@;
        if r is Ok && 0 <= i < rows.len() {
            assert(optional_row(origins@, rows[i]));
        }
    }
}

/// After the deadline no step of a handshake begins that could wait, and the
/// timeout names it; before it every step may.
pub proof fn late_steps_do_not_begin(
    handshake: &Handshake,
    time_left: bool,
    r: Result<(), ClientError>,
)
    requires
        call_ensures(Handshake::begin, (handshake, time_left), r),
    ensures
        time_left ==> r is Ok,
        !time_left && (handshake.phase == HandshakePhase::LimitSend || handshake.phase
            == HandshakePhase::SendRequest || handshake.phase == HandshakePhase::LimitRead
            || handshake.phase == HandshakePhase::SendPayload || handshake.phase
            == HandshakePhase::ReadInitial || handshake.phase == HandshakePhase::Recover
            || handshake.phase == HandshakePhase::Authenticate) ==> (r matches Err(error)
            && error is BootstrapTimeout),
{
}

/// The time that is left for an operation is the deadline's, and an operation
/// for which none is left fails by its name.
pub proof fn deadlines_bound_operations(
    deadline: Deadline,
    operation: &'static str,
    begun: Result<(), ClientError>,
    time: Result<Duration, ClientError>,
)
    requires
        call_ensures(ensure_deadline, (deadline, operation), begun),
        call_ensures(remaining_time, (deadline, operation), time),
    ensures
        begun is Err ==> begun == Err::<(), ClientError>(ClientError::BootstrapTimeout(operation)),
        time is Err ==> time == Err::<Duration, ClientError>(
            ClientError::BootstrapTimeout(operation),
        ),
        begun is Ok ==> exists|left: Option<Duration>| #[trigger]
            call_ensures(Deadline::remaining, (deadline,), left) && left is Some,
        time is Ok ==> call_ensures(Deadline::remaining, (deadline,), Some(time->Ok_0)),
{
}

} // verus!
