//! What the client and its forwarding configuration can fail with, and what
//! the user reads then.
use vstd::prelude::*;

use crate::terminal_protocol::MAX_ENVIRONMENT;
use crate::text::{decimal_string, signed_decimal_string};

verus! {

/// How an established connection failed.
#[derive(Debug)]
pub enum ConnError {
    /// The socket failed, with the connection's description.
    Io(String),
    /// The replay buffer is full.
    Backpressure,
    /// The stream is no longer trustworthy.
    Protocol(String),
}

#[derive(Debug)]
pub enum ForwardConfigError {
    MissingAgentSocket,
    Tunnel(String),
    InvalidEnvironmentName(String),
    TooManyEnvironmentNames(usize),
    EnvironmentPacketTooLarge { length: usize, limit: usize },
    JumphostPacketTooLarge { length: usize, limit: usize },
}

#[derive(Debug)]
pub enum ClientError {
    Host(String),
    Unsupported(&'static str),
    InvalidSshComponent(&'static str),
    SshSpawn(String),
    SshStdout(String),
    SshWait(String),
    SshTerminate(String),
    SshTimeout(&'static str),
    SshNonZero(Option<i32>),
    SshOutputTooLarge(usize),
    SshConfigMalformed(&'static str),
    SshConfigMalformedForward { directive: &'static str, reason: &'static str },
    InvalidSshConfig(&'static str),
    MissingIdPasskeyMarker,
    MalformedIdPasskeyMarker,
    InvalidSessionId,
    InvalidPasskey,
    DnsTimeout(String),
    DnsWorker(String),
    DnsWorkerPanicked,
    UnreachableEndpoint { endpoint: String, source: String },
    BootstrapTimeout(&'static str),
    ConnectIo { operation: &'static str, source: String },
    ServerInvalidKey(Option<String>),
    ProtocolMismatch(Option<String>),
    ReturningSessionRequiresRecovery,
    ServerRejected { status: Option<i32>, message: Option<String> },
    Transport(ConnError),
    UnexpectedInitialPacket(u8),
    MalformedInitialResponse(String),
    InitialResponseRejected(String),
    ForwardConfig(ForwardConfigError),
    Terminal(String),
}

impl ConnError {
    /// The text that describes the failure.
    pub open spec fn text(self) -> Seq<char> {
        match self {
            ConnError::Io(cause) => cause@,
            ConnError::Backpressure => "replay buffer is full"@,
            ConnError::Protocol(cause) => cause@,
        }
    }

    pub fn message(&self) -> (out: String)
        ensures
            out@ == self.text(),
    {
        match self {
            ConnError::Io(cause) => cause.clone(),
            ConnError::Backpressure => "replay buffer is full".to_owned(),
            ConnError::Protocol(cause) => cause.clone(),
        }
    }
}

impl ForwardConfigError {
    /// The text that describes the failure.
    pub open spec fn text(self) -> Seq<char> {
        match self {
            ForwardConfigError::MissingAgentSocket =>
                "Missing environment variable SSH_AUTH_SOCK.  Are you sure you ran ssh-agent first?"@,
            ForwardConfigError::Tunnel(cause) => cause@,
            ForwardConfigError::InvalidEnvironmentName(name) =>
                "invalid reverse-tunnel environment variable name: "@ + name@,
            ForwardConfigError::TooManyEnvironmentNames(count) => "terminal environment has "@
                + crate::text::decimal(count as nat) + " reserved names; maximum is "@
                + crate::text::decimal(MAX_ENVIRONMENT as nat),
            ForwardConfigError::EnvironmentPacketTooLarge { length, limit } =>
                "terminal environment packet needs at least "@ + crate::text::decimal(
                length as nat,
            ) + " bytes; maximum is "@ + crate::text::decimal(limit as nat),
            ForwardConfigError::JumphostPacketTooLarge { length, limit } =>
                "jumphost initialization packet needs at least "@ + crate::text::decimal(
                length as nat,
            ) + " bytes; maximum is "@ + crate::text::decimal(limit as nat),
        }
    }

    pub fn message(&self) -> (out: String)
        ensures
            out@ == self.text(),
    {
        match self {
            ForwardConfigError::MissingAgentSocket =>
                "Missing environment variable SSH_AUTH_SOCK.  Are you sure you ran ssh-agent first?".to_owned(),
            ForwardConfigError::Tunnel(cause) => cause.clone(),
            ForwardConfigError::InvalidEnvironmentName(name) => joined(
                "invalid reverse-tunnel environment variable name: ",
                name.as_str(),
            ),
            ForwardConfigError::TooManyEnvironmentNames(count) => {
                let mut out = joined(
                    "terminal environment has ",
                    decimal_string(*count as u64).as_str(),
                );
                out.append(" reserved names; maximum is ");
                out.append(decimal_string(MAX_ENVIRONMENT as u64).as_str());
                out
            },
            ForwardConfigError::EnvironmentPacketTooLarge { length, limit } => {
                let mut out = joined(
                    "terminal environment packet needs at least ",
                    decimal_string(*length as u64).as_str(),
                );
                out.append(" bytes; maximum is ");
                out.append(decimal_string(*limit as u64).as_str());
                out
            },
            ForwardConfigError::JumphostPacketTooLarge { length, limit } => {
                let mut out = joined(
                    "jumphost initialization packet needs at least ",
                    decimal_string(*length as u64).as_str(),
                );
                out.append(" bytes; maximum is ");
                out.append(decimal_string(*limit as u64).as_str());
                out
            },
        }
    }
}

/// `head` and then `tail`.
pub fn joined(head: &str, tail: &str) -> (out: String)
    ensures
        out@ == head@ + tail@,
{
    let mut out = head.to_owned();
    out.append(tail);
    out
}

/// The server's own words behind a colon, where it sent any.
pub open spec fn remark(message: Option<Seq<char>>) -> Seq<char> {
    match message {
        Some(message) if message.len() > 0 => ": "@ + message,
        _ => Seq::empty(),
    }
}

/// Adds the server's own words to a description.
pub fn write_message(out: &mut String, message: &Option<String>)
    ensures
        final(out)@ == old(out)@ + remark(message.deep_view()),
{
    match message {
        Some(text) => {
            if !text.as_str().is_empty() {
                out.append(": ");
                out.append(text.as_str());
            }
            assert(out@ =~= old(out)@ + remark(message.deep_view()));
        },
        None => {
            assert(out@ =~= old(out)@ + remark(message.deep_view()));
        },
    }
}

impl ClientError {
    /// The text that the user reads.
    pub open spec fn text(self) -> Seq<char> {
        match self {
            ClientError::Host(cause) => cause@,
            ClientError::Unsupported(what) => what@,
            ClientError::InvalidSshComponent(component) => "SSH "@ + component@
                + " must not begin with a hyphen"@,
            ClientError::SshSpawn(cause) => "could not start system ssh: "@ + cause@,
            ClientError::SshStdout(cause) => "could not read system ssh stdout: "@ + cause@,
            ClientError::SshWait(cause) => "could not wait for system ssh: "@ + cause@,
            ClientError::SshTerminate(cause) => "could not terminate timed-out system ssh: "@
                + cause@,
            ClientError::SshTimeout(operation) => "system ssh timed out while "@ + operation@,
            ClientError::SshNonZero(Some(code)) => "system ssh exited with status "@
                + crate::text::signed_decimal(code as int),
            ClientError::SshNonZero(None) => "system ssh terminated without an exit status"@,
            ClientError::SshOutputTooLarge(limit) => "system ssh stdout exceeds the "@
                + crate::text::decimal(limit as nat) + "-byte limit"@,
            ClientError::SshConfigMalformed(field) => "system ssh -G output has no valid "@
                + field@,
            ClientError::SshConfigMalformedForward { directive, reason } =>
                "system ssh -G output has a malformed "@ + directive@ + ": "@ + reason@,
            ClientError::InvalidSshConfig(reason) => "--ssh-config "@ + reason@,
            ClientError::MissingIdPasskeyMarker =>
                "system ssh output is missing the IDPASSKEY marker"@,
            ClientError::MalformedIdPasskeyMarker => "malformed IDPASSKEY marker"@,
            ClientError::InvalidSessionId =>
                "IDPASSKEY session id must be 16 ASCII alphanumeric bytes"@,
            ClientError::InvalidPasskey => "IDPASSKEY passkey must be 32 ASCII alphanumeric bytes"@,
            ClientError::DnsTimeout(endpoint) => "DNS resolution timed out for ET endpoint "@
                + endpoint@,
            ClientError::DnsWorker(cause) => "could not start DNS resolver: "@ + cause@,
            ClientError::DnsWorkerPanicked => "DNS resolver worker terminated unexpectedly"@,
            ClientError::UnreachableEndpoint { endpoint, source } =>
                "could not reach the ET server at "@ + endpoint@ + ": "@ + source@,
            ClientError::BootstrapTimeout(operation) => "ET bootstrap timed out while "@
                + operation@,
            ClientError::ConnectIo { operation, source } => "ET connection failed while "@
                + operation@ + ": "@ + source@,
            ClientError::ServerInvalidKey(message) => "ET server rejected the session key"@
                + remark(message.deep_view()),
            ClientError::ProtocolMismatch(message) => "ET server rejected protocol version 6"@
                + remark(message.deep_view()),
            ClientError::ReturningSessionRequiresRecovery =>
                "server reported a returning session; returning recovery belongs to a live reconnect"@,
            ClientError::ServerRejected { status: Some(status), message } =>
                "ET server rejected the connection"@ + " with status "@
                + crate::text::signed_decimal(status as int) + remark(message.deep_view()),
            ClientError::ServerRejected { status: None, message } =>
                "ET server rejected the connection"@ + remark(message.deep_view()),
            ClientError::Transport(cause) => "encrypted ET transport failed: "@ + cause.text(),
            ClientError::UnexpectedInitialPacket(header) =>
                "expected INITIAL_RESPONSE packet, received header "@ + crate::text::decimal(
                header as nat,
            ),
            ClientError::MalformedInitialResponse(cause) => "malformed INITIAL_RESPONSE: "@
                + cause@,
            ClientError::InitialResponseRejected(message) =>
                "ET server rejected the initial payload: "@ + message@,
            ClientError::ForwardConfig(cause) => cause.text(),
            ClientError::Terminal(message) => message@,
        }
    }

    pub fn message(&self) -> (out: String)
        ensures
            out@ == self.text(),
    {
        match self {
            ClientError::Host(cause) => cause.clone(),
            ClientError::Unsupported(what) => (*what).to_owned(),
            ClientError::InvalidSshComponent(component) => {
                let mut out = joined("SSH ", component);
                out.append(" must not begin with a hyphen");
                out
            },
            ClientError::SshSpawn(cause) => joined("could not start system ssh: ", cause.as_str()),
            ClientError::SshStdout(cause) => joined(
                "could not read system ssh stdout: ",
                cause.as_str(),
            ),
            ClientError::SshWait(cause) => joined(
                "could not wait for system ssh: ",
                cause.as_str(),
            ),
            ClientError::SshTerminate(cause) => joined(
                "could not terminate timed-out system ssh: ",
                cause.as_str(),
            ),
            ClientError::SshTimeout(operation) => joined("system ssh timed out while ", operation),
            ClientError::SshNonZero(Some(code)) => joined(
                "system ssh exited with status ",
                signed_decimal_string(*code).as_str(),
            ),
            ClientError::SshNonZero(None) =>
                "system ssh terminated without an exit status".to_owned(),
            ClientError::SshOutputTooLarge(limit) => {
                let mut out = joined(
                    "system ssh stdout exceeds the ",
                    decimal_string(*limit as u64).as_str(),
                );
                out.append("-byte limit");
                out
            },
            ClientError::SshConfigMalformed(field) => joined(
                "system ssh -G output has no valid ",
                field,
            ),
            ClientError::SshConfigMalformedForward { directive, reason } => {
                let mut out = joined("system ssh -G output has a malformed ", directive);
                out.append(": ");
                out.append(reason);
                out
            },
            ClientError::InvalidSshConfig(reason) => joined("--ssh-config ", reason),
            ClientError::MissingIdPasskeyMarker =>
                "system ssh output is missing the IDPASSKEY marker".to_owned(),
            ClientError::MalformedIdPasskeyMarker => "malformed IDPASSKEY marker".to_owned(),
            ClientError::InvalidSessionId =>
                "IDPASSKEY session id must be 16 ASCII alphanumeric bytes".to_owned(),
            ClientError::InvalidPasskey =>
                "IDPASSKEY passkey must be 32 ASCII alphanumeric bytes".to_owned(),
            ClientError::DnsTimeout(endpoint) => joined(
                "DNS resolution timed out for ET endpoint ",
                endpoint.as_str(),
            ),
            ClientError::DnsWorker(cause) => joined(
                "could not start DNS resolver: ",
                cause.as_str(),
            ),
            ClientError::DnsWorkerPanicked =>
                "DNS resolver worker terminated unexpectedly".to_owned(),
            ClientError::UnreachableEndpoint { endpoint, source } => {
                let mut out = joined("could not reach the ET server at ", endpoint.as_str());
                out.append(": ");
                out.append(source.as_str());
                out
            },
            ClientError::BootstrapTimeout(operation) => joined(
                "ET bootstrap timed out while ",
                operation,
            ),
            ClientError::ConnectIo { operation, source } => {
                let mut out = joined("ET connection failed while ", operation);
                out.append(": ");
                out.append(source.as_str());
                out
            },
            ClientError::ServerInvalidKey(message) => {
                let mut out = "ET server rejected the session key".to_owned();
                write_message(&mut out, message);
                out
            },
            ClientError::ProtocolMismatch(message) => {
                let mut out = "ET server rejected protocol version 6".to_owned();
                write_message(&mut out, message);
                out
            },
            ClientError::ReturningSessionRequiresRecovery =>
                "server reported a returning session; returning recovery belongs to a live reconnect".to_owned(),
            ClientError::ServerRejected { status: Some(status), message } => {
                let mut out = joined("ET server rejected the connection", " with status ");
                out.append(signed_decimal_string(*status).as_str());
                write_message(&mut out, message);
                out
            },
            ClientError::ServerRejected { status: None, message } => {
                let mut out = "ET server rejected the connection".to_owned();
                write_message(&mut out, message);
                out
            },
            ClientError::Transport(cause) => joined(
                "encrypted ET transport failed: ",
                cause.message().as_str(),
            ),
            ClientError::UnexpectedInitialPacket(header) => joined(
                "expected INITIAL_RESPONSE packet, received header ",
                decimal_string(*header as u64).as_str(),
            ),
            ClientError::MalformedInitialResponse(cause) => joined(
                "malformed INITIAL_RESPONSE: ",
                cause.as_str(),
            ),
            ClientError::InitialResponseRejected(message) => joined(
                "ET server rejected the initial payload: ",
                message.as_str(),
            ),
            ClientError::ForwardConfig(cause) => cause.message(),
            ClientError::Terminal(message) => message.clone(),
        }
    }

    /// The exit status of a client that fails with this error: 2 for a
    /// request that it does not support, 1 for any other failure.
    pub fn exit_code(&self) -> (code: i32)
        ensures
            code == (if self is Unsupported {
                2int
            } else {
                1
            }),
    {
        match self {
            ClientError::Unsupported(_) => 2,
            _ => 1,
        }
    }

    /// Failures of the network that may pass, so that a reconnect is tried
    /// again. What a server answered, and what is wrong with the session
    /// itself, does not pass.
    pub open spec fn passes(self) -> bool {
        ||| self is DnsTimeout
        ||| self is UnreachableEndpoint
        ||| self is BootstrapTimeout
        ||| self is ConnectIo
        ||| self matches ClientError::Transport(ConnError::Io(_))
    }

    pub fn is_transient_reconnect(&self) -> (r: bool)
        ensures
            r == self.passes(),
    {
        match self {
            ClientError::DnsTimeout(_) => true,
            ClientError::UnreachableEndpoint { .. } => true,
            ClientError::BootstrapTimeout(_) => true,
            ClientError::ConnectIo { .. } => true,
            ClientError::Transport(ConnError::Io(_)) => true,
            _ => false,
        }
    }
}

/// Lost connections and late answers pass; what another attempt would meet
/// again does not.
pub proof fn lost_connections_pass(error: &ClientError, r: bool)
    requires
        call_ensures(ClientError::is_transient_reconnect, (error,), r),
    ensures
        error is ConnectIo || error is DnsTimeout || error is BootstrapTimeout
            || error is UnreachableEndpoint ==> r,
        (*error) matches ClientError::Transport(fault) ==> r == (fault is Io),
        r ==> error is ConnectIo || error is DnsTimeout || error is BootstrapTimeout
            || error is UnreachableEndpoint || error is Transport,
{
}

} // verus!
