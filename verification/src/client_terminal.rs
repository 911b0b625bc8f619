//! The client's side of a terminal session: how it opens, what server packets
//! do, and how it survives a broken transport.
use vstd::prelude::*;
use vstd::utf8::encode_utf8;

use crate::bytes::{append_bytes, bytes_of};
use crate::initial_connect::ReconnectOutcome;
use crate::error::{joined, ClientError, ConnError};
use crate::terminal_modes::{asks_cursor_report, contains_cursor_report_request};
use crate::terminal_protocol::{FlowControlMode, PacketKind, TerminalInfo};
use crate::text::{chars_of, find_char};

verus! {

/// The shell on the far side of a session.
#[derive(Debug, Clone, Copy, PartialEq, Eq, Structural)]
pub enum RemoteShellKind {
    Posix,
    Cmd,
    Powershell,
}

/// Line grammar of the shell on the far side of the session.
#[derive(Debug, Clone, Copy, PartialEq, Eq, Structural)]
pub enum RemoteLines {
    /// POSIX shell: `<cmd>; exit\n`.
    Posix,
    /// `cmd.exe`: commands are separated with `&` and lines end with CRLF.
    Cmd,
    /// PowerShell: `;` separator, CRLF line ending.
    Powershell,
}

impl Default for RemoteLines {
    fn default() -> (lines: RemoteLines)
        ensures
            lines == RemoteLines::Posix,
    {
        RemoteLines::Posix
    }
}

impl From<RemoteShellKind> for RemoteLines {
    fn from(kind: RemoteShellKind) -> (lines: RemoteLines) {
        match kind {
            RemoteShellKind::Posix => RemoteLines::Posix,
            RemoteShellKind::Cmd => RemoteLines::Cmd,
            RemoteShellKind::Powershell => RemoteLines::Powershell,
        }
    }
}

impl vstd::std_specs::convert::FromSpecImpl<RemoteShellKind> for RemoteLines {
    open spec fn obeys_from_spec() -> bool {
        true
    }

    open spec fn from_spec(kind: RemoteShellKind) -> RemoteLines {
        match kind {
            RemoteShellKind::Posix => RemoteLines::Posix,
            RemoteShellKind::Cmd => RemoteLines::Cmd,
            RemoteShellKind::Powershell => RemoteLines::Powershell,
        }
    }
}

/// Everything the terminal loop needs besides the connection itself.
#[derive(Debug, Clone, Copy)]
pub struct TerminalOptions<'a> {
    pub command: Option<&'a str>,
    pub no_exit: bool,
    pub keepalive: u32,
    pub flow_control: FlowControlMode,
    pub terminal_enabled: bool,
    pub lines: RemoteLines,
    pub connection_name: &'a str,
    pub close_on_hangup: bool,
}

// Opening.

/// How a session treats the local terminal.
#[derive(Debug, Clone, Copy)]
pub struct SessionPlan {
    /// The terminal is put into raw mode.
    pub raw: bool,
    /// The end of the session is announced.
    pub announce_close: bool,
    pub read_stdin: bool,
    /// Nothing local answers a cursor-position request, so the client does.
    pub auto_cursor_report: bool,
}

/// Plans a session for a standard input and output that are terminals or not.
pub fn plan_session(options: &TerminalOptions<'_>, stdin_terminal: bool, stdout_terminal: bool) -> (
plan: SessionPlan)
    ensures
        plan.raw == (options.terminal_enabled && stdin_terminal && stdout_terminal),
        plan.announce_close == (plan.raw && options.command is None),
        plan.read_stdin == (options.terminal_enabled && (options.command is None
            || stdin_terminal)),
        plan.auto_cursor_report == (options.command is Some || !stdout_terminal || !stdin_terminal),
{
    let interactive = options.command.is_none();
    let raw = options.terminal_enabled && stdin_terminal && stdout_terminal;
    SessionPlan {
        raw,
        announce_close: raw && interactive,
        read_stdin: options.terminal_enabled && (interactive || stdin_terminal),
        auto_cursor_report: !interactive || !stdout_terminal || !stdin_terminal,
    }
}

/// The line that announces the end of a session that ended well.
pub open spec fn closing_line(name: Seq<char>) -> Seq<char> {
    "Connection to "@ + name + " closed."@
}

/// What is written at the end of a session.
pub fn farewell(plan: &SessionPlan, name: &str, ended_well: bool) -> (r: Option<String>)
    ensures
        match r {
            Some(line) => plan.announce_close && ended_well && line@ == closing_line(name@),
            None => !(plan.announce_close && ended_well),
        },
{
    if plan.announce_close && ended_well {
        let mut line = joined("Connection to ", name);
        line.append(" closed.");
        Some(line)
    } else {
        None
    }
}

/// What a session does before its packets flow both ways.
#[derive(Debug, Clone, Copy, PartialEq, Eq, Structural)]
pub enum Opening {
    SendSize,
    SendCommand,
    Pump,
}

/// The step after `done`, or the first one. A session without a terminal
/// sends neither its size nor a command.
pub open spec fn opening_after(
    terminal_enabled: bool,
    command: bool,
    done: Option<Opening>,
) -> Opening {
    match done {
        None if terminal_enabled => Opening::SendSize,
        Some(Opening::SendSize) if terminal_enabled && command => Opening::SendCommand,
        _ => Opening::Pump,
    }
}

pub fn next_opening(options: &TerminalOptions<'_>, done: Option<Opening>) -> (next: Opening)
    ensures
        next == opening_after(options.terminal_enabled, options.command is Some, done),
{
    match done {
        None => {
            if options.terminal_enabled {
                Opening::SendSize
            } else {
                Opening::Pump
            }
        },
        Some(Opening::SendSize) => {
            if options.terminal_enabled && options.command.is_some() {
                Opening::SendCommand
            } else {
                Opening::Pump
            }
        },
        Some(_) => Opening::Pump,
    }
}

/// What ends a command line: a line ending that the remote shell knows, and
/// an exit before it unless the session is to stay.
pub open spec fn command_suffix(lines: RemoteLines, no_exit: bool) -> Seq<char> {
    match (lines, no_exit) {
        (RemoteLines::Posix, true) => "\n"@,
        (RemoteLines::Posix, false) => "; exit\n"@,
        (RemoteLines::Cmd, true) => "\r\n"@,
        (RemoteLines::Cmd, false) => " & exit\r\n"@,
        (RemoteLines::Powershell, true) => "\r\n"@,
        (RemoteLines::Powershell, false) => "; exit\r\n"@,
    }
}

/// How many bytes a command may hold.
pub const MAX_COMMAND: usize = 65_536;

/// A command that can be sent.
pub open spec fn sendable_command(command: Seq<char>) -> bool {
    !command.contains('\0') && encode_utf8(command).len() <= MAX_COMMAND
}

/// The input that runs a command in the remote shell.
pub fn command_payload(command: &str, no_exit: bool, lines: RemoteLines) -> (r: Result<
    Vec<u8>,
    ClientError,
>)
    ensures
        match r {
            Ok(bytes) => sendable_command(command@) && bytes@ == encode_utf8(command@)
                + encode_utf8(command_suffix(lines, no_exit)),
            Err(error) => !sendable_command(command@) && says(
                error,
                "remote command is invalid or too large"@,
            ),
        },
{
    let chars = chars_of(command);
    if find_char(chars.as_slice(), '\0') < chars.len() || command.as_bytes().len() > MAX_COMMAND {
        return Err(terminal_text("remote command is invalid or too large"));
    }
    let suffix = match (lines, no_exit) {
        (RemoteLines::Posix, true) => "\n",
        (RemoteLines::Posix, false) => "; exit\n",
        (RemoteLines::Cmd, true) => "\r\n",
        (RemoteLines::Cmd, false) => " & exit\r\n",
        (RemoteLines::Powershell, true) => "\r\n",
        (RemoteLines::Powershell, false) => "; exit\r\n",
    };
    let mut bytes = bytes_of(command.as_bytes());
    append_bytes(&mut bytes, suffix.as_bytes());
    Ok(bytes)
}

/// The size to send, where the output is a terminal and told its columns and
/// rows. A size that could not be observed is not sent.
pub fn terminal_size_message(is_terminal: bool, size: Option<(u16, u16)>) -> (r: Option<
    TerminalInfo,
>)
    ensures
        match size {
            Some((columns, rows)) if is_terminal => r matches Some(info) && info.row == Some(
                rows as i32,
            ) && info.column == Some(columns as i32) && info.width == Some(0i32) && info.height
                == Some(0i32),
            _ => r is None,
        },
{
    match size {
        Some((columns, rows)) => {
            if is_terminal {
                Some(
                    TerminalInfo {
                        row: Some(rows as i32),
                        column: Some(columns as i32),
                        width: Some(0),
                        height: Some(0),
                    },
                )
            } else {
                None
            }
        },
        None => None,
    }
}

// Server packets.

/// What a server packet does to the console.
#[derive(Debug)]
pub enum Display {
    /// These bytes are shown. `cursor_report` says that they ask where the
    /// cursor is.
    Show { bytes: Vec<u8>, cursor_report: bool },
    /// Nothing is shown.
    Nothing,
}

/// What the payload of a server packet decodes to.
#[derive(Debug)]
pub enum ServerMessage {
    /// The decoder's description.
    Malformed(String),
    Buffer(Option<Vec<u8>>),
    /// A payload that is not looked at.
    Opaque,
}

/// Decides what a packet of a session with a terminal shows.
pub fn display_packet(kind: PacketKind, message: ServerMessage) -> (r: Result<Display, ClientError>)
    ensures
        match kind {
            PacketKind::TerminalBuffer => match message {
                ServerMessage::Buffer(Some(shown)) => r matches Ok(
                    Display::Show { bytes, cursor_report },
                ) && bytes == shown && cursor_report == asks_cursor_report(shown@),
                ServerMessage::Malformed(cause) => r matches Err(ClientError::Terminal(text))
                    && text@ == "decoding terminal output"@ + ": "@ + cause@,
                _ => r matches Err(ClientError::Terminal(text)) && text@
                    == "terminal output is missing bytes"@,
            },
            PacketKind::KeepAlive => r == Ok::<Display, ClientError>(Display::Nothing),
            _ => r matches Err(ClientError::Terminal(text)) && text@
                == "server sent an unsupported terminal packet"@,
        },
{
    match kind {
        PacketKind::TerminalBuffer => match message {
            ServerMessage::Buffer(Some(bytes)) => {
                let cursor_report = contains_cursor_report_request(bytes.as_slice());
                Ok(Display::Show { bytes, cursor_report })
            },
            ServerMessage::Malformed(cause) => Err(
                terminal_io("decoding terminal output", cause.as_str()),
            ),
            _ => Err(terminal_text("terminal output is missing bytes")),
        },
        PacketKind::KeepAlive => Ok(Display::Nothing),
        _ => Err(terminal_text("server sent an unsupported terminal packet")),
    }
}

/// Decides what a server packet shows. Without a terminal its output is
/// dropped.
pub fn route_server_packet(
    kind: PacketKind,
    message: ServerMessage,
    terminal_enabled: bool,
) -> (r: Result<Display, ClientError>)
    ensures
        if terminal_enabled || kind == PacketKind::KeepAlive {
            call_ensures(display_packet, (kind, message), r)
        } else if kind == PacketKind::TerminalBuffer {
            r == Ok::<Display, ClientError>(Display::Nothing)
        } else {
            r matches Err(ClientError::Terminal(text)) && text@
                == "server sent an unsupported no-terminal packet"@
        },
{
    if terminal_enabled {
        return display_packet(kind, message);
    }
    match kind {
        PacketKind::KeepAlive => display_packet(kind, message),
        PacketKind::TerminalBuffer => Ok(Display::Nothing),
        _ => Err(terminal_text("server sent an unsupported no-terminal packet")),
    }
}

// The transport.

/// Errors that mean the TCP transport is no longer usable and the session
/// must reconnect rather than exit.
///
/// A stale TCP flow after sleep may be reported as a timeout, and not as its
/// end. There is no actionable socket failure for the terminal loop: the
/// connection state is preserved, so every socket error enters recovery.
/// Other errors remain fatal.
pub fn connection_ended(error: &ConnError) -> (r: bool)
    ensures
        r == (error is Io),
{
    match error {
        ConnError::Io(_) => true,
        _ => false,
    }
}

/// What becomes of a session after a write.
#[derive(Debug)]
pub enum Recovery {
    /// It goes on.
    Ready,
    /// The transport has to be recovered first. The connection replays what
    /// was written, so that the write is not repeated.
    Recover,
    Fail(ClientError),
}

/// Decides what the outcome of an initial write means.
pub fn recover_initial_transport(result: Result<(), ClientError>) -> (step: Recovery)
    ensures
        step == match result {
            Ok(()) => Recovery::Ready,
            Err(ClientError::Transport(ConnError::Io(_))) => Recovery::Recover,
            Err(error) => Recovery::Fail(error),
        },
{
    match result {
        Ok(()) => Recovery::Ready,
        Err(ClientError::Transport(ConnError::Io(_))) => Recovery::Recover,
        Err(error) => Recovery::Fail(error),
    }
}

/// What happened while a transport is recovered.
#[derive(Debug)]
pub enum RecoveryEvent {
    /// Recovery begins.
    Begin,
    Reconnected(Result<ReconnectOutcome, ClientError>),
    /// The terminal size was sent, or not.
    SizeSent(Result<(), ClientError>),
}

/// What to do to recover a transport.
#[derive(Debug)]
pub enum RecoveryAction {
    Reconnect,
    SendSize,
    /// `true` for a recovered session, `false` for one that ended.
    Done(bool),
    Fail(ClientError),
}

/// Recover a broken live transport, one step at a time. One that fails again
/// while its first packet is sent is recovered again: after a laptop wakes,
/// the network can be there just long enough for a reconnect.
pub fn recover_transport(event: RecoveryEvent, send_terminal_size: bool) -> (action: RecoveryAction)
    ensures
        action == match event {
            RecoveryEvent::Begin => RecoveryAction::Reconnect,
            RecoveryEvent::Reconnected(Err(error)) => RecoveryAction::Fail(error),
            RecoveryEvent::Reconnected(Ok(ReconnectOutcome::SessionEnded)) => RecoveryAction::Done(
                false,
            ),
            RecoveryEvent::Reconnected(Ok(ReconnectOutcome::Recovered)) => if send_terminal_size {
                RecoveryAction::SendSize
            } else {
                RecoveryAction::Done(true)
            },
            RecoveryEvent::SizeSent(Ok(())) => RecoveryAction::Done(true),
            RecoveryEvent::SizeSent(Err(ClientError::Transport(ConnError::Io(_)))) =>
                RecoveryAction::Reconnect,
            RecoveryEvent::SizeSent(Err(error)) => RecoveryAction::Fail(error),
        },
{
    match event {
        RecoveryEvent::Begin => RecoveryAction::Reconnect,
        RecoveryEvent::Reconnected(Err(error)) => RecoveryAction::Fail(error),
        RecoveryEvent::Reconnected(Ok(ReconnectOutcome::SessionEnded)) => RecoveryAction::Done(
            false,
        ),
        RecoveryEvent::Reconnected(Ok(ReconnectOutcome::Recovered)) => {
            if send_terminal_size {
                RecoveryAction::SendSize
            } else {
                RecoveryAction::Done(true)
            }
        },
        RecoveryEvent::SizeSent(Ok(())) => RecoveryAction::Done(true),
        RecoveryEvent::SizeSent(Err(ClientError::Transport(ConnError::Io(_)))) =>
            RecoveryAction::Reconnect,
        RecoveryEvent::SizeSent(Err(error)) => RecoveryAction::Fail(error),
    }
}

/// A packet write that failed, and who owns the packet now.
#[derive(Debug)]
pub enum WritePacketError {
    /// The packet was lost before the connection kept it.
    BeforeReplay(ConnError),
    /// The connection kept it, and replays it after a recovery.
    ReplayOwned(ConnError),
}

/// What may be done again with a packet that was lost.
#[derive(Debug, Clone, Copy, PartialEq, Eq, Structural)]
pub enum OwnedWritePolicy {
    /// It is written again, once the transport is recovered.
    RetryAfterRecovery,
    /// Recovery sends the present terminal size itself; the old one is stale.
    ReplaceableTerminalSize,
}

/// What follows a packet write.
#[derive(Debug)]
pub enum OwnedWriteStep {
    Written,
    /// Recover the transport. `again` says that the packet is then written
    /// once more.
    Recover { again: bool },
    Fail(ClientError),
}

/// Decides what follows a packet write, so that no packet is lost and none is
/// sent twice.
pub fn write_owned_with_policy(
    result: Result<(), WritePacketError>,
    policy: OwnedWritePolicy,
) -> (step: OwnedWriteStep)
    ensures
        match result {
            Ok(()) => step is Written,
            Err(WritePacketError::BeforeReplay(ConnError::Io(_))) => step
                == (OwnedWriteStep::Recover {
                again: policy == OwnedWritePolicy::RetryAfterRecovery,
            }),
            Err(WritePacketError::ReplayOwned(ConnError::Io(_))) => step
                == (OwnedWriteStep::Recover { again: false }),
            Err(WritePacketError::BeforeReplay(error)) => step matches OwnedWriteStep::Fail(
                ClientError::Terminal(text),
            ) && text@ == "terminal transport"@ + ": "@ + error.text(),
            Err(WritePacketError::ReplayOwned(error)) => step matches OwnedWriteStep::Fail(
                ClientError::Terminal(text),
            ) && text@ == "terminal transport"@ + ": "@ + error.text(),
        },
{
    match result {
        Ok(()) => OwnedWriteStep::Written,
        Err(WritePacketError::BeforeReplay(error)) => {
            if connection_ended(&error) {
                OwnedWriteStep::Recover {
                    again: policy == OwnedWritePolicy::RetryAfterRecovery,
                }
            } else {
                OwnedWriteStep::Fail(terminal_error(&error))
            }
        },
        Err(WritePacketError::ReplayOwned(error)) => {
            if connection_ended(&error) {
                OwnedWriteStep::Recover { again: false }
            } else {
                OwnedWriteStep::Fail(terminal_error(&error))
            }
        },
    }
}

// Completion.

/// Packets that a session still holds when the remote side has ended it.
#[derive(Debug)]
pub struct RetainedCompletion<P> {
    pub terminal: Option<P>,
    pub forwarding: Option<P>,
}

impl<P> RetainedCompletion<P> {
    pub fn new(terminal: Option<P>, forwarding: Option<P>) -> (retained: Self)
        ensures
            retained.terminal == terminal,
            retained.forwarding == forwarding,
    {
        RetainedCompletion { terminal, forwarding }
    }

    /// Whether terminal output is still held.
    pub fn terminal_pending(&self) -> (r: bool)
        ensures
            r == (self.terminal is Some),
    {
        self.terminal.is_some()
    }

    /// Offers each held packet once, the terminal output first. The result is
    /// `true` when nothing is held any more.
    pub fn advance<T, F>(&mut self, terminal: T, forwarding: F) -> (r: Result<bool, ClientError>)
        where
            T: FnOnce(P) -> Result<Option<P>, ClientError>,
            F: FnOnce(P) -> Result<Option<P>, ClientError>,

        requires
            old(self).terminal matches Some(packet) ==> call_requires(terminal, (packet,)),
            old(self).forwarding matches Some(packet) ==> call_requires(forwarding, (packet,)),
        ensures
            old(self).terminal is None ==> final(self).terminal is None,
            r matches Ok(done) ==> {
                &&& done == (final(self).terminal is None && final(self).forwarding is None)
                &&& old(self).terminal matches Some(packet) ==> call_ensures(
                    terminal,
                    (packet,),
                    Ok(final(self).terminal),
                )
                &&& old(self).forwarding matches Some(packet) ==> call_ensures(
                    forwarding,
                    (packet,),
                    Ok(final(self).forwarding),
                )
                &&& old(self).forwarding is None ==> final(self).forwarding is None
            },
            r matches Err(error) ==> {
                ||| {
                    &&& old(self).terminal matches Some(packet)
                    &&& call_ensures(terminal, (packet,), Err(error))
                    &&& final(self).terminal is None
                    &&& final(self).forwarding == old(self).forwarding
                }
                ||| {
                    &&& old(self).forwarding matches Some(packet)
                    &&& call_ensures(forwarding, (packet,), Err(error))
                    &&& final(self).forwarding is None
                    &&& old(self).terminal matches Some(first) ==> call_ensures(
                        terminal,
                        (first,),
                        Ok(final(self).terminal),
                    )
                }
            },
    {
        match self.terminal.take() {
            Some(packet) => match terminal(packet) {
                Ok(back) => {
                    self.terminal = back;
                },
                Err(error) => {
                    return Err(error);
                },
            },
            None => {},
        }
        match self.forwarding.take() {
            Some(packet) => match forwarding(packet) {
                Ok(back) => {
                    self.forwarding = back;
                },
                Err(error) => {
                    return Err(error);
                },
            },
            None => {},
        }
        Ok(self.terminal.is_none() && self.forwarding.is_none())
    }
}

/// A session that ends while forwarded data is still on its way out did not
/// end well.
pub fn classify_forward_completion(outbound_held: bool, outbound_queued: bool) -> (r: Result<
    (),
    ClientError,
>)
    ensures
        match r {
            Ok(()) => !outbound_held && !outbound_queued,
            Err(error) => (outbound_held || outbound_queued) && says(
                error,
                "session ended with undelivered forwarding data"@,
            ),
        },
{
    if outbound_held || outbound_queued {
        return Err(terminal_text("session ended with undelivered forwarding data"));
    }
    Ok(())
}

/// What happens while retained packets are finished.
#[derive(Debug, Clone, Copy, PartialEq, Eq, Structural)]
pub struct CompletionLook {
    /// Nothing is held any more.
    pub finished: bool,
    /// Terminal output is held.
    pub terminal_pending: bool,
    /// The writer got something out since the last look.
    pub progressed: bool,
    /// The stall timeout passed without that.
    pub expired: bool,
    /// A forwarding packet is on its way out.
    pub outbound: bool,
}

#[derive(Debug, Clone, Copy, PartialEq, Eq, Structural)]
pub enum CompletionStep {
    /// Shut forwarding down, and drain the output.
    Drain,
    /// Shut forwarding down, and cancel the output.
    Cancel,
    /// Shut forwarding down, and fail for the packet that is on its way out.
    Abandon,
    /// Look again a little later, the stall timeout starting anew.
    Restart,
    /// Look again a little later.
    Wait,
}

/// Decides how the retained packets of an ended session are finished.
pub open spec fn completion_step(look: CompletionLook) -> CompletionStep {
    if look.finished {
        CompletionStep::Drain
    } else if look.terminal_pending && !look.progressed && look.expired {
        CompletionStep::Cancel
    } else if look.outbound {
        CompletionStep::Abandon
    } else if look.terminal_pending && look.progressed {
        CompletionStep::Restart
    } else {
        CompletionStep::Wait
    }
}

pub fn finish_remote_completion(look: CompletionLook) -> (step: CompletionStep)
    ensures
        step == completion_step(look),
{
    if look.finished {
        CompletionStep::Drain
    } else if look.terminal_pending && !look.progressed && look.expired {
        CompletionStep::Cancel
    } else if look.outbound {
        CompletionStep::Abandon
    } else if look.terminal_pending && look.progressed {
        CompletionStep::Restart
    } else {
        CompletionStep::Wait
    }
}

// Descriptions.

/// Whether an error is of the terminal session and says just this.
pub open spec fn says(error: ClientError, text: Seq<char>) -> bool {
    error matches ClientError::Terminal(message) && message@ == text
}

/// Why a loop fails: an error that it was handed, or one of its own, by what
/// that says.
pub enum Failure {
    Given(ClientError),
    Terminal(Seq<char>),
}

/// Whether an error is the one that a loop fails with.
pub open spec fn is_failure(error: ClientError, failure: Failure) -> bool {
    match failure {
        Failure::Given(given) => error == given,
        Failure::Terminal(text) => says(error, text),
    }
}

pub fn terminal_error(error: &ConnError) -> (r: ClientError)
    ensures
        r matches ClientError::Terminal(text) && text@ == "terminal transport"@ + ": "@
            + error.text(),
{
    terminal_io("terminal transport", error.message().as_str())
}

pub fn terminal_io(operation: &str, cause: &str) -> (r: ClientError)
    ensures
        r matches ClientError::Terminal(text) && text@ == operation@ + ": "@ + cause@,
{
    let mut text = joined(operation, ": ");
    text.append(cause);
    ClientError::Terminal(text)
}

pub fn terminal_text(message: &str) -> (r: ClientError)
    ensures
        r matches ClientError::Terminal(text) && text@ == message@,
{
    ClientError::Terminal(message.to_owned())
}

// What a session is for.

/// The local terminal is raw only where both of its ends are one and the
/// session wants a terminal. Input is read unless a command runs that no
/// terminal talks to.
pub proof fn plans_fit_the_terminal(
    options: &TerminalOptions<'_>,
    stdin_terminal: bool,
    stdout_terminal: bool,
    plan: SessionPlan,
)
    requires
        call_ensures(plan_session, (options, stdin_terminal, stdout_terminal), plan),
    ensures
        plan.raw ==> stdin_terminal && stdout_terminal && options.terminal_enabled,
        stdin_terminal && stdout_terminal && options.terminal_enabled ==> plan.raw
            && plan.read_stdin,
        !options.terminal_enabled ==> !plan.raw && !plan.read_stdin && !plan.announce_close,
        options.terminal_enabled && options.command is None ==> plan.read_stdin,
        options.terminal_enabled && options.command is Some && !stdin_terminal ==> !plan.read_stdin,
        plan.announce_close ==> plan.raw && options.command is None,
        !plan.auto_cursor_report ==> stdin_terminal && stdout_terminal && options.command is None,
{
}

/// A session says good-bye by its name, and only one that ended well.
pub proof fn farewells_name_the_session(
    plan: &SessionPlan,
    name: &str,
    ended_well: bool,
    r: Option<String>,
)
    requires
        call_ensures(farewell, (plan, name, ended_well), r),
    ensures
        r is Some <==> plan.announce_close && ended_well,
        r matches Some(line) ==> line@.len() > name@.len() && line@.subrange(
            14,
            14 + name@.len() as int,
        ) == name@,
{
    reveal_strlit("Connection to ");
    reveal_strlit(" closed.");
    if let Some(line) = r {
        assert(line@.subrange(14, 14 + name@.len() as int) =~= name@);
    }
}

/// A terminal's size is sent before its command, and both before packets flow
/// both ways; without a terminal there is neither.
pub proof fn openings_come_in_order(
    options: &TerminalOptions<'_>,
    done: Option<Opening>,
    next: Opening,
)
    requires
        call_ensures(next_opening, (options, done), next),
    ensures
        !options.terminal_enabled ==> next == Opening::Pump,
        options.terminal_enabled && done is None ==> next == Opening::SendSize,
        options.terminal_enabled && done == Some(Opening::SendSize) ==> next
            == if options.command is Some {
            Opening::SendCommand
        } else {
            Opening::Pump
        },
        done == Some(Opening::SendCommand) || done == Some(Opening::Pump) ==> next == Opening::Pump,
{
}

/// What is sent of a command is the command and then the end of its line, in
/// the grammar of the shell; a shell that shall leave is told to exit in
/// between.
pub proof fn commands_are_sent_whole(
    command: &str,
    no_exit: bool,
    lines: RemoteLines,
    r: Result<Vec<u8>, ClientError>,
)
    requires
        call_ensures(command_payload, (command, no_exit, lines), r),
    ensures
        r is Ok <==> !command@.contains('\0') && encode_utf8(command@).len() <= 65_536,
        r matches Ok(bytes) ==> encode_utf8(command@).is_prefix_of(bytes@),
        r is Ok && no_exit && lines == RemoteLines::Posix ==> r->Ok_0@ == encode_utf8(command@)
            + encode_utf8("\n"@),
        r is Ok && no_exit && lines != RemoteLines::Posix ==> r->Ok_0@ == encode_utf8(command@)
            + encode_utf8("\r\n"@),
        r is Ok && !no_exit && lines == RemoteLines::Posix ==> r->Ok_0@ == encode_utf8(command@)
            + encode_utf8("; exit\n"@),
        r is Ok && !no_exit && lines == RemoteLines::Cmd ==> r->Ok_0@ == encode_utf8(command@)
            + encode_utf8(" & exit\r\n"@),
        r is Ok && !no_exit && lines == RemoteLines::Powershell ==> r->Ok_0@ == encode_utf8(
            command@,
        ) + encode_utf8("; exit\r\n"@),
{
    if let Ok(bytes) = r {
        let sent = encode_utf8(command@);
        assert(sent =~= bytes@.subrange(0, sent.len() as int));
    }
}

/// A size is told as rows and columns, each under its name.
pub proof fn sizes_are_told(
    is_terminal: bool,
    columns: u16,
    rows: u16,
    r: Option<TerminalInfo>,
)
    requires
        call_ensures(terminal_size_message, (is_terminal, Some((columns, rows))), r),
    ensures
        r is Some <==> is_terminal,
        r matches Some(info) ==> info.row == Some(rows as i32) && info.column == Some(
            columns as i32,
        ),
{
}

/// What the server sends of its terminal is shown as it is, byte by byte. A
/// session without a terminal shows nothing of it. Keep-alives are never
/// shown, and nothing else is understood.
pub proof fn terminal_output_is_shown(
    shown: Vec<u8>,
    terminal_enabled: bool,
    kind: PacketKind,
    message: ServerMessage,
    r: Result<Display, ClientError>,
    other: Result<Display, ClientError>,
)
    requires
        call_ensures(
            route_server_packet,
            (PacketKind::TerminalBuffer, ServerMessage::Buffer(Some(shown)), terminal_enabled),
            r,
        ),
        call_ensures(route_server_packet, (kind, message, terminal_enabled), other),
    ensures
        terminal_enabled ==> (r matches Ok(Display::Show { bytes, cursor_report }) && bytes@
            == shown@ && cursor_report == asks_cursor_report(shown@)),
        !terminal_enabled ==> r == Ok::<Display, ClientError>(Display::Nothing),
        kind == PacketKind::KeepAlive ==> other == Ok::<Display, ClientError>(Display::Nothing),
        kind != PacketKind::KeepAlive && kind != PacketKind::TerminalBuffer ==> other is Err,
        message is Malformed && kind == PacketKind::TerminalBuffer && terminal_enabled
            ==> other is Err,
{
}

/// A connection that broke is recovered and not given up: at the start, and
/// again where the size could not be sent over the new one. A session that
/// the server ended is over, and any other failure is told as it is.
pub proof fn broken_transports_are_recovered(
    source: String,
    step: Recovery,
    send_size: bool,
    begun: RecoveryAction,
    again: RecoveryAction,
    ended: RecoveryAction,
    recovered: RecoveryAction,
    error: ClientError,
    failed: RecoveryAction,
)
    requires
        call_ensures(
            recover_initial_transport,
            (Err(ClientError::Transport(ConnError::Io(source))),),
            step,
        ),
        call_ensures(recover_transport, (RecoveryEvent::Begin, send_size), begun),
        call_ensures(
            recover_transport,
            (
                RecoveryEvent::SizeSent(Err(ClientError::Transport(ConnError::Io(source)))),
                send_size,
            ),
            again,
        ),
        call_ensures(
            recover_transport,
            (RecoveryEvent::Reconnected(Ok(ReconnectOutcome::SessionEnded)), send_size),
            ended,
        ),
        call_ensures(
            recover_transport,
            (RecoveryEvent::Reconnected(Ok(ReconnectOutcome::Recovered)), send_size),
            recovered,
        ),
        call_ensures(
            recover_transport,
            (RecoveryEvent::Reconnected(Err(error)), send_size),
            failed,
        ),
    ensures
        step == Recovery::Recover,
        begun == RecoveryAction::Reconnect && again == RecoveryAction::Reconnect,
        ended == RecoveryAction::Done(false),
        send_size ==> recovered == RecoveryAction::SendSize,
        !send_size ==> recovered == RecoveryAction::Done(true),
        failed == RecoveryAction::Fail(error),
{
}

/// A packet that the connection had not taken over when it broke is sent
/// again where that is wanted; one that it had taken over is never sent
/// twice. Other failures end the session.
pub proof fn owned_packets_are_sent_once(
    result: Result<(), WritePacketError>,
    policy: OwnedWritePolicy,
    step: OwnedWriteStep,
)
    requires
        call_ensures(write_owned_with_policy, (result, policy), step),
    ensures
        result is Ok <==> step is Written,
        (result matches Err(WritePacketError::ReplayOwned(error)) && error is Io) ==> step
            == (OwnedWriteStep::Recover { again: false }),
        (result matches Err(WritePacketError::BeforeReplay(error)) && error is Io) ==> (
        step matches OwnedWriteStep::Recover { again } && (again <==> policy
            == OwnedWritePolicy::RetryAfterRecovery)),
        (result matches Err(WritePacketError::ReplayOwned(error)) && !(error is Io))
            ==> step is Fail,
        (result matches Err(WritePacketError::BeforeReplay(error)) && !(error is Io))
            ==> step is Fail,
{
}

/// A session that ends with forwarded data on its hands says so.
pub proof fn undelivered_data_is_told(held: bool, queued: bool, r: Result<(), ClientError>)
    requires
        call_ensures(classify_forward_completion, (held, queued), r),
    ensures
        r is Ok <==> !held && !queued,
{
}

/// Output that still makes progress after the end of a session is waited for;
/// a console that stalls for its time is cancelled, and never one that moves.
pub proof fn moving_consoles_are_waited_for(look: CompletionLook, step: CompletionStep)
    requires
        call_ensures(finish_remote_completion, (look,), step),
    ensures
        step == CompletionStep::Drain <==> look.finished,
        step == CompletionStep::Cancel ==> look.expired && !look.progressed
            && look.terminal_pending,
        !look.finished && look.terminal_pending && !look.progressed && look.expired ==> step
            == CompletionStep::Cancel,
        step == CompletionStep::Abandon ==> look.outbound,
        !look.finished && look.terminal_pending && look.progressed && !look.outbound ==> step
            == CompletionStep::Restart,
{
}

} // verus!
