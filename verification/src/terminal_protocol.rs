//! The terminal session's part of the protocol: how it is initialized, and
//! what the packets of its local router ask for.
use vstd::prelude::*;
use vstd::utf8::encode_utf8;

use crate::error::joined;
use crate::text::{char_is_alphanumeric, char_is_letter, chars_of, is_alphanumeric, is_letter};

verus! {

/// How many names the terminal environment may hold.
pub const MAX_ENVIRONMENT: usize = 128;

/// How many bytes the value of an environment variable may hold.
pub const MAX_ENV_VALUE: usize = 4096;

/// The packet types that the terminal tells apart.
#[derive(Debug, Clone, Copy, PartialEq, Eq, Structural)]
pub enum PacketKind {
    KeepAlive,
    TerminalBuffer,
    TerminalInfo,
    TerminalInit,
    TerminalExitStatus,
    TerminalClose,
    TerminalUserInfo,
    JumphostInit,
    PortForwardDestinationRequest,
    PortForwardDestinationResponse,
    PortForwardData,
    InitialPayload,
    InitialResponse,
    Heartbeat,
    /// Any other header.
    Other(u8),
}

/// How terminal output is held back when a peer cannot keep up.
#[derive(Debug, Clone, Copy, PartialEq, Eq, Structural)]
pub enum FlowControlMode {
    Off,
    Backpressure,
    Discard,
}

/// A decoded `TERMINAL_INIT` message.
#[derive(Debug)]
pub struct TermInit {
    pub environmentnames: Vec<String>,
    pub environmentvalues: Vec<String>,
    /// Missing where the message holds no mode, or none that is known.
    pub flowcontrol: Option<FlowControlMode>,
    pub no_pty: Option<bool>,
    pub command: Option<String>,
    pub no_shell: Option<bool>,
}

#[derive(Debug)]
pub struct TerminalInitialization {
    pub environment: Vec<(String, String)>,
    pub flow_control: FlowControlMode,
    /// Run `command` on pipes instead of a login pty.
    pub no_pty: bool,
    pub command: Option<String>,
    /// Session without a pty or a shell (`et -W`).
    pub no_shell: bool,
}

/// OpenSSH-style status: the exit code, or `128 + signal` when signaled.
pub fn openssh_exit_code(exited: Option<i32>, signal: Option<i32>) -> (code: i32)
    ensures
        code == match (exited, signal) {
            (Some(code), _) => code as int,
            (None, Some(signal)) => if 128 + signal > i32::MAX {
                i32::MAX as int
            } else {
                128 + signal
            },
            (None, None) => 0,
        },
{
    match exited {
        Some(code) => code,
        None => match signal {
            Some(signal) => {
                if signal > i32::MAX - 128 {
                    i32::MAX
                } else {
                    128 + signal
                }
            },
            None => 0,
        },
    }
}

/// A letter or an underscore, and then letters, digits and underscores.
pub open spec fn is_environment_name(name: Seq<char>) -> bool {
    &&& name.len() > 0
    &&& is_letter(name[0]) || name[0] == '_'
    &&& forall|i: int|
        1 <= i < name.len() ==> is_alphanumeric(#[trigger] name[i]) || name[i] == '_'
}

pub fn valid_environment_name(name: &str) -> (r: bool)
    ensures
        r == is_environment_name(name@),
{
    let chars = chars_of(name);
    if chars.len() == 0 || !(char_is_letter(chars[0]) || chars[0] == '_') {
        return false;
    }
    let mut i: usize = 1;
    while i < chars.len()
        invariant
            1 <= i <= chars@.len(),
            chars@ == name@,
            forall|j: int|
                1 <= j < i ==> is_alphanumeric(#[trigger] chars@[j]) || chars@[j] == '_',
        decreases chars@.len() - i,
    {
        if !(char_is_alphanumeric(chars[i]) || chars[i] == '_') {
            assert(!(is_alphanumeric(name@[i as int]) || name@[i as int] == '_'));
            return false;
        }
        i += 1;
    }
    true
}

/// A value that an environment variable may have: not too long, and without
/// a zero byte.
pub open spec fn is_environment_value(value: Seq<char>) -> bool {
    encode_utf8(value).len() <= MAX_ENV_VALUE && !value.contains('\0')
}

pub fn valid_environment_value(value: &str) -> (r: bool)
    ensures
        r == is_environment_value(value@),
{
    let chars = chars_of(value);
    value.as_bytes().len() <= MAX_ENV_VALUE && crate::text::find_char(chars.as_slice(), '\0')
        == chars.len()
}

/// Whether every name and value of an initialization is allowed.
pub open spec fn entries_valid(init: TermInit) -> bool {
    forall|i: int|
        0 <= i < init.environmentnames@.len() ==> is_environment_name(
            #[trigger] init.environmentnames@[i]@,
        ) && is_environment_value(init.environmentvalues@[i]@)
}

/// What is wrong with an initialization packet, in the order of the tests.
/// `message` is what its payload decodes to, where it does.
pub open spec fn initialization_fault(
    encrypted: bool,
    kind: PacketKind,
    message: Option<TermInit>,
) -> Option<&'static str> {
    if encrypted || kind != PacketKind::TerminalInit {
        Some("expected plaintext TERMINAL_INIT packet")
    } else {
        match message {
            None => Some("TERMINAL_INIT protobuf is malformed"),
            Some(init) => if init.environmentnames@.len() != init.environmentvalues@.len()
                || init.environmentnames@.len() > MAX_ENVIRONMENT {
                Some("TERMINAL_INIT environment lists are invalid")
            } else if !entries_valid(init) {
                Some("TERMINAL_INIT contains an invalid environment entry")
            } else if init.no_pty == Some(true) && init.no_shell == Some(true) {
                Some("no_pty and no_shell cannot both be set")
            } else {
                None
            },
        }
    }
}

/// Accepts the packet that starts a terminal session.
pub fn read_initialization(encrypted: bool, kind: PacketKind, message: Option<TermInit>) -> (r:
    Result<TerminalInitialization, &'static str>)
    ensures
        match r {
            Ok(accepted) => {
                &&& initialization_fault(encrypted, kind, message) is None
                &&& message matches Some(init) && {
                    &&& accepted.environment@.len() == init.environmentnames@.len()
                    &&& forall|i: int|
                        0 <= i < accepted.environment@.len() ==> (
                        #[trigger] accepted.environment@[i]) == (
                            init.environmentnames@[i],
                            init.environmentvalues@[i],
                        )
                    &&& accepted.flow_control == (match init.flowcontrol {
                        Some(mode) => mode,
                        None => FlowControlMode::Off,
                    })
                    &&& accepted.no_pty == (init.no_pty == Some(true))
                    &&& accepted.no_shell == (init.no_shell == Some(true))
                    &&& accepted.command == init.command
                }
            },
            Err(fault) => initialization_fault(encrypted, kind, message) == Some(fault),
        },
{
    if encrypted || kind != PacketKind::TerminalInit {
        return Err("expected plaintext TERMINAL_INIT packet");
    }
    let init = match message {
        Some(init) => init,
        None => {
            return Err("TERMINAL_INIT protobuf is malformed");
        },
    };
    if init.environmentnames.len() != init.environmentvalues.len() || init.environmentnames.len()
        > MAX_ENVIRONMENT {
        return Err("TERMINAL_INIT environment lists are invalid");
    }
    let mut environment: Vec<(String, String)> = Vec::new();
    let mut i: usize = 0;
    while i < init.environmentnames.len()
        invariant
            i <= init.environmentnames@.len(),
            init.environmentnames@.len() == init.environmentvalues@.len(),
            init.environmentnames@.len() <= MAX_ENVIRONMENT,
            message == Some(init),
            !encrypted && kind == PacketKind::TerminalInit,
            environment@.len() == i,
            forall|j: int|
                0 <= j < i ==> (#[trigger] environment@[j]) == (
                    init.environmentnames@[j],
                    init.environmentvalues@[j],
                ),
            forall|j: int|
                0 <= j < i ==> is_environment_name(#[trigger] init.environmentnames@[j]@)
                    && is_environment_value(init.environmentvalues@[j]@),
        decreases init.environmentnames@.len() - i,
    {
        if !valid_environment_name(init.environmentnames[i].as_str()) || !valid_environment_value(
            init.environmentvalues[i].as_str(),
        ) {
            assert(!entries_valid(init)) by {
                let name = init.environmentnames@[i as int]@;
                assert(!is_environment_name(name) || !is_environment_value(
                    init.environmentvalues@[i as int]@,
                ));
            }
            return Err("TERMINAL_INIT contains an invalid environment entry");
        }
        environment.push((init.environmentnames[i].clone(), init.environmentvalues[i].clone()));
        i += 1;
    }
    let flow_control = match init.flowcontrol {
        Some(mode) => mode,
        None => FlowControlMode::Off,
    };
    let no_pty = match init.no_pty {
        Some(flag) => flag,
        None => false,
    };
    let no_shell = match init.no_shell {
        Some(flag) => flag,
        None => false,
    };
    if no_pty && no_shell {
        return Err("no_pty and no_shell cannot both be set");
    }
    Ok(TerminalInitialization { environment, flow_control, no_pty, command: init.command, no_shell })
}

/// What one attempt to read from the router gave.
#[derive(Debug)]
pub enum ReadOutcome {
    /// So many bytes; none where the router closed.
    Count(usize),
    WouldBlock,
    Interrupted,
    /// The system's description of any other failure.
    Failed(String),
}

/// What the reader of the router does next.
#[derive(Debug)]
pub enum ReadStep {
    /// Hand the bytes that were read to the decoder.
    Feed(usize),
    /// Stop without a packet until the router is readable again.
    Pause,
    Retry,
    Stop(String),
}

/// Decides how reading a router packet goes on.
pub fn read_ready_packet(outcome: ReadOutcome) -> (step: ReadStep)
    ensures
        match outcome {
            ReadOutcome::Count(count) => if count == 0 {
                step matches ReadStep::Stop(error) && error@ == "terminal router disconnected"@
            } else {
                step == ReadStep::Feed(count)
            },
            ReadOutcome::WouldBlock => step is Pause,
            ReadOutcome::Interrupted => step is Retry,
            ReadOutcome::Failed(cause) => step matches ReadStep::Stop(error) && error@
                == "could not read terminal router: "@ + cause@,
        },
{
    match outcome {
        ReadOutcome::Count(count) => {
            if count == 0 {
                ReadStep::Stop("terminal router disconnected".to_owned())
            } else {
                ReadStep::Feed(count)
            }
        },
        ReadOutcome::WouldBlock => ReadStep::Pause,
        ReadOutcome::Interrupted => ReadStep::Retry,
        ReadOutcome::Failed(cause) => ReadStep::Stop(
            joined("could not read terminal router: ", cause.as_str()),
        ),
    }
}

/// What a framed local packet asks `etterminal` to do.
///
/// `Close` stops the PTY session without an unsupported-packet error.
#[derive(Debug, Clone, Copy, PartialEq, Eq, Structural)]
pub enum LocalPacketEffect {
    Continue,
    Close,
}

pub fn local_packet_effect(encrypted: bool, kind: PacketKind) -> (r: Result<
    LocalPacketEffect,
    &'static str,
>)
    ensures
        r == (if encrypted {
            Err::<LocalPacketEffect, &'static str>("encrypted local terminal packet rejected")
        } else if kind == PacketKind::TerminalBuffer || kind == PacketKind::TerminalInfo {
            Ok(LocalPacketEffect::Continue)
        } else if kind == PacketKind::TerminalClose {
            Ok(LocalPacketEffect::Close)
        } else {
            Err("unsupported local terminal packet type")
        }),
{
    if encrypted {
        return Err("encrypted local terminal packet rejected");
    }
    match kind {
        PacketKind::TerminalBuffer => Ok(LocalPacketEffect::Continue),
        PacketKind::TerminalInfo => Ok(LocalPacketEffect::Continue),
        PacketKind::TerminalClose => Ok(LocalPacketEffect::Close),
        _ => Err("unsupported local terminal packet type"),
    }
}

/// A decoded `TERMINAL_INFO` message.
#[derive(Debug, Clone, Copy)]
pub struct TerminalInfo {
    pub row: Option<i32>,
    pub column: Option<i32>,
    pub width: Option<i32>,
    pub height: Option<i32>,
}

/// The size of a PTY, in characters and in pixels.
#[derive(Debug, Clone, Copy, PartialEq, Eq, Structural)]
pub struct PtySize {
    pub rows: u16,
    pub cols: u16,
    pub pixel_width: u16,
    pub pixel_height: u16,
}

/// A dimension as `winsize` holds it: nothing is zero, and only the low 16
/// bits are kept.
pub open spec fn winsize_dimension(value: Option<i32>) -> int {
    match value {
        Some(value) => (value as int) % 0x1_0000,
        None => 0,
    }
}

fn dimension(value: Option<i32>) -> (out: u16)
    ensures
        out == winsize_dimension(value),
{
    match value {
        Some(value) => {
            assert(((value as u32) & 0xFFFFu32) as u16 == (value as u32) % 0x1_0000u32)
                by (bit_vector);
            assert(value >= 0 ==> (value as u32) == value) by (bit_vector);
            assert(value < 0 ==> (value as u32) == value + 0x1_0000_0000) by (bit_vector);
            #[verifier::truncate]
            let wide: u32 = value as u32;
            #[verifier::truncate]
            let low: u16 = (wide & 0xFFFF) as u16;
            low
        },
        None => 0,
    }
}

/// Convert a `TERMINAL_INFO` payload into a PTY size.
///
/// The fields go into a `winsize` without validation: missing fields become
/// 0, zero sizes are accepted (terminals report 0x0 when no real TTY backs
/// them), and out-of-range values truncate.
pub fn terminal_size(info: &TerminalInfo) -> (size: PtySize)
    ensures
        size.rows == winsize_dimension(info.row),
        size.cols == winsize_dimension(info.column),
        size.pixel_width == winsize_dimension(info.width),
        size.pixel_height == winsize_dimension(info.height),
{
    PtySize {
        rows: dimension(info.row),
        cols: dimension(info.column),
        pixel_width: dimension(info.width),
        pixel_height: dimension(info.height),
    }
}

/// What the payload of a local packet decodes to.
#[derive(Debug)]
pub enum LocalMessage {
    Malformed,
    Buffer(Option<Vec<u8>>),
    Info(TerminalInfo),
    /// A packet without a payload to decode.
    Empty,
}

/// What a local packet does to the PTY.
#[derive(Debug)]
pub enum PacketAction {
    Write(Vec<u8>),
    Resize(PtySize),
    Close,
}

/// Protocol mistakes stay fatal. A dead pty is not: the child may already
/// have exited, and its exit status still has to be written.
#[derive(Debug)]
pub enum TerminalPacketError {
    Protocol(&'static str),
    Pty(String),
}

impl TerminalPacketError {
    pub open spec fn text(self) -> Seq<char> {
        match self {
            TerminalPacketError::Protocol(error) => error@,
            TerminalPacketError::Pty(error) => "could not apply PTY input: "@ + error@,
        }
    }

    pub fn message(&self) -> (out: String)
        ensures
            out@ == self.text(),
    {
        match self {
            TerminalPacketError::Protocol(error) => (*error).to_owned(),
            TerminalPacketError::Pty(error) => joined(
                "could not apply PTY input: ",
                error.as_str(),
            ),
        }
    }
}

/// Decides what a local packet does: its bytes go to the PTY, its size
/// becomes that of the PTY, or the session ends.
pub fn handle_packet(encrypted: bool, kind: PacketKind, message: LocalMessage) -> (r: Result<
    PacketAction,
    TerminalPacketError,
>)
    ensures
        if encrypted {
            r == Err::<PacketAction, TerminalPacketError>(
                TerminalPacketError::Protocol("encrypted local terminal packet rejected"),
            )
        } else {
            match kind {
                PacketKind::TerminalClose => r == Ok::<PacketAction, TerminalPacketError>(
                    PacketAction::Close,
                ),
                PacketKind::TerminalBuffer => match message {
                    LocalMessage::Buffer(Some(bytes)) => r == Ok::<
                        PacketAction,
                        TerminalPacketError,
                    >(PacketAction::Write(bytes)),
                    LocalMessage::Buffer(None) => r == Err::<PacketAction, TerminalPacketError>(
                        TerminalPacketError::Protocol("TERMINAL_BUFFER is missing bytes"),
                    ),
                    _ => r == Err::<PacketAction, TerminalPacketError>(
                        TerminalPacketError::Protocol("TERMINAL_BUFFER protobuf is malformed"),
                    ),
                },
                PacketKind::TerminalInfo => match message {
                    LocalMessage::Info(info) => r matches Ok(PacketAction::Resize(size))
                        && size.rows == winsize_dimension(info.row) && size.cols
                        == winsize_dimension(info.column) && size.pixel_width == winsize_dimension(
                        info.width,
                    ) && size.pixel_height == winsize_dimension(info.height),
                    _ => r == Err::<PacketAction, TerminalPacketError>(
                        TerminalPacketError::Protocol("TERMINAL_INFO protobuf is malformed"),
                    ),
                },
                _ => r == Err::<PacketAction, TerminalPacketError>(
                    TerminalPacketError::Protocol("unsupported local terminal packet type"),
                ),
            }
        },
{
    match local_packet_effect(encrypted, kind) {
        Err(error) => {
            return Err(TerminalPacketError::Protocol(error));
        },
        Ok(LocalPacketEffect::Close) => {
            return Ok(PacketAction::Close);
        },
        Ok(LocalPacketEffect::Continue) => {},
    }
    match kind {
        PacketKind::TerminalBuffer => match message {
            LocalMessage::Buffer(Some(bytes)) => Ok(PacketAction::Write(bytes)),
            LocalMessage::Buffer(None) => Err(
                TerminalPacketError::Protocol("TERMINAL_BUFFER is missing bytes"),
            ),
            _ => Err(TerminalPacketError::Protocol("TERMINAL_BUFFER protobuf is malformed")),
        },
        PacketKind::TerminalInfo => match message {
            LocalMessage::Info(info) => Ok(PacketAction::Resize(terminal_size(&info))),
            _ => Err(TerminalPacketError::Protocol("TERMINAL_INFO protobuf is malformed")),
        },
        _ => Err(TerminalPacketError::Protocol("unsupported local terminal packet type")),
    }
}

// What the packets are for.

/// A command that exited tells its own code, and one that a signal ended
/// tells that signal above 128.
pub proof fn exit_codes_follow_openssh(exited: Option<i32>, signal: Option<i32>, code: i32)
    requires
        call_ensures(openssh_exit_code, (exited, signal), code),
    ensures
        exited is Some ==> code == exited->0,
        exited is None && (signal matches Some(number) && 0 <= number <= 127) ==> code == 128
            + signal->0,
        exited is None && signal is None ==> code == 0,
{
}

/// A terminal is initialized by one plain packet, and gets what that says:
/// every variable under its name in its order, the flow control, the command
/// and whether it has a terminal or a shell at all.
pub proof fn initializations_are_taken_over(
    encrypted: bool,
    kind: PacketKind,
    init: TermInit,
    r: Result<TerminalInitialization, &'static str>,
    i: int,
)
    requires
        call_ensures(read_initialization, (encrypted, kind, Some(init)), r),
    ensures
        r is Ok ==> !encrypted && kind == PacketKind::TerminalInit,
        r matches Ok(accepted) ==> accepted.environment@.len() == init.environmentnames@.len()
            && init.environmentnames@.len() == init.environmentvalues@.len() && (0 <= i
            < accepted.environment@.len() ==> accepted.environment@[i].0@
            == init.environmentnames@[i]@ && accepted.environment@[i].1@
            == init.environmentvalues@[i]@ && is_environment_name(accepted.environment@[i].0@)),
        r matches Ok(accepted) ==> accepted.command == init.command && (init.flowcontrol is Some
            ==> accepted.flow_control == init.flowcontrol->0) && (accepted.no_pty <==> init.no_pty
            == Some(true)) && (accepted.no_shell <==> init.no_shell == Some(true)),
        !encrypted && kind == PacketKind::TerminalInit && init.environmentnames@.len() == 0
            && init.environmentvalues@.len() == 0 && init.no_pty is None && init.no_shell is None
            && init.command is None ==> r is Ok,
        init.environmentnames@.len() > 128 ==> r is Err,
        0 <= i < init.environmentnames@.len() && !is_environment_name(init.environmentnames@[i]@)
            ==> r is Err,
{
    if r is Ok && 0 <= i < init.environmentnames@.len() {
        assert(is_environment_name(init.environmentnames@[i]@));
    }
}

/// What is read of the router is fed on in full. Nothing read is its end, and
/// a read that would wait or was interrupted is neither.
pub proof fn ready_bytes_are_fed_on(outcome: ReadOutcome, step: ReadStep)
    requires
        call_ensures(read_ready_packet, (outcome,), step),
    ensures
        (outcome matches ReadOutcome::Count(count) && count > 0) ==> step == ReadStep::Feed(
            outcome->Count_0,
        ),
        step is Stop <==> outcome == ReadOutcome::Count(0) || outcome is Failed,
        step is Pause <==> outcome is WouldBlock,
        step is Retry <==> outcome is Interrupted,
{
}

/// Sizes of a terminal are taken over, each in its place.
pub proof fn sizes_are_taken_over(info: &TerminalInfo, size: PtySize)
    requires
        call_ensures(terminal_size, (info,), size),
    ensures
        (info.row matches Some(rows) && 0 <= rows <= 65_535) ==> size.rows == info.row->0,
        (info.column matches Some(columns) && 0 <= columns <= 65_535) ==> size.cols
            == info.column->0,
        (info.width matches Some(width) && 0 <= width <= 65_535) ==> size.pixel_width
            == info.width->0,
        (info.height matches Some(height) && 0 <= height <= 65_535) ==> size.pixel_height
            == info.height->0,
        info.row is None ==> size.rows == 0,
        info.column is None ==> size.cols == 0,
{
}

/// A plain packet of the router does what it is for: typed bytes are written
/// as they are, a new size is taken over, and a close closes. An encrypted
/// packet does nothing, and nor does any other kind.
pub proof fn local_packets_do_what_they_say(
    encrypted: bool,
    kind: PacketKind,
    message: LocalMessage,
    r: Result<PacketAction, TerminalPacketError>,
    effect: Result<LocalPacketEffect, &'static str>,
)
    requires
        call_ensures(handle_packet, (encrypted, kind, message), r),
        call_ensures(local_packet_effect, (encrypted, kind), effect),
    ensures
        encrypted ==> r is Err && effect is Err,
        !encrypted && kind == PacketKind::TerminalBuffer && (message matches LocalMessage::Buffer(
            Some(bytes),
        )) ==> (r matches Ok(PacketAction::Write(written)) && written@ == message->Buffer_0->0@),
        !encrypted && kind == PacketKind::TerminalClose ==> r == Ok::<
            PacketAction,
            TerminalPacketError,
        >(PacketAction::Close),
        !encrypted && kind == PacketKind::TerminalInfo && message is Info ==> (r matches Ok(
            PacketAction::Resize(_),
        )),
        !encrypted && (message matches LocalMessage::Info(info) && (info.row matches Some(rows) && 0
            <= rows <= 65_535) && (info.column matches Some(columns) && 0 <= columns <= 65_535))
            && kind == PacketKind::TerminalInfo ==> r->Ok_0->Resize_0.rows
            == message->Info_0.row->0 && r->Ok_0->Resize_0.cols == message->Info_0.column->0,
        kind != PacketKind::TerminalBuffer && kind != PacketKind::TerminalClose && kind
            != PacketKind::TerminalInfo ==> r is Err && effect is Err,
        effect == Ok::<LocalPacketEffect, &'static str>(LocalPacketEffect::Close) <==> !encrypted
            && kind == PacketKind::TerminalClose,
        effect == Ok::<LocalPacketEffect, &'static str>(LocalPacketEffect::Continue) <==> !encrypted
            && (kind == PacketKind::TerminalBuffer || kind == PacketKind::TerminalInfo),
{
}

/// Names of variables are letters, digits and underscores, and do not begin
/// with a digit. A name that begins well stays one with more of them.
pub proof fn names_are_plain(name: Seq<char>, c: char)
    requires
        is_environment_name(name),
    ensures
        is_environment_name(name.push(c)) <==> (is_alphanumeric(c) || c == '_'),
        !is_environment_name(seq!['1'] + name),
        !is_environment_name(Seq::empty()),
        !name.contains('=') && !name.contains(' ') && !name.contains('\n'),
{
    let longer = name.push(c);
    assert(longer[0] == name[0]);
    if is_environment_name(longer) {
        assert(is_alphanumeric(longer[name.len() as int]) || longer[name.len() as int] == '_');
    } else if is_alphanumeric(c) || c == '_' {
        assert forall|i: int| 1 <= i < longer.len() implies is_alphanumeric(#[trigger] longer[i])
            || longer[i] == '_' by {
            if i < name.len() {
                assert(longer[i] == name[i]);
            }
        }
    }
    assert((seq!['1'] + name)[0] == '1');
    assert forall|i: int| 0 <= i < name.len() implies name[i] != '=' && name[i] != ' ' && name[i]
        != '\n' by {
        if i > 0 {
            assert(is_alphanumeric(name[i]) || name[i] == '_');
        }
    }
}

/// Values are taken up to their bound, whatever they hold but a zero.
pub proof fn values_are_bounded(value: &str, r: bool)
    requires
        call_ensures(valid_environment_value, (value,), r),
    ensures
        r <==> encode_utf8(value@).len() <= 4096 && !value@.contains('\0'),
{
}

} // verus!
