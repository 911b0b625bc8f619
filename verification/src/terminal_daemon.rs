//! Detached per-session terminal startup over a bounded status pipe.
//!
//! The bootstrap parent owns the child until it receives a structured
//! status. The child reports over a pipe that it inherits, so unrelated local
//! processes cannot forge readiness.
use vstd::prelude::*;
use vstd::slice::slice_subrange;
use vstd::utf8::encode_utf8;

use crate::bytes::{append_bytes, same_bytes};
use crate::error::joined;
use crate::terminal_credentials::{
    parse_credential_input, session_lines_are_read, CredentialInput,
};
use crate::text::{
    ascii, ascii_bytes, copy_texts, decimal, decimal_string, push_text, same_text, shown_text,
    utf8_lossy,
};

verus! {

/// How long a terminal may take to register.
pub const READY_TIMEOUT_SECONDS: u64 = 45;

pub const STATUS_REGISTERED: u8 = 1;

pub const STATUS_FAILED: u8 = 2;

/// How much of a description is reported.
pub const MAX_STATUS_MESSAGE: usize = 8192;

/// A magic number, a code and the length of a description.
pub const STATUS_HEADER: usize = 7;

// The status.

/// The magic number of a status.
pub open spec fn status_magic() -> Seq<u8> {
    ascii("ETS1"@)
}

/// A description as far as it is reported.
pub open spec fn reported(message: Seq<u8>) -> Seq<u8> {
    if message.len() > MAX_STATUS_MESSAGE {
        message.take(MAX_STATUS_MESSAGE as int)
    } else {
        message
    }
}

/// The bytes of a status.
pub open spec fn status_bytes(code: u8, message: Seq<u8>) -> Seq<u8> {
    status_magic() + seq![
        code,
        (reported(message).len() / 256) as u8,
        (reported(message).len() % 256) as u8,
    ] + reported(message)
}

/// What the bytes of a status pipe amount to. `cause` tells why the pipe
/// ended where it ended too early.
pub open spec fn status_meaning(bytes: Seq<u8>, cause: Seq<char>) -> Result<(), Seq<char>> {
    if bytes.len() < STATUS_HEADER {
        Err("terminal status channel closed: "@ + cause)
    } else if bytes.take(4) != status_magic() {
        Err("malformed terminal startup status"@)
    } else {
        let length = bytes[5] * 256 + bytes[6];
        if length > MAX_STATUS_MESSAGE {
            Err("terminal startup status exceeds 8 KiB"@)
        } else if bytes.len() < STATUS_HEADER + length {
            Err("truncated terminal startup status: "@ + cause)
        } else {
            let message = bytes.subrange(STATUS_HEADER as int, STATUS_HEADER + length);
            if bytes[4] == STATUS_REGISTERED && length == 0 {
                Ok(())
            } else if bytes[4] == STATUS_FAILED {
                Err(shown_text(message))
            } else {
                Err("invalid terminal startup status"@)
            }
        }
    }
}

/// The status to report.
pub fn write_status(code: u8, message: &str) -> (frame: Vec<u8>)
    ensures
        frame@ == status_bytes(code, encode_utf8(message@)),
{
    let bytes = message.as_bytes();
    let len: usize = bytes.len();
    let kept: usize = if len > MAX_STATUS_MESSAGE {
        MAX_STATUS_MESSAGE
    } else {
        len
    };
    let shown = slice_subrange(bytes, 0, kept);
    assert(shown@ =~= reported(encode_utf8(message@)));
    let mut frame = ascii_bytes("ETS1");
    frame.push(code);
    frame.push((kept / 256) as u8);
    frame.push((kept % 256) as u8);
    assert(frame@ =~= status_magic() + seq![code, (kept / 256) as u8, (kept % 256) as u8]);
    append_bytes(&mut frame, shown);
    frame
}

/// Reads a status: `bytes` is what came over the pipe, and `cause` why it
/// ended, for a status that is cut short.
pub fn read_status(bytes: &[u8], cause: &str) -> (r: Result<(), String>)
    ensures
        match (r, status_meaning(bytes@, cause@)) {
            (Ok(()), Ok(())) => true,
            (Err(message), Err(words)) => message@ == words,
            _ => false,
        },
{
    let len: usize = bytes.len();
    if len < STATUS_HEADER {
        return Err(joined("terminal status channel closed: ", cause));
    }
    let magic = ascii_bytes("ETS1");
    let head = slice_subrange(bytes, 0, 4);
    assert(head@ =~= bytes@.take(4));
    if !same_bytes(head, magic.as_slice()) {
        return Err("malformed terminal startup status".to_owned());
    }
    let length: usize = bytes[5] as usize * 256 + bytes[6] as usize;
    if length > MAX_STATUS_MESSAGE {
        return Err("terminal startup status exceeds 8 KiB".to_owned());
    }
    if len - STATUS_HEADER < length {
        return Err(joined("truncated terminal startup status: ", cause));
    }
    let message = slice_subrange(bytes, STATUS_HEADER, STATUS_HEADER + length);
    if bytes[4] == STATUS_REGISTERED && length == 0 {
        Ok(())
    } else if bytes[4] == STATUS_FAILED {
        Err(utf8_lossy(message))
    } else {
        Err("invalid terminal startup status".to_owned())
    }
}

/// Report committed router registration.
pub fn registered() -> (frame: Vec<u8>)
    ensures
        frame@ == status_bytes(STATUS_REGISTERED, Seq::empty()),
{
    proof {
        reveal_strlit("");
        assert(""@ =~= Seq::<char>::empty());
        lemma_empty_text();
    }
    write_status(STATUS_REGISTERED, "")
}

proof fn lemma_empty_text()
    ensures
        encode_utf8(Seq::<char>::empty()) == Seq::<u8>::empty(),
{
    assert(encode_utf8(Seq::<char>::empty()) =~= Seq::<u8>::empty());
}

/// How a session process tells that it registered.
#[derive(Debug)]
pub enum SignalPlan {
    /// Write this status to the pipe that it inherited.
    Report(Vec<u8>),
    /// Connect to the socket of the target, and send this byte.
    Connect(u8),
}

/// How committed router registration is reported to a target. Other targets
/// than the inherited pipe are sockets, which only Unix systems have here.
pub fn signal(target: &str, windows: bool) -> (r: Result<SignalPlan, String>)
    ensures
        if target@ == "inherited"@ {
            r matches Ok(SignalPlan::Report(frame)) && frame@ == status_bytes(
                STATUS_REGISTERED,
                Seq::empty(),
            )
        } else if windows {
            r matches Err(message) && message@
                == "legacy readiness sockets are unsupported on Windows"@
        } else {
            r == Ok::<SignalPlan, String>(SignalPlan::Connect(1))
        },
{
    if same_text(target, "inherited") {
        Ok(SignalPlan::Report(registered()))
    } else if windows {
        Err("legacy readiness sockets are unsupported on Windows".to_owned())
    } else {
        Ok(SignalPlan::Connect(1))
    }
}

/// Report a bounded startup failure before the bootstrap parent commits.
pub fn fail(message: &str) -> (frame: Vec<u8>)
    ensures
        frame@ == status_bytes(STATUS_FAILED, encode_utf8(message@)),
{
    write_status(STATUS_FAILED, message)
}

/// A status is read as it was reported: a registration as success, and a
/// failure with its description as far as that goes, and with that very text
/// where all of it was reported. Nothing else counts as success.
pub proof fn status_reads_back(message: Seq<char>, cause: Seq<char>)
    ensures
        status_meaning(status_bytes(STATUS_REGISTERED, Seq::empty()), cause) == Ok::<(), Seq<char>>(
            (),
        ),
        status_meaning(status_bytes(STATUS_FAILED, encode_utf8(message)), cause) == Err::<
            (),
            Seq<char>,
        >(shown_text(reported(encode_utf8(message)))),
        encode_utf8(message).len() <= MAX_STATUS_MESSAGE ==> status_meaning(
            status_bytes(STATUS_FAILED, encode_utf8(message)),
            cause,
        ) == Err::<(), Seq<char>>(message),
{
    vstd::utf8::encode_utf8_valid_utf8(message);
    vstd::utf8::encode_utf8_decode_utf8(message);
    reveal_strlit("ETS1");
    let registration = status_bytes(STATUS_REGISTERED, Seq::empty());
    assert(reported(Seq::<u8>::empty()) =~= Seq::<u8>::empty());
    assert(registration.len() == 7);
    assert(registration.take(4) =~= status_magic());
    assert(registration[4] == STATUS_REGISTERED);
    assert(registration[5] == 0 && registration[6] == 0);
    let failure = status_bytes(STATUS_FAILED, encode_utf8(message));
    let shown = reported(encode_utf8(message));
    assert(failure.take(4) =~= status_magic());
    assert(failure[4] == STATUS_FAILED);
    assert(failure[5] == (shown.len() / 256) as u8);
    assert(failure[6] == (shown.len() % 256) as u8);
    assert(failure[5] * 256 + failure[6] == shown.len());
    assert(failure.subrange(7, 7 + shown.len() as int) =~= shown);
}

/// Only a registration that is complete, and holds nothing else, counts.
pub proof fn arbitrary_bytes_register_nothing(bytes: Seq<u8>, cause: Seq<char>)
    requires
        status_meaning(bytes, cause) == Ok::<(), Seq<char>>(()),
    ensures
        bytes.len() >= STATUS_HEADER,
        bytes.take(STATUS_HEADER as int) == status_bytes(STATUS_REGISTERED, Seq::empty()),
{
    reveal_strlit("ETS1");
    let frame = status_bytes(STATUS_REGISTERED, Seq::empty());
    assert(reported(Seq::<u8>::empty()) =~= Seq::<u8>::empty());
    assert(bytes.take(7) =~= frame) by {
        assert forall|i: int| 0 <= i < 4 implies bytes[i] == status_magic()[i] by {
            assert(bytes.take(4)[i] == bytes[i]);
        }
        assert(bytes[5] == 0 && bytes[6] == 0);
    }
}

// The child.

/// What a session process is started with.
#[derive(Debug)]
pub struct SessionSpawn {
    pub args: Vec<String>,
    /// What is written to its standard input.
    pub input: String,
}

/// The arguments of a session process.
pub open spec fn session_args(router: Seq<char>, verbose: u8, more: Seq<Seq<char>>) -> Seq<
    Seq<char>,
> {
    seq![
        "terminal"@,
        "--session-child"@,
        "--ready-socket"@,
        "inherited"@,
        "--serverfifo"@,
        router,
        "--verbose="@ + decimal(verbose as nat),
    ] + more
}

/// The line that hands a session process its credentials.
pub open spec fn session_input(input: CredentialInput) -> Seq<char> {
    input.id@ + "/"@ + input.passkey@ + "_"@ + input.term@ + "\n"@
}

/// A session process with arguments of its own.
pub fn spawn_with_args(
    router: &str,
    input: &CredentialInput,
    verbose: u8,
    more: &Vec<String>,
) -> (spawn: SessionSpawn)
    ensures
        spawn.args.deep_view() == session_args(router@, verbose, more.deep_view()),
        spawn.input@ == session_input(*input),
{
    let mut args: Vec<String> = Vec::new();
    assert(args.deep_view() =~= Seq::<Seq<char>>::empty());
    push_text(&mut args, "terminal");
    push_text(&mut args, "--session-child");
    push_text(&mut args, "--ready-socket");
    push_text(&mut args, "inherited");
    push_text(&mut args, "--serverfifo");
    push_text(&mut args, router);
    push_text(&mut args, joined("--verbose=", decimal_string(verbose as u64).as_str()).as_str());
    let ghost own = args.deep_view();
    assert(own =~= session_args(router@, verbose, Seq::empty()));
    let mut rest = copy_texts(more);
    let ghost others = rest.deep_view();
    args.append(&mut rest);
    assert(args.deep_view() =~= own + others);
    assert(args.deep_view() =~= session_args(router@, verbose, others));
    let mut line = joined(input.id.as_str(), "/");
    line.append(input.passkey.as_str());
    line.append("_");
    line.append(input.term.as_str());
    line.append("\n");
    SessionSpawn { args, input: line }
}

/// The process of an ordinary session.
pub fn spawn(router: &str, input: &CredentialInput, verbose: u8) -> (spawn: SessionSpawn)
    ensures
        spawn.args.deep_view() == session_args(router@, verbose, Seq::empty()),
        spawn.input@ == session_input(*input),
{
    let more: Vec<String> = Vec::new();
    assert(more.deep_view() =~= Seq::empty());
    spawn_with_args(router, input, verbose, &more)
}

/// What became of the start of a session process.
#[derive(Debug)]
pub enum StartupEvent {
    /// The program could not be found, by what it failed in.
    NotLocated(String),
    NotResolved(String),
    NotStarted(String),
    NoInput,
    NotSent(String),
    NoStatusPipe,
    NoWorker(String),
    TimedOut,
    /// The status that it reported.
    Status(Result<(), String>),
}

/// What the parent makes of it.
pub open spec fn startup_words(event: StartupEvent) -> Option<Seq<char>> {
    match event {
        StartupEvent::NotLocated(cause) => Some("could not locate et executable: "@ + cause@),
        StartupEvent::NotResolved(cause) => Some("could not resolve et executable: "@ + cause@),
        StartupEvent::NotStarted(cause) => Some(
            "could not start terminal session process: "@ + cause@,
        ),
        StartupEvent::NoInput => Some("terminal child stdin was not created"@),
        StartupEvent::NotSent(cause) => Some("could not send terminal credentials: "@ + cause@),
        StartupEvent::NoStatusPipe => Some("terminal child status pipe was not created"@),
        StartupEvent::NoWorker(cause) => Some(
            "could not start terminal status worker: "@ + cause@,
        ),
        StartupEvent::TimedOut => Some("timed out waiting for terminal registration"@),
        StartupEvent::Status(Err(cause)) => Some(
            "terminal session process did not become ready: "@ + cause@,
        ),
        StartupEvent::Status(Ok(())) => None,
    }
}

/// Whether the process was started.
pub open spec fn was_started(event: StartupEvent) -> bool {
    !(event is NotLocated || event is NotResolved || event is NotStarted)
}

/// Whether the parent still owns the process, and so kills and reaps it: it
/// lets go only of one that registered.
pub open spec fn is_uncommitted(event: StartupEvent) -> bool {
    was_started(event) && !(event matches StartupEvent::Status(status) && status is Ok)
}

pub fn stops_child(event: &StartupEvent) -> (r: bool)
    ensures
        r == is_uncommitted(*event),
{
    match event {
        StartupEvent::NotLocated(_) => false,
        StartupEvent::NotResolved(_) => false,
        StartupEvent::NotStarted(_) => false,
        StartupEvent::Status(Ok(())) => false,
        _ => true,
    }
}

/// A process that was started is left running exactly where the parent
/// reports success: every earlier return kills and reaps it.
pub proof fn only_registered_processes_are_left_running(event: StartupEvent)
    requires
        was_started(event),
    ensures
        is_uncommitted(event) <==> startup_words(event) is Some,
{
}

/// How the start of a session process ended: nothing where it runs.
pub fn startup_result(event: StartupEvent) -> (r: Result<(), String>)
    ensures
        match (r, startup_words(event)) {
            (Ok(()), None) => true,
            (Err(message), Some(words)) => message@ == words,
            _ => false,
        },
{
    match event {
        StartupEvent::NotLocated(cause) => Err(
            joined("could not locate et executable: ", cause.as_str()),
        ),
        StartupEvent::NotResolved(cause) => Err(
            joined("could not resolve et executable: ", cause.as_str()),
        ),
        StartupEvent::NotStarted(cause) => Err(
            joined("could not start terminal session process: ", cause.as_str()),
        ),
        StartupEvent::NoInput => Err("terminal child stdin was not created".to_owned()),
        StartupEvent::NotSent(cause) => Err(
            joined("could not send terminal credentials: ", cause.as_str()),
        ),
        StartupEvent::NoStatusPipe => Err("terminal child status pipe was not created".to_owned()),
        StartupEvent::NoWorker(cause) => Err(
            joined("could not start terminal status worker: ", cause.as_str()),
        ),
        StartupEvent::TimedOut => Err("timed out waiting for terminal registration".to_owned()),
        StartupEvent::Status(Err(cause)) => Err(
            joined("terminal session process did not become ready: ", cause.as_str()),
        ),
        StartupEvent::Status(Ok(())) => Ok(()),
    }
}

/// A session process is told where the router is and how much to say, and
/// then whatever else it needs, in order; on its input it finds its own
/// credentials, in the form that a terminal reads.
pub proof fn session_processes_get_their_session(
    router: &str,
    input: &CredentialInput,
    verbose: u8,
    more: &Vec<String>,
    started: SessionSpawn,
    line: &str,
    r: Result<CredentialInput, String>,
)
    requires
        input.valid(),
        call_ensures(spawn_with_args, (router, input, verbose, more), started),
        started.input@ == line@ + seq!['\n'],
        call_ensures(parse_credential_input, (line,), r),
    ensures
        r matches Ok(read) && read.id@ == input.id@ && read.passkey@ == input.passkey@ && read.term@
            == input.term@,
        started.args@.len() == 7 + more@.len(),
        started.args@[0]@ == "terminal"@ && started.args@[1]@ == "--session-child"@,
        started.args@[4]@ == "--serverfifo"@ && started.args@[5]@ == router@,
        started.args@[6]@ == "--verbose="@ + decimal(verbose as nat),
        started.args.deep_view().skip(7) == more.deep_view(),
{
    reveal_strlit("/");
    reveal_strlit("_");
    reveal_strlit("\n");
    let args = started.args.deep_view();
    assert(args.len() == started.args@.len());
    assert(args[0] == started.args@[0]@ && args[1] == started.args@[1]@);
    assert(args[4] == started.args@[4]@ && args[5] == started.args@[5]@);
    assert(args[6] == started.args@[6]@);
    assert(args.skip(7) =~= more.deep_view());
    let whole = input.id@ + (seq!['/'] + (input.passkey@ + (seq!['_'] + input.term@)));
    assert(line@ =~= whole) by {
        assert(started.input@ =~= whole + seq!['\n']);
        assert(started.input@.drop_last() =~= line@);
        assert(started.input@.drop_last() =~= whole);
    }
    session_lines_are_read(line, input.id@, input.passkey@, input.term@, r);
}

/// What a session process reports is what its parent hears: that it is
/// registered, or why it is not, in as many words as are reported.
pub proof fn reports_are_heard(
    message: &str,
    cause: &str,
    frame: Vec<u8>,
    bytes: &[u8],
    heard: Result<(), String>,
)
    requires
        bytes@ == frame@,
        call_ensures(read_status, (bytes, cause), heard),
    ensures
        call_ensures(registered, (), frame) ==> heard is Ok,
        call_ensures(fail, (message,), frame) ==> heard is Err,
        call_ensures(fail, (message,), frame) && encode_utf8(message@).len() <= 8192
            ==> heard->Err_0@ == message@,
{
    status_reads_back(message@, cause@);
}

/// A process that did not register is stopped, and the reason is told; one
/// that never started needs no stopping.
pub proof fn unregistered_processes_are_stopped(
    event: StartupEvent,
    stopped: bool,
    r: Result<(), String>,
)
    requires
        call_ensures(stops_child, (&event,), stopped),
        call_ensures(startup_result, (event,), r),
    ensures
        r is Ok <==> (event matches StartupEvent::Status(status) && status is Ok),
        event is NotLocated || event is NotResolved || event is NotStarted ==> !stopped && r is Err,
        event is NoInput || event is NotSent || event is NoStatusPipe || event is NoWorker
            || event is TimedOut ==> stopped,
        (event matches StartupEvent::Status(status) && status is Err) ==> stopped,
        r is Ok ==> !stopped,
{
}

/// A session process without arguments of its own is started like any other.
pub proof fn plain_sessions_are_started_alike(
    router: &str,
    input: &CredentialInput,
    verbose: u8,
    more: &Vec<String>,
    plain: SessionSpawn,
    other: SessionSpawn,
)
    requires
        call_ensures(spawn, (router, input, verbose), plain),
        call_ensures(spawn_with_args, (router, input, verbose, more), other),
    ensures
        plain.input@ == other.input@,
        other.args.deep_view() == plain.args.deep_view() + more.deep_view(),
{
    assert(other.args.deep_view() =~= plain.args.deep_view() + more.deep_view());
}

/// An inherited channel is reported to at once; a socket of its own is
/// connected to, where the system has such.
pub proof fn readiness_is_told_where_asked(
    target: &str,
    windows: bool,
    r: Result<SignalPlan, String>,
)
    requires
        call_ensures(signal, (target, windows), r),
    ensures
        target@ == "inherited"@ ==> (r matches Ok(SignalPlan::Report(_))),
        target@ != "inherited"@ && windows ==> r is Err,
        target@ != "inherited"@ && !windows ==> (r matches Ok(SignalPlan::Connect(_))),
{
}

} // verus!
