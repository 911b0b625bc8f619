//! A session without a terminal: a command with separate streams.
//!
//! The command runs on a plain shell. There is no login shell, and nothing is
//! typed into one; what it writes to its error stream stays apart.
use vstd::prelude::*;
use vstd::slice::slice_subrange;

use crate::bytes::{append_bytes, bytes_of};
use crate::client::is_empty_text;
use crate::error::joined;
use crate::terminal_protocol::{local_packet_effect, LocalPacketEffect, PacketKind};
use crate::text::{chars_of, find_char, lemma_first_index_bounds, lower_chars, lowered};

verus! {

pub const MAX_OUTPUT_CHUNK: usize = 16384;

/// How much input is held for a command that does not read it.
pub const MAX_PENDING_INPUT: usize = 262144;

/// How long a poll may wait, in milliseconds.
pub const POLL_MILLIS: u64 = 100;

// The command.

/// Whether `r` is the command of a session.
pub open spec fn command_checked(command: Option<Seq<char>>, r: Result<String, String>) -> bool {
    match command {
        Some(text) => if text.len() == 0 {
            r matches Err(message) && message@ == "no_pty TermInit requires a non-empty command"@
        } else if text.contains('\0') {
            r matches Err(message) && message@ == "pipe command contains NUL"@
        } else {
            r matches Ok(command) && command@ == text
        },
        None => r matches Err(message) && message@
            == "no_pty TermInit requires a non-empty command"@,
    }
}

/// The command of a session. There has to be one.
pub fn pipe_command(command: Option<String>) -> (r: Result<String, String>)
    ensures
        command_checked(command.deep_view(), r),
{
    match command {
        Some(text) => {
            if is_empty_text(text.as_str()) {
                return Err("no_pty TermInit requires a non-empty command".to_owned());
            }
            let chars = chars_of(text.as_str());
            let k = find_char(chars.as_slice(), '\0');
            proof {
                lemma_first_index_bounds(chars@, '\0');
            }
            if k < chars.len() {
                assert(text@[k as int] == '\0');
                return Err("pipe command contains NUL".to_owned());
            }
            Ok(text)
        },
        None => Err("no_pty TermInit requires a non-empty command".to_owned()),
    }
}

/// Whether a text holds `cmd`, whatever its case.
pub open spec fn mentions_cmd(shell: Seq<char>) -> bool {
    exists|i: int|
        0 <= i && i + 3 <= shell.len() && #[trigger] lowered(shell).subrange(i, i + 3) == "cmd"@
}

/// The program and the flag that run a command.
pub open spec fn command_shell(comspec: Option<Seq<char>>, windows: bool) -> (Seq<char>, Seq<char>) {
    if windows {
        let shell = match comspec {
            Some(shell) => shell,
            None => "cmd.exe"@,
        };
        (
            shell,
            if mentions_cmd(shell) {
                "/c"@
            } else {
                "-c"@
            },
        )
    } else {
        ("/bin/sh"@, "-c"@)
    }
}

fn names_cmd(shell: &str) -> (r: bool)
    ensures
        r == mentions_cmd(shell@),
{
    let chars = chars_of(shell);
    let lower = lower_chars(chars.as_slice());
    let len: usize = lower.len();
    proof {
        reveal_strlit("cmd");
    }
    if len < 3 {
        return false;
    }
    let mut i: usize = 0;
    while i <= len - 3
        invariant
            3 <= len,
            len == lower@.len(),
            lower@ == lowered(shell@),
            len == shell@.len(),
            "cmd"@ == seq!['c', 'm', 'd'],
            i <= len - 2,
            forall|j: int|
                0 <= j < i ==> #[trigger] lowered(shell@).subrange(j, j + 3) != "cmd"@,
        decreases len - i,
    {
        let ghost part = lowered(shell@).subrange(i as int, i + 3);
        if lower[i] == 'c' && lower[i + 1] == 'm' && lower[i + 2] == 'd' {
            assert(part =~= "cmd"@);
            return true;
        }
        proof {
            if part == "cmd"@ {
                assert(part[0] == 'c' && part[1] == 'm' && part[2] == 'd');
            }
        }
        i += 1;
    }
    false
}

/// How a command is run: the program and its flag. `comspec` is the command
/// interpreter of a Windows system.
pub fn shell_command(comspec: Option<&str>, windows: bool) -> (r: (String, String))
    ensures
        (r.0@, r.1@) == command_shell(comspec.deep_view(), windows),
{
    if !windows {
        return ("/bin/sh".to_owned(), "-c".to_owned());
    }
    let shell = match comspec {
        Some(shell) => shell.to_owned(),
        None => "cmd.exe".to_owned(),
    };
    let flag = if names_cmd(shell.as_str()) {
        "/c".to_owned()
    } else {
        "-c".to_owned()
    };
    (shell, flag)
}

/// The environment that a command gets: what the client sent, and the version
/// of the program over anything of that name.
pub open spec fn environment_with_version(
    environment: Seq<(Seq<char>, Seq<char>)>,
    version: Seq<char>,
) -> Seq<(Seq<char>, Seq<char>)> {
    environment.push(("ET_VERSION"@, version))
}

/// The environment of a command, in the order in which it is set: a later
/// entry takes the place of an earlier one of its name.
pub fn command_environment(
    environment: Vec<(String, String)>,
    version: &str,
) -> (entries: Vec<(String, String)>)
    ensures
        entries.deep_view() == environment_with_version(environment.deep_view(), version@),
{
    let ghost before = environment.deep_view();
    let mut entries = environment;
    entries.push(("ET_VERSION".to_owned(), version.to_owned()));
    assert(entries.deep_view() =~= environment_with_version(before, version@));
    entries
}

/// Where a command starts: at home where there is one, else where its parent
/// stands. `is_dir` tells whether `home` is a directory.
pub fn starting_directory(home: Option<String>, is_dir: bool, windows: bool) -> (directory: Option<
    String,
>)
    ensures
        directory == if windows || !is_dir {
            None::<String>
        } else {
            home
        },
{
    if windows || !is_dir {
        None
    } else {
        home
    }
}

// Starting.

/// A step on the way to a running command.
#[derive(Debug, Clone, Copy, PartialEq, Eq, Structural)]
pub enum StartStep {
    Spawn,
    TakeStdin,
    TakeStdout,
    TakeStderr,
    /// Read the flags of the command's input, to make writes to it not block.
    ReadFlags,
    SetFlags,
    CloneRouter,
    CreateWakeup,
    /// A wakeup for the worker of a stream, then the worker.
    CloneWakeup { stderr: bool },
    StartOutput { stderr: bool },
    StartChildWorker,
    ConfigureRouter,
    ConfigureWakeup,
    LockWriter,
    /// Tell the router that the command runs.
    Announce,
    Running,
    Stopped,
}

/// Why a session did not start.
#[derive(Debug)]
pub struct StartTrouble {
    pub message: String,
    /// The workers run: they have to be told to stop, and waited for.
    pub stop_workers: bool,
}

impl StartStep {
    /// The step that follows. Only a Unix system needs the flags.
    pub open spec fn successor(self, windows: bool) -> StartStep {
        match self {
            StartStep::Spawn => StartStep::TakeStdin,
            StartStep::TakeStdin => StartStep::TakeStdout,
            StartStep::TakeStdout => StartStep::TakeStderr,
            StartStep::TakeStderr => if windows {
                StartStep::CloneRouter
            } else {
                StartStep::ReadFlags
            },
            StartStep::ReadFlags => StartStep::SetFlags,
            StartStep::SetFlags => StartStep::CloneRouter,
            StartStep::CloneRouter => StartStep::CreateWakeup,
            StartStep::CreateWakeup => StartStep::CloneWakeup { stderr: false },
            StartStep::CloneWakeup { stderr } => StartStep::StartOutput { stderr },
            StartStep::StartOutput { stderr } => if stderr {
                StartStep::StartChildWorker
            } else {
                StartStep::CloneWakeup { stderr: true }
            },
            StartStep::StartChildWorker => StartStep::ConfigureRouter,
            StartStep::ConfigureRouter => StartStep::ConfigureWakeup,
            StartStep::ConfigureWakeup => StartStep::LockWriter,
            StartStep::LockWriter => StartStep::Announce,
            StartStep::Announce => StartStep::Running,
            StartStep::Running => StartStep::Running,
            StartStep::Stopped => StartStep::Stopped,
        }
    }

    /// Whether all workers run.
    pub open spec fn has_workers(self) -> bool {
        self is ConfigureRouter || self is ConfigureWakeup || self is LockWriter || self is Announce
            || self is Running
    }

    /// How trouble in a step is described.
    pub open spec fn trouble(self, cause: Seq<char>) -> Seq<char> {
        match self {
            StartStep::Spawn => "could not spawn pipe command: "@ + cause,
            StartStep::TakeStdin => "pipe command has no stdin"@,
            StartStep::TakeStdout => "pipe command has no stdout"@,
            StartStep::TakeStderr => "pipe command has no stderr"@,
            StartStep::ReadFlags => "could not read pipe stdin flags: "@ + cause,
            StartStep::SetFlags => "could not set pipe stdin nonblocking: "@ + cause,
            StartStep::CloneRouter => "could not clone pipe router: "@ + cause,
            StartStep::CreateWakeup => "could not create pipe wakeup: "@ + cause,
            StartStep::CloneWakeup { .. } => "could not clone pipe wakeup: "@ + cause,
            StartStep::StartOutput { .. } => "could not start pipe output worker: "@ + cause,
            StartStep::StartChildWorker => "could not start pipe child worker: "@ + cause,
            StartStep::ConfigureRouter => "could not configure pipe router: "@ + cause,
            StartStep::ConfigureWakeup => "could not configure pipe wakeup: "@ + cause,
            StartStep::LockWriter => "pipe router writer is unavailable"@,
            _ => cause,
        }
    }

    fn following(self, windows: bool) -> (step: StartStep)
        ensures
            step == self.successor(windows),
    {
        match self {
            StartStep::Spawn => StartStep::TakeStdin,
            StartStep::TakeStdin => StartStep::TakeStdout,
            StartStep::TakeStdout => StartStep::TakeStderr,
            StartStep::TakeStderr => {
                if windows {
                    StartStep::CloneRouter
                } else {
                    StartStep::ReadFlags
                }
            },
            StartStep::ReadFlags => StartStep::SetFlags,
            StartStep::SetFlags => StartStep::CloneRouter,
            StartStep::CloneRouter => StartStep::CreateWakeup,
            StartStep::CreateWakeup => StartStep::CloneWakeup { stderr: false },
            StartStep::CloneWakeup { stderr } => StartStep::StartOutput { stderr },
            StartStep::StartOutput { stderr } => {
                if stderr {
                    StartStep::StartChildWorker
                } else {
                    StartStep::CloneWakeup { stderr: true }
                }
            },
            StartStep::StartChildWorker => StartStep::ConfigureRouter,
            StartStep::ConfigureRouter => StartStep::ConfigureWakeup,
            StartStep::ConfigureWakeup => StartStep::LockWriter,
            StartStep::LockWriter => StartStep::Announce,
            StartStep::Announce => StartStep::Running,
            StartStep::Running => StartStep::Running,
            StartStep::Stopped => StartStep::Stopped,
        }
    }

    fn describe(self, cause: String) -> (message: String)
        ensures
            message@ == self.trouble(cause@),
    {
        let cause_text = cause.as_str();
        match self {
            StartStep::Spawn => joined("could not spawn pipe command: ", cause_text),
            StartStep::TakeStdin => "pipe command has no stdin".to_owned(),
            StartStep::TakeStdout => "pipe command has no stdout".to_owned(),
            StartStep::TakeStderr => "pipe command has no stderr".to_owned(),
            StartStep::ReadFlags => joined("could not read pipe stdin flags: ", cause_text),
            StartStep::SetFlags => joined("could not set pipe stdin nonblocking: ", cause_text),
            StartStep::CloneRouter => joined("could not clone pipe router: ", cause_text),
            StartStep::CreateWakeup => joined("could not create pipe wakeup: ", cause_text),
            StartStep::CloneWakeup { stderr: _ } => joined(
                "could not clone pipe wakeup: ",
                cause_text,
            ),
            StartStep::StartOutput { stderr: _ } => joined(
                "could not start pipe output worker: ",
                cause_text,
            ),
            StartStep::StartChildWorker => joined("could not start pipe child worker: ", cause_text),
            StartStep::ConfigureRouter => joined("could not configure pipe router: ", cause_text),
            StartStep::ConfigureWakeup => joined("could not configure pipe wakeup: ", cause_text),
            StartStep::LockWriter => "pipe router writer is unavailable".to_owned(),
            _ => cause,
        }
    }

    fn workers_run(self) -> (r: bool)
        ensures
            r == self.has_workers(),
    {
        match self {
            StartStep::ConfigureRouter
            | StartStep::ConfigureWakeup
            | StartStep::LockWriter
            | StartStep::Announce
            | StartStep::Running => true,
            _ => false,
        }
    }

    /// Takes in how the step went. A trouble ends the start; the steps end
    /// when the command runs and the router knows.
    pub fn advance(&mut self, outcome: Result<(), String>, windows: bool) -> (trouble: Option<
        StartTrouble,
    >)
        ensures
            match outcome {
                Ok(()) => *final(self) == old(self).successor(windows) && trouble is None,
                Err(cause) => {
                    &&& *final(self) == StartStep::Stopped
                    &&& trouble matches Some(t)
                    &&& t.message@ == old(self).trouble(cause@)
                    &&& t.stop_workers == old(self).has_workers()
                },
            },
    {
        match outcome {
            Ok(()) => {
                *self = self.following(windows);
                None
            },
            Err(cause) => {
                let stop_workers = self.workers_run();
                let message = self.describe(cause);
                *self = StartStep::Stopped;
                Some(StartTrouble { message, stop_workers })
            },
        }
    }
}

/// Only a router that was told of the command has it running, and the workers,
/// once they run, are there for every later step.
pub proof fn running_commands_were_announced(step: StartStep, windows: bool)
    ensures
        step.successor(windows) is Running ==> step is Announce || step is Running,
        step.has_workers() ==> step.successor(windows).has_workers(),
        step.successor(windows).has_workers() ==> step.has_workers() || step is StartChildWorker,
{
}

/// The exit code of a command; one that a signal ended has none.
pub fn exit_code(code: Option<i32>) -> (r: i32)
    ensures
        r == match code {
            Some(code) => code,
            None => 1,
        },
{
    match code {
        Some(code) => code,
        None => 1,
    }
}

// The workers.

/// What the worker of an output stream saw.
#[derive(Debug)]
pub enum OutputEvent {
    /// The session is over.
    Cancelled,
    Read(usize),
    ReadFailed(String),
    WriterLost,
    SendFailed(String),
    Sent,
}

#[derive(Debug)]
pub enum OutputStep {
    Read,
    Send(usize),
    Done(Result<(), String>),
}

pub open spec fn output_stops(step: OutputStep, words: Seq<char>) -> bool {
    step matches OutputStep::Done(Err(message)) && message@ == words
}

/// Forwards an output stream until it ends or the session is over.
pub fn forward_output(event: OutputEvent) -> (step: OutputStep)
    ensures
        match event {
            OutputEvent::Cancelled => step == OutputStep::Done(Ok(())),
            OutputEvent::Read(count) => step == if count == 0 {
                OutputStep::Done(Ok(()))
            } else {
                OutputStep::Send(count)
            },
            OutputEvent::ReadFailed(cause) => output_stops(
                step,
                "could not read pipe output: "@ + cause@,
            ),
            OutputEvent::WriterLost => output_stops(step, "pipe router writer is unavailable"@),
            OutputEvent::SendFailed(cause) => output_stops(
                step,
                "could not forward pipe output: "@ + cause@,
            ),
            OutputEvent::Sent => step == OutputStep::Read,
        },
{
    match event {
        OutputEvent::Cancelled => OutputStep::Done(Ok(())),
        OutputEvent::Read(count) => {
            if count == 0 {
                OutputStep::Done(Ok(()))
            } else {
                OutputStep::Send(count)
            }
        },
        OutputEvent::ReadFailed(cause) => OutputStep::Done(
            Err(joined("could not read pipe output: ", cause.as_str())),
        ),
        OutputEvent::WriterLost => OutputStep::Done(
            Err("pipe router writer is unavailable".to_owned()),
        ),
        OutputEvent::SendFailed(cause) => OutputStep::Done(
            Err(joined("could not forward pipe output: ", cause.as_str())),
        ),
        OutputEvent::Sent => OutputStep::Read,
    }
}

/// The mark of a stream on the wire: the standard output has none.
pub fn stderr_mark(is_stderr: bool) -> (mark: Option<bool>)
    ensures
        mark == if is_stderr {
            Some(true)
        } else {
            None::<bool>
        },
{
    if is_stderr {
        Some(true)
    } else {
        None
    }
}

/// What the worker that waits for the command saw.
#[derive(Debug)]
pub enum ChildLook {
    /// The owner of the command panicked.
    OwnerLost,
    /// The command is no longer owned.
    NotOwned,
    Running,
    /// It exited, with its code where it has one.
    Exited(Option<i32>),
    Failed(String),
}

/// What the waiting amounts to; nothing while the command runs.
pub fn wait_child(look: ChildLook) -> (r: Option<Result<i32, String>>)
    ensures
        match look {
            ChildLook::OwnerLost => r matches Some(Err(message)) && message@
                == "pipe child owner is unavailable"@,
            ChildLook::NotOwned => r matches Some(Err(message)) && message@
                == "pipe child is not owned"@,
            ChildLook::Running => r is None,
            ChildLook::Exited(code) => r == Some(
                Ok::<i32, String>(
                    match code {
                        Some(code) => code,
                        None => 1,
                    },
                ),
            ),
            ChildLook::Failed(cause) => r matches Some(Err(message)) && message@
                == "could not wait for pipe command: "@ + cause@,
        },
{
    match look {
        ChildLook::OwnerLost => Some(Err("pipe child owner is unavailable".to_owned())),
        ChildLook::NotOwned => Some(Err("pipe child is not owned".to_owned())),
        ChildLook::Running => None,
        ChildLook::Exited(code) => Some(Ok(exit_code(code))),
        ChildLook::Failed(cause) => Some(
            Err(joined("could not wait for pipe command: ", cause.as_str())),
        ),
    }
}

// Input.

/// What a packet of the router means to a command.
pub enum InputModel {
    Close,
    /// More input, perhaps none.
    More(Seq<u8>),
    Rejected(Seq<char>),
}

/// `message` is what the payload of a buffer packet decodes to, where it
/// does: its bytes, where it holds any.
pub open spec fn input_of(
    encrypted: bool,
    kind: PacketKind,
    message: Option<Option<Seq<u8>>>,
) -> InputModel {
    if encrypted {
        InputModel::Rejected("encrypted local terminal packet rejected"@)
    } else if kind == PacketKind::TerminalClose {
        InputModel::Close
    } else if kind == PacketKind::TerminalInfo {
        InputModel::More(Seq::empty())
    } else if kind == PacketKind::TerminalBuffer {
        match message {
            Some(Some(bytes)) => InputModel::More(bytes),
            Some(None) => InputModel::More(Seq::empty()),
            None => InputModel::Rejected("TERMINAL_BUFFER protobuf is malformed"@),
        }
    } else {
        InputModel::Rejected("unsupported local terminal packet type"@)
    }
}

/// The contents of a decoded buffer.
pub open spec fn message_bytes(message: Option<Option<Vec<u8>>>) -> Option<Option<Seq<u8>>> {
    match message {
        Some(Some(bytes)) => Some(Some(bytes@)),
        Some(None) => Some(None),
        None => None,
    }
}

/// Takes a packet in: whether it closes the session, and its input behind
/// what is pending.
pub fn take_input(
    encrypted: bool,
    kind: PacketKind,
    message: Option<Option<Vec<u8>>>,
    pending: &mut Vec<u8>,
) -> (r: Result<bool, String>)
    ensures
        match input_of(encrypted, kind, message_bytes(message)) {
            InputModel::Close => r == Ok::<bool, String>(true) && final(pending)@ == old(pending)@,
            InputModel::More(bytes) => {
                &&& r == Ok::<bool, String>(false)
                &&& final(pending)@ == old(pending)@ + bytes
            },
            InputModel::Rejected(words) => {
                &&& r matches Err(message)
                &&& message@ == words
                &&& final(pending)@ == old(pending)@
            },
        },
{
    match local_packet_effect(encrypted, kind) {
        Err(message) => {
            return Err(message.to_owned());
        },
        Ok(LocalPacketEffect::Close) => {
            return Ok(true);
        },
        Ok(LocalPacketEffect::Continue) => {},
    }
    match kind {
        PacketKind::TerminalInfo => {
            assert(pending@ + Seq::<u8>::empty() =~= pending@);
            Ok(false)
        },
        _ => match message {
            None => Err("TERMINAL_BUFFER protobuf is malformed".to_owned()),
            Some(None) => {
                assert(pending@ + Seq::<u8>::empty() =~= pending@);
                Ok(false)
            },
            Some(Some(bytes)) => {
                append_bytes(pending, bytes.as_slice());
                Ok(false)
            },
        },
    }
}

// The pump.

/// What a worker reports.
#[derive(Debug)]
pub enum PipeEvent {
    StdoutEof,
    StderrEof,
    Failed(String),
    Child(Result<i32, String>),
}

/// What the pump does now.
#[derive(Debug, Clone, Copy, PartialEq, Eq, Structural)]
pub enum PipePhase {
    /// Take a report, before the poll and after it.
    TakeEvent { polled: bool },
    /// Wait: for input where it is accepted, for the command where there is
    /// input for it, and for reports.
    Poll,
    DrainWake,
    ReadRouter,
    WriteInput,
    Ended,
}

/// What happened in a phase.
#[derive(Debug)]
pub enum PumpLook {
    Worker(Option<PipeEvent>),
    Polled,
    Interrupted,
    PollFailed(String),
    Drained(Result<(), String>),
    /// A packet with what its payload decodes to.
    Packet(bool, PacketKind, Option<Option<Vec<u8>>>),
    NoPacket,
    ReadFailed(String),
    /// The command took so many bytes.
    Wrote(usize),
    WouldBlock,
    /// The command reads no more.
    BrokenPipe,
    WriteFailed(String),
}

/// How the pump ends: with a status, or with a description.
pub type PipeEnd = Option<Result<i32, Seq<char>>>;

pub open spec fn pipe_end(r: Option<Result<i32, String>>) -> PipeEnd {
    match r {
        None => None,
        Some(Ok(status)) => Some(Ok(status)),
        Some(Err(message)) => Some(Err(message@)),
    }
}

#[derive(Debug)]
pub struct PipePump {
    pub stdout_done: bool,
    pub child_status: Option<i32>,
    /// The command can still get input.
    pub stdin_open: bool,
    /// Input that the command has not taken.
    pub pending: Vec<u8>,
    /// Input was accepted when the poll began.
    pub accept: bool,
    pub phase: PipePhase,
}

/// The contents of a [`PipePump`].
pub struct PipeModel {
    pub stdout_done: bool,
    pub child_status: Option<i32>,
    pub stdin_open: bool,
    pub pending: Seq<u8>,
    pub accept: bool,
    pub phase: PipePhase,
}

impl View for PipePump {
    type V = PipeModel;

    open spec fn view(&self) -> PipeModel {
        PipeModel {
            stdout_done: self.stdout_done,
            child_status: self.child_status,
            stdin_open: self.stdin_open,
            pending: self.pending@,
            accept: self.accept,
            phase: self.phase,
        }
    }
}

impl PipeModel {
    pub open spec fn at(self, phase: PipePhase) -> (PipeModel, PipeEnd) {
        (PipeModel { phase, ..self }, None)
    }

    pub open spec fn exits(self, status: i32) -> (PipeModel, PipeEnd) {
        (PipeModel { phase: PipePhase::Ended, ..self }, Some(Ok(status)))
    }

    pub open spec fn failed(self, message: Seq<char>) -> (PipeModel, PipeEnd) {
        (PipeModel { phase: PipePhase::Ended, ..self }, Some(Err(message)))
    }

    pub open spec fn top(self) -> (PipeModel, PipeEnd) {
        self.at(PipePhase::TakeEvent { polled: false })
    }

    /// Input ends with the output, once what was accepted is taken: a command
    /// may close its output while it still reads.
    pub open spec fn settled(self) -> PipeModel {
        PipeModel {
            stdin_open: self.stdin_open && !(self.stdout_done && self.pending.len() == 0),
            ..self
        }
    }

    /// Whether the router is read.
    pub open spec fn accepts(self) -> bool {
        self.stdin_open && !self.stdout_done && self.pending.len() < MAX_PENDING_INPUT
    }

    /// Whether there is input for the command.
    pub open spec fn has_input(self) -> bool {
        self.stdin_open && self.pending.len() > 0
    }

    pub open spec fn to_write(self) -> (PipeModel, PipeEnd) {
        if self.has_input() {
            self.at(PipePhase::WriteInput)
        } else {
            self.top()
        }
    }

    /// After all reports were taken: the session is over when the output
    /// ended and the command exited.
    pub open spec fn after_events(self, polled: bool) -> (PipeModel, PipeEnd) {
        if self.stdout_done && self.child_status is Some {
            self.settled_if(polled).exits(self.child_status->0)
        } else if !polled {
            let next = self.settled();
            PipeModel { accept: next.accepts(), ..next }.at(PipePhase::Poll)
        } else if self.accept {
            self.settled().at(PipePhase::ReadRouter)
        } else {
            self.settled().to_write()
        }
    }

    pub open spec fn settled_if(self, polled: bool) -> PipeModel {
        if polled {
            self.settled()
        } else {
            self
        }
    }

    /// What follows what happened. What the phase does not wait for leaves
    /// the pump as it is.
    pub open spec fn next(self, look: PumpLook) -> (PipeModel, PipeEnd) {
        match (self.phase, look) {
            (PipePhase::TakeEvent { .. }, PumpLook::Worker(Some(event))) => match event {
                PipeEvent::StdoutEof => (PipeModel { stdout_done: true, ..self }, None),
                PipeEvent::StderrEof => (self, None),
                PipeEvent::Failed(message) => self.failed(message@),
                PipeEvent::Child(Ok(status)) => (
                    PipeModel { child_status: Some(status), ..self },
                    None,
                ),
                PipeEvent::Child(Err(message)) => self.failed(message@),
            },
            (PipePhase::TakeEvent { polled }, PumpLook::Worker(None)) => self.after_events(polled),
            (PipePhase::Poll, PumpLook::Polled) => self.at(PipePhase::DrainWake),
            (PipePhase::Poll, PumpLook::Interrupted) => self.top(),
            (PipePhase::Poll, PumpLook::PollFailed(cause)) => self.failed(
                "could not poll pipe session: "@ + cause@,
            ),
            (PipePhase::DrainWake, PumpLook::Drained(Ok(()))) => self.at(
                PipePhase::TakeEvent { polled: true },
            ),
            (PipePhase::DrainWake, PumpLook::Drained(Err(cause))) => self.failed(
                "could not drain pipe wakeup: "@ + cause@,
            ),
            (PipePhase::ReadRouter, PumpLook::Packet(encrypted, kind, message)) => match input_of(
                encrypted,
                kind,
                message_bytes(message),
            ) {
                InputModel::Close => self.exits(0),
                InputModel::More(bytes) => PipeModel {
                    pending: self.pending + bytes,
                    ..self
                }.to_write(),
                InputModel::Rejected(words) => self.failed(words),
            },
            (PipePhase::ReadRouter, PumpLook::NoPacket) => self.to_write(),
            (PipePhase::ReadRouter, PumpLook::ReadFailed(message)) => self.failed(message@),
            (PipePhase::WriteInput, PumpLook::Wrote(count)) => if count == 0 {
                self.failed("pipe stdin closed"@)
            } else if count >= self.pending.len() {
                PipeModel { pending: Seq::empty(), ..self }.top()
            } else {
                (PipeModel { pending: self.pending.skip(count as int), ..self }, None)
            },
            (PipePhase::WriteInput, PumpLook::Interrupted) => (self, None),
            (PipePhase::WriteInput, PumpLook::WouldBlock) => self.top(),
            (PipePhase::WriteInput, PumpLook::BrokenPipe) => PipeModel {
                pending: Seq::empty(),
                ..self
            }.top(),
            (PipePhase::WriteInput, PumpLook::WriteFailed(cause)) => self.failed(
                "could not write pipe stdin: "@ + cause@,
            ),
            _ => (self, None),
        }
    }
}

impl PipePump {
    pub fn new() -> (pump: Self)
        ensures
            pump@ == (PipeModel {
                stdout_done: false,
                child_status: None,
                stdin_open: true,
                pending: Seq::empty(),
                accept: false,
                phase: PipePhase::TakeEvent { polled: false },
            }),
    {
        let pump = PipePump {
            stdout_done: false,
            child_status: None,
            stdin_open: true,
            pending: Vec::new(),
            accept: false,
            phase: PipePhase::TakeEvent { polled: false },
        };
        assert(pump.pending@ =~= Seq::empty());
        pump
    }

    fn exit(&mut self, status: i32) -> (r: Option<Result<i32, String>>)
        ensures
            (final(self)@, pipe_end(r)) == old(self)@.exits(status),
    {
        self.phase = PipePhase::Ended;
        Some(Ok(status))
    }

    fn fail(&mut self, message: String) -> (r: Option<Result<i32, String>>)
        ensures
            (final(self)@, pipe_end(r)) == old(self)@.failed(message@),
    {
        self.phase = PipePhase::Ended;
        Some(Err(message))
    }

    fn go_top(&mut self) -> (r: Option<Result<i32, String>>)
        ensures
            (final(self)@, pipe_end(r)) == old(self)@.top(),
    {
        self.phase = PipePhase::TakeEvent { polled: false };
        None
    }

    fn go_write(&mut self) -> (r: Option<Result<i32, String>>)
        ensures
            (final(self)@, pipe_end(r)) == old(self)@.to_write(),
    {
        if self.stdin_open && self.pending.len() > 0 {
            self.phase = PipePhase::WriteInput;
            None
        } else {
            self.go_top()
        }
    }

    fn settle(&mut self)
        ensures
            final(self)@ == old(self)@.settled(),
    {
        if self.stdout_done && self.pending.len() == 0 {
            self.stdin_open = false;
        }
    }

    fn after_events(&mut self, polled: bool) -> (r: Option<Result<i32, String>>)
        ensures
            (final(self)@, pipe_end(r)) == old(self)@.after_events(polled),
    {
        let over: Option<i32> = if self.stdout_done {
            self.child_status
        } else {
            None
        };
        match over {
            Some(status) => {
                if polled {
                    self.settle();
                }
                self.exit(status)
            },
            None => {
                self.settle();
                if !polled {
                    self.accept = self.stdin_open && !self.stdout_done && self.pending.len()
                        < MAX_PENDING_INPUT;
                    self.phase = PipePhase::Poll;
                    None
                } else if self.accept {
                    self.phase = PipePhase::ReadRouter;
                    None
                } else {
                    self.go_write()
                }
            },
        }
    }

    fn after_write(&mut self, count: usize) -> (r: Option<Result<i32, String>>)
        requires
            old(self).phase == PipePhase::WriteInput,
        ensures
            (final(self)@, pipe_end(r)) == old(self)@.next(PumpLook::Wrote(count)),
    {
        if count == 0 {
            return self.fail("pipe stdin closed".to_owned());
        }
        let len: usize = self.pending.len();
        if count >= len {
            self.pending = Vec::new();
            assert(self.pending@ =~= Seq::empty());
            self.go_top()
        } else {
            let rest = bytes_of(slice_subrange(self.pending.as_slice(), count, len));
            assert(rest@ =~= self.pending@.skip(count as int));
            self.pending = rest;
            None
        }
    }

    /// Takes in what happened in the present phase.
    pub fn advance(&mut self, look: PumpLook) -> (r: Option<Result<i32, String>>)
        ensures
            (final(self)@, pipe_end(r)) == old(self)@.next(look),
    {
        match (self.phase, look) {
            (PipePhase::TakeEvent { polled: _ }, PumpLook::Worker(Some(event))) => match event {
                PipeEvent::StdoutEof => {
                    self.stdout_done = true;
                    None
                },
                PipeEvent::StderrEof => None,
                PipeEvent::Failed(message) => self.fail(message),
                PipeEvent::Child(Ok(status)) => {
                    self.child_status = Some(status);
                    None
                },
                PipeEvent::Child(Err(message)) => self.fail(message),
            },
            (PipePhase::TakeEvent { polled }, PumpLook::Worker(None)) => self.after_events(polled),
            (PipePhase::Poll, PumpLook::Polled) => {
                self.phase = PipePhase::DrainWake;
                None
            },
            (PipePhase::Poll, PumpLook::Interrupted) => self.go_top(),
            (PipePhase::Poll, PumpLook::PollFailed(cause)) => {
                let message = joined("could not poll pipe session: ", cause.as_str());
                self.fail(message)
            },
            (PipePhase::DrainWake, PumpLook::Drained(Ok(()))) => {
                self.phase = PipePhase::TakeEvent { polled: true };
                None
            },
            (PipePhase::DrainWake, PumpLook::Drained(Err(cause))) => {
                let message = joined("could not drain pipe wakeup: ", cause.as_str());
                self.fail(message)
            },
            (PipePhase::ReadRouter, PumpLook::Packet(encrypted, kind, message)) => {
                match take_input(encrypted, kind, message, &mut self.pending) {
                    Ok(true) => self.exit(0),
                    Ok(false) => self.go_write(),
                    Err(message) => self.fail(message),
                }
            },
            (PipePhase::ReadRouter, PumpLook::NoPacket) => self.go_write(),
            (PipePhase::ReadRouter, PumpLook::ReadFailed(message)) => self.fail(message),
            (PipePhase::WriteInput, PumpLook::Wrote(count)) => self.after_write(count),
            (PipePhase::WriteInput, PumpLook::Interrupted) => None,
            (PipePhase::WriteInput, PumpLook::WouldBlock) => self.go_top(),
            (PipePhase::WriteInput, PumpLook::BrokenPipe) => {
                self.pending = Vec::new();
                assert(self.pending@ =~= Seq::empty());
                self.go_top()
            },
            (PipePhase::WriteInput, PumpLook::WriteFailed(cause)) => {
                let message = joined("could not write pipe stdin: ", cause.as_str());
                self.fail(message)
            },
            _ => None,
        }
    }
}

/// A command's session exits with its status, after its output ended. Only a
/// client that closes the session ends it before, and then well.
pub proof fn sessions_exit_with_their_command(pump: PipeModel, look: PumpLook)
    ensures
        pump.next(look).1 matches Some(Ok(status)) ==> (pump.stdout_done && pump.child_status
            == Some(status)) || (status == 0 && pump.phase == PipePhase::ReadRouter && (
        look matches PumpLook::Packet(encrypted, kind, _) && !encrypted && kind
            == PacketKind::TerminalClose)),
{
}

/// Input that was accepted is not dropped because the output ended: the
/// command's input closes only when nothing is pending.
pub proof fn accepted_input_is_delivered(pump: PipeModel, look: PumpLook)
    requires
        pump.stdin_open,
        !pump.next(look).0.stdin_open,
    ensures
        pump.pending.len() == 0,
        pump.stdout_done,
{
}

/// Input is read only while there is room for it, so that what is pending is
/// bounded by one packet more than the limit.
pub proof fn pending_input_is_bounded(pump: PipeModel, look: PumpLook)
    requires
        pump.phase is ReadRouter || pump.phase is DrainWake || pump.phase == (
        PipePhase::TakeEvent { polled: true }) || pump.phase is Poll ==> (pump.accept
            ==> pump.pending.len() < MAX_PENDING_INPUT),
        pump.phase is ReadRouter ==> pump.accept,
    ensures
        ({
            let next = pump.next(look).0;
            &&& next.phase is ReadRouter || next.phase is DrainWake || next.phase == (
            PipePhase::TakeEvent { polled: true }) || next.phase is Poll ==> (next.accept
                ==> next.pending.len() < MAX_PENDING_INPUT)
            &&& next.phase is ReadRouter ==> next.accept
            &&& next.pending.len() > pump.pending.len() ==> pump.pending.len() < MAX_PENDING_INPUT
        }),
{
}

/// What the command takes in a step: the front of what is pending.
pub open spec fn input_taken(pump: PipeModel, look: PumpLook) -> Seq<u8> {
    match look {
        PumpLook::Wrote(count) if pump.phase is WriteInput && count <= pump.pending.len() =>
            pump.pending.take(count as int),
        _ => Seq::empty(),
    }
}

/// What a step adds to the input: the bytes of a buffer packet.
pub open spec fn input_given(pump: PipeModel, look: PumpLook) -> Seq<u8> {
    match look {
        PumpLook::Packet(false, PacketKind::TerminalBuffer, Some(Some(bytes))) if pump.phase
            is ReadRouter => bytes@,
        _ => Seq::empty(),
    }
}

/// The pump after a whole run.
pub open spec fn after_all(pump: PipeModel, looks: Seq<PumpLook>) -> PipeModel
    decreases looks.len(),
{
    if looks.len() == 0 {
        pump
    } else {
        after_all(pump, looks.drop_last()).next(looks.last()).0
    }
}

/// What the command takes over a run.
pub open spec fn all_taken(pump: PipeModel, looks: Seq<PumpLook>) -> Seq<u8>
    decreases looks.len(),
{
    if looks.len() == 0 {
        Seq::empty()
    } else {
        all_taken(pump, looks.drop_last()) + input_taken(
            after_all(pump, looks.drop_last()),
            looks.last(),
        )
    }
}

/// What a run adds to the input.
pub open spec fn all_given(pump: PipeModel, looks: Seq<PumpLook>) -> Seq<u8>
    decreases looks.len(),
{
    if looks.len() == 0 {
        Seq::empty()
    } else {
        all_given(pump, looks.drop_last()) + input_given(
            after_all(pump, looks.drop_last()),
            looks.last(),
        )
    }
}

/// A run in which the command keeps reading: it never takes more than it is
/// offered, and its end of the pipe stays open.
pub open spec fn keeps_reading(pump: PipeModel, looks: Seq<PumpLook>) -> bool {
    forall|i: int|
        0 <= i < looks.len() ==> {
            &&& !(#[trigger] looks[i] is BrokenPipe)
            &&& looks[i] matches PumpLook::Wrote(count) ==> count <= after_all(
                pump,
                looks.take(i),
            ).pending.len()
        }
}

/// In one step, what the command takes and what stays pending are what was
/// pending and what the step adds, in that order. The command is offered the
/// rest until nothing is left.
pub proof fn input_moves_in_order(pump: PipeModel, look: PumpLook)
    requires
        !(look is BrokenPipe),
        look matches PumpLook::Wrote(count) ==> count <= pump.pending.len(),
    ensures
        input_taken(pump, look) + pump.next(look).0.pending == pump.pending + input_given(
            pump,
            look,
        ),
        pump.phase is WriteInput && (look matches PumpLook::Wrote(count) && 0 < count
            && count < pump.pending.len()) ==> pump.next(look).0.phase is WriteInput,
        pump.phase is ReadRouter && pump.stdin_open && (look matches PumpLook::Packet(
            false,
            PacketKind::TerminalBuffer,
            Some(Some(bytes)),
        ) && bytes@.len() > 0) ==> pump.next(look).0.phase is WriteInput,
{
    let next = pump.next(look).0;
    assert(input_taken(pump, look) + next.pending =~= pump.pending + input_given(pump, look));
}

/// The bytes of a client reach the command once and in order: over any run in
/// which the command keeps reading, what it took and what is still pending
/// are what was pending and what the packets brought.
pub proof fn input_reaches_the_command_once_and_in_order(pump: PipeModel, looks: Seq<PumpLook>)
    requires
        keeps_reading(pump, looks),
    ensures
        all_taken(pump, looks) + after_all(pump, looks).pending == pump.pending + all_given(
            pump,
            looks,
        ),
    decreases looks.len(),
{
    if looks.len() == 0 {
        assert(all_taken(pump, looks) + pump.pending =~= pump.pending + all_given(pump, looks));
    } else {
        let earlier = looks.drop_last();
        let before = after_all(pump, earlier);
        assert forall|i: int| 0 <= i < earlier.len() implies {
            &&& !(#[trigger] earlier[i] is BrokenPipe)
            &&& earlier[i] matches PumpLook::Wrote(count) ==> count <= after_all(
                pump,
                earlier.take(i),
            ).pending.len()
        } by {
            assert(looks[i] == earlier[i]);
            assert(earlier.take(i) =~= looks.take(i));
        }
        assert(looks.take(looks.len() - 1) =~= earlier);
        assert(looks[looks.len() - 1] == looks.last());
        input_reaches_the_command_once_and_in_order(pump, earlier);
        input_moves_in_order(before, looks.last());
        let taken = input_taken(before, looks.last());
        let given = input_given(before, looks.last());
        let rest = after_all(pump, looks).pending;
        assert(all_taken(pump, looks) + rest =~= all_taken(pump, earlier) + (taken + rest));
        assert(all_taken(pump, earlier) + (before.pending + given) =~= (all_taken(pump, earlier)
            + before.pending) + given);
        assert((pump.pending + all_given(pump, earlier)) + given =~= pump.pending + all_given(
            pump,
            looks,
        ));
    }
}

/// A session without a terminal ends as soon as its command exited and its
/// output ended, in whatever order, and with the exit status of the command.
pub proof fn finished_commands_end_their_session(pump: PipeModel, status: i32, output_first: bool)
    requires
        pump.phase is TakeEvent,
        !pump.stdout_done,
        pump.child_status is None,
    ensures
        ({
            let eof = PumpLook::Worker(Some(PipeEvent::StdoutEof));
            let exit = PumpLook::Worker(Some(PipeEvent::Child(Ok(status))));
            let first = if output_first {
                pump.next(eof).0.next(exit)
            } else {
                pump.next(exit).0.next(eof)
            };
            &&& first.1 is None
            &&& first.0.next(PumpLook::Worker(None)).1 == Some(Ok::<i32, Seq<char>>(status))
            &&& pump.next(eof).0.next(PumpLook::Worker(None)).1 is None
            &&& pump.next(exit).0.next(PumpLook::Worker(None)).1 is None
        }),
{
}

// What the parts of a session are for.

/// A command runs as it was asked for, character by character, and there is
/// no session without one.
pub proof fn commands_run_as_asked(command: Option<String>, r: Result<String, String>)
    requires
        call_ensures(pipe_command, (command,), r),
    ensures
        r is Ok <==> (command matches Some(text) && text@.len() > 0 && !text@.contains('\0')),
        r is Ok ==> r->Ok_0@ == command->0@,
{
}

/// A POSIX host runs commands with its shell, and a Windows host with the one
/// that it names, in the words that this one takes.
pub proof fn commands_run_in_a_shell(
    comspec: Option<&str>,
    windows: bool,
    directory: Seq<char>,
    r: (String, String),
)
    requires
        call_ensures(shell_command, (comspec, windows), r),
    ensures
        !windows ==> r.0@ == "/bin/sh"@ && r.1@ == "-c"@,
        windows && comspec is Some ==> r.0@ == comspec->0@,
        windows && comspec is None ==> r.0@ == "cmd.exe"@ && r.1@ == "/c"@,
        windows && comspec is Some && comspec->0@ == directory + "cmd.exe"@ ==> r.1@ == "/c"@,
        windows && comspec is Some && comspec->0@ == directory + "CMD.EXE"@ ==> r.1@ == "/c"@,
        windows && comspec is Some && !lowered(comspec->0@).contains('d') ==> r.1@ == "-c"@,
{
    reveal_strlit("cmd");
    reveal_strlit("cmd.exe");
    reveal_strlit("CMD.EXE");
    let start = 0int;
    assert(lowered("cmd.exe"@).subrange(start, start + 3) =~= "cmd"@);
    let k = directory.len() as int;
    let small = lowered(directory + "cmd.exe"@);
    assert(small.subrange(k, k + 3) =~= "cmd"@);
    let large = lowered(directory + "CMD.EXE"@);
    assert(large.subrange(k, k + 3) =~= "cmd"@);
    if let Some(shell) = comspec {
        if mentions_cmd(shell@) {
            let i = choose|i: int|
                0 <= i && i + 3 <= shell@.len() && #[trigger] lowered(shell@).subrange(i, i + 3)
                    == "cmd"@;
            assert(lowered(shell@).subrange(i, i + 3)[2] == 'd');
            assert(lowered(shell@)[i + 2] == 'd');
        }
    }
}

/// A command has the environment that was asked for, and behind it the
/// version that hosts it.
pub proof fn commands_know_their_version(
    environment: Vec<(String, String)>,
    version: &str,
    entries: Vec<(String, String)>,
)
    requires
        call_ensures(command_environment, (environment, version), entries),
    ensures
        entries@.len() == environment@.len() + 1,
        entries.deep_view().drop_last() == environment.deep_view(),
        entries@.last().0@ == "ET_VERSION"@ && entries@.last().1@ == version@,
{
    let all = entries.deep_view();
    assert(all.len() == entries@.len());
    assert(all.last() == (entries@.last().0@, entries@.last().1@));
    assert(all.drop_last() =~= environment.deep_view());
}

/// A command starts at home, where that is a directory.
pub proof fn commands_start_at_home(
    home: Option<String>,
    is_dir: bool,
    windows: bool,
    directory: Option<String>,
)
    requires
        call_ensures(starting_directory, (home, is_dir, windows), directory),
    ensures
        is_dir && !windows ==> directory == home,
        !is_dir || windows ==> directory is None,
{
}

/// How far a session is set up.
pub open spec fn start_rank(step: StartStep) -> int {
    match step {
        StartStep::Spawn => 0,
        StartStep::TakeStdin => 1,
        StartStep::TakeStdout => 2,
        StartStep::TakeStderr => 3,
        StartStep::ReadFlags => 4,
        StartStep::SetFlags => 5,
        StartStep::CloneRouter => 6,
        StartStep::CreateWakeup => 7,
        StartStep::CloneWakeup { stderr } => if stderr {
            10
        } else {
            8
        },
        StartStep::StartOutput { stderr } => if stderr {
            11
        } else {
            9
        },
        StartStep::StartChildWorker => 12,
        StartStep::ConfigureRouter => 13,
        StartStep::ConfigureWakeup => 14,
        StartStep::LockWriter => 15,
        StartStep::Announce => 16,
        StartStep::Running => 17,
        StartStep::Stopped => 18,
    }
}

/// A command is set up step by step: both of its output streams are followed
/// and its exit is waited for before it is announced. No step is left out
/// but for the flags of its input, which Windows does not have.
pub proof fn commands_are_set_up_in_order()
    ensures
        forall|step: &mut StartStep, windows: bool, trouble: Option<StartTrouble>|
            #[trigger] call_ensures(StartStep::advance, (step, Ok(()), windows), trouble) ==> (
            trouble is None) && (start_rank(*step) < 17 && !(windows && *step
                == StartStep::TakeStderr) ==> start_rank(*final(step)) == start_rank(*step) + 1)
                && (windows && *step == StartStep::TakeStderr ==> *final(step)
                == StartStep::CloneRouter),
        forall|step: &mut StartStep, cause: String, windows: bool, trouble: Option<StartTrouble>|
            #[trigger] call_ensures(StartStep::advance, (step, Err(cause), windows), trouble) ==> (
            *final(step) == StartStep::Stopped) && (trouble matches Some(told)
                && told.stop_workers == (13 <= start_rank(*step) <= 17)),
{
}

/// What a command prints is sent as it is read, in as many bytes, and marked
/// where it is an error message: the two streams stay apart.
pub proof fn streams_stay_apart(
    event: OutputEvent,
    step: OutputStep,
    stderr: bool,
    mark: Option<bool>,
)
    requires
        call_ensures(forward_output, (event,), step),
        call_ensures(stderr_mark, (stderr,), mark),
    ensures
        (event matches OutputEvent::Read(count) && count > 0) ==> step == OutputStep::Send(
            event->Read_0,
        ),
        event == OutputEvent::Sent <==> step == OutputStep::Read,
        step == OutputStep::Done(Ok(())) <==> event == OutputEvent::Read(0) || event
            == OutputEvent::Cancelled,
        event is ReadFailed || event is WriterLost || event is SendFailed ==> (
        step matches OutputStep::Done(Err(_))),
        mark == Some(true) <==> stderr,
        !stderr ==> mark is None,
{
}

/// A session leaves with the status of its command; one that a signal ended
/// has none, and counts as a failure.
pub proof fn commands_tell_their_status(
    look: ChildLook,
    r: Option<Result<i32, String>>,
    code: Option<i32>,
    left: i32,
)
    requires
        call_ensures(wait_child, (look,), r),
        call_ensures(exit_code, (code,), left),
    ensures
        r is None <==> look is Running,
        (look matches ChildLook::Exited(Some(status))) ==> r == Some(
            Ok::<i32, String>(look->Exited_0->0),
        ),
        look == ChildLook::Exited(None) ==> r == Some(Ok::<i32, String>(1i32)),
        look is OwnerLost || look is NotOwned || look is Failed ==> (r matches Some(Err(_))),
        code is Some ==> left == code->0,
        code is None ==> left != 0,
{
}

/// What the client types reaches the command behind what is held for it, byte
/// by byte. A resize adds nothing, a close ends the session, and anything
/// else is refused and adds nothing.
pub proof fn typed_bytes_are_queued_in_order()
    ensures
        forall|bytes: Vec<u8>, pending: &mut Vec<u8>, r: Result<bool, String>|
            #[trigger] call_ensures(
                take_input,
                (false, PacketKind::TerminalBuffer, Some(Some(bytes)), pending),
                r,
            ) ==> r == Ok::<bool, String>(false) && final(pending)@ == pending@ + bytes@,
        forall|message: Option<Option<Vec<u8>>>, pending: &mut Vec<u8>, r: Result<bool, String>|
            #[trigger] call_ensures(
                take_input,
                (false, PacketKind::TerminalClose, message, pending),
                r,
            ) ==> r == Ok::<bool, String>(true) && final(pending)@ == pending@,
        forall|message: Option<Option<Vec<u8>>>, pending: &mut Vec<u8>, r: Result<bool, String>|
            #[trigger] call_ensures(
                take_input,
                (false, PacketKind::TerminalInfo, message, pending),
                r,
            ) ==> r == Ok::<bool, String>(false) && final(pending)@ == pending@,
        forall|kind: PacketKind, message: Option<Option<Vec<u8>>>, pending: &mut Vec<u8>, r: Result<
            bool,
            String,
        >|
            #[trigger] call_ensures(take_input, (true, kind, message, pending), r) ==> r is Err
                && final(pending)@ == pending@,
        forall|kind: PacketKind, message: Option<Option<Vec<u8>>>, pending: &mut Vec<u8>, r: Result<
            bool,
            String,
        >|
            kind != PacketKind::TerminalBuffer && kind != PacketKind::TerminalClose && kind
                != PacketKind::TerminalInfo && #[trigger] call_ensures(
                take_input,
                (false, kind, message, pending),
                r,
            ) ==> r is Err && final(pending)@ == pending@,
{
    assert forall|message: Option<Option<Vec<u8>>>, pending: &mut Vec<u8>, r: Result<bool, String>|
        #[trigger] call_ensures(
            take_input,
            (false, PacketKind::TerminalInfo, message, pending),
            r,
        ) implies r == Ok::<bool, String>(false) && final(pending)@ == pending@ by {
        assert(pending@ + Seq::<u8>::empty() =~= pending@);
    }
}

/// A wakeup is drained before the events behind it are taken, and those are
/// then taken as after a poll.
pub proof fn wakeups_are_drained_first(pump: PipeModel)
    ensures
        pump.phase == PipePhase::Poll ==> pump.next(PumpLook::Polled).0.phase
            == PipePhase::DrainWake && pump.next(PumpLook::Polled).1 is None,
        pump.phase == PipePhase::DrainWake ==> pump.next(PumpLook::Drained(Ok(()))).0.phase == (
        PipePhase::TakeEvent { polled: true }) && pump.next(PumpLook::Drained(Ok(()))).1 is None,
{
}

} // verus!
