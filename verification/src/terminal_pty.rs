//! A session with a shell behind a pseudo terminal: how it starts, how it is
//! pumped, and how it ends.
use vstd::prelude::*;

use crate::client_terminal_loop::later;
use crate::error::joined;
use crate::terminal_protocol::{FlowControlMode, LocalPacketEffect, TerminalPacketError};
use crate::text::{
    chars_of, find_char, is_space, lemma_first_index_bounds, lemma_ink_is_text, trim, trim_chars,
};

verus! {

pub const MAX_OUTPUT_CHUNK: usize = 16384;

/// How long the last output may take after the shell exited, in milliseconds.
pub const FINAL_OUTPUT_DRAIN_MILLIS: u64 = 2000;

// The shell.

/// A variable that names a program: it holds more than blanks, and no zero.
pub open spec fn names_program(value: Seq<char>) -> bool {
    trim(value).len() > 0 && !value.contains('\0')
}

/// A variable that names a Unix shell by its absolute path.
pub open spec fn names_shell(value: Seq<char>) -> bool {
    value.len() > 0 && value[0] == '/' && !value.contains('\0')
}

/// The shell that a session hosts: the one of `ET_SHELL`, or else the one of
/// the user on Unix, and the command interpreter on Windows.
pub open spec fn session_shell(
    et_shell: Option<Seq<char>>,
    system_shell: Option<Seq<char>>,
    windows: bool,
) -> Seq<char> {
    if et_shell is Some && names_program(et_shell->0) {
        et_shell->0
    } else if windows {
        if system_shell is Some && names_program(system_shell->0) {
            system_shell->0
        } else {
            "cmd.exe"@
        }
    } else {
        if system_shell is Some && names_shell(system_shell->0) {
            system_shell->0
        } else {
            "/bin/sh"@
        }
    }
}

fn has_zero(chars: &[char]) -> (r: bool)
    ensures
        r == chars@.contains('\0'),
{
    let k = find_char(chars, '\0');
    proof {
        lemma_first_index_bounds(chars@, '\0');
    }
    if k < chars.len() {
        assert(chars@[k as int] == '\0');
    }
    k < chars.len()
}

fn is_program(value: &str) -> (r: bool)
    ensures
        r == names_program(value@),
{
    let chars = chars_of(value);
    trim_chars(chars.as_slice()).len() > 0 && !has_zero(chars.as_slice())
}

fn is_shell(value: &str) -> (r: bool)
    ensures
        r == names_shell(value@),
{
    let chars = chars_of(value);
    chars.len() > 0 && chars[0] == '/' && !has_zero(chars.as_slice())
}

/// The shell to host. `system_shell` is `SHELL` on Unix and `COMSPEC` on
/// Windows.
pub fn default_shell(et_shell: Option<&str>, system_shell: Option<&str>, windows: bool) -> (out:
    String)
    ensures
        out@ == session_shell(et_shell.deep_view(), system_shell.deep_view(), windows),
{
    if let Some(shell) = et_shell {
        if is_program(shell) {
            return shell.to_owned();
        }
    }
    if windows {
        match system_shell {
            Some(shell) => {
                if is_program(shell) {
                    shell.to_owned()
                } else {
                    "cmd.exe".to_owned()
                }
            },
            None => "cmd.exe".to_owned(),
        }
    } else {
        match system_shell {
            Some(shell) => {
                if is_shell(shell) {
                    shell.to_owned()
                } else {
                    "/bin/sh".to_owned()
                }
            },
            None => "/bin/sh".to_owned(),
        }
    }
}

/// The variables that the shell gets, in the order in which they are set: a
/// variable of the session wins over the terminal type.
pub fn shell_environment(term: &str, environment: Vec<(String, String)>) -> (out: Vec<
    (String, String),
>)
    ensures
        out.deep_view() == seq![("TERM"@, term@)] + environment.deep_view(),
{
    let mut out: Vec<(String, String)> = Vec::new();
    out.push(("TERM".to_owned(), term.to_owned()));
    let ghost given = environment.deep_view();
    let mut rest = environment;
    out.append(&mut rest);
    assert(out.deep_view() =~= seq![("TERM"@, term@)] + given);
    out
}

// The start.

/// What the start of a session does, in this order.
#[derive(Debug, Clone, Copy, PartialEq, Eq, Structural)]
pub enum PtyStep {
    ReadInit,
    /// Bound the output that the router buffers.
    BoundOutput,
    OpenPty,
    CloneReader,
    OpenWriter,
    CloneRouter,
    MakeWake,
    CloneWake,
    Spawn,
    StartOutputWorker,
    StartChildWorker,
    ConfigureRouter,
    ConfigureWake,
    /// Tell that the session runs.
    Announce,
    /// Show the message of the day.
    ShowMessage,
    Pump,
}

/// What has to be undone after a failure.
#[derive(Debug, Clone, Copy, PartialEq, Eq, Structural)]
pub struct PtyCleanup {
    /// Kill the shell and everything it started, and wait for it.
    pub kill_shell: bool,
    /// Cancel the worker that forwards output, and wait for it.
    pub stop_output: bool,
    /// Wait for the worker that waits for the shell.
    pub join_child: bool,
}

/// Output is held back in the session itself where the client asked for flow
/// control, and not in the router's socket.
pub fn after_step(step: PtyStep, flow_control: FlowControlMode) -> (next: PtyStep)
    ensures
        next == match step {
            PtyStep::ReadInit => if flow_control == FlowControlMode::Off {
                PtyStep::OpenPty
            } else {
                PtyStep::BoundOutput
            },
            PtyStep::BoundOutput => PtyStep::OpenPty,
            PtyStep::OpenPty => PtyStep::CloneReader,
            PtyStep::CloneReader => PtyStep::OpenWriter,
            PtyStep::OpenWriter => PtyStep::CloneRouter,
            PtyStep::CloneRouter => PtyStep::MakeWake,
            PtyStep::MakeWake => PtyStep::CloneWake,
            PtyStep::CloneWake => PtyStep::Spawn,
            PtyStep::Spawn => PtyStep::StartOutputWorker,
            PtyStep::StartOutputWorker => PtyStep::StartChildWorker,
            PtyStep::StartChildWorker => PtyStep::ConfigureRouter,
            PtyStep::ConfigureRouter => PtyStep::ConfigureWake,
            PtyStep::ConfigureWake => PtyStep::Announce,
            PtyStep::Announce => PtyStep::ShowMessage,
            PtyStep::ShowMessage => PtyStep::Pump,
            PtyStep::Pump => PtyStep::Pump,
        },
        shell_exists(step) ==> shell_exists(next),
{
    match step {
        PtyStep::ReadInit => {
            if flow_control == FlowControlMode::Off {
                PtyStep::OpenPty
            } else {
                PtyStep::BoundOutput
            }
        },
        PtyStep::BoundOutput => PtyStep::OpenPty,
        PtyStep::OpenPty => PtyStep::CloneReader,
        PtyStep::CloneReader => PtyStep::OpenWriter,
        PtyStep::OpenWriter => PtyStep::CloneRouter,
        PtyStep::CloneRouter => PtyStep::MakeWake,
        PtyStep::MakeWake => PtyStep::CloneWake,
        PtyStep::CloneWake => PtyStep::Spawn,
        PtyStep::Spawn => PtyStep::StartOutputWorker,
        PtyStep::StartOutputWorker => PtyStep::StartChildWorker,
        PtyStep::StartChildWorker => PtyStep::ConfigureRouter,
        PtyStep::ConfigureRouter => PtyStep::ConfigureWake,
        PtyStep::ConfigureWake => PtyStep::Announce,
        PtyStep::Announce => PtyStep::ShowMessage,
        PtyStep::ShowMessage => PtyStep::Pump,
        PtyStep::Pump => PtyStep::Pump,
    }
}

/// Whether the shell was started before a step.
pub open spec fn shell_exists(step: PtyStep) -> bool {
    match step {
        PtyStep::StartOutputWorker => true,
        PtyStep::StartChildWorker => true,
        PtyStep::ConfigureRouter => true,
        PtyStep::ConfigureWake => true,
        PtyStep::Announce => true,
        PtyStep::ShowMessage => true,
        PtyStep::Pump => true,
        _ => false,
    }
}

/// What a step could not do. Steps that describe their failures themselves
/// have no words of their own.
pub open spec fn step_trouble(step: PtyStep) -> Seq<char> {
    match step {
        PtyStep::BoundOutput => "could not bound terminal output buffering: "@,
        PtyStep::OpenPty => "could not open PTY: "@,
        PtyStep::CloneReader => "could not clone PTY reader: "@,
        PtyStep::OpenWriter => "could not open PTY writer: "@,
        PtyStep::CloneRouter => "could not clone terminal router: "@,
        PtyStep::MakeWake => "could not create PTY wakeup: "@,
        PtyStep::CloneWake => "could not clone PTY wakeup: "@,
        PtyStep::Spawn => "could not spawn terminal shell: "@,
        PtyStep::StartOutputWorker => "could not start PTY output worker: "@,
        PtyStep::StartChildWorker => "could not start PTY child worker: "@,
        PtyStep::ConfigureRouter => "could not configure terminal router: "@,
        PtyStep::ConfigureWake => "could not configure PTY wakeup: "@,
        _ => ""@,
    }
}

/// Why a step failed, and what has to be undone. Nothing that the shell or
/// its workers hold is left behind.
pub fn step_failure(step: PtyStep, cause: &str) -> (r: (String, PtyCleanup))
    ensures
        r.0@ == step_trouble(step) + cause@,
        r.1 == (PtyCleanup {
            kill_shell: shell_exists(step),
            stop_output: shell_exists(step) && step != PtyStep::StartOutputWorker,
            join_child: shell_exists(step) && step != PtyStep::StartOutputWorker && step
                != PtyStep::StartChildWorker,
        }),
{
    let what: &str = match step {
        PtyStep::BoundOutput => "could not bound terminal output buffering: ",
        PtyStep::OpenPty => "could not open PTY: ",
        PtyStep::CloneReader => "could not clone PTY reader: ",
        PtyStep::OpenWriter => "could not open PTY writer: ",
        PtyStep::CloneRouter => "could not clone terminal router: ",
        PtyStep::MakeWake => "could not create PTY wakeup: ",
        PtyStep::CloneWake => "could not clone PTY wakeup: ",
        PtyStep::Spawn => "could not spawn terminal shell: ",
        PtyStep::StartOutputWorker => "could not start PTY output worker: ",
        PtyStep::StartChildWorker => "could not start PTY child worker: ",
        PtyStep::ConfigureRouter => "could not configure terminal router: ",
        PtyStep::ConfigureWake => "could not configure PTY wakeup: ",
        _ => "",
    };
    let cleanup = match step {
        PtyStep::StartOutputWorker => PtyCleanup {
            kill_shell: true,
            stop_output: false,
            join_child: false,
        },
        PtyStep::StartChildWorker => PtyCleanup {
            kill_shell: true,
            stop_output: true,
            join_child: false,
        },
        PtyStep::ConfigureRouter
        | PtyStep::ConfigureWake
        | PtyStep::Announce
        | PtyStep::ShowMessage
        | PtyStep::Pump => PtyCleanup { kill_shell: true, stop_output: true, join_child: true },
        _ => PtyCleanup { kill_shell: false, stop_output: false, join_child: false },
    };
    (joined(what, cause), cleanup)
}

/// A shell that was started is killed by every failure that follows.
pub proof fn failures_leave_no_shell(step: PtyStep, flow_control: FlowControlMode)
    requires
        shell_exists(step) || step == PtyStep::Spawn,
    ensures
        forall|next: PtyStep| #[trigger]
            call_ensures(after_step, (step, flow_control), next) ==> shell_exists(next),
{
}

// Output.

/// What the worker that forwards output does at its gate.
#[derive(Debug)]
pub enum GateStep {
    Wait,
    Open,
    Cancelled(String),
}

/// Output waits until the session has announced itself, so that nothing the
/// shell prints comes before that.
pub fn wait_for_output_gate(ready: bool, cancelled: bool) -> (step: GateStep)
    ensures
        if cancelled {
            step matches GateStep::Cancelled(message) && message@
                == "terminal output cancelled before startup"@
        } else if ready {
            step == GateStep::Open
        } else {
            step == GateStep::Wait
        },
{
    if cancelled {
        GateStep::Cancelled("terminal output cancelled before startup".to_owned())
    } else if ready {
        GateStep::Open
    } else {
        GateStep::Wait
    }
}

/// What the worker that forwards output does.
#[derive(Debug)]
pub enum ForwardEvent {
    /// So many bytes were read.
    Read(usize),
    ReadFailed(String),
    Sent,
    /// Another holder of the writer panicked.
    WriterLost,
    SendFailed(String),
}

#[derive(Debug)]
pub enum ForwardStep {
    Read,
    /// Send as many bytes as were read.
    Send(usize),
    Done(Result<(), String>),
}

/// Whether a step ends the forwarding with these words.
pub open spec fn stops_with(step: ForwardStep, words: Seq<char>) -> bool {
    step matches ForwardStep::Done(Err(message)) && message@ == words
}

/// Forwards output until the terminal closes.
pub fn forward_output(event: ForwardEvent) -> (step: ForwardStep)
    ensures
        match event {
            ForwardEvent::Read(count) => step == if count == 0 {
                ForwardStep::Done(Ok(()))
            } else {
                ForwardStep::Send(count)
            },
            ForwardEvent::ReadFailed(cause) => stops_with(
                step,
                "could not read PTY output: "@ + cause@,
            ),
            ForwardEvent::Sent => step == ForwardStep::Read,
            ForwardEvent::WriterLost => stops_with(step, "terminal router writer is unavailable"@),
            ForwardEvent::SendFailed(cause) => stops_with(
                step,
                "could not forward PTY output: "@ + cause@,
            ),
        },
{
    match event {
        ForwardEvent::Read(count) => {
            if count == 0 {
                ForwardStep::Done(Ok(()))
            } else {
                ForwardStep::Send(count)
            }
        },
        ForwardEvent::ReadFailed(cause) => ForwardStep::Done(
            Err(joined("could not read PTY output: ", cause.as_str())),
        ),
        ForwardEvent::Sent => ForwardStep::Read,
        ForwardEvent::WriterLost => ForwardStep::Done(
            Err("terminal router writer is unavailable".to_owned()),
        ),
        ForwardEvent::SendFailed(cause) => ForwardStep::Done(
            Err(joined("could not forward PTY output: ", cause.as_str())),
        ),
    }
}

// Completion.

/// What a worker reports.
#[derive(Debug)]
pub enum WorkerEvent {
    Output(Result<(), String>),
    /// The exit status of the shell.
    Child(Result<u32, String>),
}

/// What the worker that waits for the shell came upon.
#[derive(Debug)]
pub enum ShellWait {
    /// Another owner of the shell panicked.
    OwnerLost,
    /// Somebody else took the shell.
    NotOwned,
    Exited(u32),
    Failed(String),
}

/// What the worker that waits for the shell reports.
pub fn wait_shell(wait: ShellWait) -> (r: Result<u32, String>)
    ensures
        match wait {
            ShellWait::OwnerLost => r matches Err(message) && message@
                == "terminal shell owner is unavailable"@,
            ShellWait::NotOwned => r matches Err(message) && message@
                == "terminal shell is not owned"@,
            ShellWait::Exited(status) => r == Ok::<u32, String>(status),
            ShellWait::Failed(cause) => r matches Err(message) && message@
                == "could not wait for terminal shell: "@ + cause@,
        },
{
    match wait {
        ShellWait::OwnerLost => Err("terminal shell owner is unavailable".to_owned()),
        ShellWait::NotOwned => Err("terminal shell is not owned".to_owned()),
        ShellWait::Exited(status) => Ok(status),
        ShellWait::Failed(cause) => Err(
            joined("could not wait for terminal shell: ", cause.as_str()),
        ),
    }
}

#[derive(Debug, Clone, Copy, PartialEq, Eq, Structural)]
pub struct PumpCompletion {
    pub status: u32,
    /// Everything that the shell printed was forwarded.
    pub drained: bool,
}

/// How far a session has come to its end. Moments are milliseconds of a
/// clock that does not go back.
#[derive(Debug, Clone, Copy, PartialEq, Eq, Structural)]
pub struct CompletionState {
    pub child_status: Option<u32>,
    pub output_done: bool,
    pub drain_deadline: Option<u64>,
}

impl CompletionState {
    pub fn new() -> (state: Self)
        ensures
            state == (CompletionState {
                child_status: None,
                output_done: false,
                drain_deadline: None,
            }),
    {
        CompletionState { child_status: None, output_done: false, drain_deadline: None }
    }

    /// The state after a report.
    pub open spec fn after(self, event: WorkerEvent, now: u64) -> CompletionState {
        match event {
            WorkerEvent::Child(Ok(status)) => CompletionState {
                child_status: Some(status),
                drain_deadline: Some(later(now, FINAL_OUTPUT_DRAIN_MILLIS)),
                ..self
            },
            WorkerEvent::Output(Ok(())) => CompletionState { output_done: true, ..self },
            _ => self,
        }
    }

    /// A session is complete when the shell exited and its output is out.
    pub open spec fn complete(self) -> Option<PumpCompletion> {
        match self.child_status {
            Some(status) => if self.output_done {
                Some(PumpCompletion { status, drained: true })
            } else {
                None
            },
            None => None,
        }
    }

    /// Takes in a report. A worker that failed ends the session.
    pub fn observe(&mut self, event: WorkerEvent, now: u64) -> (r: Result<
        Option<PumpCompletion>,
        String,
    >)
        ensures
            *final(self) == old(self).after(event, now),
            match event {
                WorkerEvent::Output(Err(error)) => r == Err::<Option<PumpCompletion>, String>(
                    error,
                ),
                WorkerEvent::Child(Err(error)) => r == Err::<Option<PumpCompletion>, String>(error),
                _ => r == Ok::<Option<PumpCompletion>, String>(
                    old(self).after(event, now).complete(),
                ),
            },
    {
        match event {
            WorkerEvent::Output(Err(error)) => Err(error),
            WorkerEvent::Child(Err(error)) => Err(error),
            WorkerEvent::Child(Ok(status)) => {
                self.child_status = Some(status);
                let deadline = if now > u64::MAX - FINAL_OUTPUT_DRAIN_MILLIS {
                    u64::MAX
                } else {
                    now + FINAL_OUTPUT_DRAIN_MILLIS
                };
                self.drain_deadline = Some(deadline);
                if self.output_done {
                    Ok(Some(PumpCompletion { status, drained: true }))
                } else {
                    Ok(None)
                }
            },
            WorkerEvent::Output(Ok(())) => {
                self.output_done = true;
                match self.child_status {
                    Some(status) => Ok(Some(PumpCompletion { status, drained: true })),
                    None => Ok(None),
                }
            },
        }
    }

    pub open spec fn expired(self, now: u64) -> Option<PumpCompletion> {
        match (self.child_status, self.drain_deadline) {
            (Some(status), Some(deadline)) => if now >= deadline {
                Some(PumpCompletion { status, drained: false })
            } else {
                None
            },
            _ => None,
        }
    }

    /// The end of a session whose output took too long after the shell exited.
    pub fn expired_status(&self, now: u64) -> (r: Option<PumpCompletion>)
        ensures
            r == self.expired(now),
    {
        match (self.child_status, self.drain_deadline) {
            (Some(status), Some(deadline)) => {
                if now >= deadline {
                    Some(PumpCompletion { status, drained: false })
                } else {
                    None
                }
            },
            _ => None,
        }
    }

    /// How long a poll may wait: forever while the shell runs.
    pub fn poll_timeout(&self, now: u64) -> (r: Option<u64>)
        ensures
            r == match self.drain_deadline {
                None => None::<u64>,
                Some(deadline) => if deadline <= now {
                    Some(0u64)
                } else {
                    Some((deadline - now) as u64)
                },
            },
    {
        match self.drain_deadline {
            None => None,
            Some(deadline) => {
                if deadline <= now {
                    Some(0)
                } else {
                    Some(deadline - now)
                }
            },
        }
    }
}

/// The order of the reports does not matter: a session whose shell exited
/// and whose output ended is complete, with the status of the shell.
pub proof fn completion_ignores_the_order(state: CompletionState, status: u32, first: u64, second: u64)
    requires
        state == (CompletionState { child_status: None, output_done: false, drain_deadline: None }),
    ensures
        state.after(WorkerEvent::Child(Ok(status)), first).after(
            WorkerEvent::Output(Ok(())),
            second,
        ).complete() == Some(PumpCompletion { status, drained: true }),
        state.after(WorkerEvent::Output(Ok(())), first).after(
            WorkerEvent::Child(Ok(status)),
            second,
        ).complete() == Some(PumpCompletion { status, drained: true }),
        state.after(WorkerEvent::Child(Ok(status)), first).complete() is None,
        state.after(WorkerEvent::Output(Ok(())), first).complete() is None,
{
}

/// A shell that runs keeps its session, and one that exited leaves its output
/// the full time to arrive.
pub proof fn output_gets_its_time(state: CompletionState, status: u32, exit: u64, now: u64)
    requires
        exit <= now < exit + FINAL_OUTPUT_DRAIN_MILLIS,
        now < u64::MAX,
    ensures
        state.child_status is None ==> state.expired(now) is None,
        state.after(WorkerEvent::Child(Ok(status)), exit).expired(now) is None,
{
}

// The pump.

/// What a poll said.
#[derive(Debug, Clone, Copy, PartialEq, Eq, Structural)]
pub struct PtyReady {
    pub router_readable: bool,
    pub router_down: bool,
    /// A worker has reports.
    pub wake: bool,
}

/// What the pump does now.
#[derive(Debug, Clone, Copy, PartialEq, Eq, Structural)]
pub enum PtyPhase {
    Poll,
    /// Take a report of a worker.
    TakeEvent,
    /// Empty the pipe that woke the pump.
    DrainWake,
    ReadRouter,
    /// Do what the packet asks for.
    Handle,
    Ended,
}

#[derive(Debug)]
pub enum PtyEvent {
    Polled(PtyReady),
    PollFailed(String),
    /// A report, where there is one.
    Worker(Option<WorkerEvent>),
    Drained(Result<(), String>),
    Packet,
    NoPacket,
    ReadFailed(String),
    /// What the packet asked for was done, or could not be.
    Handled(Result<LocalPacketEffect, TerminalPacketError>),
    /// A turn without progress was waited out.
    Waited,
}

/// A session that it was asked to close ends well at once, with what it still
/// had to show dropped.
pub open spec fn closed_session() -> PumpCompletion {
    PumpCompletion { status: 0, drained: false }
}

/// Whether a session goes on behind a packet: also where the pseudo terminal
/// did not take it, whose shell has then exited and is about to be reported.
pub open spec fn goes_on(result: Result<LocalPacketEffect, TerminalPacketError>) -> bool {
    match result {
        Ok(effect) => effect is Continue,
        Err(error) => error is Pty,
    }
}

/// How the pump ends, by what a failure says.
pub type PtyEnd = Option<Result<PumpCompletion, Seq<char>>>;

pub open spec fn pty_end(r: Option<Result<PumpCompletion, String>>) -> PtyEnd {
    match r {
        None => None,
        Some(Ok(completion)) => Some(Ok(completion)),
        Some(Err(message)) => Some(Err(message@)),
    }
}

#[derive(Debug, Clone, Copy)]
pub struct PtyPump {
    pub completion: CompletionState,
    pub ready: PtyReady,
    pub phase: PtyPhase,
}

impl PtyPump {
    pub open spec fn at(self, phase: PtyPhase) -> (PtyPump, PtyEnd) {
        (PtyPump { phase, ..self }, None)
    }

    pub open spec fn completed(self, completion: PumpCompletion) -> (PtyPump, PtyEnd) {
        (PtyPump { phase: PtyPhase::Ended, ..self }, Some(Ok(completion)))
    }

    pub open spec fn failed(self, message: Seq<char>) -> (PtyPump, PtyEnd) {
        (PtyPump { phase: PtyPhase::Ended, ..self }, Some(Err(message)))
    }

    /// On to the router, unless the session is over.
    pub open spec fn to_router(self, now: u64) -> (PtyPump, PtyEnd) {
        match self.completion.expired(now) {
            Some(completion) => self.completed(completion),
            None => if self.ready.router_down {
                self.failed("terminal router disconnected"@)
            } else if self.ready.router_readable {
                self.at(PtyPhase::ReadRouter)
            } else {
                self.at(PtyPhase::Poll)
            },
        }
    }

    /// What follows an event. Events that the phase does not wait for leave
    /// the pump as it is.
    pub open spec fn next(self, event: PtyEvent, now: u64) -> (PtyPump, PtyEnd) {
        match (self.phase, event) {
            (PtyPhase::Poll, PtyEvent::Polled(ready)) => {
                let seen = PtyPump { ready, ..self };
                if ready.wake {
                    seen.at(PtyPhase::TakeEvent)
                } else {
                    seen.to_router(now)
                }
            },
            (PtyPhase::Poll, PtyEvent::PollFailed(cause)) => self.failed(
                "could not poll terminal session: "@ + cause@,
            ),
            (PtyPhase::TakeEvent, PtyEvent::Worker(Some(event))) => {
                let seen = PtyPump { completion: self.completion.after(event, now), ..self };
                match event {
                    WorkerEvent::Output(Err(error)) => seen.failed(error@),
                    WorkerEvent::Child(Err(error)) => seen.failed(error@),
                    _ => match seen.completion.complete() {
                        Some(completion) => seen.completed(completion),
                        None => seen.at(PtyPhase::TakeEvent),
                    },
                }
            },
            (PtyPhase::TakeEvent, PtyEvent::Worker(None)) => self.at(PtyPhase::DrainWake),
            (PtyPhase::DrainWake, PtyEvent::Drained(result)) => match result {
                Ok(()) => self.to_router(now),
                Err(cause) => self.failed("could not drain PTY wakeup: "@ + cause@),
            },
            (PtyPhase::ReadRouter, PtyEvent::Packet) => self.at(PtyPhase::Handle),
            (PtyPhase::ReadRouter, PtyEvent::NoPacket) => self.at(PtyPhase::Poll),
            (PtyPhase::ReadRouter, PtyEvent::ReadFailed(message)) => self.failed(message@),
            (PtyPhase::Handle, PtyEvent::Handled(result)) => if goes_on(result) {
                self.at(PtyPhase::Poll)
            } else {
                match result {
                    Ok(_) => self.completed(closed_session()),
                    Err(error) => self.failed(error.text()),
                }
            },
            _ => (self, None),
        }
    }

    pub fn new() -> (pump: Self)
        ensures
            pump == (PtyPump {
                completion: CompletionState {
                    child_status: None,
                    output_done: false,
                    drain_deadline: None,
                },
                ready: PtyReady { router_readable: false, router_down: false, wake: false },
                phase: PtyPhase::Poll,
            }),
    {
        PtyPump {
            completion: CompletionState::new(),
            ready: PtyReady { router_readable: false, router_down: false, wake: false },
            phase: PtyPhase::Poll,
        }
    }

    fn complete(&mut self, completion: PumpCompletion) -> (r: Option<Result<PumpCompletion, String>>)
        ensures
            (*final(self), pty_end(r)) == old(self).completed(completion),
    {
        self.phase = PtyPhase::Ended;
        Some(Ok(completion))
    }

    fn fail(&mut self, message: String) -> (r: Option<Result<PumpCompletion, String>>)
        ensures
            (*final(self), pty_end(r)) == old(self).failed(message@),
    {
        self.phase = PtyPhase::Ended;
        Some(Err(message))
    }

    fn go_router(&mut self, now: u64) -> (r: Option<Result<PumpCompletion, String>>)
        ensures
            (*final(self), pty_end(r)) == old(self).to_router(now),
    {
        match self.completion.expired_status(now) {
            Some(completion) => self.complete(completion),
            None => {
                if self.ready.router_down {
                    self.fail("terminal router disconnected".to_owned())
                } else if self.ready.router_readable {
                    self.phase = PtyPhase::ReadRouter;
                    None
                } else {
                    self.phase = PtyPhase::Poll;
                    None
                }
            },
        }
    }

    /// Takes in what happened in the present phase.
    pub fn advance(&mut self, event: PtyEvent, now: u64) -> (r: Option<
        Result<PumpCompletion, String>,
    >)
        ensures
            (*final(self), pty_end(r)) == old(self).next(event, now),
    {
        match (self.phase, event) {
            (PtyPhase::Poll, PtyEvent::Polled(ready)) => {
                self.ready = ready;
                if ready.wake {
                    self.phase = PtyPhase::TakeEvent;
                    None
                } else {
                    self.go_router(now)
                }
            },
            (PtyPhase::Poll, PtyEvent::PollFailed(cause)) => {
                let message = joined("could not poll terminal session: ", cause.as_str());
                self.fail(message)
            },
            (PtyPhase::TakeEvent, PtyEvent::Worker(Some(event))) => {
                let mut completion = self.completion;
                let seen = completion.observe(event, now);
                self.completion = completion;
                match seen {
                    Err(message) => self.fail(message),
                    Ok(Some(done)) => self.complete(done),
                    Ok(None) => None,
                }
            },
            (PtyPhase::TakeEvent, PtyEvent::Worker(None)) => {
                self.phase = PtyPhase::DrainWake;
                None
            },
            (PtyPhase::DrainWake, PtyEvent::Drained(result)) => match result {
                Ok(()) => self.go_router(now),
                Err(cause) => {
                    let message = joined("could not drain PTY wakeup: ", cause.as_str());
                    self.fail(message)
                },
            },
            (PtyPhase::ReadRouter, PtyEvent::Packet) => {
                self.phase = PtyPhase::Handle;
                None
            },
            (PtyPhase::ReadRouter, PtyEvent::NoPacket) => {
                self.phase = PtyPhase::Poll;
                None
            },
            (PtyPhase::ReadRouter, PtyEvent::ReadFailed(message)) => self.fail(message),
            (PtyPhase::Handle, PtyEvent::Handled(result)) => match result {
                Ok(LocalPacketEffect::Continue) => {
                    self.phase = PtyPhase::Poll;
                    None
                },
                Ok(LocalPacketEffect::Close) => {
                    self.phase = PtyPhase::Ended;
                    Some(Ok(PumpCompletion { status: 0, drained: false }))
                },
                Err(TerminalPacketError::Pty(_)) => {
                    self.phase = PtyPhase::Poll;
                    None
                },
                Err(error) => self.fail(error.message()),
            },
            _ => None,
        }
    }
}

/// A session ends well only where it was asked to close, or after its shell
/// exited: with all of its output, or when the time for that is over.
pub proof fn sessions_outlive_their_shell(pump: PtyPump, event: PtyEvent, now: u64)
    requires
        event != PtyEvent::Handled(Ok(LocalPacketEffect::Close)),
    ensures
        pump.next(event, now).1 matches Some(Ok(completion))
            ==> pump.next(event, now).0.completion.child_status == Some(completion.status) && (
        if completion.drained {
            pump.next(event, now).0.completion.output_done
        } else {
            pump.next(event, now).0.completion.drain_deadline matches Some(deadline) && deadline
                <= now
        }),
{
}

// The pump on Windows. The router's channel and the wakeup of the workers
// cannot be polled together there, so both are looked at in short turns.

/// How long a turn without progress waits, in milliseconds.
pub const TURN_MILLIS: u64 = 10;

/// What a turn does now.
#[derive(Debug, Clone, Copy, PartialEq, Eq, Structural)]
pub enum TurnPhase {
    /// Take a report of a worker.
    TakeEvent,
    /// Empty the pipe that wakes the pump.
    DrainWake,
    ReadRouter,
    /// Do what the packet asks for.
    Handle,
    /// Wait a little.
    Wait,
    Ended,
}

#[derive(Debug, Clone, Copy)]
pub struct PtyTurns {
    pub completion: CompletionState,
    /// Something happened in this turn.
    pub progress: bool,
    pub phase: TurnPhase,
}

impl PtyTurns {
    pub open spec fn at(self, phase: TurnPhase) -> (PtyTurns, PtyEnd) {
        (PtyTurns { phase, ..self }, None)
    }

    pub open spec fn completed(self, completion: PumpCompletion) -> (PtyTurns, PtyEnd) {
        (PtyTurns { phase: TurnPhase::Ended, ..self }, Some(Ok(completion)))
    }

    pub open spec fn failed(self, message: Seq<char>) -> (PtyTurns, PtyEnd) {
        (PtyTurns { phase: TurnPhase::Ended, ..self }, Some(Err(message)))
    }

    /// The beginning of a turn.
    pub open spec fn top(self) -> (PtyTurns, PtyEnd) {
        (PtyTurns { progress: false, phase: TurnPhase::TakeEvent, ..self }, None)
    }

    /// The end of a turn.
    pub open spec fn rest(self) -> (PtyTurns, PtyEnd) {
        if self.progress {
            self.top()
        } else {
            self.at(TurnPhase::Wait)
        }
    }

    /// What follows an event. Events that the phase does not wait for leave
    /// the pump as it is.
    pub open spec fn next(self, event: PtyEvent, now: u64) -> (PtyTurns, PtyEnd) {
        match (self.phase, event) {
            (TurnPhase::TakeEvent, PtyEvent::Worker(Some(event))) => {
                let seen = PtyTurns {
                    completion: self.completion.after(event, now),
                    progress: true,
                    ..self
                };
                match event {
                    WorkerEvent::Output(Err(error)) => seen.failed(error@),
                    WorkerEvent::Child(Err(error)) => seen.failed(error@),
                    _ => match seen.completion.complete() {
                        Some(completion) => seen.completed(completion),
                        None => seen.at(TurnPhase::TakeEvent),
                    },
                }
            },
            (TurnPhase::TakeEvent, PtyEvent::Worker(None)) => match self.completion.expired(now) {
                Some(completion) => self.completed(completion),
                None => self.at(TurnPhase::DrainWake),
            },
            (TurnPhase::DrainWake, PtyEvent::Drained(result)) => match result {
                Ok(()) => self.at(TurnPhase::ReadRouter),
                Err(cause) => self.failed("could not drain PTY wakeup: "@ + cause@),
            },
            (TurnPhase::ReadRouter, PtyEvent::Packet) => PtyTurns { progress: true, ..self }.at(
                TurnPhase::Handle,
            ),
            (TurnPhase::ReadRouter, PtyEvent::NoPacket) => self.rest(),
            (TurnPhase::ReadRouter, PtyEvent::ReadFailed(message)) => self.failed(message@),
            (TurnPhase::Handle, PtyEvent::Handled(result)) => if goes_on(result) {
                self.rest()
            } else {
                match result {
                    Ok(_) => self.completed(closed_session()),
                    Err(error) => self.failed(error.text()),
                }
            },
            (TurnPhase::Wait, PtyEvent::Waited) => self.top(),
            _ => (self, None),
        }
    }

    pub fn new() -> (turns: Self)
        ensures
            turns.phase == TurnPhase::TakeEvent,
            !turns.progress,
            turns.completion.child_status is None && !turns.completion.output_done
                && turns.completion.drain_deadline is None,
    {
        PtyTurns {
            completion: CompletionState::new(),
            progress: false,
            phase: TurnPhase::TakeEvent,
        }
    }

    fn complete(&mut self, completion: PumpCompletion) -> (r: Option<Result<PumpCompletion, String>>)
        ensures
            (*final(self), pty_end(r)) == old(self).completed(completion),
    {
        self.phase = TurnPhase::Ended;
        Some(Ok(completion))
    }

    fn fail(&mut self, message: String) -> (r: Option<Result<PumpCompletion, String>>)
        ensures
            (*final(self), pty_end(r)) == old(self).failed(message@),
    {
        self.phase = TurnPhase::Ended;
        Some(Err(message))
    }

    fn go_rest(&mut self) -> (r: Option<Result<PumpCompletion, String>>)
        ensures
            (*final(self), pty_end(r)) == old(self).rest(),
    {
        if self.progress {
            self.progress = false;
            self.phase = TurnPhase::TakeEvent;
        } else {
            self.phase = TurnPhase::Wait;
        }
        None
    }

    /// Takes in what happened in the present phase.
    pub fn advance(&mut self, event: PtyEvent, now: u64) -> (r: Option<
        Result<PumpCompletion, String>,
    >)
        ensures
            (*final(self), pty_end(r)) == old(self).next(event, now),
    {
        match (self.phase, event) {
            (TurnPhase::TakeEvent, PtyEvent::Worker(Some(event))) => {
                let mut completion = self.completion;
                let seen = completion.observe(event, now);
                self.completion = completion;
                self.progress = true;
                match seen {
                    Err(message) => self.fail(message),
                    Ok(Some(done)) => self.complete(done),
                    Ok(None) => None,
                }
            },
            (TurnPhase::TakeEvent, PtyEvent::Worker(None)) => {
                match self.completion.expired_status(now) {
                    Some(completion) => self.complete(completion),
                    None => {
                        self.phase = TurnPhase::DrainWake;
                        None
                    },
                }
            },
            (TurnPhase::DrainWake, PtyEvent::Drained(result)) => match result {
                Ok(()) => {
                    self.phase = TurnPhase::ReadRouter;
                    None
                },
                Err(cause) => {
                    let message = joined("could not drain PTY wakeup: ", cause.as_str());
                    self.fail(message)
                },
            },
            (TurnPhase::ReadRouter, PtyEvent::Packet) => {
                self.progress = true;
                self.phase = TurnPhase::Handle;
                None
            },
            (TurnPhase::ReadRouter, PtyEvent::NoPacket) => self.go_rest(),
            (TurnPhase::ReadRouter, PtyEvent::ReadFailed(message)) => self.fail(message),
            (TurnPhase::Handle, PtyEvent::Handled(result)) => match result {
                Ok(LocalPacketEffect::Continue) => self.go_rest(),
                Ok(LocalPacketEffect::Close) => {
                    self.phase = TurnPhase::Ended;
                    Some(Ok(PumpCompletion { status: 0, drained: false }))
                },
                Err(TerminalPacketError::Pty(_)) => self.go_rest(),
                Err(error) => self.fail(error.message()),
            },
            (TurnPhase::Wait, PtyEvent::Waited) => {
                self.progress = false;
                self.phase = TurnPhase::TakeEvent;
                None
            },
            _ => None,
        }
    }
}

/// On Windows too a session ends well only where it was asked to close, or
/// after its shell exited: with all of its output, or when the time for that
/// is over.
pub proof fn turns_outlive_their_shell(turns: PtyTurns, event: PtyEvent, now: u64)
    requires
        event != PtyEvent::Handled(Ok(LocalPacketEffect::Close)),
    ensures
        turns.next(event, now).1 matches Some(Ok(completion))
            ==> turns.next(event, now).0.completion.child_status == Some(completion.status) && (
        if completion.drained {
            turns.next(event, now).0.completion.output_done
        } else {
            turns.next(event, now).0.completion.drain_deadline matches Some(deadline) && deadline
                <= now
        }),
{
}

// The end.

/// What is done when the pump is over.
#[derive(Debug, Clone, Copy, PartialEq, Eq, Structural)]
pub struct PtyEnding {
    /// Output that is still on its way is dropped.
    pub cancel_output: bool,
    /// The router is shut down, so that nobody waits for it.
    pub shut_router: bool,
    /// The shell is killed by itself, besides its group.
    pub kill_shell: bool,
}

/// How a session ends. `result` is what the start or the pump gave, and
/// `started` tells whether output was let through.
pub fn plan_ending(result: &Result<PumpCompletion, String>, started: bool) -> (plan: PtyEnding)
    ensures
        ({
            let graceful = result matches Ok(completion) && completion.drained;
            plan == (PtyEnding {
                cancel_output: !graceful,
                shut_router: started && !graceful,
                kill_shell: result is Err,
            })
        }),
{
    let graceful = match result {
        Ok(completion) => completion.drained,
        Err(_) => false,
    };
    PtyEnding {
        cancel_output: !graceful,
        shut_router: started && !graceful,
        kill_shell: result.is_err(),
    }
}

/// Whether `r` is what a session exits with. The first thing that went wrong
/// decides.
pub open spec fn exits_with(
    result: Result<PumpCompletion, String>,
    output_panicked: bool,
    child_panicked: bool,
    r: Result<i32, String>,
) -> bool {
    match result {
        Err(message) => r == Err::<i32, String>(message),
        Ok(completion) => if output_panicked {
            r matches Err(message) && message@ == "PTY output worker panicked"@
        } else if child_panicked {
            r matches Err(message) && message@ == "PTY child worker panicked"@
        } else if completion.status > i32::MAX {
            r matches Err(message) && message@ == "terminal shell exit status is out of range"@
        } else {
            r == Ok::<i32, String>(completion.status as i32)
        },
    }
}

pub fn finish_session(
    result: Result<PumpCompletion, String>,
    output_panicked: bool,
    child_panicked: bool,
) -> (r: Result<i32, String>)
    ensures
        exits_with(result, output_panicked, child_panicked, r),
{
    match result {
        Err(message) => Err(message),
        Ok(completion) => {
            if output_panicked {
                Err("PTY output worker panicked".to_owned())
            } else if child_panicked {
                Err("PTY child worker panicked".to_owned())
            } else if completion.status > 0x7fff_ffff {
                Err("terminal shell exit status is out of range".to_owned())
            } else {
                Ok(completion.status as i32)
            }
        },
    }
}

/// The processes of a shell's session.
pub open spec fn session_members(processes: Seq<(u32, Option<u32>)>, session: u32) -> Seq<u32>
    decreases processes.len(),
{
    if processes.len() == 0 {
        Seq::empty()
    } else if processes.last().1 == Some(session) {
        session_members(processes.drop_last(), session).push(processes.last().0)
    } else {
        session_members(processes.drop_last(), session)
    }
}

/// Whom to kill with a Unix shell: its process group, and all processes of
/// its session. `processes` are the numbers of all processes with their
/// sessions. A number that is no process number names nothing.
pub fn kill_process_group(process_id: Option<u32>, processes: &Vec<(u32, Option<u32>)>) -> (r: Option<
    (i32, Vec<u32>),
>)
    ensures
        match process_id {
            Some(pid) => if pid <= i32::MAX {
                r matches Some((group, members)) && group == pid && members@ == session_members(
                    processes@,
                    pid,
                )
            } else {
                r is None
            },
            None => r is None,
        },
{
    let pid = match process_id {
        Some(pid) => pid,
        None => {
            return None;
        },
    };
    if pid > 0x7fff_ffff {
        return None;
    }
    let mut members: Vec<u32> = Vec::new();
    let mut i: usize = 0;
    assert(processes@.take(0) =~= Seq::empty());
    while i < processes.len()
        invariant
            i <= processes@.len(),
            members@ == session_members(processes@.take(i as int), pid),
        decreases processes@.len() - i,
    {
        proof {
            assert(processes@.take(i + 1).drop_last() =~= processes@.take(i as int));
            assert(processes@.take(i + 1).last() == processes@[i as int]);
        }
        let entry = processes[i];
        match entry.1 {
            Some(session) => {
                if session == pid {
                    members.push(entry.0);
                }
            },
            None => {},
        }
        i += 1;
    }
    assert(processes@.take(i as int) =~= processes@);
    Some((pid as i32, members))
}

// What a session is for.

/// `ET_SHELL` decides which shell runs, and without it the system's own
/// choice, where either names a program. There is always one.
pub proof fn shells_are_chosen_in_order(
    et_shell: Option<&str>,
    system_shell: Option<&str>,
    windows: bool,
    shell: String,
)
    requires
        call_ensures(default_shell, (et_shell, system_shell, windows), shell),
    ensures
        (et_shell matches Some(path) && path@.len() > 0 && !path@.contains('\0') && !is_space(
            path@[0],
        )) ==> shell@ == et_shell->0@,
        et_shell is None && (system_shell matches Some(path) && path@.len() > 1 && path@[0] == '/'
            && !path@.contains('\0')) ==> shell@ == system_shell->0@,
        et_shell is None && system_shell is None ==> shell@ == if windows {
            "cmd.exe"@
        } else {
            "/bin/sh"@
        },
        et_shell is None && !windows && (system_shell matches Some(path) && (path@.len() == 0
            || path@[0] != '/')) ==> shell@ == "/bin/sh"@,
{
    if let Some(path) = et_shell {
        if path@.len() > 0 && !is_space(path@[0]) {
            lemma_ink_is_text(path@);
        }
    }
    if let Some(path) = system_shell {
        if path@.len() > 0 && !is_space(path@[0]) {
            lemma_ink_is_text(path@);
        }
    }
}

/// A shell finds the terminal's type in `TERM`, and behind it everything that
/// the session asked for.
pub proof fn shells_know_their_terminal(
    term: &str,
    environment: Vec<(String, String)>,
    out: Vec<(String, String)>,
)
    requires
        call_ensures(shell_environment, (term, environment), out),
    ensures
        out@.len() == environment@.len() + 1,
        out@[0].0@ == "TERM"@ && out@[0].1@ == term@,
        out.deep_view().skip(1) == environment.deep_view(),
{
    assert(out.deep_view().len() == out@.len());
    assert(out.deep_view()[0] == (out@[0].0@, out@[0].1@));
    assert(out.deep_view().skip(1) =~= environment.deep_view());
}

/// How far a session is set up.
pub open spec fn setup_rank(step: PtyStep) -> int {
    match step {
        PtyStep::ReadInit => 0,
        PtyStep::BoundOutput => 1,
        PtyStep::OpenPty => 2,
        PtyStep::CloneReader => 3,
        PtyStep::OpenWriter => 4,
        PtyStep::CloneRouter => 5,
        PtyStep::MakeWake => 6,
        PtyStep::CloneWake => 7,
        PtyStep::Spawn => 8,
        PtyStep::StartOutputWorker => 9,
        PtyStep::StartChildWorker => 10,
        PtyStep::ConfigureRouter => 11,
        PtyStep::ConfigureWake => 12,
        PtyStep::Announce => 13,
        PtyStep::ShowMessage => 14,
        PtyStep::Pump => 15,
    }
}

/// A session is set up step by step, and no step is left out: only a session
/// without flow control does not bound its output. Everything that a shell
/// needs is there before it starts, and the session is announced when all of
/// it runs.
pub proof fn sessions_are_set_up_in_order(
    step: PtyStep,
    flow_control: FlowControlMode,
    next: PtyStep,
)
    requires
        call_ensures(after_step, (step, flow_control), next),
    ensures
        step != PtyStep::ReadInit && step != PtyStep::Pump ==> setup_rank(next) == setup_rank(step)
            + 1,
        step == PtyStep::ReadInit ==> setup_rank(next) == if flow_control == FlowControlMode::Off {
            2int
        } else {
            1int
        },
        step == PtyStep::Pump ==> next == PtyStep::Pump,
{
}

/// A failure says what could not be done and why, and undoes what was begun:
/// the shell once it was started, its output once that is forwarded, and the
/// wait for it once somebody waits.
pub proof fn failures_undo_what_was_begun(step: PtyStep, cause: &str, r: (String, PtyCleanup))
    requires
        call_ensures(step_failure, (step, cause), r),
    ensures
        r.0@.len() >= cause@.len() && r.0@.skip(r.0@.len() - cause@.len()) == cause@,
        r.1.kill_shell <==> setup_rank(step) > 8,
        r.1.stop_output <==> setup_rank(step) > 9,
        r.1.join_child <==> setup_rank(step) > 10,
{
    assert(r.0@.skip(r.0@.len() - cause@.len()) =~= cause@);
}

/// What a shell prints is sent as it is read, in as many bytes, and waits
/// until the session was announced. The end of the output is its end, and a
/// failure is none.
pub proof fn output_is_forwarded(
    ready: bool,
    cancelled: bool,
    gate: GateStep,
    event: ForwardEvent,
    step: ForwardStep,
)
    requires
        call_ensures(wait_for_output_gate, (ready, cancelled), gate),
        call_ensures(forward_output, (event,), step),
    ensures
        gate == GateStep::Open <==> ready && !cancelled,
        gate is Cancelled <==> cancelled,
        (event matches ForwardEvent::Read(count) && count > 0) ==> step == ForwardStep::Send(
            event->Read_0,
        ),
        event == ForwardEvent::Read(0) <==> step == ForwardStep::Done(Ok(())),
        event == ForwardEvent::Sent <==> step == ForwardStep::Read,
        event is ReadFailed || event is WriterLost || event is SendFailed ==> (
        step matches ForwardStep::Done(Err(_))),
{
}

/// A session leaves with the status of its shell, and fails with its pump or
/// with a worker that broke down.
pub proof fn sessions_leave_with_their_shell(
    wait: ShellWait,
    status: Result<u32, String>,
    result: Result<PumpCompletion, String>,
    output_panicked: bool,
    child_panicked: bool,
    r: Result<i32, String>,
)
    requires
        call_ensures(wait_shell, (wait,), status),
        call_ensures(finish_session, (result, output_panicked, child_panicked), r),
    ensures
        wait matches ShellWait::Exited(code) ==> status == Ok::<u32, String>(code),
        status is Ok ==> wait is Exited,
        r is Ok ==> result is Ok && !output_panicked && !child_panicked && r->Ok_0
            == result->Ok_0.status && r->Ok_0 >= 0,
        result is Err ==> r is Err && r->Err_0@ == result->Err_0@,
        result is Ok && !output_panicked && !child_panicked && result->Ok_0.status <= 0x7fff_ffff
            ==> r is Ok,
        output_panicked || child_panicked ==> r is Err,
{
}

/// A shell's last output has two seconds to arrive. Then the session ends
/// with the shell's status all the same, and a poll waits until that moment
/// and no longer.
pub proof fn sessions_end_behind_their_shell(
    state: CompletionState,
    status: u32,
    exit: u64,
    now: u64,
    wait: Option<u64>,
)
    requires
        exit + 2000 <= u64::MAX,
        call_ensures(
            CompletionState::poll_timeout,
            (&state.after(WorkerEvent::Child(Ok(status)), exit), now),
            wait,
        ),
    ensures
        now >= exit + 2000 ==> state.after(
            WorkerEvent::Child(Ok(status)),
            exit,
        ).expired(now) == Some(PumpCompletion { status, drained: false }),
        wait matches Some(time) && (now <= exit + 2000 ==> now + time == exit
            + 2000) && (now > exit + 2000 ==> time == 0),
{
}

/// What the router sends is read when it is announced and then done, and the
/// session goes on behind it; workers that report are heard first, all of
/// them. A session that is asked to close closes, and one whose router went
/// fails.
pub proof fn announced_work_is_done(pump: PtyPump, ready: PtyReady, now: u64)
    requires
        pump.completion.expired(now) is None,
    ensures
        pump.phase == PtyPhase::Poll && ready.wake ==> pump.next(PtyEvent::Polled(ready), now).0.phase
            == PtyPhase::TakeEvent,
        pump.phase == PtyPhase::Poll && !ready.wake && !ready.router_down && ready.router_readable
            ==> pump.next(PtyEvent::Polled(ready), now).0.phase == PtyPhase::ReadRouter,
        pump.phase == PtyPhase::Poll && !ready.wake && ready.router_down ==> pump.next(
            PtyEvent::Polled(ready),
            now,
        ).1 matches Some(Err(_)),
        pump.phase == PtyPhase::TakeEvent ==> pump.next(PtyEvent::Worker(None), now).0.phase
            == PtyPhase::DrainWake,
        pump.phase == PtyPhase::DrainWake && pump.ready.router_readable && !pump.ready.router_down
            ==> pump.next(PtyEvent::Drained(Ok(())), now).0.phase == PtyPhase::ReadRouter,
        pump.phase == PtyPhase::ReadRouter ==> pump.next(PtyEvent::Packet, now) == (
            PtyPump { phase: PtyPhase::Handle, ..pump },
            None::<Result<PumpCompletion, Seq<char>>>,
        ),
        pump.phase == PtyPhase::Handle ==> pump.next(
            PtyEvent::Handled(Ok(LocalPacketEffect::Continue)),
            now,
        ).0 == (PtyPump { phase: PtyPhase::Poll, ..pump }),
        pump.phase == PtyPhase::Handle ==> pump.next(
            PtyEvent::Handled(Ok(LocalPacketEffect::Close)),
            now,
        ).1 == Some(Ok::<PumpCompletion, Seq<char>>(PumpCompletion { status: 0, drained: false })),
{
}

/// A session whose time is over ends at the next look, whatever the router
/// does, and a worker that failed ends it at once.
pub proof fn finished_sessions_end(
    pump: PtyPump,
    turns: PtyTurns,
    ready: PtyReady,
    error: String,
    now: u64,
)
    ensures
        pump.phase == PtyPhase::Poll && !ready.wake && pump.completion.expired(now) is Some
            ==> pump.next(PtyEvent::Polled(ready), now).1 == Some(
            Ok::<PumpCompletion, Seq<char>>(pump.completion.expired(now)->0),
        ),
        turns.phase == TurnPhase::TakeEvent && turns.completion.expired(now) is Some ==> turns.next(
            PtyEvent::Worker(None),
            now,
        ).1 == Some(Ok::<PumpCompletion, Seq<char>>(turns.completion.expired(now)->0)),
        pump.phase == PtyPhase::TakeEvent ==> pump.next(
            PtyEvent::Worker(Some(WorkerEvent::Output(Err(error)))),
            now,
        ).1 == Some(Err::<PumpCompletion, Seq<char>>(error@)) && pump.next(
            PtyEvent::Worker(Some(WorkerEvent::Child(Err(error)))),
            now,
        ).1 == Some(Err::<PumpCompletion, Seq<char>>(error@)),
        turns.phase == TurnPhase::TakeEvent ==> turns.next(
            PtyEvent::Worker(Some(WorkerEvent::Output(Err(error)))),
            now,
        ).1 == Some(Err::<PumpCompletion, Seq<char>>(error@)),
{
}

/// In turns, too, workers are heard and the router is read, one after the
/// other, and a turn waits only where nothing came.
pub proof fn turns_do_their_work(turns: PtyTurns, now: u64)
    requires
        turns.completion.expired(now) is None,
    ensures
        turns.phase == TurnPhase::TakeEvent ==> turns.next(PtyEvent::Worker(None), now).0.phase
            == TurnPhase::DrainWake,
        turns.phase == TurnPhase::DrainWake ==> turns.next(PtyEvent::Drained(Ok(())), now).0.phase
            == TurnPhase::ReadRouter,
        turns.phase == TurnPhase::ReadRouter ==> turns.next(PtyEvent::Packet, now).0.phase
            == TurnPhase::Handle && turns.next(PtyEvent::Packet, now).0.progress,
        turns.phase == TurnPhase::ReadRouter ==> turns.next(PtyEvent::NoPacket, now).0.phase
            == if turns.progress {
            TurnPhase::TakeEvent
        } else {
            TurnPhase::Wait
        },
        turns.phase == TurnPhase::Handle && turns.progress ==> turns.next(
            PtyEvent::Handled(Ok(LocalPacketEffect::Continue)),
            now,
        ).0.phase == TurnPhase::TakeEvent,
        turns.phase == TurnPhase::Handle ==> turns.next(
            PtyEvent::Handled(Ok(LocalPacketEffect::Close)),
            now,
        ).1 == Some(Ok::<PumpCompletion, Seq<char>>(PumpCompletion { status: 0, drained: false })),
        turns.phase == TurnPhase::Wait ==> turns.next(PtyEvent::Waited, now).0.phase
            == TurnPhase::TakeEvent && !turns.next(PtyEvent::Waited, now).0.progress,
{
}

/// Output is cut off only where the session did not run to its end, and the
/// shell is killed only where the session failed.
pub proof fn endings_fit_the_session(
    result: &Result<PumpCompletion, String>,
    started: bool,
    plan: PtyEnding,
)
    requires
        call_ensures(plan_ending, (result, started), plan),
    ensures
        !plan.cancel_output <==> (*result matches Ok(completion) && completion.drained),
        plan.shut_router ==> plan.cancel_output && started,
        started && plan.cancel_output ==> plan.shut_router,
        plan.kill_shell <==> *result is Err,
{
}

/// A shell takes everyone of its session along, and nobody else.
pub proof fn sessions_are_killed_together(
    pid: u32,
    processes: &Vec<(u32, Option<u32>)>,
    r: Option<(i32, Vec<u32>)>,
    i: int,
)
    requires
        pid <= 0x7fff_ffff,
        call_ensures(kill_process_group, (Some(pid), processes), r),
        0 <= i < processes@.len(),
    ensures
        r matches Some((group, members)) && group == pid && (processes@[i].1 == Some(pid)
            ==> members@.contains(processes@[i].0)) && members@.len() <= processes@.len() && ((
        forall|j: int| 0 <= j < processes@.len() ==> (#[trigger] processes@[j]).1 != Some(pid))
            ==> members@.len() == 0),
{
    lemma_session_members(processes@, pid, i);
}

proof fn lemma_session_members(processes: Seq<(u32, Option<u32>)>, session: u32, i: int)
    ensures
        0 <= i < processes.len() && processes[i].1 == Some(session) ==> session_members(
            processes,
            session,
        ).contains(processes[i].0),
        session_members(processes, session).len() <= processes.len(),
        (forall|j: int| 0 <= j < processes.len() ==> (#[trigger] processes[j]).1 != Some(session))
            ==> session_members(processes, session).len() == 0,
    decreases processes.len(),
{
    if processes.len() > 0 {
        let before = processes.drop_last();
        lemma_session_members(before, session, i);
        let earlier = session_members(before, session);
        let last = processes.last();
        assert(processes[processes.len() - 1] == last);
        if last.1 == Some(session) {
            let after = earlier.push(last.0);
            assert(after[earlier.len() as int] == last.0);
            if 0 <= i < before.len() && earlier.contains(processes[i].0) {
                let j = choose|j: int| 0 <= j < earlier.len() && earlier[j] == processes[i].0;
                assert(after[j] == processes[i].0);
            }
        } else {
            if forall|j: int|
                0 <= j < processes.len() ==> (#[trigger] processes[j]).1 != Some(session) {
                assert forall|j: int| 0 <= j < before.len() implies (#[trigger] before[j]).1
                    != Some(session) by {
                    assert(before[j] == processes[j]);
                }
            }
        }
    }
}

} // verus!
