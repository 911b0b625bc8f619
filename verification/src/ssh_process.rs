//! Running `ssh`: what is made of its output, and how it is stopped.
use std::time::Duration;
use vstd::prelude::*;

use crate::bootstrap::{
    marked_credentials, marker, marker_position, parse_id_passkey, parse_shell_probe, probe_answer,
    shell_of_answer, Credentials, RemoteShell, SshInvocation,
};
use crate::bytes::{append_bytes, find_bytes, first_occurrence, occurs};
use crate::deadline::Deadline;
use crate::error::ClientError;
use crate::text::{ascii, ascii_bytes, shown_text};

verus! {

/// How many bytes of output an `ssh` may write.
pub const MAX_SSH_STDOUT: usize = 1_048_576;

/// How long a bootstrap may take, in seconds. The remote side gives up well
/// before, so that its failure still arrives.
pub const DEFAULT_BOOTSTRAP_TIMEOUT_SECONDS: u64 = 75;

/// `Duration::from_secs`: a duration of so many seconds. Durations are opaque
/// here, so nothing is claimed of the result.
pub assume_specification[ Duration::from_secs ](secs: u64) -> (duration: Duration)
;

/// How a process ended: its exit code, or none where a signal ended it.
#[derive(Debug, Clone, Copy, PartialEq, Eq, Structural)]
pub struct ExitStatus {
    pub code: Option<i32>,
}

impl ExitStatus {
    pub open spec fn succeeded(self) -> bool {
        self.code == Some(0i32)
    }

    pub fn success(self) -> (r: bool)
        ensures
            r == self.succeeded(),
    {
        match self.code {
            Some(code) => code == 0,
            None => false,
        }
    }
}

#[derive(Debug)]
pub struct SshOutput {
    /// Exit status, or `None` when the bootstrap finished early because the
    /// `IDPASSKEY:` marker had already arrived.
    pub status: Option<ExitStatus>,
    pub stdout: Vec<u8>,
}

/// Something that runs `ssh` for the client.
pub trait SshRunner {
    fn run(&self, invocation: &SshInvocation, deadline: Deadline) -> (r: Result<
        SshOutput,
        ClientError,
    >);
}

#[derive(Debug, Clone, Copy)]
pub struct SystemSsh {
    pub timeout: Duration,
}

impl Default for SystemSsh {
    fn default() -> (ssh: Self)
        ensures
            call_ensures(Duration::from_secs, (DEFAULT_BOOTSTRAP_TIMEOUT_SECONDS,), ssh.timeout),
    {
        SystemSsh::with_timeout(Duration::from_secs(DEFAULT_BOOTSTRAP_TIMEOUT_SECONDS))
    }
}

impl SystemSsh {
    pub fn with_timeout(timeout: Duration) -> (ssh: Self)
        ensures
            ssh.timeout == timeout,
    {
        SystemSsh { timeout }
    }

    /// The deadline of an operation that starts now.
    pub fn deadline(self) -> (deadline: Deadline)
        ensures
            call_ensures(Deadline::after, (self.timeout,), deadline),
    {
        Deadline::after(self.timeout)
    }
}

/// What a finished `ssh` amounts to: its output, unless it failed. One that
/// stopped at the marker has no meaningful status.
pub open spec fn checked_output(output: SshOutput) -> Result<Vec<u8>, ClientError> {
    match output.status {
        Some(status) if !status.succeeded() => Err(ClientError::SshNonZero(status.code)),
        _ => Ok(output.stdout),
    }
}

pub fn check_output(output: SshOutput) -> (r: Result<Vec<u8>, ClientError>)
    ensures
        r == checked_output(output),
{
    match output.status {
        Some(status) => {
            if !status.success() {
                return Err(ClientError::SshNonZero(status.code));
            }
        },
        None => {},
    }
    Ok(output.stdout)
}

/// What `run_checked` makes of the answer of a runner.
pub open spec fn checked_answer(answer: Result<SshOutput, ClientError>) -> Result<
    Vec<u8>,
    ClientError,
> {
    match answer {
        Ok(output) => checked_output(output),
        Err(error) => Err(error),
    }
}

/// Runs an invocation and gives its output, unless it failed.
pub fn run_checked<R: SshRunner + ?Sized>(
    runner: &R,
    invocation: &SshInvocation,
    deadline: Deadline,
) -> (r: Result<Vec<u8>, ClientError>)
    ensures
        exists|answer: Result<SshOutput, ClientError>| #[trigger]
            call_ensures(R::run, (runner, invocation, deadline), answer) && r == checked_answer(
                answer,
            ),
{
    let answer = runner.run(invocation, deadline);
    assert(call_ensures(R::run, (runner, invocation, deadline), answer));
    match answer {
        Ok(output) => check_output(output),
        Err(error) => Err(error),
    }
}

/// What the output of a probe reveals.
pub open spec fn probed_shell(answer: Result<SshOutput, ClientError>) -> Result<
    RemoteShell,
    ClientError,
> {
    match answer {
        Err(error) => Err(error),
        Ok(output) => match output.status {
            None => Err(ClientError::SshNonZero(None)),
            Some(status) => if !status.succeeded() {
                Err(ClientError::SshNonZero(status.code))
            } else {
                match shell_of_answer(probe_answer(shown_text(output.stdout@))) {
                    Some(shell) => Ok(shell),
                    None => Err(
                        ClientError::Unsupported("remote shell probe returned unexpected output"),
                    ),
                }
            },
        },
    }
}

/// Reads the remote login shell out of a finished probe.
pub fn conclude_shell_probe(answer: Result<SshOutput, ClientError>) -> (r: Result<
    RemoteShell,
    ClientError,
>)
    ensures
        r == probed_shell(answer),
{
    let output = match answer {
        Ok(output) => output,
        Err(error) => {
            return Err(error);
        },
    };
    match output.status {
        None => Err(ClientError::SshNonZero(None)),
        Some(status) => {
            if status.success() {
                parse_shell_probe(output.stdout.as_slice())
            } else {
                Err(ClientError::SshNonZero(status.code))
            }
        },
    }
}

pub fn run_shell_probe<R: SshRunner + ?Sized>(
    runner: &R,
    invocation: &SshInvocation,
    deadline: Deadline,
) -> (r: Result<RemoteShell, ClientError>)
    ensures
        exists|answer: Result<SshOutput, ClientError>| #[trigger]
            call_ensures(R::run, (runner, invocation, deadline), answer) && r == probed_shell(
                answer,
            ),
{
    let answer = runner.run(invocation, deadline);
    assert(call_ensures(R::run, (runner, invocation, deadline), answer));
    conclude_shell_probe(answer)
}

/// Whether `r` are the credentials that a bootstrap answered with.
pub open spec fn bootstrapped(
    answer: Result<SshOutput, ClientError>,
    r: Result<Credentials, ClientError>,
) -> bool {
    match checked_answer(answer) {
        Err(error) => r == Err::<Credentials, ClientError>(error),
        Ok(stdout) => match (r, marked_credentials(stdout@)) {
            (Ok(credentials), Ok((id, passkey))) => credentials.id@ == crate::bootstrap::ascii_text(
                id,
            ) && credentials.passkey@ == crate::bootstrap::ascii_text(passkey),
            (Err(error), Err(fault)) => error == fault,
            _ => false,
        },
    }
}

pub fn run_bootstrap<R: SshRunner + ?Sized>(
    runner: &R,
    invocation: &SshInvocation,
    deadline: Deadline,
) -> (r: Result<Credentials, ClientError>)
    ensures
        exists|answer: Result<SshOutput, ClientError>| #[trigger]
            call_ensures(R::run, (runner, invocation, deadline), answer) && bootstrapped(answer, r),
        r matches Ok(credentials) ==> credentials.valid(),
{
    match run_checked(runner, invocation, deadline) {
        Ok(stdout) => parse_id_passkey(stdout.as_slice()),
        Err(error) => Err(error),
    }
}

// Capturing the output.

/// How an `ssh` stopped writing.
#[derive(Debug)]
pub enum Capture {
    Complete(Vec<u8>),
    /// The credential marker arrived, so the remote terminal is registered and
    /// detached; nothing else on that channel matters.
    Marker(Vec<u8>),
    TooLarge,
    Failed(String),
}

/// `IDPASSKEY:` plus `<16 id>/<32 passkey>`.
pub const MARKER_TOTAL: usize = 59;

/// Where the first marker ends, if all of it and of its credentials is there.
pub open spec fn end_of_marker(captured: Seq<u8>) -> Option<int> {
    if occurs(captured, marker()) && marker_position(captured) + MARKER_TOTAL <= captured.len() {
        Some(marker_position(captured) + MARKER_TOTAL)
    } else {
        None
    }
}

/// Position just past a complete marker, if one is present.
pub fn marker_end(captured: &[u8]) -> (r: Option<usize>)
    ensures
        match r {
            Some(end) => end_of_marker(captured@) == Some(end as int),
            None => end_of_marker(captured@) is None,
        },
{
    let total: usize = captured.len();
    match find_bytes(captured, ascii_bytes("IDPASSKEY:").as_slice()) {
        Some(start) => {
            proof {
                crate::bootstrap::lemma_marker_unique(captured@, start as int);
            }
            if total - start >= MARKER_TOTAL {
                Some(start + MARKER_TOTAL)
            } else {
                None
            }
        },
        None => None,
    }
}

/// A complete marker is one whose credentials can be read: only their letters
/// can still be wrong then.
pub proof fn complete_marker_is_never_cut_short(captured: Seq<u8>)
    ensures
        end_of_marker(captured) is Some ==> marked_credentials(captured)
            != Err::<(Seq<u8>, Seq<u8>), ClientError>(ClientError::MissingIdPasskeyMarker),
        marked_credentials(captured) is Ok ==> end_of_marker(captured) is Some,
{
    reveal_strlit("IDPASSKEY:");
    assert(marker().len() == 10);
    if occurs(captured, marker()) {
        lemma_first_marker_exists(captured);
        assert(first_occurrence(captured, marker(), marker_position(captured)));
    }
}

proof fn lemma_first_marker_exists(captured: Seq<u8>)
    requires
        occurs(captured, marker()),
    ensures
        exists|i: int| first_occurrence(captured, marker(), i),
{
    let i = choose|i: int| crate::bytes::occurs_at(captured, marker(), i);
    lemma_first_marker_below(captured, i);
}

proof fn lemma_first_marker_below(captured: Seq<u8>, i: int)
    requires
        crate::bytes::occurs_at(captured, marker(), i),
    ensures
        exists|k: int| first_occurrence(captured, marker(), k),
    decreases i,
{
    if exists|j: int| 0 <= j < i && crate::bytes::occurs_at(captured, marker(), j) {
        let j = choose|j: int| 0 <= j < i && crate::bytes::occurs_at(captured, marker(), j);
        lemma_first_marker_below(captured, j);
    } else {
        assert(first_occurrence(captured, marker(), i));
    }
}

/// How many bytes to ask for next: one more than may still come, so that an
/// output that is too long is noticed, but no more than `buffer` holds.
pub fn capture_request(captured: usize, buffer: usize) -> (wanted: usize)
    requires
        captured <= MAX_SSH_STDOUT,
    ensures
        wanted == if buffer <= MAX_SSH_STDOUT - captured {
            buffer as int
        } else {
            MAX_SSH_STDOUT - captured + 1
        },
{
    let available: usize = MAX_SSH_STDOUT - captured;
    if buffer <= available {
        buffer
    } else {
        available + 1
    }
}

/// What one attempt to read gave: the bytes, none of them at the end, or the
/// system's description of a failure.
#[derive(Debug)]
pub enum CaptureRead {
    Bytes(Vec<u8>),
    Failed(String),
}

/// What the capture so far becomes with the next read: more of it, or its end.
pub fn capture_bounded(captured: &mut Vec<u8>, read: CaptureRead) -> (r: Option<Capture>)
    requires
        old(captured)@.len() <= MAX_SSH_STDOUT,
    ensures
        final(captured)@.len() <= MAX_SSH_STDOUT,
        match read {
            CaptureRead::Failed(cause) => r == Some(Capture::Failed(cause)) && final(captured)@
                == old(captured)@,
            CaptureRead::Bytes(bytes) => if bytes@.len() == 0 {
                &&& r matches Some(Capture::Complete(all)) && all@ == old(captured)@
                &&& final(captured)@.len() == 0
            } else if bytes@.len() > MAX_SSH_STDOUT - old(captured)@.len() {
                r == Some(Capture::TooLarge) && final(captured)@ == old(captured)@
            } else if end_of_marker(old(captured)@ + bytes@) is Some {
                &&& r matches Some(Capture::Marker(all)) && all@ == old(captured)@ + bytes@
                &&& final(captured)@.len() == 0
            } else {
                r is None && final(captured)@ == old(captured)@ + bytes@
            },
        },
{
    match read {
        CaptureRead::Failed(cause) => Some(Capture::Failed(cause)),
        CaptureRead::Bytes(bytes) => {
            if bytes.len() == 0 {
                let mut all: Vec<u8> = Vec::new();
                std::mem::swap(&mut all, captured);
                return Some(Capture::Complete(all));
            }
            if bytes.len() > MAX_SSH_STDOUT - captured.len() {
                return Some(Capture::TooLarge);
            }
            append_bytes(captured, bytes.as_slice());
            // Waiting for the end is not reliable everywhere: the detached
            // session process can inherit this pipe, so that the channel never
            // closes even though the session is ready.
            if marker_end(captured.as_slice()).is_some() {
                let mut all: Vec<u8> = Vec::new();
                std::mem::swap(&mut all, captured);
                return Some(Capture::Marker(all));
            }
            None
        },
    }
}

// Concluding and cleaning up.

/// What becomes of a run.
#[derive(Debug)]
pub enum Verdict {
    /// It ended, or its marker arrived.
    Output(SshOutput),
    SpawnFailed(String),
    NoStdout,
    ReaderFailed(String),
    TimedOut,
    TooLarge,
    ReadFailed(String),
    ReaderStopped,
    ReaderPanicked,
    WaitFailed(String),
    /// It could not be stopped.
    TerminateFailed(String),
}

/// Whether `r` is the answer that a verdict stands for.
pub open spec fn answers(
    verdict: Verdict,
    operation: &'static str,
    r: Result<SshOutput, ClientError>,
) -> bool {
    match verdict {
        Verdict::Output(output) => r == Ok::<SshOutput, ClientError>(output),
        Verdict::SpawnFailed(cause) => r == Err::<SshOutput, ClientError>(
            ClientError::SshSpawn(cause),
        ),
        Verdict::NoStdout => r matches Err(ClientError::SshStdout(cause)) && cause@
            == "ssh stdout pipe was not created"@,
        Verdict::ReaderFailed(cause) => r == Err::<SshOutput, ClientError>(
            ClientError::SshStdout(cause),
        ),
        Verdict::TimedOut => r == Err::<SshOutput, ClientError>(ClientError::SshTimeout(operation)),
        Verdict::TooLarge => r == Err::<SshOutput, ClientError>(
            ClientError::SshOutputTooLarge(MAX_SSH_STDOUT),
        ),
        Verdict::ReadFailed(cause) => r == Err::<SshOutput, ClientError>(
            ClientError::SshStdout(cause),
        ),
        Verdict::ReaderStopped => r matches Err(ClientError::SshStdout(cause)) && cause@
            == "ssh stdout reader stopped unexpectedly"@,
        Verdict::ReaderPanicked => r matches Err(ClientError::SshStdout(cause)) && cause@
            == "ssh stdout reader panicked"@,
        Verdict::WaitFailed(cause) => r == Err::<SshOutput, ClientError>(
            ClientError::SshWait(cause),
        ),
        Verdict::TerminateFailed(cause) => r == Err::<SshOutput, ClientError>(
            ClientError::SshTerminate(cause),
        ),
    }
}

impl Verdict {
    pub fn answer(self, operation: &'static str) -> (r: Result<SshOutput, ClientError>)
        ensures
            answers(self, operation, r),
    {
        match self {
            Verdict::Output(output) => Ok(output),
            Verdict::SpawnFailed(cause) => Err(ClientError::SshSpawn(cause)),
            Verdict::NoStdout => Err(
                ClientError::SshStdout("ssh stdout pipe was not created".to_owned()),
            ),
            Verdict::ReaderFailed(cause) => Err(ClientError::SshStdout(cause)),
            Verdict::TimedOut => Err(ClientError::SshTimeout(operation)),
            Verdict::TooLarge => Err(ClientError::SshOutputTooLarge(MAX_SSH_STDOUT)),
            Verdict::ReadFailed(cause) => Err(ClientError::SshStdout(cause)),
            Verdict::ReaderStopped => Err(
                ClientError::SshStdout("ssh stdout reader stopped unexpectedly".to_owned()),
            ),
            Verdict::ReaderPanicked => Err(
                ClientError::SshStdout("ssh stdout reader panicked".to_owned()),
            ),
            Verdict::WaitFailed(cause) => Err(ClientError::SshWait(cause)),
            Verdict::TerminateFailed(cause) => Err(ClientError::SshTerminate(cause)),
        }
    }
}

/// Where a run stands.
#[derive(Debug)]
pub enum RunPhase {
    /// Look at the deadline before anything is started.
    Begin,
    Spawn,
    TakeStdout,
    StartReader,
    /// Look at the deadline again.
    Started,
    /// Wait for the reader, until the deadline.
    Capture,
    /// The output is complete; the reader has to be joined.
    JoinReader(Vec<u8>),
    /// Look at the deadline before the wait for the exit.
    Captured(Vec<u8>),
    AwaitExit(Vec<u8>),
    /// Stop the process, what is below it and what holds its output.
    Reap(Verdict),
    Done(Verdict),
}

/// What happened in a phase.
#[derive(Debug)]
pub enum RunEvent {
    /// Whether time is left.
    Time(bool),
    /// What the phase does was done.
    Done,
    /// It was not, for what the system said.
    Failed(String),
    /// There is no output to take.
    Missing,
    Captured(Capture),
    Disconnected,
    Exited(ExitStatus),
    /// A wait ran until the deadline.
    TimedOut,
    /// How the stopping went.
    Reaped(Result<(), String>),
}

/// How a run goes on. What a phase does not wait for changes nothing.
pub open spec fn run_next(phase: RunPhase, event: RunEvent) -> RunPhase {
    match (phase, event) {
        (RunPhase::Begin, RunEvent::Time(left)) => if left {
            RunPhase::Spawn
        } else {
            RunPhase::Done(Verdict::TimedOut)
        },
        (RunPhase::Spawn, RunEvent::Done) => RunPhase::TakeStdout,
        (RunPhase::Spawn, RunEvent::Failed(cause)) => RunPhase::Done(Verdict::SpawnFailed(cause)),
        (RunPhase::TakeStdout, RunEvent::Done) => RunPhase::StartReader,
        (RunPhase::TakeStdout, RunEvent::Missing) => RunPhase::Reap(Verdict::NoStdout),
        (RunPhase::StartReader, RunEvent::Done) => RunPhase::Started,
        (RunPhase::StartReader, RunEvent::Failed(cause)) => RunPhase::Reap(
            Verdict::ReaderFailed(cause),
        ),
        (RunPhase::Started, RunEvent::Time(left)) => if left {
            RunPhase::Capture
        } else {
            RunPhase::Reap(Verdict::TimedOut)
        },
        (RunPhase::Capture, RunEvent::Captured(capture)) => match capture {
            Capture::Complete(stdout) => RunPhase::JoinReader(stdout),
            // The remote terminal is registered and detached; a channel that
            // a detached child may keep open is not waited on.
            Capture::Marker(stdout) => RunPhase::Reap(
                Verdict::Output(SshOutput { status: None, stdout }),
            ),
            Capture::TooLarge => RunPhase::Reap(Verdict::TooLarge),
            Capture::Failed(cause) => RunPhase::Reap(Verdict::ReadFailed(cause)),
        },
        (RunPhase::Capture, RunEvent::TimedOut) => RunPhase::Reap(Verdict::TimedOut),
        (RunPhase::Capture, RunEvent::Disconnected) => RunPhase::Reap(Verdict::ReaderStopped),
        (RunPhase::JoinReader(stdout), RunEvent::Done) => RunPhase::Captured(stdout),
        (RunPhase::JoinReader(_), RunEvent::Failed(_)) => RunPhase::Reap(Verdict::ReaderPanicked),
        (RunPhase::Captured(stdout), RunEvent::Time(left)) => if left {
            RunPhase::AwaitExit(stdout)
        } else {
            RunPhase::Reap(Verdict::TimedOut)
        },
        (RunPhase::AwaitExit(stdout), RunEvent::Exited(status)) => RunPhase::Done(
            Verdict::Output(SshOutput { status: Some(status), stdout }),
        ),
        (RunPhase::AwaitExit(_), RunEvent::TimedOut) => RunPhase::Reap(Verdict::TimedOut),
        (RunPhase::AwaitExit(_), RunEvent::Failed(cause)) => RunPhase::Reap(
            Verdict::WaitFailed(cause),
        ),
        (RunPhase::Reap(verdict), RunEvent::Reaped(Ok(()))) => RunPhase::Done(verdict),
        (RunPhase::Reap(_), RunEvent::Reaped(Err(cause))) => RunPhase::Done(
            Verdict::TerminateFailed(cause),
        ),
        _ => phase,
    }
}

impl RunPhase {
    /// Takes in what happened: the next phase of a run.
    pub fn advance(self, event: RunEvent) -> (next: RunPhase)
        ensures
            next == run_next(self, event),
    {
        match (self, event) {
            (RunPhase::Begin, RunEvent::Time(left)) => {
                if left {
                    RunPhase::Spawn
                } else {
                    RunPhase::Done(Verdict::TimedOut)
                }
            },
            (RunPhase::Spawn, RunEvent::Done) => RunPhase::TakeStdout,
            (RunPhase::Spawn, RunEvent::Failed(cause)) => RunPhase::Done(
                Verdict::SpawnFailed(cause),
            ),
            (RunPhase::TakeStdout, RunEvent::Done) => RunPhase::StartReader,
            (RunPhase::TakeStdout, RunEvent::Missing) => RunPhase::Reap(Verdict::NoStdout),
            (RunPhase::StartReader, RunEvent::Done) => RunPhase::Started,
            (RunPhase::StartReader, RunEvent::Failed(cause)) => RunPhase::Reap(
                Verdict::ReaderFailed(cause),
            ),
            (RunPhase::Started, RunEvent::Time(left)) => {
                if left {
                    RunPhase::Capture
                } else {
                    RunPhase::Reap(Verdict::TimedOut)
                }
            },
            (RunPhase::Capture, RunEvent::Captured(capture)) => match capture {
                Capture::Complete(stdout) => RunPhase::JoinReader(stdout),
                Capture::Marker(stdout) => RunPhase::Reap(
                    Verdict::Output(SshOutput { status: None, stdout }),
                ),
                Capture::TooLarge => RunPhase::Reap(Verdict::TooLarge),
                Capture::Failed(cause) => RunPhase::Reap(Verdict::ReadFailed(cause)),
            },
            (RunPhase::Capture, RunEvent::TimedOut) => RunPhase::Reap(Verdict::TimedOut),
            (RunPhase::Capture, RunEvent::Disconnected) => RunPhase::Reap(Verdict::ReaderStopped),
            (RunPhase::JoinReader(stdout), RunEvent::Done) => RunPhase::Captured(stdout),
            (RunPhase::JoinReader(_), RunEvent::Failed(_)) => RunPhase::Reap(
                Verdict::ReaderPanicked,
            ),
            (RunPhase::Captured(stdout), RunEvent::Time(left)) => {
                if left {
                    RunPhase::AwaitExit(stdout)
                } else {
                    RunPhase::Reap(Verdict::TimedOut)
                }
            },
            (RunPhase::AwaitExit(stdout), RunEvent::Exited(status)) => RunPhase::Done(
                Verdict::Output(SshOutput { status: Some(status), stdout }),
            ),
            (RunPhase::AwaitExit(_), RunEvent::TimedOut) => RunPhase::Reap(Verdict::TimedOut),
            (RunPhase::AwaitExit(_), RunEvent::Failed(cause)) => RunPhase::Reap(
                Verdict::WaitFailed(cause),
            ),
            (RunPhase::Reap(verdict), RunEvent::Reaped(Ok(()))) => RunPhase::Done(verdict),
            (RunPhase::Reap(_), RunEvent::Reaped(Err(cause))) => RunPhase::Done(
                Verdict::TerminateFailed(cause),
            ),
            (phase, _) => phase,
        }
    }
}

/// Whether an `ssh` runs, or may run.
pub open spec fn is_running(phase: RunPhase) -> bool {
    !(phase is Begin || phase is Spawn || phase is Done)
}

/// A run that was started is over only when its process was seen to exit or
/// was stopped, and only a process that could not be stopped changes what a
/// stopped run is answered with.
pub proof fn started_runs_exit_or_are_stopped(phase: RunPhase, event: RunEvent)
    requires
        is_running(phase),
        run_next(phase, event) is Done,
    ensures
        (phase is AwaitExit && event is Exited) || (phase is Reap && event is Reaped),
        phase matches RunPhase::Reap(verdict) ==> (event == RunEvent::Reaped(Ok(())) ==> run_next(
            phase,
            event,
        ) == RunPhase::Done(verdict)),
{
}

/// How a signal to a process went.
#[derive(Debug)]
pub enum KillOutcome {
    Signaled,
    /// It is already gone, which serves as well.
    Gone,
    Failed(String),
}

/// The last failure among the signals, if any.
pub open spec fn last_failure(kills: Seq<KillOutcome>) -> Option<String>
    decreases kills.len(),
{
    if kills.len() == 0 {
        None
    } else {
        match kills.last() {
            KillOutcome::Failed(cause) => Some(cause),
            _ => last_failure(kills.drop_last()),
        }
    }
}

/// Whether stopping an `ssh` worked: a process that could not be signaled
/// counts before one that could not be waited for, and the last of them
/// before the others.
pub fn reaped(kills: Vec<KillOutcome>, waited: Result<(), String>) -> (r: Result<(), String>)
    ensures
        r == match (last_failure(kills@), waited) {
            (Some(cause), _) => Err::<(), String>(cause),
            (None, Err(cause)) => Err(cause),
            (None, Ok(())) => Ok(()),
        },
{
    let ghost all = kills@;
    let mut left = kills;
    while left.len() > 0
        invariant
            all == kills@,
            last_failure(left@) == last_failure(all),
        decreases left@.len(),
    {
        let ghost before = left@;
        let last = left.pop();
        assert(left@ =~= before.drop_last());
        match last {
            Some(KillOutcome::Failed(cause)) => {
                return Err(cause);
            },
            _ => {},
        }
    }
    match waited {
        Ok(()) => Ok(()),
        Err(cause) => Err(cause),
    }
}

/// Whether `found` lists the processes below `root`, children before parents.
/// A row of `processes` holds a process and its parent, and `rows` says which
/// row each listed process stands for.
pub open spec fn lists_subtree(
    processes: Seq<(u32, u32)>,
    root: u32,
    found: Seq<u32>,
    rows: Seq<int>,
) -> bool {
    &&& rows.len() == found.len()
    &&& rows.no_duplicates()
    &&& forall|k: int|
        0 <= k < found.len() ==> 0 <= #[trigger] rows[k] < processes.len() && processes[rows[k]].0
            == found[k]
    // A process stands before its parent, up to the root.
    &&& forall|k: int|
        0 <= k < found.len() ==> #[trigger] has_parent_behind(processes, root, found, rows, k)
    // Nothing below the root is missing.
    &&& forall|p: int|
        0 <= p < processes.len() && (#[trigger] processes[p].1 == root || found.contains(
            processes[p].1,
        )) ==> rows.contains(p)
}

pub open spec fn has_parent_behind(
    processes: Seq<(u32, u32)>,
    root: u32,
    found: Seq<u32>,
    rows: Seq<int>,
    k: int,
) -> bool {
    let parent = processes[rows[k]].1;
    parent == root || exists|j: int| k < j < found.len() && #[trigger] found[j] == parent
}

/// The same for a list with the root in front and parents before children.
spec fn breadth_first(
    processes: Seq<(u32, u32)>,
    order: Seq<u32>,
    rows: Seq<int>,
    used: Seq<bool>,
) -> bool {
    &&& order.len() == rows.len() + 1
    &&& used.len() == processes.len()
    &&& rows.no_duplicates()
    &&& forall|k: int|
        0 <= k < rows.len() ==> 0 <= #[trigger] rows[k] < processes.len() && processes[rows[k]].0
            == order[k + 1] && used[rows[k]]
    &&& forall|p: int| 0 <= p < processes.len() && #[trigger] used[p] ==> rows.contains(p)
}

spec fn parent_before(
    processes: Seq<(u32, u32)>,
    order: Seq<u32>,
    rows: Seq<int>,
    k: int,
) -> bool {
    exists|j: int| 0 <= j <= k && #[trigger] order[j] == processes[rows[k]].1
}

proof fn lemma_rows_bounded(rows: Seq<int>, n: nat)
    requires
        rows.no_duplicates(),
        forall|k: int| 0 <= k < rows.len() ==> 0 <= #[trigger] rows[k] < n,
    ensures
        rows.len() <= n,
{
    let all = vstd::set_lib::set_int_range(0, n as int);
    vstd::set_lib::lemma_int_range(0, n as int);
    rows.unique_seq_to_set();
    assert(rows.to_set().subset_of(all)) by {
        assert forall|x: int| rows.to_set().contains(x) implies all.contains(x) by {
            let k = choose|k: int| 0 <= k < rows.len() && rows[k] == x;
            assert(0 <= rows[k] < n);
        }
    }
    vstd::set_lib::lemma_len_subset(rows.to_set(), all);
}

/// Descendants of `root`, deepest first, out of all processes, each with its
/// parent. Children are signaled before parents, so that nothing re-parents
/// in the middle of a cleanup.
pub fn descendants(root: u32, processes: &Vec<(u32, u32)>) -> (found: Vec<u32>)
    ensures
        exists|rows: Seq<int>| lists_subtree(processes@, root, found@, rows),
{
    let mut order: Vec<u32> = Vec::new();
    let mut used: Vec<bool> = Vec::new();
    let ghost mut rows: Seq<int> = Seq::empty();
    order.push(root);
    while used.len() < processes.len()
        invariant
            used@.len() <= processes@.len(),
            forall|p: int| 0 <= p < used@.len() ==> !(#[trigger] used@[p]),
        decreases processes@.len() - used@.len(),
    {
        used.push(false);
    }
    let mut i: usize = 0;
    while i < order.len()
        invariant
            i <= order@.len(),
            order@.len() >= 1,
            order@[0] == root,
            order@.len() <= processes@.len() + 1,
            breadth_first(processes@, order@, rows, used@),
            forall|k: int|
                0 <= k < rows.len() ==> #[trigger] parent_before(processes@, order@, rows, k),
            forall|p: int|
                0 <= p < processes@.len() && order@.take(i as int).contains(
                    (#[trigger] processes@[p]).1,
                ) ==> used@[p],
        decreases processes@.len() + 1 - i,
    {
        let current = order[i];
        let ghost done = order@.take(i as int);
        let mut p: usize = 0;
        while p < processes.len()
            invariant
                p <= processes@.len(),
                i < order@.len(),
                order@[i as int] == current,
                order@[0] == root,
                done == order@.take(i as int),
                order@.len() <= processes@.len() + 1,
                breadth_first(processes@, order@, rows, used@),
                forall|k: int|
                    0 <= k < rows.len() ==> #[trigger] parent_before(processes@, order@, rows, k),
                forall|q: int|
                    0 <= q < processes@.len() && done.contains((#[trigger] processes@[q]).1)
                        ==> used@[q],
                forall|q: int|
                    0 <= q < p && (#[trigger] processes@[q]).1 == current ==> used@[q],
            decreases processes@.len() - p,
        {
            if processes[p].1 == current && !used[p] {
                let ghost before_rows = rows;
                let ghost before_order = order@;
                let ghost before_used = used@;
                used.set(p, true);
                order.push(processes[p].0);
                proof {
                    rows = rows.push(p as int);
                    assert(!before_rows.contains(p as int)) by {
                        if before_rows.contains(p as int) {
                            let k = choose|k: int|
                                0 <= k < before_rows.len() && before_rows[k] == p as int;
                            assert(before_used[before_rows[k]]);
                        }
                    }
                    assert(rows.no_duplicates());
                    assert forall|q: int|
                        0 <= q < processes@.len() && #[trigger] used@[q] implies rows.contains(
                        q,
                    ) by {
                        if q == p {
                            assert(rows[rows.len() - 1] == q);
                        } else {
                            assert(before_used[q]);
                            let k = choose|k: int|
                                0 <= k < before_rows.len() && before_rows[k] == q;
                            assert(rows[k] == q);
                        }
                    }
                    assert forall|k: int| 0 <= k < rows.len() implies 0 <= #[trigger] rows[k]
                        < processes@.len() && processes@[rows[k]].0 == order@[k + 1]
                        && used@[rows[k]] by {
                        if k < before_rows.len() {
                            assert(rows[k] == before_rows[k]);
                            assert(order@[k + 1] == before_order[k + 1]);
                        }
                    }
                    lemma_rows_bounded(rows, processes@.len());
                    assert forall|k: int| 0 <= k < rows.len() implies #[trigger] parent_before(
                        processes@,
                        order@,
                        rows,
                        k,
                    ) by {
                        if k < before_rows.len() {
                            assert(parent_before(processes@, before_order, before_rows, k));
                            let j = choose|j: int|
                                0 <= j <= k && #[trigger] before_order[j]
                                    == processes@[before_rows[k]].1;
                            assert(order@[j] == before_order[j]);
                        } else {
                            assert(order@[i as int] == current);
                            assert(i < before_order.len());
                        }
                    }
                    assert(done =~= order@.take(i as int));
                }
            }
            p += 1;
        }
        i += 1;
        assert forall|q: int|
            0 <= q < processes@.len() && order@.take(i as int).contains(
                (#[trigger] processes@[q]).1,
            ) implies used@[q] by {
            let parent = processes@[q].1;
            let k = choose|k: int|
                0 <= k < order@.take(i as int).len() && order@.take(i as int)[k] == parent;
            if k < i - 1 {
                assert(done[k] == parent);
                assert(done.contains(parent));
            }
        }
    }
    assert(order@.take(i as int) =~= order@);
    let mut found: Vec<u32> = Vec::new();
    let mut k: usize = order.len();
    while k > 1
        invariant
            1 <= k <= order@.len(),
            found@.len() == order@.len() - k,
            forall|m: int|
                0 <= m < found@.len() ==> #[trigger] found@[m] == order@[order@.len() - 1 - m],
        decreases k,
    {
        k -= 1;
        found.push(order[k]);
    }
    proof {
        let back = Seq::new(rows.len(), |m: int| rows[rows.len() - 1 - m]);
        lemma_reversed(processes@, root, order@, rows, used@, found@, back);
    }
    found
}

proof fn lemma_reversed(
    processes: Seq<(u32, u32)>,
    root: u32,
    order: Seq<u32>,
    rows: Seq<int>,
    used: Seq<bool>,
    found: Seq<u32>,
    back: Seq<int>,
)
    requires
        breadth_first(processes, order, rows, used),
        order[0] == root,
        forall|k: int|
            0 <= k < rows.len() ==> #[trigger] parent_before(processes, order, rows, k),
        forall|p: int|
            0 <= p < processes.len() && order.contains((#[trigger] processes[p]).1) ==> used[p],
        found.len() == order.len() - 1,
        forall|m: int| 0 <= m < found.len() ==> #[trigger] found[m] == order[order.len() - 1 - m],
        back == Seq::new(rows.len(), |m: int| rows[rows.len() - 1 - m]),
    ensures
        lists_subtree(processes, root, found, back),
{
    let n = rows.len() as int;
    assert forall|k: int| 0 <= k < found.len() implies 0 <= #[trigger] back[k] < processes.len()
        && processes[back[k]].0 == found[k] by {
        assert(back[k] == rows[n - 1 - k]);
    }
    assert forall|k: int| 0 <= k < found.len() implies #[trigger] has_parent_behind(
        processes,
        root,
        found,
        back,
        k,
    ) by {
        let m = n - 1 - k;
        assert(back[k] == rows[m]);
        assert(parent_before(processes, order, rows, m));
        let j = choose|j: int| 0 <= j <= m && #[trigger] order[j] == processes[rows[m]].1;
        if j > 0 {
            assert(found[n - j] == order[j]);
        }
    }
    assert forall|p: int|
        0 <= p < processes.len() && (#[trigger] processes[p].1 == root || found.contains(
            processes[p].1,
        )) implies back.contains(p) by {
        let parent = processes[p].1;
        if parent == root {
            assert(order[0] == parent);
        } else {
            let m = choose|m: int| 0 <= m < found.len() && found[m] == parent;
            assert(order[order.len() - 1 - m] == parent);
        }
        assert(order.contains(parent));
        assert(used[p]);
        let k = choose|k: int| 0 <= k < rows.len() && rows[k] == p;
        assert(back[n - 1 - k] == p);
    }
    assert(back.no_duplicates());
}

/// Everything to signal, in this order: the processes below an `ssh`, those
/// that still hold its output, each of them once, and the `ssh` itself.
pub fn kill_targets(descendants: Vec<u32>, holders: &Vec<u32>, child: u32) -> (targets: Vec<u32>)
    ensures
        targets@ == with_new(descendants@, holders@).push(child),
{
    let mut targets = descendants;
    let ghost start = targets@;
    let mut i: usize = 0;
    assert(holders@.take(0) =~= Seq::<u32>::empty());
    while i < holders.len()
        invariant
            i <= holders@.len(),
            targets@ == with_new(start, holders@.take(i as int)),
        decreases holders@.len() - i,
    {
        let holder = holders[i];
        let mut known = false;
        let mut k: usize = 0;
        while k < targets.len()
            invariant
                k <= targets@.len(),
                known == targets@.take(k as int).contains(holder),
            decreases targets@.len() - k,
        {
            assert(targets@.take(k + 1) =~= targets@.take(k as int).push(targets@[k as int]));
            if targets[k] == holder {
                assert(targets@.take(k + 1)[k as int] == holder);
                known = true;
            } else {
                proof {
                    let longer = targets@.take(k + 1);
                    if longer.contains(holder) {
                        let m = choose|m: int| 0 <= m < longer.len() && longer[m] == holder;
                        assert(targets@.take(k as int)[m] == holder);
                    }
                    if known {
                        let m = choose|m: int|
                            0 <= m < k && targets@.take(k as int)[m] == holder;
                        assert(longer[m] == holder);
                    }
                }
            }
            k += 1;
        }
        assert(targets@.take(k as int) =~= targets@);
        assert(holders@.take(i + 1).drop_last() =~= holders@.take(i as int));
        if !known {
            targets.push(holder);
        }
        i += 1;
    }
    assert(holders@.take(i as int) =~= holders@);
    targets.push(child);
    targets
}

/// A list with those of `more` behind it that are not yet there, each once.
pub open spec fn with_new(list: Seq<u32>, more: Seq<u32>) -> Seq<u32>
    decreases more.len(),
{
    if more.len() == 0 {
        list
    } else {
        let earlier = with_new(list, more.drop_last());
        if earlier.contains(more.last()) {
            earlier
        } else {
            earlier.push(more.last())
        }
    }
}

/// What tells one pipe from another.
#[derive(Debug, Clone, Copy, PartialEq, Eq, Structural)]
pub struct PipeIdentity {
    pub device: u64,
    pub inode: u64,
}

/// A process with what its descriptors refer to.
#[derive(Debug)]
pub struct OpenFiles {
    pub pid: u32,
    pub files: Vec<PipeIdentity>,
}

/// The processes other than this one that hold a pipe open.
pub open spec fn holders(processes: Seq<OpenFiles>, own: u32, pipe: PipeIdentity) -> Seq<u32>
    decreases processes.len(),
{
    if processes.len() == 0 {
        Seq::empty()
    } else {
        let before = holders(processes.drop_last(), own, pipe);
        let last = processes.last();
        if last.pid != own && last.files@.contains(pipe) {
            before.push(last.pid)
        } else {
            before
        }
    }
}

fn refers_to(files: &Vec<PipeIdentity>, pipe: PipeIdentity) -> (r: bool)
    ensures
        r == files@.contains(pipe),
{
    let mut i: usize = 0;
    while i < files.len()
        invariant
            i <= files@.len(),
            forall|j: int| 0 <= j < i ==> files@[j] != pipe,
        decreases files@.len() - i,
    {
        if files[i] == pipe {
            return true;
        }
        i += 1;
    }
    false
}

/// Processes (other than us) holding an open descriptor on `pipe`.
pub fn pipe_holders(processes: &Vec<OpenFiles>, own: u32, pipe: PipeIdentity) -> (found: Vec<u32>)
    ensures
        found@ == holders(processes@, own, pipe),
{
    let mut found: Vec<u32> = Vec::new();
    let mut i: usize = 0;
    assert(processes@.take(0) =~= Seq::empty());
    while i < processes.len()
        invariant
            i <= processes@.len(),
            found@ == holders(processes@.take(i as int), own, pipe),
        decreases processes@.len() - i,
    {
        proof {
            assert(processes@.take(i + 1).drop_last() =~= processes@.take(i as int));
            assert(processes@.take(i + 1).last() == processes@[i as int]);
        }
        if processes[i].pid != own && refers_to(&processes[i].files, pipe) {
            found.push(processes[i].pid);
        }
        i += 1;
    }
    assert(processes@.take(i as int) =~= processes@);
    found
}

// What a run is for.

/// An output is captured from its first byte on, in order and whole: it grows
/// by what was read until it ends, until a whole marker is in it, or until
/// there is more of it than may be.
pub proof fn outputs_are_captured_whole()
    ensures
        forall|captured: &mut Vec<u8>, bytes: Vec<u8>, r: Option<Capture>|
            captured@.len() <= MAX_SSH_STDOUT && #[trigger] call_ensures(
                capture_bounded,
                (captured, CaptureRead::Bytes(bytes)),
                r,
            ) ==> match r {
                None => bytes@.len() > 0 && final(captured)@ == captured@ + bytes@,
                Some(Capture::Complete(all)) => bytes@.len() == 0 && all@ == captured@,
                Some(Capture::Marker(all)) => bytes@.len() > 0 && all@ == captured@ + bytes@,
                Some(Capture::TooLarge) => captured@.len() + bytes@.len() > MAX_SSH_STDOUT,
                Some(Capture::Failed(_)) => false,
            },
        forall|captured: &mut Vec<u8>, cause: String, r: Option<Capture>|
            captured@.len() <= MAX_SSH_STDOUT && #[trigger] call_ensures(
                capture_bounded,
                (captured, CaptureRead::Failed(cause)),
                r,
            ) ==> r == Some(Capture::Failed(cause)),
{
}

/// An output up to its bound is taken, and one byte more than that is asked
/// for, so that more is noticed.
pub proof fn longer_outputs_are_noticed(captured: usize, buffer: usize, wanted: usize)
    requires
        captured <= MAX_SSH_STDOUT,
        call_ensures(capture_request, (captured, buffer), wanted),
    ensures
        wanted <= buffer,
        captured + wanted <= MAX_SSH_STDOUT + 1,
        wanted == buffer || captured + wanted == MAX_SSH_STDOUT + 1,
        buffer > 0 ==> wanted > 0,
{
}

/// A marker ends 49 bytes behind its ten letters, wherever it stands: 16 of an
/// id, a slash and 32 of a passkey.
pub proof fn markers_end_behind_their_credentials(
    captured: &[u8],
    before: Seq<u8>,
    credentials: Seq<u8>,
    rest: Seq<u8>,
    r: Option<usize>,
)
    requires
        call_ensures(marker_end, (captured,), r),
        captured@ == before + (ascii("IDPASSKEY:"@) + (credentials + rest)),
        credentials.len() == 49,
        forall|i: int|
            0 <= i < before.len() ==> !crate::bytes::occurs_at(
                captured@,
                ascii("IDPASSKEY:"@),
                i,
            ),
    ensures
        r matches Some(end) && captured@.take(end as int) == before + (ascii("IDPASSKEY:"@)
            + credentials),
{
    reveal_strlit("IDPASSKEY:");
    let at = before.len() as int;
    assert(marker().len() == 10);
    assert(captured@.subrange(at, at + 10) =~= marker());
    assert(crate::bytes::occurs_at(captured@, marker(), at));
    assert(first_occurrence(captured@, marker(), at));
    crate::bootstrap::lemma_marker_unique(captured@, at);
    let end = r->0 as int;
    assert(captured@.take(end) =~= before + (marker() + credentials));
}

/// The first marker counts: what a terminal or its login prints behind
/// credentials changes nothing of them.
pub proof fn later_output_changes_no_credentials(stdout: Seq<u8>, rest: Seq<u8>)
    requires
        marked_credentials(stdout) is Ok,
    ensures
        marked_credentials(stdout + rest) == marked_credentials(stdout),
{
    let all = stdout + rest;
    reveal_strlit("IDPASSKEY:");
    assert(marker().len() == 10);
    lemma_first_marker_exists(stdout);
    let at = marker_position(stdout);
    assert(first_occurrence(stdout, marker(), at));
    assert(all.subrange(at, at + 10) =~= stdout.subrange(at, at + 10));
    assert forall|i: int| 0 <= i < at implies !crate::bytes::occurs_at(all, marker(), i) by {
        assert(!crate::bytes::occurs_at(stdout, marker(), i));
        assert(all.subrange(i, i + 10) =~= stdout.subrange(i, i + 10));
    }
    assert(first_occurrence(all, marker(), at));
    crate::bootstrap::lemma_marker_unique(all, at);
    crate::bootstrap::lemma_marker_unique(stdout, at);
    let short = stdout.skip(at + 10);
    let long = all.skip(at + 10);
    assert(long.take(16) =~= short.take(16));
    assert(long.subrange(17, 49) =~= short.subrange(17, 49));
    assert(long[16] == short[16]);
}

/// A run that succeeds gives what its process printed: all of it with the
/// status that the process left, or all up to its marker, with no status,
/// after the process was stopped.
pub proof fn runs_give_what_was_printed(stdout: Vec<u8>, status: ExitStatus)
    ensures
        run_next(RunPhase::Begin, RunEvent::Time(true)) == RunPhase::Spawn,
        run_next(RunPhase::Spawn, RunEvent::Done) == RunPhase::TakeStdout,
        run_next(RunPhase::TakeStdout, RunEvent::Done) == RunPhase::StartReader,
        run_next(RunPhase::StartReader, RunEvent::Done) == RunPhase::Started,
        run_next(RunPhase::Started, RunEvent::Time(true)) == RunPhase::Capture,
        run_next(RunPhase::Capture, RunEvent::Captured(Capture::Complete(stdout)))
            == RunPhase::JoinReader(stdout),
        run_next(RunPhase::JoinReader(stdout), RunEvent::Done) == RunPhase::Captured(stdout),
        run_next(RunPhase::Captured(stdout), RunEvent::Time(true)) == RunPhase::AwaitExit(stdout),
        run_next(RunPhase::AwaitExit(stdout), RunEvent::Exited(status)) == RunPhase::Done(
            Verdict::Output(SshOutput { status: Some(status), stdout }),
        ),
        run_next(
            run_next(RunPhase::Capture, RunEvent::Captured(Capture::Marker(stdout))),
            RunEvent::Reaped(Ok(())),
        ) == RunPhase::Done(Verdict::Output(SshOutput { status: None, stdout })),
{
}

/// A run that outlives its deadline is stopped and told as a timeout,
/// wherever it stands; one that never began is only told.
pub proof fn late_runs_are_stopped(phase: RunPhase)
    ensures
        phase is Started || phase is Captured ==> run_next(phase, RunEvent::Time(false))
            == RunPhase::Reap(Verdict::TimedOut),
        phase is Capture || phase is AwaitExit ==> run_next(phase, RunEvent::TimedOut)
            == RunPhase::Reap(Verdict::TimedOut),
        run_next(RunPhase::Begin, RunEvent::Time(false)) == RunPhase::Done(Verdict::TimedOut),
        run_next(RunPhase::Capture, RunEvent::Captured(Capture::TooLarge)) == RunPhase::Reap(
            Verdict::TooLarge,
        ),
{
}

/// A run is answered with its output, or with an error that says what went
/// wrong and of which operation.
pub proof fn verdicts_are_told(
    verdict: Verdict,
    operation: &'static str,
    r: Result<SshOutput, ClientError>,
)
    requires
        call_ensures(Verdict::answer, (verdict, operation), r),
    ensures
        r is Ok <==> verdict is Output,
        verdict matches Verdict::Output(output) ==> r == Ok::<SshOutput, ClientError>(output),
        verdict == Verdict::TimedOut ==> r == Err::<SshOutput, ClientError>(
            ClientError::SshTimeout(operation),
        ),
        verdict is TooLarge ==> r->Err_0 is SshOutputTooLarge,
        verdict is SpawnFailed ==> r->Err_0 is SshSpawn,
        verdict is WaitFailed ==> r->Err_0 is SshWait,
        verdict is TerminateFailed ==> r->Err_0 is SshTerminate,
{
}

/// The output of an `ssh` counts where it left with status zero or was
/// stopped behind its marker, and counts as it is. Any other status is an
/// error that tells it.
pub proof fn only_successful_output_counts(output: SshOutput, r: Result<Vec<u8>, ClientError>)
    requires
        call_ensures(check_output, (output,), r),
    ensures
        r is Ok <==> output.status is None || output.status->0.code == Some(0i32),
        r matches Ok(stdout) ==> stdout@ == output.stdout@,
        r is Err ==> r == Err::<Vec<u8>, ClientError>(
            ClientError::SshNonZero(output.status->0.code),
        ),
{
}

/// Stopping works where every signal found its process or found it gone, and
/// the wait for the child worked.
pub proof fn stopping_tells_its_failures(
    kills: Vec<KillOutcome>,
    waited: Result<(), String>,
    r: Result<(), String>,
)
    requires
        call_ensures(reaped, (kills, waited), r),
    ensures
        r is Ok <==> waited is Ok && forall|i: int|
            0 <= i < kills@.len() ==> !((#[trigger] kills@[i]) is Failed),
        (kills@.len() > 0 && kills@.last() is Failed) ==> r == Err::<(), String>(
            kills@.last()->Failed_0,
        ),
{
    lemma_last_failure(kills@);
}

proof fn lemma_last_failure(kills: Seq<KillOutcome>)
    ensures
        last_failure(kills) is None <==> forall|i: int|
            0 <= i < kills.len() ==> !((#[trigger] kills[i]) is Failed),
    decreases kills.len(),
{
    if kills.len() > 0 {
        let before = kills.drop_last();
        lemma_last_failure(before);
        if last_failure(kills) is None {
            assert forall|i: int| 0 <= i < kills.len() implies !((#[trigger] kills[i]) is Failed) by {
                if i < before.len() {
                    assert(before[i] == kills[i]);
                }
            }
        } else if !(kills.last() is Failed) {
            let i = choose|i: int| 0 <= i < before.len() && (#[trigger] before[i]) is Failed;
            assert(kills[i] is Failed);
        } else {
            assert(kills[kills.len() - 1] is Failed);
        }
    }
}

/// Everything below an `ssh` is stopped, and everything that holds its output
/// open, and then the `ssh` itself: nobody is left out or stopped twice
/// before it.
pub proof fn everyone_is_stopped(
    descendants: Vec<u32>,
    pipe_holders: &Vec<u32>,
    child: u32,
    targets: Vec<u32>,
    pid: u32,
)
    requires
        call_ensures(kill_targets, (descendants, pipe_holders, child), targets),
    ensures
        targets@.len() > 0 && targets@.last() == child,
        descendants@.is_prefix_of(targets@),
        targets@.contains(pid) <==> descendants@.contains(pid) || pipe_holders@.contains(pid) || pid
            == child,
{
    lemma_with_new(descendants@, pipe_holders@, pid);
    let all = with_new(descendants@, pipe_holders@);
    assert(targets@[all.len() as int] == child);
    assert(descendants@ =~= targets@.subrange(0, descendants@.len() as int)) by {
        assert(descendants@ =~= all.subrange(0, descendants@.len() as int));
    }
    if all.contains(pid) {
        let i = choose|i: int| 0 <= i < all.len() && all[i] == pid;
        assert(targets@[i] == pid);
    }
    if targets@.contains(pid) && pid != child {
        let i = choose|i: int| 0 <= i < targets@.len() && targets@[i] == pid;
        assert(all[i] == pid);
    }
}

proof fn lemma_with_new(list: Seq<u32>, more: Seq<u32>, pid: u32)
    ensures
        list.is_prefix_of(with_new(list, more)),
        with_new(list, more).contains(pid) <==> list.contains(pid) || more.contains(pid),
    decreases more.len(),
{
    if more.len() > 0 {
        let before = more.drop_last();
        lemma_with_new(list, before, pid);
        let earlier = with_new(list, before);
        let last = more.last();
        assert(more[more.len() - 1] == last);
        if before.contains(pid) {
            let i = choose|i: int| 0 <= i < before.len() && before[i] == pid;
            assert(more[i] == pid);
        }
        if more.contains(pid) && pid != last {
            let i = choose|i: int| 0 <= i < more.len() && more[i] == pid;
            assert(before[i] == pid);
        }
        if !earlier.contains(last) {
            let after = earlier.push(last);
            assert(after[earlier.len() as int] == last);
            assert(list =~= after.subrange(0, list.len() as int)) by {
                assert(list =~= earlier.subrange(0, list.len() as int));
            }
            if earlier.contains(pid) {
                let i = choose|i: int| 0 <= i < earlier.len() && earlier[i] == pid;
                assert(after[i] == pid);
            }
            if after.contains(pid) && pid != last {
                let i = choose|i: int| 0 <= i < after.len() && after[i] == pid;
                assert(earlier[i] == pid);
            }
        }
    } else {
        assert(list =~= with_new(list, more).subrange(0, list.len() as int));
    }
}

/// Who holds a pipe open is found, unless it is this process itself.
pub proof fn holders_are_found(
    processes: &Vec<OpenFiles>,
    own: u32,
    pipe: PipeIdentity,
    found: Vec<u32>,
    i: int,
)
    requires
        call_ensures(pipe_holders, (processes, own, pipe), found),
    ensures
        0 <= i < processes@.len() && processes@[i].files@.contains(pipe) && processes@[i].pid != own
            ==> found@.contains(processes@[i].pid),
        !found@.contains(own),
        found@.len() <= processes@.len(),
        (forall|j: int|
            0 <= j < processes@.len() ==> !(#[trigger] processes@[j]).files@.contains(pipe))
            ==> found@.len() == 0,
{
    lemma_holders(processes@, own, pipe, i);
}

proof fn lemma_holders(processes: Seq<OpenFiles>, own: u32, pipe: PipeIdentity, i: int)
    ensures
        0 <= i < processes.len() && processes[i].files@.contains(pipe) && processes[i].pid != own
            ==> holders(processes, own, pipe).contains(processes[i].pid),
        !holders(processes, own, pipe).contains(own),
        holders(processes, own, pipe).len() <= processes.len(),
        (forall|j: int|
            0 <= j < processes.len() ==> !(#[trigger] processes[j]).files@.contains(pipe))
            ==> holders(processes, own, pipe).len() == 0,
    decreases processes.len(),
{
    if processes.len() > 0 {
        let before = processes.drop_last();
        lemma_holders(before, own, pipe, i);
        let earlier = holders(before, own, pipe);
        let last = processes.last();
        assert(processes[processes.len() - 1] == last);
        if last.pid != own && last.files@.contains(pipe) {
            let after = earlier.push(last.pid);
            assert(after[earlier.len() as int] == last.pid);
            if after.contains(own) {
                let j = choose|j: int| 0 <= j < after.len() && after[j] == own;
                assert(earlier[j] == own);
            }
            if 0 <= i < before.len() && earlier.contains(processes[i].pid) {
                let j = choose|j: int| 0 <= j < earlier.len() && earlier[j] == processes[i].pid;
                assert(after[j] == processes[i].pid);
            }
        }
        if forall|j: int|
            0 <= j < processes.len() ==> !(#[trigger] processes[j]).files@.contains(pipe) {
            assert forall|j: int| 0 <= j < before.len() implies !(
            #[trigger] before[j]).files@.contains(pipe) by {
                assert(before[j] == processes[j]);
            }
        }
    }
}

/// What a run is answered with is what its runner said: output that counts, or
/// the error, and credentials are those of that output.
pub proof fn runners_are_believed<R: SshRunner + ?Sized>(
    runner: &R,
    invocation: &SshInvocation,
    deadline: Deadline,
    checked: Result<Vec<u8>, ClientError>,
    started: Result<Credentials, ClientError>,
)
    requires
        call_ensures(run_checked::<R>, (runner, invocation, deadline), checked),
        call_ensures(run_bootstrap::<R>, (runner, invocation, deadline), started),
    ensures
        checked is Ok ==> exists|output: SshOutput|
            #[trigger] call_ensures(R::run, (runner, invocation, deadline), Ok(output)) && (
            output.status is None || output.status->0.code == Some(0i32)) && output.stdout@
                == checked->Ok_0@,
        started is Ok ==> exists|output: SshOutput|
            #[trigger] call_ensures(R::run, (runner, invocation, deadline), Ok(output)) && (
            output.status is None || output.status->0.code == Some(0i32)) && (marked_credentials(
                output.stdout@,
            ) matches Ok((id, passkey)) && crate::bootstrap::ascii_text(id) == started->Ok_0.id@
                && crate::bootstrap::ascii_text(passkey) == started->Ok_0.passkey@),
{
    if checked is Ok {
        let answer = choose|answer: Result<SshOutput, ClientError>| #[trigger]
            call_ensures(R::run, (runner, invocation, deadline), answer) && checked
                == checked_answer(answer);
        assert(answer == Ok::<SshOutput, ClientError>(answer->Ok_0));
    }
    if started is Ok {
        let answer = choose|answer: Result<SshOutput, ClientError>| #[trigger]
            call_ensures(R::run, (runner, invocation, deadline), answer) && bootstrapped(
                answer,
                started,
            );
        assert(answer == Ok::<SshOutput, ClientError>(answer->Ok_0));
    }
}

/// A probe tells the shell only where it ran to its end: one that was cut
/// short or failed tells nothing, and an error stays that error.
pub proof fn only_finished_probes_tell(
    answer: Result<SshOutput, ClientError>,
    r: Result<RemoteShell, ClientError>,
)
    requires
        call_ensures(conclude_shell_probe, (answer,), r),
    ensures
        answer is Err ==> r is Err && r->Err_0 == answer->Err_0,
        r is Ok ==> answer is Ok && answer->Ok_0.status is Some && answer->Ok_0.status->0.code
            == Some(0i32),
        r is Ok ==> shell_of_answer(probe_answer(shown_text(answer->Ok_0.stdout@))) == Some(
            r->Ok_0,
        ),
        (answer matches Ok(output) && output.status is Some && output.status->0.code != Some(0i32))
            ==> r is Err,
{
}

/// The list of a process's descendants is complete and holds no others: what
/// has the process or a listed one for its parent is listed, and only that.
pub proof fn descendants_are_listed_whole(
    root: u32,
    processes: &Vec<(u32, u32)>,
    found: Vec<u32>,
    k: int,
)
    requires
        call_ensures(descendants, (root, processes), found),
    ensures
        forall|p: int|
            0 <= p < processes@.len() && (processes@[p].1 == root || found@.contains(
                processes@[p].1,
            )) ==> found@.contains((#[trigger] processes@[p]).0),
        0 <= k < found@.len() ==> exists|p: int|
            0 <= p < processes@.len() && (#[trigger] processes@[p]).0 == found@[k] && (
            processes@[p].1 == root || found@.skip(k + 1).contains(processes@[p].1)),
{
    let rows = choose|rows: Seq<int>| lists_subtree(processes@, root, found@, rows);
    assert forall|p: int|
        0 <= p < processes@.len() && (processes@[p].1 == root || found@.contains(
            processes@[p].1,
        )) implies found@.contains((#[trigger] processes@[p]).0) by {
        assert(rows.contains(p));
        let k = choose|k: int| 0 <= k < rows.len() && rows[k] == p;
        assert(0 <= rows[k] < processes@.len() && processes@[rows[k]].0 == found@[k]);
    }
    if 0 <= k < found@.len() {
        let p = rows[k];
        assert(has_parent_behind(processes@, root, found@, rows, k));
        assert(processes@[p].0 == found@[k]);
        if processes@[p].1 != root {
            let j = choose|j: int| k < j < found@.len() && #[trigger] found@[j] == processes@[p].1;
            assert(found@.skip(k + 1)[j - k - 1] == found@[j]);
        }
    }
}

/// A probe that `ssh` could not make tells why, and nothing else is made of
/// what it printed.
pub proof fn failed_probes_tell_nothing<R: SshRunner + ?Sized>(
    runner: &R,
    invocation: &SshInvocation,
    deadline: Deadline,
    cause: ClientError,
    r: Result<RemoteShell, ClientError>,
)
    requires
        call_ensures(run_shell_probe::<R>, (runner, invocation, deadline), r),
        forall|answer: Result<SshOutput, ClientError>| #[trigger]
            call_ensures(R::run, (runner, invocation, deadline), answer) ==> answer == Err::<
                SshOutput,
                ClientError,
            >(cause),
    ensures
        r == Err::<RemoteShell, ClientError>(cause),
{
}

/// Only a process that ended with zero succeeded.
pub proof fn zero_is_success(status: ExitStatus, r: bool)
    requires
        call_ensures(ExitStatus::success, (status,), r),
    ensures
        r <==> status.code is Some && status.code->0 == 0,
{
}

} // verus!
