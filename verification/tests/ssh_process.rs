use std::time::Duration;

use et::bootstrap::{InvocationCompletion, RemoteShell, SshInvocation};
use et::deadline::Deadline;
use et::error::ClientError;
use et::ssh_process::{
    capture_bounded, capture_request, check_output, conclude_shell_probe, descendants,
    kill_targets, marker_end, pipe_holders, reaped, run_bootstrap, run_checked, run_shell_probe,
    Capture, CaptureRead, ExitStatus, KillOutcome, OpenFiles, PipeIdentity, RunEvent, RunPhase,
    SshOutput, SshRunner, SystemSsh, Verdict, DEFAULT_BOOTSTRAP_TIMEOUT_SECONDS, MAX_SSH_STDOUT,
};

const CREDENTIALS: &[u8] = b"IDPASSKEY:abcdefghijklmnop/ABCDEFGHIJKLMNOPQRSTUVWXYZabcdef";

fn exit_status(code: i32) -> ExitStatus {
    ExitStatus { code: Some(code) }
}

fn invocation(program: &str, operation: &'static str) -> SshInvocation {
    SshInvocation {
        program: program.into(),
        args: Vec::new(),
        operation,
        completion: InvocationCompletion::Exit,
    }
}

fn soon() -> Deadline {
    Deadline::after(Duration::from_secs(1))
}

struct ProbeRunner {
    status: i32,
    stdout: &'static [u8],
}

impl SshRunner for ProbeRunner {
    fn run(
        &self,
        _invocation: &SshInvocation,
        _deadline: Deadline,
    ) -> Result<SshOutput, ClientError> {
        Ok(SshOutput {
            status: Some(exit_status(self.status)),
            stdout: self.stdout.to_vec(),
        })
    }
}

struct FailingRunner;

impl SshRunner for FailingRunner {
    fn run(&self, _: &SshInvocation, _: Deadline) -> Result<SshOutput, ClientError> {
        Err(ClientError::SshSpawn("missing".into()))
    }
}

#[test]
fn shell_probe_detects_windows_cmd() {
    let runner = ProbeRunner {
        status: 0,
        stdout: b"__ET_COMSPEC__C:\\WINDOWS\\system32\\cmd.exe\r\n",
    };
    assert_eq!(
        run_shell_probe(&runner, &invocation("ssh", "probe"), soon()).unwrap(),
        RemoteShell::Cmd
    );
}

#[test]
fn shell_probe_detects_posix_literal() {
    let runner = ProbeRunner {
        status: 0,
        stdout: b"__ET_COMSPEC__%ComSpec%\n",
    };
    assert_eq!(
        run_shell_probe(&runner, &invocation("ssh", "probe"), soon()).unwrap(),
        RemoteShell::Posix
    );
}

#[test]
fn shell_probe_propagates_ssh_255() {
    let runner = ProbeRunner {
        status: 255,
        stdout: b"",
    };
    assert!(matches!(
        run_shell_probe(&runner, &invocation("ssh", "probe"), soon()),
        Err(ClientError::SshNonZero(Some(255)))
    ));
}

#[test]
fn runner_seam_returns_credentials() {
    let runner = ProbeRunner {
        status: 0,
        stdout: CREDENTIALS,
    };
    assert_eq!(
        run_bootstrap(&runner, &invocation("ssh", "testing bootstrap"), soon())
            .unwrap()
            .id,
        "abcdefghijklmnop"
    );
}

#[test]
fn nonzero_output_is_typed() {
    let runner = ProbeRunner {
        status: 1,
        stdout: b"",
    };
    assert!(matches!(
        run_bootstrap(&runner, &invocation("ssh", "testing bootstrap"), soon()),
        Err(ClientError::SshNonZero(_))
    ));
}

#[test]
fn runner_failures_pass_through() {
    assert!(matches!(
        run_checked(&FailingRunner, &invocation("ssh", "x"), soon()),
        Err(ClientError::SshSpawn(_))
    ));
    assert!(matches!(
        conclude_shell_probe(Err(ClientError::SshTimeout("x"))),
        Err(ClientError::SshTimeout("x"))
    ));
}

#[test]
fn system_runner_terminates_on_deadline() {
    let runner = SystemSsh::with_timeout(Duration::from_millis(50));
    assert_eq!(runner.timeout, Duration::from_millis(50));
    let capturing = started_run();
    assert!(matches!(capturing, RunPhase::Capture));
    let stopping = capturing.advance(RunEvent::TimedOut);
    assert!(matches!(stopping, RunPhase::Reap(Verdict::TimedOut)));
    match stopping.advance(RunEvent::Reaped(Ok(()))) {
        RunPhase::Done(verdict) => match verdict.answer("testing bootstrap") {
            Err(ClientError::SshTimeout(operation)) => assert_eq!(operation, "testing bootstrap"),
            other => panic!("{other:?}"),
        },
        other => panic!("{other:?}"),
    }
    // A deadline that has passed starts nothing.
    assert!(matches!(
        RunPhase::Begin.advance(RunEvent::Time(false)),
        RunPhase::Done(Verdict::TimedOut)
    ));
    let late = RunPhase::AwaitExit(Vec::new()).advance(RunEvent::TimedOut);
    assert!(matches!(late, RunPhase::Reap(Verdict::TimedOut)));
    let late = RunPhase::Captured(Vec::new()).advance(RunEvent::Time(false));
    assert!(matches!(late, RunPhase::Reap(Verdict::TimedOut)));
    let late = RunPhase::Started.advance(RunEvent::Time(false));
    assert!(matches!(late, RunPhase::Reap(Verdict::TimedOut)));
}

fn started_run() -> RunPhase {
    RunPhase::Begin
        .advance(RunEvent::Time(true))
        .advance(RunEvent::Done)
        .advance(RunEvent::Done)
        .advance(RunEvent::Done)
        .advance(RunEvent::Time(true))
}

fn answer_of(phase: RunPhase) -> Result<SshOutput, ClientError> {
    match phase {
        RunPhase::Done(verdict) => verdict.answer("x"),
        other => panic!("{other:?}"),
    }
}

#[test]
fn complete_output_waits_for_the_exit() {
    let exited = started_run()
        .advance(RunEvent::Captured(Capture::Complete(b"out".to_vec())))
        .advance(RunEvent::Done)
        .advance(RunEvent::Time(true))
        .advance(RunEvent::Exited(exit_status(3)));
    let output = answer_of(exited).unwrap();
    assert_eq!(output.status, Some(exit_status(3)));
    assert_eq!(output.stdout, b"out");
}

#[test]
fn marker_stops_the_run_without_a_status() {
    let stopped = started_run()
        .advance(RunEvent::Captured(Capture::Marker(b"marker".to_vec())))
        .advance(RunEvent::Reaped(Ok(())));
    let output = answer_of(stopped).unwrap();
    assert_eq!(output.status, None);
    assert_eq!(output.stdout, b"marker");
}

#[test]
fn failed_runs_name_their_trouble() {
    let words = |phase: RunPhase| match answer_of(phase.advance(RunEvent::Reaped(Ok(())))) {
        Err(ClientError::SshStdout(cause)) => cause,
        other => panic!("{other:?}"),
    };
    assert_eq!(
        words(RunPhase::TakeStdout.advance(RunEvent::Missing)),
        "ssh stdout pipe was not created"
    );
    assert_eq!(
        words(RunPhase::StartReader.advance(RunEvent::Failed("no thread".into()))),
        "no thread"
    );
    assert_eq!(
        words(started_run().advance(RunEvent::Disconnected)),
        "ssh stdout reader stopped unexpectedly"
    );
    assert_eq!(
        words(started_run().advance(RunEvent::Captured(Capture::Failed("bad".into())))),
        "bad"
    );
    assert_eq!(
        words(RunPhase::JoinReader(Vec::new()).advance(RunEvent::Failed("panic".into()))),
        "ssh stdout reader panicked"
    );
    assert!(matches!(
        answer_of(RunPhase::Spawn.advance(RunEvent::Failed("no ssh".into()))),
        Err(ClientError::SshSpawn(cause)) if cause == "no ssh"
    ));
    // A process that cannot be stopped counts before everything else.
    assert!(matches!(
        answer_of(
            started_run()
                .advance(RunEvent::TimedOut)
                .advance(RunEvent::Reaped(Err("denied".into())))
        ),
        Err(ClientError::SshTerminate(cause)) if cause == "denied"
    ));
}

#[test]
fn system_runner_stops_output_flood_at_limit() {
    let mut captured: Vec<u8> = Vec::new();
    let ended = loop {
        let wanted = capture_request(captured.len(), 8192);
        let read = CaptureRead::Bytes(vec![0; wanted]);
        match capture_bounded(&mut captured, read) {
            Some(capture) => break capture,
            None => assert!(captured.len() <= MAX_SSH_STDOUT),
        }
    };
    assert!(matches!(ended, Capture::TooLarge));
    let stopped = started_run()
        .advance(RunEvent::Captured(ended))
        .advance(RunEvent::Reaped(Ok(())));
    assert!(matches!(
        answer_of(stopped),
        Err(ClientError::SshOutputTooLarge(MAX_SSH_STDOUT))
    ));
}

#[test]
fn capture_ends_at_the_end_of_the_stream() {
    let mut captured = b"out".to_vec();
    match capture_bounded(&mut captured, CaptureRead::Bytes(Vec::new())) {
        Some(Capture::Complete(bytes)) => assert_eq!(bytes, b"out"),
        other => panic!("{other:?}"),
    }
    let mut captured = Vec::new();
    assert!(matches!(
        capture_bounded(&mut captured, CaptureRead::Failed("broken".into())),
        Some(Capture::Failed(_))
    ));
}

#[test]
fn exits_are_judged_by_their_code() {
    assert!(exit_status(0).success());
    assert!(!ExitStatus { code: None }.success());
    let failed = RunPhase::AwaitExit(Vec::new()).advance(RunEvent::Failed("gone".into()));
    assert!(matches!(
        answer_of(failed.advance(RunEvent::Reaped(Ok(())))),
        Err(ClientError::SshWait(cause)) if cause == "gone"
    ));
    assert_eq!(
        check_output(SshOutput {
            status: Some(exit_status(0)),
            stdout: b"ok".to_vec(),
        })
        .unwrap(),
        b"ok"
    );
    assert!(matches!(
        check_output(SshOutput {
            status: Some(ExitStatus { code: None }),
            stdout: Vec::new(),
        }),
        Err(ClientError::SshNonZero(None))
    ));
}

#[test]
fn credentials_are_enough_to_stop_reading() {
    let mut stream = b"banner\n".to_vec();
    stream.extend_from_slice(CREDENTIALS);
    assert_eq!(marker_end(&stream), Some(stream.len()));
    stream.extend_from_slice(b"\nmore");
    assert_eq!(marker_end(&stream), Some(stream.len() - 5));
    assert_eq!(marker_end(b"IDPASSKEY:short"), None);
}

#[test]
fn default_runner_waits_for_the_bootstrap() {
    assert_eq!(
        SystemSsh::default().timeout,
        Duration::from_secs(DEFAULT_BOOTSTRAP_TIMEOUT_SECONDS)
    );
}

#[test]
fn termination_failures_are_reported() {
    assert!(reaped(vec![KillOutcome::Signaled, KillOutcome::Gone], Ok(())).is_ok());
    let kills = vec![
        KillOutcome::Failed("first".into()),
        KillOutcome::Failed("denied".into()),
        KillOutcome::Signaled,
    ];
    assert_eq!(reaped(kills, Err("lost".into())), Err("denied".to_owned()));
    assert_eq!(
        reaped(vec![KillOutcome::Gone], Err("lost".into())),
        Err("lost".to_owned())
    );
}

#[test]
fn every_descendant_and_pipe_holder_is_a_target() {
    let processes = vec![(10, 1), (11, 10), (12, 11), (13, 1), (14, 10)];
    let mut found = descendants(10, &processes);
    found.sort();
    assert_eq!(found, [11, 12, 14]);

    let pipe = PipeIdentity {
        device: 5,
        inode: 77,
    };
    let other = PipeIdentity {
        device: 5,
        inode: 78,
    };
    let table = vec![
        OpenFiles {
            pid: 1,
            files: vec![pipe],
        },
        OpenFiles {
            pid: 2,
            files: vec![other, pipe],
        },
        OpenFiles {
            pid: 3,
            files: vec![other],
        },
    ];
    assert_eq!(pipe_holders(&table, 1, pipe), [2]);

    assert_eq!(kill_targets(vec![12, 11], &vec![2, 11], 10), [12, 11, 2, 10]);
}
