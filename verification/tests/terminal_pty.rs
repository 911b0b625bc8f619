use et::terminal_pipe::{
    exit_code, pipe_command, shell_command, stderr_mark, take_input, wait_child, ChildLook,
    OutputEvent, OutputStep, PipeEvent, PipePhase, PipePump, PumpLook, MAX_PENDING_INPUT,
    command_environment, starting_directory, StartStep,
};
use et::terminal_protocol::{
    FlowControlMode, LocalPacketEffect, PacketKind, TerminalPacketError,
};
use et::terminal_pty::{
    after_step, default_shell, finish_session, forward_output, kill_process_group, plan_ending,
    shell_environment, step_failure, wait_for_output_gate, CompletionState, ForwardEvent,
    ForwardStep, GateStep, PtyEvent, PtyPhase, PtyPump, PtyReady, PtyStep, PumpCompletion,
    WorkerEvent, FINAL_OUTPUT_DRAIN_MILLIS,
    wait_shell, PtyTurns, ShellWait, TurnPhase,
};

#[test]
fn empty_pipe_command_is_rejected() {
    let error = pipe_command(Some(String::new())).unwrap_err();
    assert!(error.contains("non-empty"), "{error}");
    assert!(pipe_command(None).is_err());
    assert_eq!(pipe_command(Some("true".into())).unwrap(), "true");
}

#[test]
fn normal_immediate_exit_drains_delayed_output_before_eof() {
    let mut state = CompletionState::new();
    assert_eq!(state.observe(WorkerEvent::Child(Ok(7)), 1_000), Ok(None));
    assert_eq!(state.poll_timeout(1_000), Some(FINAL_OUTPUT_DRAIN_MILLIS));
    assert_eq!(state.expired_status(1_500), None);
    assert_eq!(
        state.observe(WorkerEvent::Output(Ok(())), 1_600),
        Ok(Some(PumpCompletion {
            status: 7,
            drained: true
        }))
    );
}

#[test]
fn output_that_never_ends_is_given_up_after_a_while() {
    let mut state = CompletionState::new();
    state.observe(WorkerEvent::Child(Ok(3)), 0).unwrap();
    assert_eq!(
        state.expired_status(FINAL_OUTPUT_DRAIN_MILLIS),
        Some(PumpCompletion {
            status: 3,
            drained: false
        })
    );
    assert!(CompletionState::new()
        .observe(WorkerEvent::Output(Err("lost".into())), 0)
        .is_err());
}

#[test]
fn immediate_output_waits_until_startup_status_is_fully_serialized() {
    assert!(matches!(wait_for_output_gate(false, false), GateStep::Wait));
    assert!(matches!(wait_for_output_gate(true, false), GateStep::Open));
    assert!(matches!(
        wait_for_output_gate(false, true),
        GateStep::Cancelled(_)
    ));
}

#[test]
fn injected_setup_failure_reaps_shell_while_peer_stays_open_and_unread() {
    let (message, cleanup) = step_failure(PtyStep::Announce, "injected");
    assert!(message.contains("injected"));
    assert!(cleanup.kill_shell && cleanup.stop_output && cleanup.join_child);
    let (_, early) = step_failure(PtyStep::OpenPty, "injected");
    assert!(!early.kill_shell && !early.join_child);
}

#[test]
fn sessions_are_set_up_step_by_step() {
    let mut step = PtyStep::ReadInit;
    let mut seen = vec![step];
    while step != PtyStep::Pump {
        step = after_step(step, FlowControlMode::Backpressure);
        seen.push(step);
        assert!(seen.len() < 20);
    }
    let position = |wanted| seen.iter().position(|step| *step == wanted).unwrap();
    assert!(position(PtyStep::OpenPty) < position(PtyStep::Spawn));
    assert!(position(PtyStep::Spawn) < position(PtyStep::Announce));
}

#[test]
fn shells_and_environments_have_defaults() {
    assert_eq!(default_shell(Some("fish"), Some("/bin/zsh"), false), "fish");
    assert_eq!(default_shell(None, Some("/bin/zsh"), false), "/bin/zsh");
    assert_eq!(default_shell(None, None, false), "/bin/sh");
    assert_eq!(default_shell(None, None, true), "cmd.exe");
    let environment = shell_environment("xterm", vec![("A".into(), "1".into())]);
    assert!(environment.contains(&("TERM".into(), "xterm".into())));
    assert!(environment.contains(&("A".into(), "1".into())));
}

#[test]
fn output_is_forwarded_until_it_ends() {
    assert!(matches!(
        forward_output(ForwardEvent::Read(5)),
        ForwardStep::Send(5)
    ));
    assert!(matches!(
        forward_output(ForwardEvent::Read(0)),
        ForwardStep::Done(Ok(()))
    ));
    assert!(matches!(
        forward_output(ForwardEvent::Sent),
        ForwardStep::Read
    ));
    assert!(matches!(
        forward_output(ForwardEvent::SendFailed("gone".into())),
        ForwardStep::Done(Err(_))
    ));
    assert!(matches!(
        et::terminal_pipe::forward_output(OutputEvent::Read(3)),
        OutputStep::Send(3)
    ));
    assert_eq!(stderr_mark(true), Some(true));
    assert_eq!(stderr_mark(false), None);
}

#[test]
fn sessions_outlive_their_shell_until_it_is_reported() {
    let mut pump = PtyPump::new();
    let ready = PtyReady {
        router_readable: false,
        router_down: false,
        wake: true,
    };
    assert!(pump.advance(PtyEvent::Polled(ready), 0).is_none());
    let mut events = vec![
        WorkerEvent::Output(Ok(())),
        WorkerEvent::Child(Ok(4)),
    ];
    for _ in 0..10 {
        let event = match pump.phase {
            PtyPhase::TakeEvent => PtyEvent::Worker(events.pop()),
            PtyPhase::DrainWake => PtyEvent::Drained(Ok(())),
            PtyPhase::Poll => PtyEvent::Polled(ready),
            PtyPhase::ReadRouter => PtyEvent::NoPacket,
            PtyPhase::Handle => PtyEvent::Handled(Ok(LocalPacketEffect::Continue)),
            PtyPhase::Ended => break,
        };
        if let Some(end) = pump.advance(event, 0) {
            assert_eq!(
                end,
                Ok(PumpCompletion {
                    status: 4,
                    drained: true
                })
            );
        }
    }
    assert_eq!(pump.phase, PtyPhase::Ended);
}

#[test]
fn endings_depend_on_what_is_left() {
    let drained = Ok(PumpCompletion {
        status: 4,
        drained: true,
    });
    assert!(!plan_ending(&drained, true).kill_shell);
    assert_eq!(finish_session(drained, false, false), Ok(4));
    let failed = Err("router closed".to_owned());
    assert!(plan_ending(&failed, true).kill_shell);
    assert_eq!(
        finish_session(failed, false, false),
        Err("router closed".to_owned())
    );
    let drained = Ok(PumpCompletion {
        status: 0,
        drained: true,
    });
    assert!(finish_session(drained, true, false).is_err());
}

#[test]
fn shells_are_killed_with_their_group_and_session() {
    let processes = vec![(10, Some(10)), (11, Some(10)), (12, Some(11)), (13, None)];
    assert_eq!(
        kill_process_group(Some(10), &processes),
        Some((10, vec![10, 11]))
    );
    assert!(kill_process_group(None, &processes).is_none());
    assert!(kill_process_group(Some(u32::MAX), &processes).is_none());
}

#[test]
fn commands_run_in_the_shell_of_the_system() {
    assert_eq!(
        shell_command(None, false),
        ("/bin/sh".to_owned(), "-c".to_owned())
    );
    assert_eq!(
        shell_command(Some("C:\\cmd.exe"), true),
        ("C:\\cmd.exe".to_owned(), "/c".to_owned())
    );
    assert_eq!(exit_code(Some(3)), 3);
    assert!(wait_child(ChildLook::Running).is_none());
    assert!(matches!(
        wait_child(ChildLook::Exited(Some(2))),
        Some(Ok(2))
    ));
}

#[test]
fn input_is_taken_until_the_session_is_closed() {
    let mut pending = Vec::new();
    for bytes in [b"abc", b"def"] {
        assert_eq!(
            take_input(
                false,
                PacketKind::TerminalBuffer,
                Some(Some(bytes.to_vec())),
                &mut pending
            ),
            Ok(false)
        );
    }
    assert_eq!(pending, b"abcdef");
    assert_eq!(
        take_input(false, PacketKind::TerminalInfo, None, &mut pending),
        Ok(false)
    );
    assert_eq!(
        take_input(false, PacketKind::TerminalClose, None, &mut pending),
        Ok(true)
    );
    assert!(take_input(false, PacketKind::TerminalBuffer, None, &mut pending).is_err());
    assert!(take_input(true, PacketKind::TerminalClose, None, &mut pending).is_err());
    assert_eq!(pending, b"abcdef");
}

#[test]
fn full_input_buffers_accept_no_more() {
    let mut pump = PipePump::new();
    pump.pending = vec![b'x'; MAX_PENDING_INPUT];
    for _ in 0..20 {
        let look = match pump.phase {
            PipePhase::TakeEvent { .. } => PumpLook::Worker(None),
            PipePhase::Poll => PumpLook::Polled,
            PipePhase::DrainWake => PumpLook::Drained(Ok(())),
            PipePhase::ReadRouter => panic!("there is no room for input"),
            PipePhase::WriteInput => PumpLook::WouldBlock,
            PipePhase::Ended => panic!("the session goes on"),
        };
        assert!(pump.advance(look).is_none());
    }
    assert_eq!(pump.pending.len(), MAX_PENDING_INPUT);
}

#[test]
fn stdout_eof_closes_stdin_when_the_child_redirects_stdout() {
    let mut pump = PipePump::new();
    pump.pending = b"rest".to_vec();
    let mut eof = Some(PipeEvent::StdoutEof);
    let mut child = Some(PipeEvent::Child(Ok(5)));
    let mut end = None;
    for _ in 0..40 {
        let look = match pump.phase {
            PipePhase::TakeEvent { .. } => PumpLook::Worker(match eof.take() {
                Some(event) => Some(event),
                None if !pump.stdin_open => child.take(),
                None => None,
            }),
            PipePhase::Poll => PumpLook::Polled,
            PipePhase::DrainWake => PumpLook::Drained(Ok(())),
            PipePhase::ReadRouter => panic!("no input is read behind the end of the output"),
            PipePhase::WriteInput => PumpLook::Wrote(pump.pending.len()),
            PipePhase::Ended => break,
        };
        end = pump.advance(look);
        if end.is_some() {
            break;
        }
    }
    assert!(!pump.stdin_open);
    assert!(pump.pending.is_empty());
    assert_eq!(end, Some(Ok(5)));
}

#[test]
fn shells_are_waited_for_by_their_owner() {
    assert_eq!(wait_shell(ShellWait::Exited(7)), Ok(7));
    assert!(wait_shell(ShellWait::OwnerLost).is_err());
    assert!(wait_shell(ShellWait::NotOwned).is_err());
    let message = wait_shell(ShellWait::Failed("echild".into())).unwrap_err();
    assert!(message.ends_with("echild"), "{message}");
}

#[test]
fn turns_take_reports_before_packets() {
    let mut turns = PtyTurns::new();
    assert!(turns.advance(PtyEvent::Worker(None), 0).is_none());
    assert!(turns.advance(PtyEvent::Drained(Ok(())), 0).is_none());
    assert!(turns.advance(PtyEvent::Packet, 0).is_none());
    assert_eq!(turns.phase, TurnPhase::Handle);
    assert!(turns.advance(PtyEvent::Handled(Ok(LocalPacketEffect::Continue)), 0).is_none());
    // Something moved, so the next turn begins at once.
    assert_eq!(turns.phase, TurnPhase::TakeEvent);
    assert!(turns.advance(PtyEvent::Worker(None), 0).is_none());
    assert!(turns.advance(PtyEvent::Drained(Ok(())), 0).is_none());
    assert!(turns.advance(PtyEvent::NoPacket, 0).is_none());
    assert_eq!(turns.phase, TurnPhase::Wait);
    assert!(turns.advance(PtyEvent::Waited, 0).is_none());
    assert!(turns
        .advance(PtyEvent::Worker(Some(WorkerEvent::Child(Ok(3)))), 0)
        .is_none());
    assert_eq!(
        turns.advance(PtyEvent::Worker(Some(WorkerEvent::Output(Ok(())))), 0),
        Some(Ok(PumpCompletion {
            status: 3,
            drained: true
        }))
    );
    assert_eq!(turns.phase, TurnPhase::Ended);
}

#[test]
fn turns_fail_with_their_cause() {
    let mut turns = PtyTurns::new();
    turns.advance(PtyEvent::Worker(None), 0);
    assert_eq!(
        turns.advance(PtyEvent::Drained(Err("closed".into())), 0),
        Some(Err("could not drain PTY wakeup: closed".to_owned()))
    );
}

#[test]
fn pipe_commands_get_their_version_last() {
    let environment = vec![("ET_VERSION".to_owned(), "forged".to_owned())];
    assert_eq!(
        command_environment(environment, "1.0"),
        vec![
            ("ET_VERSION".to_owned(), "forged".to_owned()),
            ("ET_VERSION".to_owned(), "1.0".to_owned()),
        ]
    );
    let home = Some("/home/u".to_owned());
    assert_eq!(starting_directory(home.clone(), true, false), home);
    assert_eq!(starting_directory(home.clone(), false, false), None);
    assert_eq!(starting_directory(home, true, true), None);
}

#[test]
fn pipe_sessions_start_step_by_step() {
    let mut step = StartStep::Spawn;
    let mut steps = 0;
    while step != StartStep::Running {
        assert!(step.advance(Ok(()), false).is_none());
        steps += 1;
    }
    assert_eq!(steps, 17);
    let mut step = StartStep::TakeStderr;
    assert!(step.advance(Ok(()), true).is_none());
    assert_eq!(step, StartStep::CloneRouter);
}

#[test]
fn pipe_sessions_that_do_not_start_tell_why() {
    let trouble = |mut step: StartStep| step.advance(Err("why".into()), false).unwrap();
    let spawn = trouble(StartStep::Spawn);
    assert_eq!(spawn.message, "could not spawn pipe command: why");
    assert!(!spawn.stop_workers);
    assert_eq!(
        trouble(StartStep::TakeStdin).message,
        "pipe command has no stdin"
    );
    assert_eq!(
        trouble(StartStep::SetFlags).message,
        "could not set pipe stdin nonblocking: why"
    );
    assert!(!trouble(StartStep::StartChildWorker).stop_workers);
    let router = trouble(StartStep::ConfigureRouter);
    assert_eq!(router.message, "could not configure pipe router: why");
    assert!(router.stop_workers);
    assert_eq!(
        trouble(StartStep::LockWriter).message,
        "pipe router writer is unavailable"
    );
    let announce = trouble(StartStep::Announce);
    assert_eq!(announce.message, "why");
    assert!(announce.stop_workers);
}

fn handling_pump() -> PtyPump {
    let mut pump = PtyPump::new();
    let ready = PtyReady {
        router_readable: true,
        router_down: false,
        wake: false,
    };
    assert!(pump.advance(PtyEvent::Polled(ready), 0).is_none());
    assert!(pump.advance(PtyEvent::Packet, 0).is_none());
    assert_eq!(pump.phase, PtyPhase::Handle);
    pump
}

#[test]
fn close_packets_end_a_session_successfully() {
    let mut pump = handling_pump();
    let end = pump
        .advance(PtyEvent::Handled(Ok(LocalPacketEffect::Close)), 0)
        .unwrap();
    assert_eq!(
        end,
        Ok(PumpCompletion {
            status: 0,
            drained: false
        })
    );
    let plan = plan_ending(&end, true);
    assert!(plan.cancel_output && plan.shut_router && !plan.kill_shell);
    assert_eq!(finish_session(end, false, false), Ok(0));

    let mut turns = PtyTurns::new();
    turns.advance(PtyEvent::Worker(None), 0);
    turns.advance(PtyEvent::Drained(Ok(())), 0);
    turns.advance(PtyEvent::Packet, 0);
    let end = turns.advance(PtyEvent::Handled(Ok(LocalPacketEffect::Close)), 0);
    assert!(matches!(end, Some(Ok(PumpCompletion { status: 0, .. }))));
}

#[test]
fn dead_terminals_wait_for_their_shell_and_protocol_mistakes_do_not() {
    let mut pump = handling_pump();
    let dead = TerminalPacketError::Pty("gone".into());
    assert!(pump.advance(PtyEvent::Handled(Err(dead)), 0).is_none());
    assert_eq!(pump.phase, PtyPhase::Poll);

    let mut pump = handling_pump();
    let mistake = TerminalPacketError::Protocol("unsupported");
    assert_eq!(
        pump.advance(PtyEvent::Handled(Err(mistake)), 0),
        Some(Err("unsupported".to_string()))
    );
}
