use et::client_terminal_loop::{
    is_forward_packet, network_poll_flags, AfterRecovery, Phase, Pump, PumpEnd, PumpEvent,
    PumpOptions, Ready, WriteResult, HELD_POLL_CAP_MILLIS, POLL_CAP_MILLIS,
};
use et::client_hangup::{take_hangup_close, HangupClose, HangupStep};
use et::client_output::{ConsoleQueue, Writer, WriterEvent, WriterPhase};
use et::client_terminal::{
    classify_forward_completion, finish_remote_completion, route_server_packet, terminal_io,
    terminal_size_message, CompletionLook, CompletionStep, Display, RetainedCompletion,
    ServerMessage,
};
use et::error::{ClientError, ConnError};
use et::terminal_protocol::{FlowControlMode, PacketKind};

const OPTIONS: PumpOptions = PumpOptions {
    read_stdin: true,
    keepalive_seconds: 1,
    terminal_enabled: true,
    auto_cursor_report: false,
};

const QUIET: Ready = Ready {
    network_down: false,
    resize: false,
    forwarding: false,
    input: false,
    input_closed: false,
};

/// Answers phases with events until one of them has no answer.
fn drive(
    pump: &mut Pump,
    now: u64,
    mut answer: impl FnMut(Phase) -> Option<PumpEvent>,
) -> Option<PumpEnd> {
    for _ in 0..50 {
        match answer(pump.phase) {
            None => return None,
            Some(event) => {
                if let Some(end) = pump.advance(event, now) {
                    return Some(end);
                }
            }
        }
    }
    panic!("the pump does not come to rest in {:?}", pump.phase);
}

#[test]
fn full_forwarding_backlog_stops_polling_network_readability() {
    let flags = network_poll_flags(false, true);

    assert!(!flags.readable);
    assert!(flags.hangup && flags.error);
}

#[test]
fn available_forwarding_backlog_keeps_polling_network_readability() {
    let flags = network_poll_flags(false, false);

    assert!(flags.readable);
}

#[test]
fn held_output_stops_polling_network_readability() {
    assert!(!network_poll_flags(true, false).readable);
    assert!(is_forward_packet(PacketKind::PortForwardData));
    assert!(!is_forward_packet(PacketKind::TerminalBuffer));
}

#[test]
fn pending_console_output_does_not_block_terminal_input() {
    let mut pump = Pump::new(OPTIONS, 0);
    let mut packets = vec![PacketKind::TerminalBuffer];
    let mut sent = 0;
    let mut polls = 0;
    let end = drive(&mut pump, 10, |phase| match phase {
        Phase::CheckConsole => Some(PumpEvent::Console(0, None)),
        Phase::RetryOutput => Some(PumpEvent::Held),
        Phase::Poll => {
            polls += 1;
            if polls > 2 {
                return None;
            }
            Some(PumpEvent::Polled(Ready {
                input: polls == 2,
                ..QUIET
            }))
        }
        Phase::ReadPacket => Some(match packets.pop() {
            Some(kind) => PumpEvent::Packet(kind),
            None => PumpEvent::NoPacket,
        }),
        Phase::Show => Some(PumpEvent::Held),
        Phase::TakeOutbound => Some(PumpEvent::Outbound(false)),
        Phase::ReadInput => Some(PumpEvent::Input(5)),
        Phase::SendInput => {
            sent += 1;
            Some(PumpEvent::Write(WriteResult::Written))
        }
        Phase::SendKeepAlive => Some(PumpEvent::Write(WriteResult::Written)),
        other => panic!("{other:?}"),
    });
    assert!(end.is_none());
    assert!(pump.output_held);
    assert_eq!(sent, 1);
    assert_eq!(pump.poll_timeout(10), HELD_POLL_CAP_MILLIS);
}

#[test]
fn sessions_end_with_their_input_or_their_server() {
    let mut pump = Pump::new(OPTIONS, 0);
    let end = drive(&mut pump, 1, |phase| match phase {
        Phase::CheckConsole => Some(PumpEvent::Console(0, None)),
        Phase::Poll => Some(PumpEvent::Polled(Ready {
            input: true,
            ..QUIET
        })),
        Phase::ReadPacket => Some(PumpEvent::NoPacket),
        Phase::TakeOutbound => Some(PumpEvent::Outbound(false)),
        Phase::ReadInput => Some(PumpEvent::Input(0)),
        other => panic!("{other:?}"),
    });
    assert!(matches!(end, Some(PumpEnd::LocalInputClosed)));
    assert_eq!(pump.phase, Phase::Ended);

    let mut pump = Pump::new(OPTIONS, 0);
    let end = drive(&mut pump, 1, |phase| match phase {
        Phase::CheckConsole => Some(PumpEvent::Console(0, None)),
        Phase::Poll => Some(PumpEvent::Polled(Ready {
            network_down: true,
            ..QUIET
        })),
        Phase::ReadPacket => Some(PumpEvent::ReadFailed(ConnError::Io("reset".into()))),
        Phase::TakeOutbound => Some(PumpEvent::Outbound(false)),
        Phase::Recover(_) => Some(PumpEvent::SessionEnded),
        other => panic!("{other:?}"),
    });
    assert!(matches!(end, Some(PumpEnd::RemoteSessionEnded)));
}

#[test]
fn recovery_restarts_the_keepalive() {
    let mut pump = Pump::new(OPTIONS, 0);
    let mut polls = 0;
    let end = drive(&mut pump, 500, |phase| match phase {
        Phase::CheckConsole => Some(PumpEvent::Console(0, None)),
        Phase::Poll => {
            polls += 1;
            if polls == 2 {
                None
            } else {
                Some(PumpEvent::Polled(Ready {
                    network_down: true,
                    ..QUIET
                }))
            }
        }
        Phase::ReadPacket => Some(PumpEvent::ReadFailed(ConnError::Io("reset".into()))),
        Phase::TakeOutbound => Some(PumpEvent::Outbound(false)),
        Phase::Recover(_) => Some(PumpEvent::Recovered),
        Phase::ReadInput | Phase::SendInput => Some(PumpEvent::Input(1)),
        other => panic!("{other:?}"),
    });
    assert!(end.is_none());
    assert_eq!(pump.last_received, 500);
    assert_eq!(pump.next_keepalive, 1500);
}

#[test]
fn console_failures_end_the_session() {
    let mut pump = Pump::new(OPTIONS, 0);
    let end = pump.advance(PumpEvent::Console(0, Some("broken pipe".into())), 0);
    assert!(matches!(
        end,
        Some(PumpEnd::Failed(ClientError::Terminal(_)))
    ));
    assert_eq!(Pump::new(OPTIONS, 0).poll_timeout(0), POLL_CAP_MILLIS);
}

#[test]
fn a_wakeup_that_cannot_be_drained_ends_the_session() {
    let mut pump = Pump::new(OPTIONS, 0);
    pump.phase = Phase::Poll;
    match pump.advance(PumpEvent::DrainFailed("closed".into()), 1) {
        Some(PumpEnd::Failed(error)) => {
            assert_eq!(error.message(), "draining resize wakeup: closed")
        }
        other => panic!("{other:?}"),
    }
}

#[test]
fn close_on_hangup_sends_terminal_close_and_exits_the_loop() {
    let options = PumpOptions {
        read_stdin: false,
        keepalive_seconds: 5,
        terminal_enabled: false,
        auto_cursor_report: false,
    };
    let pump = Pump::new(options, 0);
    let mut hangup = HangupClose::disabled();
    hangup.request();
    // The loop looks at its start, where it has not yet read or written.
    assert_eq!(pump.phase, Phase::CheckConsole);
    assert_eq!(
        take_hangup_close(true, &mut hangup),
        HangupStep::Leave { send_close: true }
    );
    assert!(hangup.completed());
}

/// Shows a retained packet on a console, as the end of a session does.
fn retain(queue: &mut ConsoleQueue, bytes: Vec<u8>) -> Result<Option<Vec<u8>>, ClientError> {
    let message = ServerMessage::Buffer(Some(bytes.clone()));
    match route_server_packet(PacketKind::TerminalBuffer, message, true)? {
        Display::Nothing => Ok(None),
        Display::Show { bytes: shown, .. } => {
            match queue.try_write(FlowControlMode::Backpressure, &shown, 0) {
                Ok(true) => Ok(None),
                Ok(false) => Ok(Some(bytes)),
                Err(error) => Err(terminal_io("writing terminal output", &error.message())),
            }
        }
    }
}

#[test]
fn remote_completion_bounds_a_retained_packet_behind_stalled_output() {
    let mut queue = ConsoleQueue::new();
    let mode = FlowControlMode::Backpressure;
    assert!(queue.try_write(mode, &vec![1; 64 * 1024], 0).unwrap());
    let mut writer = Writer::new();
    writer.advance(&mut queue, WriterEvent::Woken);
    assert_eq!(writer.phase, WriterPhase::Write);
    assert_eq!(writer.rest().len(), 64 * 1024);
    assert!(queue.try_write(mode, &vec![2; 64 * 1024], 0).unwrap());

    let mut retained = RetainedCompletion::new(Some(b"retained".to_vec()), None);
    let progress = queue.worker_progress();
    let mut cancelled = false;
    for waited in 0..4 {
        let finished = retained
            .advance(|packet| retain(&mut queue, packet), |packet| Ok(Some(packet)))
            .unwrap();
        let step = finish_remote_completion(CompletionLook {
            finished,
            terminal_pending: retained.terminal_pending(),
            progressed: queue.worker_progress() != progress,
            expired: waited >= 2,
            outbound: false,
        });
        if step == CompletionStep::Cancel {
            cancelled = true;
            break;
        }
        assert_eq!(step, CompletionStep::Wait);
    }
    assert!(cancelled, "retained output kept remote completion blocked");
    assert!(classify_forward_completion(false, false).is_ok());
}

#[test]
fn remote_completion_attempts_retained_output_before_draining() {
    let mut queue = ConsoleQueue::new();
    let mut retained = RetainedCompletion::new(Some(vec![b'x'; 64 * 1024 + 1]), None);
    let error = retained
        .advance(|packet| retain(&mut queue, packet), |packet| Ok(Some(packet)))
        .unwrap_err();

    assert!(
        error
            .message()
            .contains("terminal output packet exceeds console queue capacity"),
        "unexpected error: {}",
        error.message()
    );
}

#[test]
fn unavailable_live_terminal_size_keeps_the_pump_alive() {
    let options = PumpOptions {
        read_stdin: false,
        keepalive_seconds: 1,
        terminal_enabled: true,
        auto_cursor_report: false,
    };
    let mut pump = Pump::new(options, 0);
    let mut queries = 0;
    let mut keepalives = 0;
    let mut ended = 0;
    let mut now = 0;
    let mut resized = false;
    let end = loop {
        let event = match pump.phase {
            Phase::CheckConsole => PumpEvent::Console(0, None),
            Phase::Poll => {
                now += pump.poll_timeout(now);
                let ready = Ready {
                    resize: !resized,
                    network_down: keepalives == 1,
                    ..QUIET
                };
                resized = true;
                PumpEvent::Polled(ready)
            }
            Phase::SendSize => {
                queries += 1;
                assert!(terminal_size_message(true, None).is_none());
                PumpEvent::Write(WriteResult::Written)
            }
            Phase::ReadPacket => PumpEvent::NoPacket,
            Phase::SendKeepAlive => {
                keepalives += 1;
                PumpEvent::Write(WriteResult::Written)
            }
            Phase::Recover(_) => {
                ended += 1;
                PumpEvent::SessionEnded
            }
            other => panic!("unexpected phase {other:?}"),
        };
        if let Some(end) = pump.advance(event, now) {
            break end;
        }
    };
    assert!(matches!(end, PumpEnd::RemoteSessionEnded));
    // A keepalive, and no size made up, shows that the pump went on.
    assert_eq!(queries, 1);
    assert_eq!(keepalives, 1);
    assert_eq!(ended, 1);
}

#[test]
fn failures_of_the_session_keep_what_they_are() {
    let mut pump = Pump::new(OPTIONS, 0);
    pump.phase = Phase::Recover(AfterRecovery::Top);
    let end = pump.advance(
        PumpEvent::RecoverFailed(ClientError::Unsupported("recovery")),
        1,
    );
    assert!(matches!(
        end,
        Some(PumpEnd::Failed(ClientError::Unsupported("recovery")))
    ));
    pump.phase = Phase::Show;
    let end = pump.advance(PumpEvent::ShowFailed(ClientError::InvalidPasskey), 1);
    assert!(matches!(
        end,
        Some(PumpEnd::Failed(ClientError::InvalidPasskey))
    ));
}
