use std::cell::RefCell;

use et::client_terminal::{
    classify_forward_completion, command_payload, connection_ended, display_packet, farewell,
    finish_remote_completion, next_opening, plan_session, recover_initial_transport,
    recover_transport, route_server_packet, terminal_io, terminal_size_message,
    write_owned_with_policy, CompletionLook, CompletionStep, Display, Opening, OwnedWritePolicy,
    OwnedWriteStep, Recovery, RecoveryAction, RecoveryEvent, RemoteLines, RemoteShellKind,
    RetainedCompletion, ServerMessage, TerminalOptions, WritePacketError, MAX_COMMAND,
};
use et::error::{ClientError, ConnError};
use et::initial_connect::ReconnectOutcome;
use et::terminal_modes::{
    contains_cursor_report_request, TerminalModeState, TerminalReset,
    GRACEFUL_TERMINAL_MODE_RESET, TERMINAL_MODE_RESET,
};
use et::terminal_protocol::{FlowControlMode, PacketKind};

fn options(command: Option<&str>) -> TerminalOptions<'_> {
    TerminalOptions {
        command,
        no_exit: false,
        keepalive: 1,
        flow_control: FlowControlMode::Backpressure,
        terminal_enabled: true,
        lines: RemoteLines::Posix,
        connection_name: "test",
        close_on_hangup: false,
    }
}

fn reset() -> ConnError {
    ConnError::Io("connection reset".into())
}

/// Writes a packet, recovering with `recover`, the way the session does.
fn write_owned(
    policy: OwnedWritePolicy,
    mut write: impl FnMut() -> Result<(), WritePacketError>,
    mut recover: impl FnMut() -> bool,
) -> Result<bool, ClientError> {
    match write_owned_with_policy(write(), policy) {
        OwnedWriteStep::Written => Ok(true),
        OwnedWriteStep::Fail(error) => Err(error),
        OwnedWriteStep::Recover { again } => {
            let mut alive = recover();
            if again && alive {
                match write_owned_with_policy(write(), policy) {
                    OwnedWriteStep::Written => {}
                    OwnedWriteStep::Fail(error) => return Err(error),
                    OwnedWriteStep::Recover { .. } => alive = recover(),
                }
            }
            Ok(alive)
        }
    }
}

#[test]
fn terminal_size_failure_is_no_observation_and_later_sizes_remain_exact() {
    assert!(terminal_size_message(false, Some((1, 1))).is_none());
    for dimensions in [(113, 37), (91, 52)] {
        let info = terminal_size_message(true, Some(dimensions)).unwrap();
        assert_eq!(info.column, Some(i32::from(dimensions.0)));
        assert_eq!(info.row, Some(i32::from(dimensions.1)));
        assert_eq!((info.width, info.height), (Some(0), Some(0)));
        assert!(terminal_size_message(true, None).is_none());
    }
}

#[test]
fn unavailable_initial_terminal_size_does_not_skip_command_validation() {
    let options = options(Some("bad\0command"));
    assert_eq!(next_opening(&options, None), Opening::SendSize);
    assert!(terminal_size_message(true, None).is_none());
    assert_eq!(
        next_opening(&options, Some(Opening::SendSize)),
        Opening::SendCommand
    );
    let result = command_payload(options.command.unwrap(), options.no_exit, options.lines);
    assert!(
        matches!(result, Err(ClientError::Terminal(message)) if message == "remote command is invalid or too large")
    );
}

#[test]
fn unavailable_post_recovery_terminal_size_preserves_the_recovered_transport() {
    assert!(matches!(
        recover_transport(RecoveryEvent::Begin, true),
        RecoveryAction::Reconnect
    ));
    assert!(matches!(
        recover_transport(
            RecoveryEvent::Reconnected(Ok(ReconnectOutcome::Recovered)),
            true
        ),
        RecoveryAction::SendSize
    ));
    // A size that could not be read is not sent, which is no failure.
    assert!(matches!(
        recover_transport(RecoveryEvent::SizeSent(Ok(())), true),
        RecoveryAction::Done(true)
    ));
    let failed = recover_transport(
        RecoveryEvent::Reconnected(Err(ClientError::Terminal("reconnect failed".into()))),
        true,
    );
    assert!(
        matches!(failed, RecoveryAction::Fail(ClientError::Terminal(message)) if message == "reconnect failed")
    );
}

#[test]
fn outbound_forwarding_prevents_successful_remote_completion() {
    assert!(classify_forward_completion(true, false).is_err());
    assert!(classify_forward_completion(false, true).is_err());
    assert!(classify_forward_completion(false, false).is_ok());
}

#[test]
fn retained_completion_waits_for_terminal_and_forward_capacity() {
    let mut completion = RetainedCompletion::new(Some("terminal"), Some("forwarding"));
    let attempts = RefCell::new(Vec::new());
    assert!(completion.terminal_pending());
    let done = completion
        .advance(
            |packet| {
                attempts.borrow_mut().push(packet);
                Ok(Some(packet))
            },
            |packet| {
                attempts.borrow_mut().push(packet);
                Ok(Some(packet))
            },
        )
        .unwrap();
    assert!(!done);
    assert_eq!(*attempts.borrow(), ["terminal", "forwarding"]);

    attempts.borrow_mut().clear();
    let done = completion
        .advance(
            |packet| {
                attempts.borrow_mut().push(packet);
                Ok(None)
            },
            |packet| {
                attempts.borrow_mut().push(packet);
                Ok(None)
            },
        )
        .unwrap();
    assert!(done);
    assert_eq!(*attempts.borrow(), ["terminal", "forwarding"]);
}

#[test]
fn retained_completion_stops_at_the_first_failure() {
    let mut completion = RetainedCompletion::new(Some(1), Some(2));
    let result = completion.advance(
        |_| Err(ClientError::Terminal("closed".into())),
        |_| panic!("forwarding must wait for the terminal"),
    );
    assert!(matches!(result, Err(ClientError::Terminal(_))));
    assert_eq!(completion.forwarding, Some(2));
}

#[test]
fn replaceable_terminal_size_never_retries_stale_payload_after_recovery() {
    let sent = RefCell::new(Vec::new());
    let sizes = [(24, 80), (50, 160)];
    let alive = write_owned(
        OwnedWritePolicy::ReplaceableTerminalSize,
        || {
            sent.borrow_mut().push(("initial", sizes[0]));
            Err(WritePacketError::BeforeReplay(reset()))
        },
        || {
            sent.borrow_mut().push(("recovery", sizes[1]));
            true
        },
    )
    .unwrap();
    assert!(alive);
    assert_eq!(
        sent.into_inner(),
        vec![("initial", sizes[0]), ("recovery", sizes[1])]
    );
}

#[test]
fn command_exit_suffix_matches_no_exit_flag_and_remote_shell() {
    for (lines, no_exit, expected) in [
        (RemoteLines::Posix, false, b"printf ok; exit\n".as_slice()),
        (RemoteLines::Posix, true, b"printf ok\n".as_slice()),
        (RemoteLines::Cmd, false, b"printf ok & exit\r\n".as_slice()),
        (RemoteLines::Cmd, true, b"printf ok\r\n".as_slice()),
        (
            RemoteLines::Powershell,
            false,
            b"printf ok; exit\r\n".as_slice(),
        ),
    ] {
        assert_eq!(command_payload("printf ok", no_exit, lines).unwrap(), expected);
    }
    assert!(command_payload(&"x".repeat(MAX_COMMAND), true, RemoteLines::Posix).is_ok());
    assert!(command_payload(&"x".repeat(MAX_COMMAND + 1), true, RemoteLines::Posix).is_err());
}

#[test]
fn before_replay_client_write_retries_plaintext_once_after_recovery() {
    let mut writes = 0;
    let mut recoveries = 0;
    let alive = write_owned(
        OwnedWritePolicy::RetryAfterRecovery,
        || {
            writes += 1;
            if writes == 1 {
                Err(WritePacketError::BeforeReplay(reset()))
            } else {
                Ok(())
            }
        },
        || {
            recoveries += 1;
            true
        },
    )
    .unwrap();
    assert!(alive);
    assert_eq!((writes, recoveries), (2, 1));
}

#[test]
fn replay_owned_client_write_recovers_without_plaintext_retry() {
    let mut writes = 0;
    let mut recoveries = 0;
    let alive = write_owned(
        OwnedWritePolicy::RetryAfterRecovery,
        || {
            writes += 1;
            Err(WritePacketError::ReplayOwned(reset()))
        },
        || {
            recoveries += 1;
            true
        },
    )
    .unwrap();
    assert!(alive);
    assert_eq!((writes, recoveries), (1, 1));
}

#[test]
fn full_replay_buffers_fail_the_write() {
    assert!(matches!(
        write_owned_with_policy(
            Err(WritePacketError::BeforeReplay(ConnError::Backpressure)),
            OwnedWritePolicy::RetryAfterRecovery
        ),
        OwnedWriteStep::Fail(ClientError::Terminal(_))
    ));
}

#[test]
fn every_socket_error_reconnects_including_sleep_timeout() {
    for kind in [
        "unexpected end of file",
        "connection reset",
        "timed out",
        "host unreachable",
        "network unreachable",
    ] {
        assert!(connection_ended(&ConnError::Io(kind.into())), "{kind:?}");
    }
    assert!(!connection_ended(&ConnError::Backpressure));
}

#[test]
fn initial_socket_timeout_enters_recovery_instead_of_exiting() {
    let step = recover_initial_transport(Err(ClientError::Transport(ConnError::Io(
        "timed out".into(),
    ))));
    assert!(matches!(step, Recovery::Recover));
    assert!(matches!(
        recover_transport(
            RecoveryEvent::Reconnected(Ok(ReconnectOutcome::SessionEnded)),
            true
        ),
        RecoveryAction::Done(false)
    ));
    assert!(matches!(
        recover_initial_transport(Ok(())),
        Recovery::Ready
    ));
    assert!(matches!(
        recover_initial_transport(Err(ClientError::InvalidPasskey)),
        Recovery::Fail(ClientError::InvalidPasskey)
    ));
}

#[test]
fn recovery_rechecks_terminal_setup_before_returning_to_the_pump() {
    assert!(matches!(
        recover_transport(
            RecoveryEvent::Reconnected(Ok(ReconnectOutcome::Recovered)),
            true
        ),
        RecoveryAction::SendSize
    ));
    assert!(matches!(
        recover_transport(
            RecoveryEvent::Reconnected(Ok(ReconnectOutcome::Recovered)),
            false
        ),
        RecoveryAction::Done(true)
    ));
    assert!(matches!(
        recover_transport(RecoveryEvent::SizeSent(Ok(())), true),
        RecoveryAction::Done(true)
    ));
}

#[test]
fn abrupt_terminal_mode_reset_leaves_the_alternate_screen() {
    assert!(TERMINAL_MODE_RESET
        .as_bytes()
        .windows(b"\x1b[?1049l".len())
        .any(|window| window == b"\x1b[?1049l"));
}

#[test]
fn graceful_terminal_mode_reset_keeps_the_main_screen() {
    assert!(!GRACEFUL_TERMINAL_MODE_RESET
        .as_bytes()
        .windows(b"\x1b[?1049l".len())
        .any(|window| window == b"\x1b[?1049l"));
    for sequence in [
        b"\x1b[<64u".as_slice(),
        b"\x1b[=0;1u".as_slice(),
        b"\x1b[>4;0m".as_slice(),
        b"\x1b[?2004l".as_slice(),
        b"\x1b[?1004l".as_slice(),
        b"\x1b[?1000l".as_slice(),
        b"\x1b[?1002l".as_slice(),
        b"\x1b[?1003l".as_slice(),
        b"\x1b[?1006l".as_slice(),
        b"\x1b[?25h".as_slice(),
    ] {
        assert!(GRACEFUL_TERMINAL_MODE_RESET
            .as_bytes()
            .windows(sequence.len())
            .any(|window| window == sequence));
    }
}

#[test]
fn observed_alternate_screen_selects_graceful_or_abrupt_reset() {
    assert_eq!(
        TerminalReset::for_alternate_screen(false),
        TerminalReset::KeepCurrentScreen
    );
    assert_eq!(
        TerminalReset::for_alternate_screen(true),
        TerminalReset::LeaveAlternate
    );
    assert_eq!(
        TerminalReset::LeaveAlternate.bytes(),
        TERMINAL_MODE_RESET.as_bytes()
    );
    assert_eq!(
        TerminalReset::KeepCurrentScreen.bytes(),
        GRACEFUL_TERMINAL_MODE_RESET.as_bytes()
    );
}

#[test]
fn alternate_screen_tracking_handles_split_enter_and_leave_sequences() {
    let mut modes = TerminalModeState::default();
    modes.observe(b"before\x1b[?10");
    assert!(!modes.alternate_screen());
    modes.observe(b"49hinside");
    assert!(modes.alternate_screen());
    modes.observe(b"\x1b[?104");
    assert!(modes.alternate_screen());
    modes.observe(b"9lafter");
    assert!(!modes.alternate_screen());
}

#[test]
fn cursor_report_requests_are_found_anywhere() {
    assert!(contains_cursor_report_request(b"text\x1b[6nmore"));
    assert!(!contains_cursor_report_request(b"text\x1b[6"));
}

#[test]
fn sessions_are_planned_from_their_terminals() {
    let plan = plan_session(&options(None), true, true);
    assert!(plan.raw && plan.announce_close && plan.read_stdin && !plan.auto_cursor_report);
    assert_eq!(
        farewell(&plan, "host", true).as_deref(),
        Some("Connection to host closed.")
    );
    assert_eq!(farewell(&plan, "host", false), None);
    let plan = plan_session(&options(Some("ls")), false, true);
    assert!(!plan.raw && !plan.announce_close && !plan.read_stdin && plan.auto_cursor_report);
    assert_eq!(RemoteLines::from(RemoteShellKind::Cmd), RemoteLines::Cmd);
    assert_eq!(RemoteLines::default(), RemoteLines::Posix);
}

#[test]
fn server_packets_are_shown_or_ignored() {
    match display_packet(
        PacketKind::TerminalBuffer,
        ServerMessage::Buffer(Some(b"hi\x1b[6n".to_vec())),
    )
    .unwrap()
    {
        Display::Show {
            bytes,
            cursor_report,
        } => {
            assert_eq!(bytes, b"hi\x1b[6n");
            assert!(cursor_report);
        }
        Display::Nothing => panic!("output must be shown"),
    }
    assert!(matches!(
        route_server_packet(PacketKind::KeepAlive, ServerMessage::Opaque, true),
        Ok(Display::Nothing)
    ));
    assert!(matches!(
        display_packet(
            PacketKind::TerminalBuffer,
            ServerMessage::Malformed("bad".into())
        ),
        Err(ClientError::Terminal(_))
    ));
    assert!(matches!(
        route_server_packet(
            PacketKind::TerminalBuffer,
            ServerMessage::Buffer(None),
            false
        ),
        Ok(Display::Nothing)
    ));
    assert!(route_server_packet(PacketKind::TerminalInfo, ServerMessage::Opaque, false).is_err());
    assert!(display_packet(PacketKind::TerminalInfo, ServerMessage::Opaque).is_err());
}

#[test]
fn remote_completion_gives_up_only_on_a_stall() {
    let look = CompletionLook {
        finished: false,
        terminal_pending: true,
        progressed: false,
        expired: true,
        outbound: false,
    };
    assert_eq!(finish_remote_completion(look), CompletionStep::Cancel);
    assert_eq!(
        finish_remote_completion(CompletionLook {
            finished: true,
            ..look
        }),
        CompletionStep::Drain
    );
    assert_eq!(
        finish_remote_completion(CompletionLook {
            progressed: true,
            ..look
        }),
        CompletionStep::Restart
    );
    assert_eq!(
        finish_remote_completion(CompletionLook {
            expired: false,
            outbound: true,
            ..look
        }),
        CompletionStep::Abandon
    );
    assert_eq!(
        finish_remote_completion(CompletionLook {
            expired: false,
            ..look
        }),
        CompletionStep::Wait
    );
}

#[test]
fn terminal_failures_name_the_operation() {
    match terminal_io("writing output", "broken pipe") {
        ClientError::Terminal(message) => {
            assert_eq!(message, "writing output: broken pipe")
        }
        other => panic!("{other:?}"),
    }
}
