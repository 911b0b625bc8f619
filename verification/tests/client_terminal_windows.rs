use et::client_terminal_loop::PumpOptions;
use et::client_terminal_windows::{
    AfterReport, ConsoleEnd, ConsoleEvent, ConsolePhase, ConsolePump, OwnedWriteOutcome,
    POLL_INTERVAL_MILLIS,
};
use et::error::{ClientError, ConnError};
use et::key_input::{KeyCode, KeyEvent, KeyEventKind};
use et::terminal_protocol::PacketKind;

const OPTIONS: PumpOptions = PumpOptions {
    read_stdin: true,
    keepalive_seconds: 5,
    terminal_enabled: true,
    auto_cursor_report: true,
};

const KEY: KeyEvent = KeyEvent {
    code: KeyCode::Char('x'),
    control: false,
    alt: false,
    kind: KeyEventKind::Press,
};

fn step(pump: &mut ConsolePump, event: ConsoleEvent, now: u64) {
    let end = pump.advance(event, now);
    assert!(end.is_none(), "{end:?}");
}

fn words(end: Option<ConsoleEnd>) -> String {
    match end {
        Some(ConsoleEnd::Failed(error)) => error.message(),
        other => panic!("{other:?}"),
    }
}

/// A loop whose console was looked at and has nothing.
fn reading(now: u64) -> ConsolePump {
    let mut pump = ConsolePump::new(OPTIONS, 0);
    step(&mut pump, ConsoleEvent::Console(0, None), now);
    step(&mut pump, ConsoleEvent::InputReady(false), now);
    assert_eq!(pump.phase, ConsolePhase::ReadPacket);
    pump
}

#[test]
fn turns_take_keys_then_packets_then_forwarding() {
    assert_eq!(POLL_INTERVAL_MILLIS, 10);
    let mut pump = ConsolePump::new(OPTIONS, 0);
    step(&mut pump, ConsoleEvent::Console(0, None), 1);
    step(&mut pump, ConsoleEvent::InputReady(true), 1);
    step(&mut pump, ConsoleEvent::Key(KEY), 1);
    assert_eq!(pump.phase, ConsolePhase::SendKey(KEY));
    step(&mut pump, ConsoleEvent::Write(OwnedWriteOutcome::Written), 1);
    step(&mut pump, ConsoleEvent::InputReady(true), 1);
    step(&mut pump, ConsoleEvent::Resize, 1);
    step(&mut pump, ConsoleEvent::Size(true), 1);
    assert_eq!(pump.phase, ConsolePhase::SendSize);
    step(&mut pump, ConsoleEvent::Write(OwnedWriteOutcome::Written), 1);
    step(&mut pump, ConsoleEvent::InputReady(false), 1);
    step(&mut pump, ConsoleEvent::Packet(PacketKind::TerminalBuffer), 1);
    assert_eq!(pump.phase, ConsolePhase::Show);
    step(&mut pump, ConsoleEvent::Taken, 1);
    step(&mut pump, ConsoleEvent::Packet(PacketKind::PortForwardData), 1);
    assert_eq!(pump.phase, ConsolePhase::Forward);
    step(&mut pump, ConsoleEvent::Taken, 1);
    step(&mut pump, ConsoleEvent::NoPacket, 1);
    step(&mut pump, ConsoleEvent::Outbound(true), 1);
    assert_eq!(pump.phase, ConsolePhase::WriteOutbound);
    step(&mut pump, ConsoleEvent::Write(OwnedWriteOutcome::Written), 1);
    step(&mut pump, ConsoleEvent::Outbound(false), 1);
    assert_eq!(pump.phase, ConsolePhase::Idle);
    step(&mut pump, ConsoleEvent::Waited, 11);
    assert_eq!(pump.phase, ConsolePhase::CheckConsole);
}

#[test]
fn releases_and_unknown_sizes_send_nothing() {
    let mut pump = ConsolePump::new(OPTIONS, 0);
    step(&mut pump, ConsoleEvent::Console(0, None), 1);
    step(&mut pump, ConsoleEvent::InputReady(true), 1);
    let release = KeyEvent {
        kind: KeyEventKind::Release,
        ..KEY
    };
    step(&mut pump, ConsoleEvent::Key(release), 1);
    assert_eq!(pump.phase, ConsolePhase::PollInput);
    step(&mut pump, ConsoleEvent::InputReady(true), 1);
    step(&mut pump, ConsoleEvent::Resize, 1);
    step(&mut pump, ConsoleEvent::Size(false), 1);
    assert_eq!(pump.phase, ConsolePhase::PollInput);
    step(&mut pump, ConsoleEvent::InputReady(true), 1);
    step(&mut pump, ConsoleEvent::OtherInput, 1);
    assert_eq!(pump.phase, ConsolePhase::PollInput);
}

#[test]
fn held_packets_stop_reading_until_they_are_taken() {
    let mut pump = reading(1);
    step(&mut pump, ConsoleEvent::Packet(PacketKind::TerminalBuffer), 1);
    step(&mut pump, ConsoleEvent::Held, 1);
    assert!(pump.output_held);
    assert_eq!(pump.phase, ConsolePhase::TakeOutbound);
    step(&mut pump, ConsoleEvent::Outbound(false), 1);
    step(&mut pump, ConsoleEvent::Waited, 2);
    step(&mut pump, ConsoleEvent::Console(0, None), 2);
    assert_eq!(pump.phase, ConsolePhase::RetryOutput);
    step(&mut pump, ConsoleEvent::Held, 2);
    step(&mut pump, ConsoleEvent::InputReady(false), 2);
    assert_eq!(pump.phase, ConsolePhase::TakeOutbound);
    // Held output is no silence, however long it lasts.
    step(&mut pump, ConsoleEvent::Outbound(false), 1_000_000);
    assert_eq!(pump.phase, ConsolePhase::SendKeepAlive);
    step(
        &mut pump,
        ConsoleEvent::Write(OwnedWriteOutcome::Written),
        1_000_000,
    );
    step(&mut pump, ConsoleEvent::Waited, 1_000_001);
    step(&mut pump, ConsoleEvent::Console(0, None), 1_000_001);
    step(&mut pump, ConsoleEvent::ShownWithReport, 1_000_001);
    assert!(!pump.output_held);
    assert_eq!(pump.phase, ConsolePhase::SendReport(1, AfterReport::Input));
}

#[test]
fn cursor_reports_are_sent_one_by_one() {
    let mut pump = ConsolePump::new(OPTIONS, 0);
    step(&mut pump, ConsoleEvent::Console(2, None), 1);
    assert_eq!(pump.phase, ConsolePhase::SendReport(2, AfterReport::Held));
    step(&mut pump, ConsoleEvent::Write(OwnedWriteOutcome::Written), 1);
    assert_eq!(pump.phase, ConsolePhase::SendReport(1, AfterReport::Held));
    step(&mut pump, ConsoleEvent::Write(OwnedWriteOutcome::Recovered), 1);
    assert_eq!(pump.phase, ConsolePhase::PollInput);
    let quiet = PumpOptions {
        auto_cursor_report: false,
        ..OPTIONS
    };
    let mut pump = ConsolePump::new(quiet, 0);
    step(&mut pump, ConsoleEvent::Console(2, None), 1);
    assert_eq!(pump.phase, ConsolePhase::PollInput);
}

#[test]
fn broken_connections_are_recovered_and_restart_the_clocks() {
    let mut pump = reading(1);
    step(
        &mut pump,
        ConsoleEvent::ReadFailed(ConnError::Io("reset".into())),
        1,
    );
    assert!(pump.reconnect_needed);
    step(&mut pump, ConsoleEvent::Outbound(false), 1);
    assert_eq!(pump.phase, ConsolePhase::Recover);
    step(&mut pump, ConsoleEvent::Recovered, 700);
    assert_eq!(pump.phase, ConsolePhase::CheckConsole);
    assert!(!pump.reconnect_needed);
    assert_eq!(pump.last_received, 700);
    assert_eq!(pump.next_keepalive, 5700);
}

#[test]
fn silence_is_a_broken_connection() {
    let mut pump = reading(1);
    step(&mut pump, ConsoleEvent::NoPacket, 1);
    step(&mut pump, ConsoleEvent::Outbound(false), 14_999);
    assert_eq!(pump.phase, ConsolePhase::SendKeepAlive);
    let mut pump = reading(1);
    step(&mut pump, ConsoleEvent::NoPacket, 1);
    step(&mut pump, ConsoleEvent::Outbound(false), 15_000);
    assert_eq!(pump.phase, ConsolePhase::Recover);
    assert!(matches!(
        pump.advance(ConsoleEvent::SessionEnded, 15_000),
        Some(ConsoleEnd::RemoteSessionEnded { outbound: false })
    ));
}

#[test]
fn sessions_that_end_under_a_write_leave_its_packet() {
    let mut pump = reading(1);
    step(&mut pump, ConsoleEvent::NoPacket, 1);
    step(&mut pump, ConsoleEvent::Outbound(true), 1);
    assert!(matches!(
        pump.advance(ConsoleEvent::Write(OwnedWriteOutcome::SessionEnded), 1),
        Some(ConsoleEnd::RemoteSessionEnded { outbound: true })
    ));
    assert_eq!(pump.phase, ConsolePhase::Ended);
    step(&mut pump, ConsoleEvent::Waited, 2);
    assert_eq!(pump.phase, ConsolePhase::Ended);
}

#[test]
fn console_failures_name_what_failed() {
    let mut pump = ConsolePump::new(OPTIONS, 0);
    let end = pump.advance(ConsoleEvent::Console(0, Some("gone".into())), 1);
    assert_eq!(words(end), "writing terminal output: gone");
    let mut pump = ConsolePump::new(OPTIONS, 0);
    let end = pump.advance(ConsoleEvent::ReportsUnknown("lost".into()), 1);
    assert_eq!(words(end), "reading console confirmations: lost");
    let mut pump = ConsolePump::new(OPTIONS, 0);
    step(&mut pump, ConsoleEvent::Console(0, None), 1);
    let end = pump.advance(ConsoleEvent::PollFailed("bad".into()), 1);
    assert_eq!(words(end), "polling console input: bad");
    let mut pump = ConsolePump::new(OPTIONS, 0);
    step(&mut pump, ConsoleEvent::Console(0, None), 1);
    step(&mut pump, ConsoleEvent::InputReady(true), 1);
    let end = pump.advance(ConsoleEvent::ReadInputFailed("bad".into()), 1);
    assert_eq!(words(end), "reading console input: bad");
    let mut pump = reading(1);
    let end = pump.advance(
        ConsoleEvent::ReadFailed(ConnError::Protocol("forged".into())),
        1,
    );
    assert_eq!(words(end), "terminal transport: forged");
    let mut pump = reading(1);
    step(&mut pump, ConsoleEvent::NoPacket, 1);
    let end = pump.advance(ConsoleEvent::ForwarderFailed("stuck".into()), 1);
    assert_eq!(words(end), "stuck");
    let mut pump = reading(1);
    step(&mut pump, ConsoleEvent::NoPacket, 1);
    step(&mut pump, ConsoleEvent::Outbound(true), 1);
    let failure = ClientError::Terminal("no way".into());
    let end = pump.advance(ConsoleEvent::Write(OwnedWriteOutcome::Failed(failure)), 1);
    assert_eq!(words(end), "no way");
}

#[test]
fn console_failures_keep_what_they_are() {
    let mut pump = ConsolePump::new(OPTIONS, 0);
    pump.phase = ConsolePhase::Recover;
    let end = pump.advance(
        ConsoleEvent::RecoverFailed(ClientError::Unsupported("recovery")),
        1,
    );
    assert!(matches!(
        end,
        Some(ConsoleEnd::Failed(ClientError::Unsupported("recovery")))
    ));
    pump.phase = ConsolePhase::SendSize;
    let end = pump.advance(
        ConsoleEvent::Write(OwnedWriteOutcome::Failed(ClientError::InvalidPasskey)),
        1,
    );
    assert!(matches!(
        end,
        Some(ConsoleEnd::Failed(ClientError::InvalidPasskey))
    ));
}
