use et::terminal_protocol::{
    handle_packet, local_packet_effect, openssh_exit_code, read_initialization, read_ready_packet,
    terminal_size, valid_environment_name, valid_environment_value, FlowControlMode, LocalMessage,
    LocalPacketEffect, PacketAction, PacketKind, ReadOutcome, ReadStep, TermInit, TerminalInfo,
    TerminalPacketError, MAX_ENVIRONMENT, MAX_ENV_VALUE,
};

fn info(row: Option<i32>, column: Option<i32>) -> TerminalInfo {
    TerminalInfo {
        row,
        column,
        width: None,
        height: None,
    }
}

fn init(names: &[&str], values: &[&str]) -> TermInit {
    TermInit {
        environmentnames: names.iter().map(|name| name.to_string()).collect(),
        environmentvalues: values.iter().map(|value| value.to_string()).collect(),
        flowcontrol: None,
        no_pty: None,
        command: None,
        no_shell: None,
    }
}

#[test]
fn resize_accepts_zero_and_truncates_like_upstream_winsize() {
    let zero = terminal_size(&info(Some(0), Some(0)));
    assert_eq!((zero.rows, zero.cols), (0, 0));
    assert_eq!((zero.pixel_width, zero.pixel_height), (0, 0));

    let truncated = terminal_size(&TerminalInfo {
        row: Some(65536 + 24),
        column: Some(-1),
        width: Some(70_000),
        height: None,
    });
    assert_eq!(truncated.rows, 24);
    assert_eq!(truncated.cols, 65535);
    assert_eq!(truncated.pixel_width, (70_000u32 & 0xFFFF) as u16);
    assert_eq!(truncated.pixel_height, 0);
}

#[test]
fn resize_accepts_upstream_terminal_geometry() {
    let size = terminal_size(&TerminalInfo {
        row: Some(40),
        column: Some(100),
        width: Some(800),
        height: Some(600),
    });
    assert_eq!(size.rows, 40);
    assert_eq!(size.cols, 100);
    assert_eq!(size.pixel_width, 800);
    assert_eq!(size.pixel_height, 600);
}

#[test]
fn initialization_rejects_wrong_type_malformed_and_invalid_environment() {
    assert!(read_initialization(false, PacketKind::TerminalBuffer, None).is_err());
    assert!(read_initialization(false, PacketKind::TerminalInit, None).is_err());
    let large = "x".repeat(MAX_ENV_VALUE + 1);
    for message in [
        init(&["A"], &[]),
        init(&["BAD-NAME"], &["value"]),
        init(&["VALID"], &["bad\0value"]),
        init(&["VALID"], &[&large]),
    ] {
        assert!(read_initialization(false, PacketKind::TerminalInit, Some(message)).is_err());
    }
}

#[test]
fn terminal_close_is_a_clean_effect_and_unknown_types_stay_errors() {
    assert_eq!(
        local_packet_effect(false, PacketKind::TerminalClose).unwrap(),
        LocalPacketEffect::Close
    );
    assert_eq!(
        local_packet_effect(false, PacketKind::TerminalBuffer).unwrap(),
        LocalPacketEffect::Continue
    );
    let error = local_packet_effect(false, PacketKind::Other(4)).unwrap_err();
    assert!(error.contains("unsupported"));
    assert!(local_packet_effect(true, PacketKind::TerminalClose).is_err());
}

#[test]
fn initialization_retains_the_typed_flow_control_mode() {
    let mut message = init(&[], &[]);
    message.flowcontrol = Some(FlowControlMode::Discard);
    let initialization =
        read_initialization(false, PacketKind::TerminalInit, Some(message)).unwrap();
    assert_eq!(initialization.flow_control, FlowControlMode::Discard);
    assert!(!initialization.no_shell);
}

#[test]
fn openssh_exit_code_prefers_exit_status_then_signal() {
    assert_eq!(openssh_exit_code(Some(0), None), 0);
    assert_eq!(openssh_exit_code(Some(2), Some(15)), 2);
    assert_eq!(openssh_exit_code(None, Some(15)), 143);
    assert_eq!(openssh_exit_code(None, None), 0);
}

#[test]
fn no_shell_and_no_pty_together_are_rejected() {
    let mut message = init(&[], &[]);
    message.no_pty = Some(true);
    message.command = Some("true".to_owned());
    message.no_shell = Some(true);
    let error = read_initialization(false, PacketKind::TerminalInit, Some(message)).unwrap_err();
    assert!(error.contains("no_pty and no_shell"));
}

#[test]
fn initialization_keeps_the_environment_in_order() {
    let message = init(&["B", "A"], &["1", "2"]);
    let initialization =
        read_initialization(false, PacketKind::TerminalInit, Some(message)).unwrap();
    assert_eq!(
        initialization.environment,
        [("B".into(), "1".into()), ("A".into(), "2".into())]
    );
    assert_eq!(initialization.flow_control, FlowControlMode::Off);
    assert!(
        read_initialization(true, PacketKind::TerminalInit, Some(init(&[], &[]))).is_err()
    );
    let names: Vec<String> = (0..MAX_ENVIRONMENT + 1).map(|i| format!("V{i}")).collect();
    let names: Vec<&str> = names.iter().map(String::as_str).collect();
    let values = vec![""; names.len()];
    assert!(read_initialization(
        false,
        PacketKind::TerminalInit,
        Some(init(&names, &values))
    )
    .is_err());
}

#[test]
fn environment_names_and_values_are_checked() {
    assert!(valid_environment_name("_A1"));
    for name in ["", "1A", "A-B", "é"] {
        assert!(!valid_environment_name(name), "{name}");
    }
    assert!(valid_environment_value(&"x".repeat(MAX_ENV_VALUE)));
    assert!(!valid_environment_value("a\0b"));
}

#[test]
fn packets_write_resize_or_close() {
    match handle_packet(
        false,
        PacketKind::TerminalBuffer,
        LocalMessage::Buffer(Some(b"ls\n".to_vec())),
    )
    .unwrap()
    {
        PacketAction::Write(bytes) => assert_eq!(bytes, b"ls\n"),
        other => panic!("{other:?}"),
    }
    match handle_packet(
        false,
        PacketKind::TerminalInfo,
        LocalMessage::Info(info(Some(3), Some(4))),
    )
    .unwrap()
    {
        PacketAction::Resize(size) => assert_eq!((size.rows, size.cols), (3, 4)),
        other => panic!("{other:?}"),
    }
    assert!(matches!(
        handle_packet(false, PacketKind::TerminalClose, LocalMessage::Empty),
        Ok(PacketAction::Close)
    ));
    assert!(matches!(
        handle_packet(false, PacketKind::TerminalBuffer, LocalMessage::Malformed),
        Err(TerminalPacketError::Protocol(_))
    ));
    assert!(!TerminalPacketError::Protocol("bad packet").message().is_empty());
}

#[test]
fn reads_are_retried_only_when_interrupted() {
    assert!(matches!(
        read_ready_packet(ReadOutcome::Count(3)),
        ReadStep::Feed(3)
    ));
    assert!(matches!(
        read_ready_packet(ReadOutcome::WouldBlock),
        ReadStep::Pause
    ));
    assert!(matches!(
        read_ready_packet(ReadOutcome::Interrupted),
        ReadStep::Retry
    ));
    assert!(matches!(
        read_ready_packet(ReadOutcome::Failed("reset".into())),
        ReadStep::Stop(_)
    ));
    assert!(matches!(
        read_ready_packet(ReadOutcome::Count(0)),
        ReadStep::Stop(_)
    ));
}
