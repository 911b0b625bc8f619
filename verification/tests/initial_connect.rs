use std::time::Duration;

use et::deadline::{time_left, Deadline};
use et::error::{ClientError, ConnError};
use et::forward::ForwardOrigin;
use et::initial_connect::{
    accept_initial_response, accept_reconnect_response, accept_response, connect_endpoint,
    connect_error, ensure_deadline, remaining_time, transport_error, ConnectResponse,
    ConnectStatus, ConnectStep, Endpoint, Handshake, HandshakeEnd, HandshakeEvent, HandshakePhase,
    InitialResponse, ReconnectStatus, MAX_ENDPOINT_ADDRESSES,
};
use et::resolver::{resolve_operation, LookupEvent, MAX_RESOLVED_ADDRESSES};
use et::terminal_protocol::PacketKind;

fn response(status: ConnectStatus, error: Option<&str>) -> ConnectResponse {
    ConnectResponse {
        raw_status: Some(0),
        status: Some(status),
        error: error.map(str::to_owned),
    }
}

fn endpoint() -> Endpoint {
    Endpoint {
        host: "blocked.invalid".into(),
        port: 2022,
    }
}

#[test]
fn fresh_bootstrap_rejects_returning_status() {
    assert!(matches!(
        accept_response(response(ConnectStatus::ReturningClient, None)),
        Err(ClientError::ReturningSessionRequiresRecovery)
    ));
}

#[test]
fn fresh_connections_are_answered_by_their_status() {
    assert!(accept_response(response(ConnectStatus::NewClient, None)).is_ok());
    match accept_response(response(ConnectStatus::InvalidKey, Some("no"))) {
        Err(ClientError::ServerInvalidKey(message)) => assert_eq!(message.as_deref(), Some("no")),
        other => panic!("{other:?}"),
    }
    assert!(matches!(
        accept_response(response(ConnectStatus::MismatchedProtocol, None)),
        Err(ClientError::ProtocolMismatch(None))
    ));
    let unknown = ConnectResponse {
        raw_status: Some(99),
        status: None,
        error: None,
    };
    assert!(matches!(
        accept_response(unknown),
        Err(ClientError::ServerRejected {
            status: Some(99),
            message: None
        })
    ));
}

#[test]
fn config_only_skip_report_continues_but_explicit_report_is_fatal() {
    assert!(accept_initial_response(
        InitialResponse::Skipped(vec![0]),
        &[ForwardOrigin::SshConfig { strict: false }],
    )
    .is_ok());
    for origin in [
        ForwardOrigin::Explicit,
        ForwardOrigin::SshConfig { strict: true },
        ForwardOrigin::Reported(0),
    ] {
        assert!(matches!(
            accept_initial_response(InitialResponse::Skipped(vec![0]), &[origin]),
            Err(ClientError::InitialResponseRejected(message))
                if message == "required reverse forwarding row could not bind"
        ));
    }
}

#[test]
fn old_server_error_and_malformed_reserved_report_fail_closed() {
    assert!(matches!(
        accept_initial_response(
            InitialResponse::Error("port forwarding I/O: address in use".to_owned()),
            &[ForwardOrigin::SshConfig { strict: false }],
        ),
        Err(ClientError::InitialResponseRejected(_))
    ));
    assert!(matches!(
        accept_initial_response(
            InitialResponse::MalformedReport,
            &[ForwardOrigin::SshConfig { strict: false }],
        ),
        Err(ClientError::InitialResponseRejected(message))
            if message == "malformed reverse forwarding skip report"
    ));
    assert!(accept_initial_response(InitialResponse::Accepted, &[]).is_ok());
    assert!(accept_initial_response(InitialResponse::Skipped(vec![7]), &[]).is_err());
}

#[test]
fn reconnect_accepts_only_returning_or_ended_sessions() {
    assert_eq!(
        accept_reconnect_response(response(ConnectStatus::ReturningClient, None)).unwrap(),
        ReconnectStatus::Recover
    );
    assert_eq!(
        accept_reconnect_response(response(ConnectStatus::InvalidKey, None)).unwrap(),
        ReconnectStatus::SessionEnded
    );
    assert!(matches!(
        accept_reconnect_response(response(ConnectStatus::NewClient, None)),
        Err(ClientError::ServerRejected { .. })
    ));
    assert!(matches!(
        accept_reconnect_response(response(ConnectStatus::MismatchedProtocol, Some("wrong"))),
        Err(ClientError::ProtocolMismatch(_))
    ));
}

#[test]
fn dns_operation_obeys_deadline_without_polling() {
    let result: Result<Vec<u8>, ClientError> =
        resolve_operation(&endpoint(), LookupEvent::TimedOut);
    match result {
        Err(ClientError::DnsTimeout(name)) => assert_eq!(name, "blocked.invalid:2022"),
        other => panic!("{other:?}"),
    }
}

#[test]
fn lookups_end_in_addresses_or_a_reason() {
    let many: Vec<u32> = (0..40).collect();
    let found = resolve_operation(
        &endpoint(),
        LookupEvent::Answered {
            panicked: false,
            result: Ok(many),
        },
    )
    .unwrap();
    assert_eq!(found.len(), MAX_RESOLVED_ADDRESSES);
    assert_eq!(found[..3], [0, 1, 2]);
    let panicked: Result<Vec<u32>, ClientError> = resolve_operation(
        &endpoint(),
        LookupEvent::Silent { panicked: true },
    );
    assert!(matches!(panicked, Err(ClientError::DnsWorkerPanicked)));
    let no_thread: Result<Vec<u32>, ClientError> =
        resolve_operation(&endpoint(), LookupEvent::NoThread("limit".into()));
    assert!(matches!(no_thread, Err(ClientError::DnsWorker(_))));
    let late: Result<Vec<u32>, ClientError> = resolve_operation(&endpoint(), LookupEvent::NoTime);
    assert!(matches!(late, Err(ClientError::DnsTimeout(_))));
}

#[test]
fn deadlines_are_measured() {
    let past = Deadline::after(Duration::from_secs(0));
    assert!(matches!(
        ensure_deadline(past, "connecting"),
        Err(ClientError::BootstrapTimeout("connecting"))
    ));
    assert!(remaining_time(past, "connecting").is_err());
    let later = Deadline::after(Duration::from_secs(60));
    assert!(ensure_deadline(later, "connecting").is_ok());
    assert!(remaining_time(later, "connecting").unwrap() <= Duration::from_secs(60));
    assert!(later.remaining().is_some());
    assert!(past.remaining().is_none());
}

#[test]
fn late_failures_are_timeouts() {
    assert!(matches!(
        connect_error(true, "reading", "reset".into()),
        ClientError::ConnectIo { operation: "reading", .. }
    ));
    assert!(matches!(
        connect_error(false, "reading", "reset".into()),
        ClientError::BootstrapTimeout("reading")
    ));
    assert!(matches!(
        transport_error(true, "reading", ConnError::Backpressure),
        ClientError::Transport(ConnError::Backpressure)
    ));
    assert_eq!(endpoint().display(), "blocked.invalid:2022");
}

#[test]
fn addresses_are_tried_in_order_up_to_a_limit() {
    assert!(matches!(
        connect_endpoint(&endpoint(), 40, 0, true, None),
        ConnectStep::Try(0)
    ));
    assert!(matches!(
        connect_endpoint(&endpoint(), 40, 3, true, Some("refused".into())),
        ConnectStep::Try(3)
    ));
    match connect_endpoint(
        &endpoint(),
        40,
        MAX_ENDPOINT_ADDRESSES,
        true,
        Some("refused".into()),
    ) {
        ConnectStep::Fail(ClientError::UnreachableEndpoint { endpoint, source }) => {
            assert_eq!(endpoint, "blocked.invalid:2022");
            assert_eq!(source, "refused");
        }
        other => panic!("{other:?}"),
    }
}

#[test]
fn a_fresh_handshake_proves_itself_before_it_connects() {
    let origins = [ForwardOrigin::Explicit];
    let mut handshake = Handshake::new(false);
    let mut seen = Vec::new();
    let end = loop {
        seen.push(handshake.phase);
        assert!(handshake.begin(true).is_ok());
        let event = match handshake.phase {
            HandshakePhase::ReadResponse => {
                HandshakeEvent::Response(response(ConnectStatus::NewClient, None))
            }
            HandshakePhase::ReadInitial => HandshakeEvent::Packet(
                1,
                PacketKind::InitialResponse,
                Ok(InitialResponse::Accepted),
            ),
            _ => HandshakeEvent::Done,
        };
        if let Some(end) = handshake.advance(event, true, &origins) {
            break end;
        }
        assert!(seen.len() < 20);
    };
    assert!(matches!(end, HandshakeEnd::Connected));
    assert!(seen.contains(&HandshakePhase::SendPayload));
    assert_eq!(handshake.phase, HandshakePhase::Done);
}

#[test]
fn an_unexpected_first_packet_is_refused() {
    let mut handshake = Handshake {
        returning: false,
        phase: HandshakePhase::ReadInitial,
    };
    let end = handshake.advance(
        HandshakeEvent::Packet(9, PacketKind::KeepAlive, Ok(InitialResponse::Accepted)),
        true,
        &[],
    );
    assert!(matches!(
        end,
        Some(HandshakeEnd::Failed(ClientError::UnexpectedInitialPacket(9)))
    ));
    let mut handshake = Handshake {
        returning: false,
        phase: HandshakePhase::ReadInitial,
    };
    let end = handshake.advance(
        HandshakeEvent::Packet(1, PacketKind::InitialResponse, Err("short".into())),
        true,
        &[],
    );
    assert!(matches!(
        end,
        Some(HandshakeEnd::Failed(ClientError::MalformedInitialResponse(_)))
    ));
}

#[test]
fn a_returning_handshake_recovers_or_learns_of_the_end() {
    let mut handshake = Handshake {
        returning: true,
        phase: HandshakePhase::ReadResponse,
    };
    let end = handshake.advance(
        HandshakeEvent::Response(response(ConnectStatus::InvalidKey, None)),
        true,
        &[],
    );
    assert!(matches!(end, Some(HandshakeEnd::SessionEnded)));
    let mut handshake = Handshake {
        returning: true,
        phase: HandshakePhase::ReadResponse,
    };
    let end = handshake.advance(
        HandshakeEvent::Response(response(ConnectStatus::ReturningClient, None)),
        true,
        &[],
    );
    assert!(end.is_none());
    let late = Handshake::new(true).begin(false);
    assert!(matches!(late, Err(ClientError::BootstrapTimeout(_))));
}

#[test]
fn the_time_left_runs_down() {
    let deadline = Deadline::after(Duration::new(5, 7));
    assert_eq!(deadline.remaining_after(0), Some(Duration::new(5, 7)));
    assert_eq!(
        deadline.remaining_after(8),
        Some(Duration::new(4, 999_999_999))
    );
    assert_eq!(
        deadline.remaining_after(5_000_000_006),
        Some(Duration::from_nanos(1))
    );
    assert_eq!(deadline.remaining_after(5_000_000_007), None);
    assert_eq!(deadline.remaining_after(u128::MAX), None);
    assert_eq!(time_left(10, 4), Some(6));
    assert_eq!(time_left(10, 10), None);
    let first = deadline.remaining().unwrap();
    assert!(first <= Duration::new(5, 7) && first > Duration::from_secs(1));
    assert!(deadline.remaining().unwrap() <= first);
    assert_eq!(Deadline::after(Duration::ZERO).remaining(), None);
    assert_eq!(Deadline::after(Duration::MAX).remaining(), None);
}
