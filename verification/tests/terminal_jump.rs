use et::forward::InitialPayload;
use et::initial_connect::{ConnectResponse, ConnectStatus};
use et::name_map::NameMap;
use et::terminal_jump::{
    accept_destination, accept_destination_packet, connect_destination, destination_failure,
    destination_packet, destination_payload, destination_poll_flags, downstream_requires_ack,
    is_acknowledgement, read_jumphost_init, read_router_packet, resolve_failure,
    router_packet, router_poll_flags, write_pending_local, AttemptStep,
    DestinationStep, FrameStep, FrameWrite, JumpStart, PendingFrame, Relay, RelayEvent,
    RelayPacket, RelayPhase, RelayReady, RouterRead, RouterStep, StartEvent, StartPhase,
    TurnPhase, TurnRelay, CONNECT_ATTEMPTS,
};
use et::terminal_protocol::PacketKind;

const QUIET: RelayReady = RelayReady {
    router_readable: false,
    router_writable: false,
    router_down: false,
    destination_readable: false,
    destination_down: false,
};

fn payload(jumphost: Option<bool>) -> InitialPayload {
    InitialPayload {
        jumphost,
        reversetunnels: Vec::new(),
        environmentvariables: NameMap::new(),
        flowcontrol: None,
    }
}

#[test]
fn malformed_downstream_initial_response_fails_closed() {
    assert_eq!(
        downstream_requires_ack(None),
        Err("destination sent a malformed INITIAL_RESPONSE".to_owned())
    );
    assert_eq!(
        downstream_requires_ack(Some(Some("ordinary fatal".to_owned()))),
        Ok(true)
    );
}

#[test]
fn closed_destination_poll_mask_ignores_readable_router_input() {
    let flags = router_poll_flags(true, true);

    assert!(!flags.readable);
    assert!(flags.writable);
    assert!(flags.hangup);
    assert!(flags.error);
}

#[test]
fn pending_output_stops_destination_reads_only() {
    assert!(router_poll_flags(false, true).readable);
    assert!(!router_poll_flags(false, false).writable);
    assert!(destination_poll_flags(false).readable);
    assert!(!destination_poll_flags(true).readable);
}

#[test]
fn the_first_packet_of_a_jump_is_its_payload() {
    let read =
        read_jumphost_init(false, 9, PacketKind::JumphostInit, Some(payload(Some(true)))).unwrap();
    assert_eq!(read.jumphost, Some(true));
    assert!(read_jumphost_init(false, 9, PacketKind::JumphostInit, None).is_err());
    assert!(
        read_jumphost_init(true, 9, PacketKind::JumphostInit, Some(payload(None))).is_err()
    );
    assert!(
        read_jumphost_init(false, 1, PacketKind::KeepAlive, Some(payload(None))).is_err()
    );
    assert_eq!(
        destination_payload(payload(Some(true))).unwrap().jumphost,
        Some(false)
    );
}

#[test]
fn destinations_are_tried_a_few_times() {
    for made in 1..CONNECT_ATTEMPTS {
        assert!(matches!(
            connect_destination(made, "dst", 2022, "refused"),
            AttemptStep::Again
        ));
    }
    match connect_destination(CONNECT_ATTEMPTS, "dst", 2022, "refused") {
        AttemptStep::Fail(message) => {
            assert!(message.contains("dst:2022"), "{message}");
            assert!(message.contains("refused"), "{message}");
        }
        AttemptStep::Again => panic!("the attempts are used up"),
    }
    assert!(resolve_failure("dst", "no such host").contains("no such host"));
    assert!(et::terminal_jump::unreachable(Some("refused".into())).contains("refused"));
    for step in [
        DestinationStep::Configure,
        DestinationStep::SendRequest,
        DestinationStep::ReadResponse,
        DestinationStep::Bound,
        DestinationStep::SendPayload,
        DestinationStep::ReadInitial,
    ] {
        assert!(destination_failure(step, "cause").contains("cause"));
    }
}

#[test]
fn destinations_must_take_a_new_client() {
    let response = |status| ConnectResponse {
        raw_status: Some(0),
        status: Some(status),
        error: None,
    };
    assert!(accept_destination(response(ConnectStatus::NewClient)).is_ok());
    assert!(accept_destination(response(ConnectStatus::ReturningClient)).is_err());
    assert!(accept_destination(response(ConnectStatus::InvalidKey)).is_err());
    assert!(accept_destination_packet(PacketKind::InitialResponse).is_ok());
    assert!(accept_destination_packet(PacketKind::KeepAlive).is_err());
}

#[test]
fn failed_answers_are_acknowledged_before_the_end() {
    let mut start = JumpStart::new();
    let mut ended = None;
    for _ in 0..20 {
        let event = match start.phase {
            StartPhase::ReadInit => StartEvent::Payload(Ok(())),
            StartPhase::Connect => StartEvent::Connected(Ok(true)),
            StartPhase::ReadAck => StartEvent::Acknowledgement(true),
            StartPhase::Running | StartPhase::Failed => break,
            _ => StartEvent::Done,
        };
        ended = start.advance(event);
        if ended.is_some() {
            break;
        }
    }
    assert!(ended.is_none(), "{ended:?}");
    assert_eq!(start.phase, StartPhase::Running);

    let mut start = JumpStart::new();
    let message = start.advance(StartEvent::Payload(Err("bad payload".into())));
    assert!(message.is_some());
    assert_eq!(start.phase, StartPhase::Failed);
}

#[test]
fn only_the_empty_answer_acknowledges() {
    assert!(!is_acknowledgement(true, PacketKind::InitialResponse, b""));
    assert!(!is_acknowledgement(false, PacketKind::KeepAlive, b"x"));
}

#[test]
fn keepalives_carry_their_own_acknowledgements_on_each_side() {
    let keepalive = |payload: &[u8]| RelayPacket {
        header: 0,
        kind: PacketKind::KeepAlive,
        payload: payload.to_vec(),
    };
    let (to_router, acknowledged) = router_packet(keepalive(b"theirs"));
    assert!(to_router.payload.is_empty());
    assert_eq!(acknowledged, Some(b"theirs".to_vec()));
    assert_eq!(
        destination_packet(keepalive(b""), b"ours".to_vec()).payload,
        b"ours"
    );
    let buffer = RelayPacket {
        header: 1,
        kind: PacketKind::TerminalBuffer,
        payload: b"data".to_vec(),
    };
    let (same, acknowledged) = router_packet(buffer);
    assert_eq!(same.payload, b"data");
    assert_eq!(acknowledged, None);
}

#[test]
fn frames_are_written_to_their_end() {
    let mut pending = Some(PendingFrame {
        frame: b"frame".to_vec(),
        offset: 0,
    });
    assert!(matches!(
        write_pending_local(&mut pending, FrameWrite::Count(2)),
        FrameStep::Again
    ));
    assert_eq!(pending.as_ref().unwrap().offset, 2);
    assert!(matches!(
        write_pending_local(&mut pending, FrameWrite::WouldBlock),
        FrameStep::Blocked
    ));
    assert!(matches!(
        write_pending_local(&mut pending, FrameWrite::Interrupted),
        FrameStep::Again
    ));
    assert!(matches!(
        write_pending_local(&mut pending, FrameWrite::Count(3)),
        FrameStep::Complete
    ));
    assert!(pending.is_none());
}

#[test]
fn router_reads_end_in_a_packet_a_pause_or_a_failure() {
    assert!(matches!(
        read_router_packet(RouterRead::Fed(true)),
        RouterStep::Packet
    ));
    assert!(matches!(
        read_router_packet(RouterRead::Fed(false)),
        RouterStep::Again
    ));
    assert!(matches!(
        read_router_packet(RouterRead::WouldBlock),
        RouterStep::Nothing
    ));
    assert!(matches!(
        read_router_packet(RouterRead::Ended),
        RouterStep::Fail(_)
    ));
}

/// Answers the phases of a relay until it polls again or ends.
fn drive(
    relay: &mut Relay,
    mut answer: impl FnMut(RelayPhase) -> Option<RelayEvent>,
) -> Option<Result<(), String>> {
    for _ in 0..50 {
        match answer(relay.phase) {
            None => return None,
            Some(event) => {
                if let Some(end) = relay.advance(event) {
                    return Some(end);
                }
            }
        }
    }
    panic!("the relay does not come to rest in {:?}", relay.phase);
}

#[test]
fn slow_jumphost_output_does_not_block_ctrl_c_toward_destination() {
    let mut relay = Relay::new();
    let mut polls = 0;
    let mut packets = 1;
    let mut sent = 0;
    let end = drive(&mut relay, |phase| match phase {
        RelayPhase::Poll => {
            polls += 1;
            match polls {
                1 => Some(RelayEvent::Polled(RelayReady {
                    destination_readable: true,
                    ..QUIET
                })),
                2 => Some(RelayEvent::Polled(RelayReady {
                    router_readable: true,
                    ..QUIET
                })),
                _ => None,
            }
        }
        RelayPhase::ReadDestination => {
            packets -= 1;
            Some(if packets >= 0 {
                RelayEvent::DestinationPacket
            } else {
                RelayEvent::DestinationNothing
            })
        }
        RelayPhase::StartOutput | RelayPhase::Flush => Some(RelayEvent::Flushed(false)),
        RelayPhase::ReadRouter => Some(if sent == 0 {
            RelayEvent::RouterPacket
        } else {
            RelayEvent::RouterNothing
        }),
        RelayPhase::SendInput => {
            sent += 1;
            Some(RelayEvent::InputSent)
        }
        RelayPhase::Ended => panic!("the relay must go on"),
    });
    assert!(end.is_none());
    assert!(relay.pending);
    assert_eq!(sent, 1);
}

#[test]
fn jumphost_drains_buffered_destination_packets_after_hup() {
    let mut relay = Relay::new();
    let mut packets = 3;
    let mut written = 0;
    let mut polls = 0;
    let end = drive(&mut relay, |phase| match phase {
        RelayPhase::Poll => {
            polls += 1;
            Some(RelayEvent::Polled(RelayReady {
                destination_down: true,
                router_writable: relay_writable(polls),
                ..QUIET
            }))
        }
        RelayPhase::ReadDestination => {
            if packets > 0 {
                packets -= 1;
                Some(RelayEvent::DestinationPacket)
            } else {
                Some(RelayEvent::DestinationNothing)
            }
        }
        RelayPhase::StartOutput | RelayPhase::Flush => {
            written += 1;
            Some(RelayEvent::Flushed(true))
        }
        RelayPhase::ReadRouter => Some(RelayEvent::RouterNothing),
        RelayPhase::SendInput => Some(RelayEvent::InputSent),
        RelayPhase::Ended => panic!("the end is told by the last event"),
    });
    assert_eq!(end, Some(Ok(())));
    assert_eq!(packets, 0);
    assert_eq!(written, 3);
}

fn relay_writable(polls: usize) -> bool {
    polls > 1
}

#[test]
fn an_empty_heartbeat_acknowledges() {
    assert!(is_acknowledgement(false, PacketKind::Heartbeat, b""));
    assert!(!is_acknowledgement(true, PacketKind::Heartbeat, b""));
    assert!(!is_acknowledgement(false, PacketKind::Heartbeat, b"x"));
}

#[test]
fn jumphost_drains_coalesced_destination_packets_without_new_socket_readiness() {
    let mut relay = Relay::new();
    let mut packets = 3;
    let mut written = 0;
    let mut polls = 0;
    let end = drive(&mut relay, |phase| match phase {
        RelayPhase::Poll => {
            polls += 1;
            if polls == 1 {
                Some(RelayEvent::Polled(RelayReady {
                    destination_readable: true,
                    ..QUIET
                }))
            } else {
                None
            }
        }
        RelayPhase::ReadDestination => {
            if packets > 0 {
                packets -= 1;
                Some(RelayEvent::DestinationPacket)
            } else {
                Some(RelayEvent::DestinationNothing)
            }
        }
        RelayPhase::StartOutput | RelayPhase::Flush => {
            written += 1;
            Some(RelayEvent::Flushed(true))
        }
        RelayPhase::ReadRouter => Some(RelayEvent::RouterNothing),
        RelayPhase::SendInput => Some(RelayEvent::InputSent),
        RelayPhase::Ended => panic!("the relay must go on"),
    });
    assert!(end.is_none());
    assert_eq!((packets, written), (0, 3));
}

#[test]
fn jumphost_resumes_coalesced_destination_packets_after_router_backpressure() {
    let mut relay = Relay::new();
    let mut packets = 3;
    let mut written = 0;
    let mut polls = 0;
    let end = drive(&mut relay, |phase| match phase {
        RelayPhase::Poll => {
            polls += 1;
            match polls {
                1 => Some(RelayEvent::Polled(RelayReady {
                    destination_readable: true,
                    ..QUIET
                })),
                // Only the router is ready: the packets that came together
                // with the first one have to go on all the same.
                2 => Some(RelayEvent::Polled(RelayReady {
                    router_writable: true,
                    ..QUIET
                })),
                _ => None,
            }
        }
        RelayPhase::ReadDestination => {
            if packets > 0 {
                packets -= 1;
                Some(RelayEvent::DestinationPacket)
            } else {
                Some(RelayEvent::DestinationNothing)
            }
        }
        RelayPhase::StartOutput => {
            if polls == 1 {
                Some(RelayEvent::Flushed(false))
            } else {
                written += 1;
                Some(RelayEvent::Flushed(true))
            }
        }
        RelayPhase::Flush => {
            written += 1;
            Some(RelayEvent::Flushed(true))
        }
        RelayPhase::ReadRouter => Some(RelayEvent::RouterNothing),
        RelayPhase::SendInput => Some(RelayEvent::InputSent),
        RelayPhase::Ended => panic!("the relay must go on"),
    });
    assert!(end.is_none());
    assert_eq!((packets, written), (0, 3));
}

#[test]
fn unpolled_destinations_end_the_relay() {
    let mut relay = Relay::new();
    match relay.advance(RelayEvent::DestinationUnpolled("no socket".into())) {
        Some(Err(message)) => assert!(message.contains("no socket"), "{message}"),
        other => panic!("{other:?}"),
    }
}

#[test]
fn turns_flush_then_read_the_router_then_the_destination() {
    let mut relay = TurnRelay::new();
    assert_eq!(relay.phase, TurnPhase::ReadRouter);
    assert!(relay.advance(RelayEvent::RouterPacket).is_none());
    assert_eq!(relay.phase, TurnPhase::SendInput);
    assert!(relay.advance(RelayEvent::InputSent).is_none());
    assert_eq!(relay.phase, TurnPhase::ReadDestination);
    assert!(relay.advance(RelayEvent::DestinationPacket).is_none());
    assert!(relay.advance(RelayEvent::Flushed(false)).is_none());
    // The router took only a part: nothing more is read for it.
    assert!(relay.pending);
    assert_eq!(relay.phase, TurnPhase::Flush);
    assert!(relay.advance(RelayEvent::Flushed(false)).is_none());
    assert_eq!(relay.phase, TurnPhase::ReadRouter);
    assert!(relay.advance(RelayEvent::RouterNothing).is_none());
    assert_eq!(relay.phase, TurnPhase::Wait);
    assert!(relay.advance(RelayEvent::Waited).is_none());
    assert_eq!(relay.phase, TurnPhase::Flush);
    assert!(relay.advance(RelayEvent::Flushed(true)).is_none());
    assert!(relay.advance(RelayEvent::RouterNothing).is_none());
    assert_eq!(relay.phase, TurnPhase::ReadDestination);
    assert_eq!(relay.advance(RelayEvent::DestinationFailed), Some(Ok(())));
}

#[test]
fn failed_turns_tell_why() {
    let mut relay = TurnRelay::new();
    assert_eq!(
        relay.advance(RelayEvent::RouterFailed("router".into())),
        Some(Err("router".to_owned()))
    );
    let mut relay = TurnRelay::new();
    relay.advance(RelayEvent::RouterPacket);
    assert_eq!(relay.advance(RelayEvent::InputFailed), Some(Ok(())));
}
