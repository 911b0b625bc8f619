use et::terminal::{
    credentials_from_file, credentials_from_input, credentials_from_option, log_prefix,
    plan_terminal, print_marker, registration, FileRead, TerminalArgs, TerminalPlan,
    MAX_CREDENTIAL_INPUT,
    credential_source, load_credentials, parsed_ready_socket, CredentialRead, CredentialSource,
};
use et::bootstrap::parse_id_passkey;
use et::ssh_process::DEFAULT_BOOTSTRAP_TIMEOUT_SECONDS;
use et::terminal_credentials::{parse_credential_input, CredentialInput, MAX_TERM_LEN};
use et::terminal_daemon::{
    fail, read_status, registered, spawn, spawn_with_args, startup_result, write_status,
    StartupEvent, MAX_STATUS_MESSAGE, READY_TIMEOUT_SECONDS, STATUS_FAILED,
    signal, stops_child, SignalPlan,
};

const ID: &str = "abcdefghijklmnop";
const KEY: &str = "ABCDEFGHIJKLMNOPQRSTUVWXYZabcdef";

fn input() -> CredentialInput {
    CredentialInput {
        id: ID.to_owned(),
        passkey: KEY.to_owned(),
        term: "xterm-256color".to_owned(),
    }
}

#[test]
fn parses_bootstrap_input() {
    assert_eq!(
        parse_credential_input(&format!("{ID}/{KEY}_xterm-256color")).unwrap(),
        input()
    );
}

#[test]
fn rejects_malformed_credentials_and_term() {
    for value in [
        "",
        "bad",
        "short/key_xterm",
        "abcdefghijklmnop/short_xterm",
        "abcdefghijklmnop/ABCDEFGHIJKLMNOPQRSTUVWXYZabcdef_bad term",
    ] {
        assert!(parse_credential_input(value).is_err(), "{value}");
    }
    let longest = "x".repeat(MAX_TERM_LEN);
    assert!(parse_credential_input(&format!("{ID}/{KEY}_{longest}")).is_ok());
    assert!(parse_credential_input(&format!("{ID}/{KEY}_{longest}x")).is_err());
}

#[test]
fn structured_status_is_bounded_and_rejects_truncation() {
    let mut frame = Vec::new();
    frame.extend_from_slice(b"ETS1");
    frame.push(STATUS_FAILED);
    frame.extend_from_slice(&3u16.to_be_bytes());
    frame.extend_from_slice(b"bad");
    assert_eq!(read_status(frame.as_slice(), ""), Err("bad".to_owned()));
    frame.pop();
    assert!(read_status(frame.as_slice(), "failed to fill whole buffer")
        .unwrap_err()
        .contains("truncated"));
}

#[test]
fn arbitrary_readiness_bytes_are_not_accepted() {
    assert!(read_status(b"\x01".as_slice(), "failed to fill whole buffer").is_err());
}

#[test]
fn remote_deadline_leaves_outer_propagation_and_cleanup_margin() {
    let outer = DEFAULT_BOOTSTRAP_TIMEOUT_SECONDS;
    assert!(outer >= READY_TIMEOUT_SECONDS + 30);
}

#[test]
fn signal_exit_is_observed_as_closed_status_channel() {
    let error = read_status(b"", "failed to fill whole buffer").unwrap_err();
    assert!(error.contains("closed"));
}

#[test]
fn statuses_read_back() {
    assert_eq!(read_status(&registered(), ""), Ok(()));
    assert_eq!(
        read_status(&fail("no router"), ""),
        Err("no router".to_owned())
    );
    let long = "m".repeat(MAX_STATUS_MESSAGE + 5);
    assert_eq!(
        read_status(&write_status(STATUS_FAILED, &long), ""),
        Err(long[..MAX_STATUS_MESSAGE].to_owned())
    );
    assert!(read_status(b"ETS0\x01\x00\x00", "").unwrap_err().contains("malformed"));
    assert!(read_status(b"ETS1\x09\x00\x00", "").is_err());
    // A message that is not text keeps what can be read of it.
    assert_eq!(
        read_status(b"ETS1\x02\x00\x02a\xff", ""),
        Err("a\u{fffd}".to_owned())
    );
}

#[test]
fn session_children_get_their_credentials_over_the_pipe() {
    let plain = spawn("/run/router", &input(), 3);
    assert_eq!(
        plain.args,
        [
            "terminal",
            "--session-child",
            "--ready-socket",
            "inherited",
            "--serverfifo",
            "/run/router",
            "--verbose=3",
        ]
    );
    assert_eq!(plain.input, format!("{ID}/{KEY}_xterm-256color\n"));
    let more = spawn_with_args("/run/router", &input(), 0, &vec!["--jump".to_owned()]);
    assert_eq!(more.args.last().map(String::as_str), Some("--jump"));
    assert!(!plain.args.iter().any(|arg| arg.contains(KEY)));
}

#[test]
fn startup_ends_with_the_status_or_a_reason() {
    assert!(startup_result(StartupEvent::Status(Ok(()))).is_ok());
    assert_eq!(
        startup_result(StartupEvent::Status(Err("bad".into()))),
        Err("terminal session process did not become ready: bad".to_owned())
    );
    assert_eq!(
        startup_result(StartupEvent::TimedOut),
        Err("timed out waiting for terminal registration".to_owned())
    );
    for event in [
        StartupEvent::NotLocated("x".into()),
        StartupEvent::NotResolved("x".into()),
        StartupEvent::NotStarted("x".into()),
        StartupEvent::NoInput,
        StartupEvent::NotSent("x".into()),
        StartupEvent::NoStatusPipe,
        StartupEvent::NoWorker("x".into()),
    ] {
        assert!(startup_result(event).is_err());
    }
}

#[test]
fn terminal_registration_identity_matches_effective_peer_credentials() {
    let uid = rustix::process::geteuid().as_raw();
    let gid = rustix::process::getegid().as_raw();
    let message = registration(&input(), Some((uid, gid)));
    assert_eq!(
        (message.uid.unwrap(), message.gid.unwrap()),
        (i64::from(uid), i64::from(gid))
    );
    assert_eq!(message.id.as_deref(), Some(ID));
    assert_eq!(message.passkey.as_deref(), Some(KEY));
    let windows = registration(&input(), None);
    assert_eq!((windows.uid, windows.gid), (Some(0), Some(0)));
}

#[test]
fn credentials_come_from_a_file_an_option_or_standard_input() {
    let line = format!("{ID}/{KEY}");
    assert_eq!(
        credentials_from_file(FileRead::Text(format!("{line}\n")), Some("linux"))
            .unwrap()
            .term,
        "linux"
    );
    assert_eq!(
        credentials_from_option(&line, None).unwrap().term,
        "xterm-256color"
    );
    assert_eq!(
        credentials_from_input(format!("{line}_xterm-256color\n").as_bytes()).unwrap(),
        input()
    );
    assert_eq!(
        credentials_from_input(b"\xff").unwrap_err(),
        "id/passkey input is not UTF-8"
    );
    assert_eq!(
        credentials_from_input(&vec![b'x'; MAX_CREDENTIAL_INPUT + 1]).unwrap_err(),
        "id/passkey input exceeds 4096 bytes"
    );
    assert_eq!(
        credentials_from_file(FileRead::Text("x".repeat(4097)), None).unwrap_err(),
        "id/passkey file exceeds 4096 bytes"
    );
    assert_eq!(
        credentials_from_file(FileRead::NotOpened("missing".into()), None).unwrap_err(),
        "could not open id/passkey file: missing"
    );
    assert_eq!(
        credentials_from_file(FileRead::NotRead("broken".into()), None).unwrap_err(),
        "could not read id/passkey file: broken"
    );
}

#[test]
fn the_marker_reads_back() {
    let line = print_marker(&input());
    assert_eq!(line, format!("IDPASSKEY:{ID}/{KEY}\n"));
    let credentials = parse_id_passkey(line.as_bytes()).unwrap();
    assert_eq!(credentials.id, ID);
    assert_eq!(credentials.passkey, KEY);
}

#[test]
fn terminals_are_planned_from_their_options() {
    let args = |session_child, ready: Option<&str>, jump, host: Option<&str>| TerminalArgs {
        session_child,
        ready_socket: ready.map(str::to_owned),
        jump,
        dsthost: host.map(str::to_owned),
        dstport: 2022,
    };
    match plan_terminal(&args(false, None, true, Some("dst"))).unwrap() {
        TerminalPlan::Spawn { more } => {
            assert_eq!(more, ["--jump", "--dsthost=dst", "--dstport=2022"])
        }
        other => panic!("{other:?}"),
    }
    assert!(matches!(
        plan_terminal(&args(false, None, false, None)),
        Ok(TerminalPlan::Spawn { more }) if more.is_empty()
    ));
    assert!(matches!(
        plan_terminal(&args(true, Some("inherited"), false, None)),
        Ok(TerminalPlan::Host)
    ));
    assert!(matches!(
        plan_terminal(&args(true, Some("inherited"), true, Some("dst"))),
        Ok(TerminalPlan::Relay { host, port: 2022, .. }) if host == "dst"
    ));
    assert_eq!(
        plan_terminal(&args(false, None, true, Some(""))).unwrap_err(),
        "--dsthost must be set when --jump is used"
    );
    assert_eq!(
        parsed_ready_socket(&args(true, None, false, None)).unwrap_err(),
        "terminal session child has no readiness socket"
    );
    assert_eq!(
        parsed_ready_socket(&args(true, Some("inherited"), false, None)),
        Ok("inherited")
    );
    assert_eq!(log_prefix(true, "ann", ID), format!("etjump-ann-{ID}"));
    assert_eq!(log_prefix(false, "ann", ID), format!("etterminal-ann-{ID}"));
}

#[test]
fn credentials_have_an_order_of_sources() {
    assert_eq!(credential_source(true, true), CredentialSource::File);
    assert_eq!(credential_source(false, true), CredentialSource::Option);
    assert_eq!(credential_source(false, false), CredentialSource::Input);
    let value = format!("{ID}/{KEY}");
    let input = load_credentials(CredentialRead::Option(value.clone()), Some("vt100")).unwrap();
    assert_eq!((input.id.as_str(), input.term.as_str()), (ID, "vt100"));
    let file = CredentialRead::File(FileRead::Text(format!("{value}\n")));
    let input = load_credentials(file, None).unwrap();
    assert_eq!(input.term, "xterm-256color");
    let bytes = format!("{value}_xterm\n").into_bytes();
    let input = load_credentials(CredentialRead::Input(Ok(bytes)), None).unwrap();
    assert_eq!(input.passkey, KEY);
    assert_eq!(
        load_credentials(CredentialRead::Input(Err("closed".into())), None).unwrap_err(),
        "could not read id/passkey from stdin: closed"
    );
}

#[test]
fn registration_is_signaled_where_the_parent_listens() {
    match signal("inherited", false).unwrap() {
        SignalPlan::Report(frame) => assert!(read_status(&frame, "").is_ok()),
        other => panic!("{other:?}"),
    }
    assert!(matches!(
        signal("/tmp/ready", false),
        Ok(SignalPlan::Connect(1))
    ));
    assert_eq!(
        signal("/tmp/ready", true).unwrap_err(),
        "legacy readiness sockets are unsupported on Windows"
    );
}

#[test]
fn only_registered_session_processes_are_let_go() {
    assert!(!stops_child(&StartupEvent::NotStarted("x".into())));
    assert!(!stops_child(&StartupEvent::Status(Ok(()))));
    assert!(stops_child(&StartupEvent::Status(Err("x".into()))));
    assert!(stops_child(&StartupEvent::TimedOut));
    assert!(stops_child(&StartupEvent::NoInput));
}

#[test]
fn failures_read_back_as_they_were_described() {
    let message = "caf\u{e9} closed";
    assert_eq!(read_status(&fail(message), ""), Err(message.to_owned()));
    let long = "\u{e9}".repeat(4097);
    let kept: String = long.chars().take(4096).collect();
    assert_eq!(read_status(&fail(&long), ""), Err(kept));
    let input = CredentialInput {
        id: "id".into(),
        passkey: "key".into(),
        term: "xterm".into(),
    };
    assert_eq!(input.clone(), input);
}
