use et::bootstrap::{BootstrapRequest, Credentials, ParsedHost, RemoteShell};
use et::client::{
    after_attempt, after_wait, bootstrap_log_message, command_user, effective_ssh_args,
    effective_user, reconnect_wait_aborted, resolve_remote_mode, selected_ssh_config,
    validate_bootstrap_mode, validate_jumphost, RemoteMode, RetryStep, WaitDecision, WaitLook,
    CTRL_C,
};
use et::client_args::ClientArgs;
use et::client_terminal::RemoteShellKind;
use et::error::{ClientError, ConnError};
use et::forward_config::build;
use et::ssh_config::{ConfigFileState, ResolvedSshConfig};
use et::terminal_protocol::FlowControlMode;

fn args() -> ClientArgs {
    ClientArgs {
        username: None,
        jumphost: None,
        jserverfifo: None,
        jport: 2022,
        serverfifo: None,
        terminal_path: None,
        kill_other_sessions: false,
        verbose: 0,
        ssh_option: Vec::new(),
        ssh_config: None,
        no_ssh_config: false,
        tunnel: Vec::new(),
        reverse_tunnel: Vec::new(),
        forward_ssh_agent: false,
        ssh_socket: None,
        command: None,
        no_exit: false,
        keepalive: 5,
        flow_control: FlowControlMode::Off,
        no_terminal: false,
        close_on_hangup: false,
        remote_shell: None,
        winserver: false,
        remote_is_windows: false,
        effective_remote_shell: RemoteShellKind::Posix,
        effective_terminal_path: None,
    }
}

fn windows_args(shell: RemoteShellKind) -> ClientArgs {
    let mut args = args();
    args.remote_is_windows = true;
    args.effective_remote_shell = shell;
    args.effective_terminal_path = Some("et.exe".into());
    args
}

/// Splits `user@host:port`; an address in brackets keeps its colons.
fn parse_host(text: &str) -> ParsedHost {
    let (user, rest) = text.split_once('@').unwrap_or(("", text));
    let end = if rest.starts_with('[') {
        rest.find(']').map_or(rest.len(), |end| end + 1)
    } else {
        rest.find(':').unwrap_or(rest.len())
    };
    let (host, suffix) = rest.split_at(end);
    let port_suffix = if suffix.starts_with(':') { suffix } else { "" };
    ParsedHost {
        user: user.into(),
        host: host.into(),
        port_suffix: port_suffix.into(),
    }
}

fn check_jumphost(text: &str) -> Result<(), ClientError> {
    validate_jumphost(text, &parse_host(text))
}

fn retry_transient<T>(
    mut attempt: impl FnMut() -> Result<T, ClientError>,
    mut wait: impl FnMut(&ClientError) -> bool,
) -> Result<T, ClientError> {
    loop {
        match after_attempt(attempt()) {
            RetryStep::Done(result) => return result,
            RetryStep::Wait(error) => {
                let aborted = wait(&error);
                if let Some(error) = after_wait(error, aborted) {
                    return Err(error);
                }
            }
        }
    }
}

fn assert_mode(
    mode: RemoteMode,
    bootstrap_shell: RemoteShell,
    terminal_shell: RemoteShellKind,
    terminal_path: Option<&str>,
) {
    assert_eq!(mode.bootstrap_shell, bootstrap_shell);
    assert_eq!(mode.terminal_shell, terminal_shell);
    assert_eq!(mode.terminal_path.as_deref(), terminal_path);
}

#[test]
fn retry_transient_retries_until_success() {
    let mut attempts = 0;
    let result = retry_transient(
        || {
            attempts += 1;
            if attempts < 3 {
                Err(ClientError::DnsTimeout("host:2022".to_owned()))
            } else {
                Ok(7)
            }
        },
        |error| {
            assert!(error.is_transient_reconnect());
            false
        },
    );
    assert_eq!(result.unwrap(), 7);
    assert_eq!(attempts, 3);
}

#[test]
fn retry_transient_gives_up_when_wait_aborts() {
    let mut attempts = 0;
    let result = retry_transient(
        || -> Result<(), ClientError> {
            attempts += 1;
            Err(ClientError::UnreachableEndpoint {
                endpoint: "10.10.10.10:2022".to_owned(),
                source: "timed out".to_owned(),
            })
        },
        |_| true,
    );
    assert!(matches!(
        result,
        Err(ClientError::UnreachableEndpoint { .. })
    ));
    assert_eq!(attempts, 1);
}

#[test]
fn retry_transient_propagates_fatal_errors_immediately() {
    let mut attempts = 0;
    let result = retry_transient(
        || -> Result<(), ClientError> {
            attempts += 1;
            Err(ClientError::ProtocolMismatch(None))
        },
        |_| panic!("fatal errors must not wait for a retry"),
    );
    assert!(matches!(result, Err(ClientError::ProtocolMismatch(None))));
    assert_eq!(attempts, 1);
}

#[test]
fn transient_reconnect_classification() {
    assert!(ClientError::DnsTimeout("h:1".to_owned()).is_transient_reconnect());
    assert!(ClientError::BootstrapTimeout("x").is_transient_reconnect());
    assert!(
        ClientError::Transport(ConnError::Io("connection reset".to_owned()))
            .is_transient_reconnect()
    );
    assert!(!ClientError::ProtocolMismatch(None).is_transient_reconnect());
    assert!(!ClientError::ServerRejected {
        status: None,
        message: None
    }
    .is_transient_reconnect());
    assert!(!ClientError::InvalidPasskey.is_transient_reconnect());
}

#[test]
fn selected_ssh_config_maps_flags_and_none() {
    assert_eq!(selected_ssh_config(&args(), None).unwrap(), None);

    let mut disabled = args();
    disabled.no_ssh_config = true;
    assert_eq!(
        selected_ssh_config(&disabled, None).unwrap().as_deref(),
        Some("none")
    );

    let mut none = args();
    none.ssh_config = Some("none".into());
    assert_eq!(
        selected_ssh_config(&none, None).unwrap().as_deref(),
        Some("none")
    );

    let mut relative = args();
    relative.ssh_config = Some("relative".into());
    assert!(matches!(
        selected_ssh_config(&relative, None),
        Err(ClientError::InvalidSshConfig(
            "must be an absolute path or 'none'"
        ))
    ));
}

#[test]
fn a_readable_config_file_is_selected() {
    let mut named = args();
    named.ssh_config = Some("/etc/et/ssh_config".into());
    let readable = ConfigFileState {
        regular: true,
        readable: true,
    };
    assert_eq!(
        selected_ssh_config(&named, Some(readable)).unwrap().as_deref(),
        Some("/etc/et/ssh_config")
    );
    assert!(selected_ssh_config(&named, None).is_err());
}

#[test]
fn username_precedence_matches_upstream() {
    assert_eq!(
        effective_user(
            Some("positional".to_string()),
            Some("option".to_string()),
            Some("config".to_string()),
        ),
        Some("positional".to_string())
    );
    assert_eq!(
        effective_user(None, Some("option".to_string()), Some("config".to_string()),),
        Some("option".to_string())
    );
    assert_eq!(
        effective_user(
            Some(String::new()),
            Some("option".to_string()),
            Some("config".to_string()),
        ),
        Some("config".to_string())
    );
    assert_eq!(command_user(Some(String::new()), Some("option".to_string())), None);
    assert_eq!(command_user(None, None), None);
}

#[test]
fn jumphost_validation_rejects_injection_and_empty_hops() {
    assert!(check_jumphost("jump.example").is_ok());
    assert!(check_jumphost("user@jump.example:22").is_ok());
    assert!(check_jumphost("user@[::1]:2222").is_ok());
    assert!(check_jumphost("admin@[fe80::1%eth0]:2222").is_ok());
    for invalid in [
        "jump1,user@jump2",
        "good,-evil",
        "good,",
        "[::1]extra",
        "[::1",
        "[[::1]]",
        "[hostname]",
        "host%h",
        "jump:0",
        "jump:65536",
        "jump:abc",
        "a@b@c",
        "@host",
        "jump host",
        "$(command)",
        "ssh://host",
        "jump\n",
    ] {
        assert!(check_jumphost(invalid).is_err(), "{invalid:?}");
    }
    assert!(matches!(
        check_jumphost(""),
        Err(ClientError::Unsupported("empty --jumphost value"))
    ));
    assert!(matches!(
        check_jumphost("  "),
        Err(ClientError::Unsupported("empty --jumphost value"))
    ));
    assert!(matches!(
        check_jumphost("-oProxyCommand=bad"),
        Err(ClientError::InvalidSshComponent("jumphost"))
    ));
}

#[test]
fn effective_ssh_precedence_and_disabled_agent_socket() {
    let base = args();
    let mut config = ResolvedSshConfig {
        proxy_jump: Some("config-jump".into()),
        forward_agent: true,
        identity_agent: Some("/tmp/config agent".into()),
        ..Default::default()
    };
    let selected = effective_ssh_args(&base, &config).unwrap();
    assert_eq!(selected.jumphost.as_deref(), Some("config-jump"));
    assert!(selected.forward_ssh_agent);
    let forward = build(&selected, Some("/tmp/env-agent")).unwrap();
    assert_eq!(
        forward.initial_payload.reversetunnels[0]
            .destination
            .as_ref()
            .unwrap()
            .name
            .as_deref(),
        Some("/tmp/config agent")
    );
    let mut explicit = args();
    explicit.jumphost = Some("cli-jump".into());
    explicit.ssh_socket = Some("/tmp/cli-agent".into());
    explicit.forward_ssh_agent = true;
    config.proxy_jump = Some("invalid,multi-hop".into());
    config.identity_agent = Some("none".into());
    config.forward_agent = false;
    let selected = effective_ssh_args(&explicit, &config).unwrap();
    assert_eq!(selected.jumphost.as_deref(), Some("cli-jump"));
    assert_eq!(selected.ssh_socket.as_deref(), Some("/tmp/cli-agent"));
    assert!(selected.forward_ssh_agent);
    config.forward_agent = true;
    assert!(
        !effective_ssh_args(&base, &config)
            .unwrap()
            .forward_ssh_agent
    );
    config.identity_agent = Some("SSH_AUTH_SOCK".into());
    let selected = effective_ssh_args(&base, &config).unwrap();
    assert!(selected.forward_ssh_agent);
    assert_eq!(selected.ssh_socket, None);
    assert!(build(&selected, None).is_err());
    for unsupported in ["$AGENT", "${AGENT}", "%d/agent", "", "/tmp/a\0b"] {
        config.identity_agent = Some(unsupported.into());
        assert!(effective_ssh_args(&base, &config).is_err());
        assert!(effective_ssh_args(&explicit, &config).is_ok());
    }
    config.forward_agent = false;
    assert!(
        !effective_ssh_args(&base, &config)
            .unwrap()
            .forward_ssh_agent
    );
}

#[test]
fn bootstrap_log_message_never_contains_credentials() {
    let request = BootstrapRequest {
        user: Some("user".to_owned()),
        host_alias: "host.example".to_owned(),
        jumphost: None,
        terminal_path: None,
        server_fifo: None,
        kill_other_sessions: false,
        verbose: 2,
        ssh_options: vec!["Compression=yes".to_owned()],
        ssh_config: None,
        term: "xterm".to_owned(),
        remote_shell: RemoteShell::Posix,
        session_shell: None,
    };
    let credentials = Credentials {
        id: "abcdefghijklmnop".to_owned(),
        passkey: "ABCDEFGHIJKLMNOPQRSTUVWXYZabcdef".to_owned(),
    };
    let message = bootstrap_log_message(&request);
    assert!(!message.contains(&credentials.id));
    assert!(!message.contains(&credentials.passkey));
    assert_eq!(
        message,
        "starting SSH bootstrap host=host.example options=1"
    );
}

#[test]
fn remote_mode_refactor_preserves_bare_posix_defaults() {
    assert_mode(
        resolve_remote_mode(&args(), None),
        RemoteShell::Posix,
        RemoteShellKind::Posix,
        None,
    );
}

#[test]
fn remote_mode_refactor_preserves_explicit_windows_defaults() {
    let mut args = windows_args(RemoteShellKind::Cmd);
    args.winserver = true;
    assert_mode(
        resolve_remote_mode(&args, Some(RemoteShell::Posix)),
        RemoteShell::Cmd,
        RemoteShellKind::Cmd,
        Some("et.exe"),
    );
}

#[test]
fn explicit_powershell_preserves_terminal_override() {
    let mut args = windows_args(RemoteShellKind::Powershell);
    args.remote_shell = Some(RemoteShellKind::Powershell);
    assert_mode(
        resolve_remote_mode(&args, Some(RemoteShell::Posix)),
        RemoteShell::Cmd,
        RemoteShellKind::Powershell,
        Some("et.exe"),
    );
}

#[test]
fn bare_detected_windows_uses_cmd_defaults() {
    assert_mode(
        resolve_remote_mode(&args(), Some(RemoteShell::Cmd)),
        RemoteShell::Cmd,
        RemoteShellKind::Cmd,
        Some("et.exe"),
    );
}

#[test]
fn bare_detected_posix_preserves_posix_defaults() {
    assert_mode(
        resolve_remote_mode(&args(), Some(RemoteShell::Posix)),
        RemoteShell::Posix,
        RemoteShellKind::Posix,
        None,
    );
}

#[test]
fn options_that_need_each_other_are_checked() {
    let mut lonely = args();
    lonely.jserverfifo = Some("/tmp/fifo".into());
    assert!(matches!(
        validate_bootstrap_mode(&lonely, None),
        Err(ClientError::Unsupported("--jserverfifo requires --jumphost"))
    ));
    let mut lonely = args();
    lonely.no_exit = true;
    assert!(matches!(
        validate_bootstrap_mode(&lonely, None),
        Err(ClientError::Unsupported("--no-exit requires --command"))
    ));
    let mut jumping = args();
    jumping.jumphost = Some("jump".into());
    assert!(validate_bootstrap_mode(&jumping, Some(&parse_host("jump"))).is_ok());
    assert!(validate_bootstrap_mode(&args(), None).is_ok());
}

#[test]
fn waiting_to_reconnect_ends_at_ctrl_c() {
    assert_eq!(CTRL_C, 3);
    assert_eq!(reconnect_wait_aborted(WaitLook::Over), WaitDecision::Retry);
    assert_eq!(
        reconnect_wait_aborted(WaitLook::Input(b"typed\x03")),
        WaitDecision::Abort
    );
    assert_eq!(
        reconnect_wait_aborted(WaitLook::Input(b"typed")),
        WaitDecision::LookAgain
    );
    assert_eq!(
        reconnect_wait_aborted(WaitLook::Interrupted),
        WaitDecision::LookAgain
    );
    assert_eq!(
        reconnect_wait_aborted(WaitLook::Ended),
        WaitDecision::SleepOut
    );
    assert_eq!(
        reconnect_wait_aborted(WaitLook::Failed),
        WaitDecision::Retry
    );
}
