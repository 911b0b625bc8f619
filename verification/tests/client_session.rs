use std::cell::RefCell;
use std::time::Duration;

use et::bootstrap::{Credentials, InvocationCompletion, ParsedHost, SshInvocation};
use et::client_args::ClientArgs;
use et::client_environment::PacketLimits;
use et::client_session::{
    establish, forwarding_for, needs_loop, plan_query, posix_session_environment, set_up_session,
    skipped_row_message, windows_session_environment, Destination, Surroundings,
};
use et::client_terminal::RemoteShellKind;
use et::deadline::Deadline;
use et::error::{ClientError, ForwardConfigError};
use et::forward::{InitialPayload, PortForwardSourceRequest, SocketEndpoint};
use et::ip_address::is_ipv6_address;
use et::ssh_config::ResolvedSshConfig;
use et::ssh_process::{ExitStatus, SshOutput, SshRunner};
use et::terminal_protocol::FlowControlMode;

const LIMITS: PacketLimits = PacketLimits {
    header: 2,
    packet: 65_536,
};

fn args() -> ClientArgs {
    ClientArgs {
        username: None,
        jumphost: None,
        jserverfifo: None,
        jport: 2023,
        serverfifo: None,
        terminal_path: None,
        kill_other_sessions: false,
        verbose: 0,
        ssh_option: Vec::new(),
        ssh_config: None,
        no_ssh_config: false,
        tunnel: Vec::new(),
        reverse_tunnel: Vec::new(),
        forward_ssh_agent: false,
        ssh_socket: None,
        command: None,
        no_exit: false,
        keepalive: 5,
        flow_control: FlowControlMode::Off,
        no_terminal: false,
        close_on_hangup: false,
        remote_shell: None,
        winserver: false,
        remote_is_windows: false,
        effective_remote_shell: RemoteShellKind::Posix,
        effective_terminal_path: None,
    }
}

fn destination() -> Destination {
    Destination {
        host: "alias".into(),
        user: None,
        port: 2022,
    }
}

fn around() -> Surroundings {
    Surroundings {
        agent: None,
        term: Some("xterm-ghostty".into()),
        colorterm: Some("truecolor".into()),
        variables: pairs(&[("LANG", "C.UTF-8"), ("PATH", "/bin")]),
        config_file: None,
        limits: LIMITS,
        windows: false,
    }
}

fn pairs(entries: &[(&str, &str)]) -> Vec<(String, String)> {
    entries
        .iter()
        .map(|(name, value)| (name.to_string(), value.to_string()))
        .collect()
}

fn parse_host(text: &str) -> ParsedHost {
    let (user, rest) = text.split_once('@').unwrap_or(("", text));
    let (host, port) = rest.split_once(':').unwrap_or((rest, ""));
    ParsedHost {
        user: user.into(),
        host: host.into(),
        port_suffix: if port.is_empty() {
            String::new()
        } else {
            format!(":{port}")
        },
    }
}

fn measure(payload: &InitialPayload) -> usize {
    payload
        .environmentvariables
        .entries
        .iter()
        .map(|(name, value)| name.len() + value.len())
        .sum()
}

fn provisional() -> Credentials {
    Credentials {
        id: "XXXdefghijklmnop".into(),
        passkey: "ABCDEFGHIJKLMNOPQRSTUVWXYZabcdef".into(),
    }
}

/// Answers each kind of invocation, and keeps what was asked.
struct Remote {
    config: &'static str,
    shell: &'static str,
    asked: RefCell<Vec<Vec<String>>>,
}

impl Remote {
    fn new(config: &'static str, shell: &'static str) -> Self {
        Self {
            config,
            shell,
            asked: RefCell::new(Vec::new()),
        }
    }
}

impl SshRunner for Remote {
    fn run(&self, invocation: &SshInvocation, _: Deadline) -> Result<SshOutput, ClientError> {
        self.asked.borrow_mut().push(invocation.args.clone());
        let stdout = match invocation.completion {
            InvocationCompletion::Exit => self.config,
            InvocationCompletion::ShellProbe => self.shell,
            InvocationCompletion::Credentials => {
                "IDPASSKEY:abcdefghijklmnop/ABCDEFGHIJKLMNOPQRSTUVWXYZabcdef"
            }
        };
        Ok(SshOutput {
            status: Some(ExitStatus { code: Some(0) }),
            stdout: stdout.as_bytes().to_vec(),
        })
    }
}

fn soon() -> Deadline {
    Deadline::after(Duration::from_secs(5))
}

#[test]
fn a_bare_destination_is_established() {
    let remote = Remote::new(
        "hostname server.internal\nuser bob\nport 22\n",
        "__ET_COMSPEC__%ComSpec%\n",
    );
    let session = establish(
        &args(),
        &destination(),
        &around(),
        &remote,
        &parse_host,
        &measure,
        Ok(provisional()),
        soon(),
    )
    .unwrap();
    assert_eq!(session.endpoint.host, "server.internal");
    assert_eq!(session.endpoint.port, 2022);
    assert_eq!(session.credentials.id, "abcdefghijklmnop");
    assert_eq!(session.shell, RemoteShellKind::Posix);
    let environment = &session.payload.environmentvariables;
    assert_eq!(environment.get("LANG").map(String::as_str), Some("C.UTF-8"));
    assert_eq!(
        environment.get("COLORTERM").map(String::as_str),
        Some("truecolor")
    );
    assert!(!environment.contains_key("PATH"));
    let asked = remote.asked.borrow();
    assert_eq!(asked.len(), 3);
    assert_eq!(asked[0], ["-G", "-T", "alias"]);
    assert!(asked[2].iter().any(|arg| arg == "bob@alias"));
}

#[test]
fn a_detected_windows_host_gets_no_locale() {
    let remote = Remote::new(
        "hostname server.internal\n",
        "__ET_COMSPEC__C:\\Windows\\System32\\cmd.exe\r\n",
    );
    let session = establish(
        &args(),
        &destination(),
        &around(),
        &remote,
        &parse_host,
        &measure,
        Ok(provisional()),
        soon(),
    )
    .unwrap();
    assert_eq!(session.shell, RemoteShellKind::Cmd);
    assert!(session.payload.environmentvariables.entries.is_empty());
}

#[test]
fn a_jumphost_becomes_the_endpoint() {
    let remote = Remote::new(
        "hostname real.internal\n",
        "__ET_COMSPEC__%ComSpec%\n",
    );
    let mut args = args();
    args.jumphost = Some("ann@jump".into());
    let session = establish(
        &args,
        &destination(),
        &around(),
        &remote,
        &parse_host,
        &measure,
        Ok(provisional()),
        soon(),
    )
    .unwrap();
    assert_eq!(session.endpoint.port, 2023);
    assert_eq!(session.payload.jumphost, Some(true));
}

#[test]
fn ssh_failures_end_the_session_setup() {
    let remote = Remote::new("user only\n", "");
    assert!(matches!(
        establish(
            &args(),
            &destination(),
            &around(),
            &remote,
            &parse_host,
            &measure,
            Ok(provisional()),
            soon(),
        ),
        Err(ClientError::SshConfigMalformed("hostname"))
    ));
}

#[test]
fn queries_are_planned_from_the_command_line() {
    let mut args = args();
    args.username = Some("option".into());
    args.ssh_option = vec!["Port=1".into()];
    let plan = plan_query(&args, &destination(), None, &parse_host).unwrap();
    assert_eq!(plan.requested_user.as_deref(), Some("option"));
    assert_eq!(plan.ssh_config, None);
    args.jumphost = Some("ann@jump:22".into());
    let plan = plan_query(&args, &destination(), None, &parse_host).unwrap();
    assert_eq!(plan.options, ["ProxyJump=ann@jump:22", "Port=1"]);
    args.jumphost = Some("a,b".into());
    assert!(plan_query(&args, &destination(), None, &parse_host).is_err());
}

#[test]
fn environments_are_chosen_for_the_shell() {
    let payload = InitialPayload {
        jumphost: Some(false),
        reversetunnels: Vec::new(),
        environmentvariables: et::name_map::NameMap::new(),
        flowcontrol: None,
    };
    assert_eq!(
        posix_session_environment(
            &payload,
            &pairs(&[("TERM", "no"), ("LANG", "explicit")]),
            &pairs(&[("LANG", "inherited"), ("LC_ALL", "C")]),
            None,
            LIMITS,
            false,
            &measure,
        )
        .unwrap(),
        pairs(&[("LANG", "explicit"), ("LC_ALL", "C")])
    );
    let mut exporting = InitialPayload {
        jumphost: Some(false),
        reversetunnels: Vec::new(),
        environmentvariables: et::name_map::NameMap::new(),
        flowcontrol: None,
    };
    exporting
        .environmentvariables
        .insert("KEPT".into(), "here".into());
    assert_eq!(
        posix_session_environment(
            &exporting,
            &pairs(&[("LANG", "explicit")]),
            &pairs(&[("LC_ALL", "C")]),
            None,
            LIMITS,
            false,
            &measure,
        )
        .unwrap(),
        pairs(&[("LANG", "explicit"), ("LC_ALL", "C")])
    );
    assert_eq!(
        windows_session_environment(
            &payload,
            &pairs(&[("A", "1"), ("a", "2")]),
            LIMITS,
            false,
            &measure,
        )
        .unwrap(),
        pairs(&[("A", "1")])
    );
}

#[test]
fn sessions_are_set_up_with_their_forwarding() {
    let mut args = args();
    args.forward_ssh_agent = true;
    let resolved = ResolvedSshConfig {
        hostname: "h".into(),
        ..Default::default()
    };
    assert!(matches!(
        forwarding_for(&args, &resolved, None),
        Err(ClientError::ForwardConfig(
            ForwardConfigError::MissingAgentSocket
        ))
    ));
    let mut around = around();
    around.agent = Some("/run/agent".into());
    let setup = set_up_session(&args, &resolved, &around, &parse_host, &measure).unwrap();
    assert_eq!(setup.term, "xterm-256color");
    assert_eq!(setup.colorterm.as_deref(), Some("truecolor"));
    assert_eq!(setup.forwarding.initial_payload.reversetunnels.len(), 1);
    assert!(setup.jump.is_none());
    args.no_exit = true;
    assert!(matches!(
        set_up_session(&args, &resolved, &around, &parse_host, &measure),
        Err(ClientError::Unsupported("--no-exit requires --command"))
    ));
}

#[test]
fn sessions_without_terminal_or_forwarding_need_no_loop() {
    let remote = Remote::new(
        "hostname server.internal\n",
        "__ET_COMSPEC__%ComSpec%\n",
    );
    let mut quiet = args();
    quiet.no_terminal = true;
    let mut forwarding = quiet.clone();
    forwarding.tunnel = vec![PortForwardSourceRequest {
        source: Some(SocketEndpoint {
            name: Some("localhost".into()),
            port: Some(1),
        }),
        destination: Some(SocketEndpoint {
            name: Some("localhost".into()),
            port: Some(2),
        }),
        environmentvariable: None,
    }];
    for (args, wanted) in [(args(), true), (quiet, false), (forwarding, true)] {
        let session = establish(
            &args,
            &destination(),
            &around(),
            &remote,
            &parse_host,
            &measure,
            Ok(provisional()),
            soon(),
        )
        .unwrap();
        assert_eq!(needs_loop(&session), wanted);
    }
}

#[test]
fn skipped_rows_are_named() {
    let source = Some(SocketEndpoint {
        name: Some("localhost".into()),
        port: Some(8080),
    });
    let message = skipped_row_message(&source, "address in use");
    assert!(message.contains("address in use"), "{message}");
    assert!(message.contains("8080"), "{message}");
}

#[test]
fn ipv6_addresses_follow_their_grammar() {
    for (text, wanted) in [
        ("::", true),
        ("::1", true),
        ("1:2:3:4:5:6:7:8", true),
        ("1:2:3:4:5:6:7::", true),
        ("::ffff:192.0.2.1", true),
        ("fe80::1", true),
        ("", false),
        (":", false),
        (":::", false),
        ("1::2::3", false),
        ("1:2:3:4:5:6:7", false),
        ("1:2:3:4:5:6:7:8:9", false),
        ("12345::", false),
        ("g::", false),
        ("::256.0.0.1", false),
        ("::1.2.3", false),
    ] {
        let chars: Vec<char> = text.chars().collect();
        assert_eq!(is_ipv6_address(&chars), wanted, "{text}");
    }
}

#[test]
fn missing_credentials_are_told_after_the_destination() {
    let runner = Remote::new(
        "hostname server.internal\nuser bob\nport 22\n",
        "__ET_COMSPEC__%ComSpec%\n",
    );
    let result = establish(
        &args(),
        &destination(),
        &around(),
        &runner,
        &parse_host,
        &measure,
        Err(ClientError::InvalidPasskey),
        soon(),
    );
    assert!(matches!(result, Err(ClientError::InvalidPasskey)));
    let mut wrong = destination();
    wrong.host = "-oProxyCommand=x".into();
    let result = establish(
        &args(),
        &wrong,
        &around(),
        &runner,
        &parse_host,
        &measure,
        Err(ClientError::InvalidPasskey),
        soon(),
    );
    assert!(matches!(
        result,
        Err(ClientError::InvalidSshComponent(_))
    ));
}

#[test]
fn addresses_need_no_lookup() {
    let endpoint = |host: &str| et::initial_connect::Endpoint {
        host: host.into(),
        port: 2022,
    };
    let resolver = et::resolver::SystemResolver::default();
    assert!(!resolver.needs_lookup(&endpoint("127.0.0.1")));
    assert!(!resolver.needs_lookup(&endpoint("::1")));
    assert!(resolver.needs_lookup(&endpoint("127.0.0.01")));
    assert!(resolver.needs_lookup(&endpoint("localhost")));
    assert!(resolver.needs_lookup(&endpoint("[::1]")));
    assert!(!resolver.needs_lookup(&endpoint("1:2:3:4:5:6:1.2.3.4")));
    assert!(!resolver.needs_lookup(&endpoint("1:2:3:4:5:6:7::")));
    assert!(resolver.needs_lookup(&endpoint("1:2:3:4:5:6:7:8:9")));
    for unit in ["1.", "1:"] {
        assert!(resolver.needs_lookup(&endpoint(&format!("{}1", unit.repeat(300_000)))));
    }
    assert_eq!(endpoint("host").clone(), endpoint("host"));
}
