use et::client_args::ClientArgs;
use et::client_terminal::RemoteShellKind;
use et::error::ForwardConfigError;
use et::forward::{
    same_request, ForwardOrigin, PortForwardSourceRequest, SocketEndpoint,
};
use et::forward_config::{build, validate_environment_names};
use et::ssh_config::ResolvedSshConfig;
use et::terminal_protocol::FlowControlMode;

fn endpoint(name: &str, port: i32) -> SocketEndpoint {
    SocketEndpoint {
        name: Some(name.to_owned()),
        port: Some(port),
    }
}

fn request(source: (&str, i32), destination: (&str, i32)) -> PortForwardSourceRequest {
    PortForwardSourceRequest {
        source: Some(endpoint(source.0, source.1)),
        destination: Some(endpoint(destination.0, destination.1)),
        environmentvariable: None,
    }
}

fn exporting(name: &str) -> PortForwardSourceRequest {
    PortForwardSourceRequest {
        source: None,
        destination: Some(SocketEndpoint {
            name: Some("/tmp/socket".to_owned()),
            port: None,
        }),
        environmentvariable: Some(name.to_owned()),
    }
}

fn args() -> ClientArgs {
    ClientArgs {
        username: None,
        jumphost: None,
        jserverfifo: None,
        jport: 2022,
        serverfifo: None,
        terminal_path: None,
        kill_other_sessions: false,
        verbose: 0,
        ssh_option: Vec::new(),
        ssh_config: None,
        no_ssh_config: false,
        tunnel: Vec::new(),
        reverse_tunnel: Vec::new(),
        forward_ssh_agent: false,
        ssh_socket: None,
        command: None,
        no_exit: false,
        keepalive: 5,
        flow_control: FlowControlMode::Off,
        no_terminal: false,
        close_on_hangup: false,
        remote_shell: None,
        winserver: false,
        remote_is_windows: false,
        effective_remote_shell: RemoteShellKind::Posix,
        effective_terminal_path: None,
    }
}

#[test]
fn builds_local_reverse_and_agent_forwarding_configuration() {
    let mut args = args();
    args.tunnel = vec![request(("localhost", 1000), ("localhost", 2000))];
    args.reverse_tunnel = vec![request(("localhost", 3000), ("localhost", 4000))];
    args.forward_ssh_agent = true;
    args.ssh_socket = Some("/tmp/local-agent.sock".into());
    let config = build(&args, None).unwrap();
    assert_eq!(config.local_sources.len(), 1);
    assert_eq!(config.initial_payload.reversetunnels.len(), 2);
    let agent = &config.initial_payload.reversetunnels[1];
    assert_eq!(agent.source, None);
    assert_eq!(
        agent.destination.as_ref().unwrap().name.as_deref(),
        Some("/tmp/local-agent.sock")
    );
    assert_eq!(agent.environmentvariable.as_deref(), Some("SSH_AUTH_SOCK"));
    assert!(config.initial_payload.environmentvariables.entries.is_empty());
}

#[test]
fn agent_forwarding_falls_back_to_environment_and_requires_a_socket() {
    let mut args = args();
    args.forward_ssh_agent = true;
    let config = build(&args, Some("/run/agent.sock")).unwrap();
    assert_eq!(
        config.initial_payload.reversetunnels[0]
            .destination
            .as_ref()
            .unwrap()
            .name
            .as_deref(),
        Some("/run/agent.sock")
    );
    assert!(matches!(
        build(&args, None),
        Err(ForwardConfigError::MissingAgentSocket)
    ));
}

#[test]
fn applying_ssh_config_preserves_agent_forwarding() {
    let mut args = args();
    args.forward_ssh_agent = true;
    let mut config = build(&args, Some("/run/agent.sock")).unwrap();
    let resolved = ResolvedSshConfig {
        hostname: "host".to_owned(),
        ..Default::default()
    };

    config.apply_ssh_config(&resolved).unwrap();

    assert_eq!(config.initial_payload.reversetunnels.len(), 1);
    assert_eq!(
        config.initial_payload.reversetunnels[0]
            .environmentvariable
            .as_deref(),
        Some("SSH_AUTH_SOCK")
    );
}

#[test]
fn exit_on_forward_failure_selects_local_bind_policy() {
    let row = request(("localhost", 1492), ("db.internal", 5432));
    for (strict, expected) in [
        (false, ForwardOrigin::SshConfig { strict: false }),
        (true, ForwardOrigin::SshConfig { strict: true }),
    ] {
        let mut config = build(&args(), None).unwrap();
        config
            .apply_ssh_config(&ResolvedSshConfig {
                hostname: "host".to_owned(),
                exit_on_forward_failure: strict,
                local_forwards: vec![row.clone()],
                ..Default::default()
            })
            .unwrap();

        assert_eq!(config.local_sources[0].origin, expected);
    }
}

#[test]
fn ssh_config_forwards_are_cumulative_stable_and_exactly_deduplicated() {
    let mut args = args();
    args.tunnel = vec![
        request(("localhost", 1000), ("127.0.0.1", 2000)),
        request(("localhost", 1000), ("127.0.0.1", 2000)),
        request(("localhost", 1000), ("127.0.0.1", 2001)),
    ];
    args.reverse_tunnel = vec![
        request(("localhost", 3000), ("127.0.0.1", 4000)),
        request(("localhost", 3000), ("127.0.0.1", 4000)),
    ];
    let mut config = build(&args, None).unwrap();
    let local_duplicate = config.local_sources[0].request.clone();
    let local_distinct = config.local_sources[2].request.clone();
    let remote_duplicate = config.initial_payload.reversetunnels[0].clone();
    let resolved = ResolvedSshConfig {
        hostname: "host".to_owned(),
        local_forwards: vec![
            local_duplicate.clone(),
            local_duplicate,
            request(("localhost", 1001), ("127.0.0.1", 2002)),
        ],
        ..Default::default()
    };

    config.apply_ssh_config(&resolved).unwrap();

    assert_eq!(config.local_sources.len(), 3);
    assert_eq!(
        config.local_sources[0].request.source,
        local_distinct.source
    );
    assert_eq!(
        config.local_sources[0]
            .request
            .destination
            .as_ref()
            .and_then(|value| value.port),
        Some(2000)
    );
    assert_eq!(config.local_sources[1].request, local_distinct);
    assert_eq!(config.local_sources[2].request, resolved.local_forwards[2]);
    assert_eq!(config.local_sources[0].origin, ForwardOrigin::Explicit);
    assert_eq!(
        config.local_sources[2].origin,
        ForwardOrigin::SshConfig { strict: false }
    );
    assert_eq!(config.initial_payload.reversetunnels.len(), 1);
    assert_eq!(config.initial_payload.reversetunnels[0], remote_duplicate);
}

#[test]
fn applying_the_same_rows_again_changes_nothing() {
    let mut config = build(&args(), None).unwrap();
    let resolved = ResolvedSshConfig {
        hostname: "host".to_owned(),
        local_forwards: vec![request(("localhost", 1), ("a", 2))],
        ..Default::default()
    };
    config.apply_ssh_config(&resolved).unwrap();
    let once = config.local_sources.clone();
    config.apply_ssh_config(&resolved).unwrap();
    assert_eq!(config.local_sources, once);
    assert!(same_request(&once[0].request, &resolved.local_forwards[0]));
}

#[test]
fn exported_names_are_checked_and_counted() {
    assert!(validate_environment_names(&vec![exporting("OK_1")]).is_ok());
    match validate_environment_names(&vec![exporting("BAD-NAME")]) {
        Err(ForwardConfigError::InvalidEnvironmentName(name)) => assert_eq!(name, "BAD-NAME"),
        other => panic!("{other:?}"),
    }
    let many: Vec<_> = (0..129).map(|i| exporting(&format!("V{i}"))).collect();
    assert!(matches!(
        validate_environment_names(&many),
        Err(ForwardConfigError::TooManyEnvironmentNames(129))
    ));
    let same: Vec<_> = (0..129).map(|_| exporting("V")).collect();
    assert!(validate_environment_names(&same).is_ok());
}
